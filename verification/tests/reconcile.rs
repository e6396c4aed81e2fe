use ics20_swap_client::amount::Amount;
use ics20_swap_client::error::ContractError;
use ics20_swap_client::ibc::{Refund, Settlement};
use ics20_swap_client::ibc_msg::{Ics20Ack, Ics20Packet, LockPacket, OsmoPacket};
use ics20_swap_client::msg::{CreateLockupMsg, LockupResponse};
use ics20_swap_client::msg::{SwapMsg, TransferMsg};
use ics20_swap_client::state::{Bridge, ChannelInfo, ChannelState, Config, IbcEndpoint};
use ics20_swap_client::timestamp::Timestamp;

const NOW: Timestamp = Timestamp { nanos: 1_000 };

fn bridge() -> Bridge {
    let mut b = Bridge::new(Config { default_timeout: 60 }, "gov");
    let info = ChannelInfo {
        id: "channel-0".to_string(),
        counterparty_endpoint: IbcEndpoint {
            port_id: "transfer".to_string(),
            channel_id: "channel-7".to_string(),
        },
        connection_id: "connection-2".to_string(),
    };
    assert_eq!(b.on_channel_connect(info), Ok(()));
    b
}

fn send(b: &mut Bridge, amount: u128, denom: &str) -> Ics20Packet {
    let msg = TransferMsg {
        channel: "channel-0".to_string(),
        remote_address: "addr1".to_string(),
        timeout: None,
    };
    b.execute_transfer(&msg, &Amount::native(amount, denom), "me", NOW).unwrap().packet
}

fn state(b: &Bridge, denom: &str) -> Option<ChannelState> {
    b.channel_state("channel-0", denom)
}

#[test]
fn timeout_refunds_and_keeps_total_sent() {
    let mut b = bridge();
    let packet = send(&mut b, 100, "uatom");
    assert_eq!(state(&b, "uatom"), Some(ChannelState { outstanding: 100, total_sent: 100 }));
    let refund = b.on_packet_timeout("channel-0", 1, &packet);
    assert_eq!(
        refund,
        Ok(Refund { to: "me".to_string(), amount: Amount::native(100, "uatom") })
    );
    assert_eq!(state(&b, "uatom"), Some(ChannelState { outstanding: 0, total_sent: 100 }));
    assert!(b.is_settled("channel-0", 1));
}

#[test]
fn error_ack_refunds() {
    let mut b = bridge();
    let packet = send(&mut b, 100, "uatom");
    let r = b.on_packet_ack("channel-0", 1, &packet, &Ics20Ack::Error("no such pool".to_string()));
    assert_eq!(
        r,
        Ok(Settlement::Refunded(Refund {
            to: "me".to_string(),
            amount: Amount::native(100, "uatom")
        }))
    );
    assert_eq!(state(&b, "uatom"), Some(ChannelState { outstanding: 0, total_sent: 100 }));
}

#[test]
fn success_ack_finalizes() {
    let mut b = bridge();
    let packet = send(&mut b, 100, "uatom");
    let r = b.on_packet_ack("channel-0", 1, &packet, &Ics20Ack::Result(vec![1, 2, 3]));
    assert_eq!(r, Ok(Settlement::Completed { payload: vec![1, 2, 3] }));
    assert_eq!(state(&b, "uatom"), Some(ChannelState { outstanding: 0, total_sent: 100 }));
}

#[test]
fn swap_ack_below_minimum_still_parses_as_success() {
    let mut b = bridge();
    let msg = SwapMsg {
        channel: "channel-0".to_string(),
        pool: 7,
        token_out: "uosmo".to_string(),
        min_amount_out: 50,
        timeout: None,
    };
    let packet = b.execute_swap(&msg, &Amount::native(100, "uatom"), "me", NOW).unwrap().packet;
    // the payload names 48 uosmo, below the minimum of 50: not judged here
    let payload = br#"{"amount":"48","denom":"uosmo"}"#.to_vec();
    let r = b.on_packet_ack("channel-0", 1, &packet, &Ics20Ack::Result(payload.clone()));
    assert_eq!(r, Ok(Settlement::Completed { payload }));
    assert_eq!(state(&b, "uatom"), Some(ChannelState { outstanding: 0, total_sent: 100 }));
}

#[test]
fn replayed_timeout_is_refused() {
    let mut b = bridge();
    let packet = send(&mut b, 100, "uatom");
    send(&mut b, 100, "uatom");
    assert!(b.on_packet_timeout("channel-0", 1, &packet).is_ok());
    let after_first = state(&b, "uatom");
    assert_eq!(after_first, Some(ChannelState { outstanding: 100, total_sent: 200 }));
    assert_eq!(b.on_packet_timeout("channel-0", 1, &packet), Err(ContractError::AlreadySettled));
    assert_eq!(state(&b, "uatom"), after_first);
}

#[test]
fn replayed_ack_is_refused() {
    let mut b = bridge();
    let packet = send(&mut b, 100, "uatom");
    send(&mut b, 100, "uatom");
    let ok = Ics20Ack::Result(vec![]);
    let err = Ics20Ack::Error("failed".to_string());
    assert!(b.on_packet_ack("channel-0", 1, &packet, &ok).is_ok());
    let after_first = state(&b, "uatom");
    assert_eq!(b.on_packet_ack("channel-0", 1, &packet, &ok), Err(ContractError::AlreadySettled));
    assert_eq!(b.on_packet_ack("channel-0", 1, &packet, &err), Err(ContractError::AlreadySettled));
    assert_eq!(b.on_packet_timeout("channel-0", 1, &packet), Err(ContractError::AlreadySettled));
    assert_eq!(state(&b, "uatom"), after_first);
    // another sequence number is another packet
    assert!(b.on_packet_ack("channel-0", 2, &packet, &err).is_ok());
    assert_eq!(state(&b, "uatom"), Some(ChannelState { outstanding: 0, total_sent: 200 }));
}

#[test]
fn settling_more_than_outstanding_is_refused() {
    let mut b = bridge();
    let packet = send(&mut b, 100, "uatom");
    let bigger = Ics20Packet::new(101, "uatom", "me", "addr1", None);
    assert_eq!(
        b.on_packet_timeout("channel-0", 1, &bigger),
        Err(ContractError::InsufficientFunds)
    );
    assert_eq!(state(&b, "uatom"), Some(ChannelState { outstanding: 100, total_sent: 100 }));
    // a refused report does not use up the sequence number
    assert!(!b.is_settled("channel-0", 1));
    assert!(b.on_packet_timeout("channel-0", 1, &packet).is_ok());
    assert_eq!(state(&b, "uatom"), Some(ChannelState { outstanding: 0, total_sent: 100 }));
}

#[test]
fn settling_what_was_never_sent_is_refused() {
    let mut b = bridge();
    let ghost = Ics20Packet::new(1, "uatom", "me", "addr1", None);
    assert_eq!(
        b.on_packet_ack("channel-0", 1, &ghost, &Ics20Ack::Result(vec![])),
        Err(ContractError::InsufficientFunds)
    );
    assert_eq!(
        b.on_packet_timeout("channel-9", 1, &ghost),
        Err(ContractError::InsufficientFunds)
    );
    assert_eq!(state(&b, "uatom"), None);
    assert_eq!(b.reduce_channel_balance("channel-0", "uatom", 0), Err(ContractError::InsufficientFunds));
}

#[test]
fn cw20_refund_names_the_contract() {
    let mut b = bridge();
    assert_eq!(b.increase_channel_balance("channel-0", "cw20:token", 10), Ok(()));
    let packet = Ics20Packet::new(10, "cw20:token", "holder", "remote", None);
    assert_eq!(
        b.on_packet_timeout("channel-0", 5, &packet),
        Ok(Refund { to: "holder".to_string(), amount: Amount::cw20(10, "token") })
    );
}

#[test]
fn outstanding_never_exceeds_total_sent() {
    let mut b = bridge();
    let mut seq = 0u64;
    let mut check = |b: &Bridge, last_total: &mut u128| {
        let s = b.channel_state("channel-0", "uatom").unwrap();
        assert!(s.outstanding <= s.total_sent);
        assert!(*last_total <= s.total_sent);
        *last_total = s.total_sent;
    };
    let mut last_total = 0u128;
    let mut pending: Vec<(u64, Ics20Packet)> = Vec::new();
    for round in 0..20u128 {
        seq += 1;
        pending.push((seq, send(&mut b, round * 3 + 1, "uatom")));
        check(&b, &mut last_total);
        if round % 3 == 2 {
            // settle the oldest two, one of them twice, in mixed ways
            let (s1, p1) = pending.remove(0);
            let (s2, p2) = pending.remove(0);
            assert!(b.on_packet_timeout("channel-0", s2, &p2).is_ok());
            check(&b, &mut last_total);
            assert!(b.on_packet_ack("channel-0", s1, &p1, &Ics20Ack::Result(vec![])).is_ok());
            check(&b, &mut last_total);
            assert!(b.on_packet_ack("channel-0", s1, &p1, &Ics20Ack::Error("e".into())).is_err());
            check(&b, &mut last_total);
        }
    }
    let open: u128 = pending.iter().map(|(_, p)| p.amount).sum();
    assert_eq!(b.channel_state("channel-0", "uatom").unwrap().outstanding, open);
    let all: u128 = (0..20u128).map(|r| r * 3 + 1).sum();
    assert_eq!(b.channel_state("channel-0", "uatom").unwrap().total_sent, all);
}

#[test]
fn fate_of_a_packet_as_bytes() {
    let mut b = bridge();
    let first = send(&mut b, 100, "uatom").encode();
    let second = send(&mut b, 50, "uatom").encode();
    let third = send(&mut b, 7, "uatom").encode();
    assert_eq!(
        b.ibc_packet_timeout("channel-0", 1, &first),
        Ok(Refund { to: "me".to_string(), amount: Amount::native(100, "uatom") })
    );
    assert_eq!(
        b.ibc_packet_ack("channel-0", 2, &second, br#"{"result":"AQ=="}"#),
        Ok(Settlement::Completed { payload: vec![1] })
    );
    assert_eq!(
        b.ibc_packet_ack("channel-0", 3, &third, br#"{"error":"no such pool"}"#),
        Ok(Settlement::Refunded(Refund { to: "me".to_string(), amount: Amount::native(7, "uatom") }))
    );
    assert_eq!(state(&b, "uatom"), Some(ChannelState { outstanding: 0, total_sent: 157 }));
    assert_eq!(
        b.ibc_packet_ack("channel-0", 3, &third, br#"{"error":"no such pool"}"#),
        Err(ContractError::AlreadySettled)
    );
    assert_eq!(b.ibc_packet_timeout("channel-0", 2, &second), Err(ContractError::AlreadySettled));
}

#[test]
fn unreadable_reports_change_nothing() {
    let mut b = bridge();
    let packet = send(&mut b, 100, "uatom").encode();
    assert_eq!(
        b.ibc_packet_ack("channel-0", 1, &packet, b"{\"result\":1}"),
        Err(ContractError::Decode)
    );
    assert_eq!(
        b.ibc_packet_ack("channel-0", 1, b"{}", br#"{"result":"AQ=="}"#),
        Err(ContractError::Decode)
    );
    assert_eq!(b.ibc_packet_timeout("channel-0", 1, b"\xff"), Err(ContractError::Decode));
    assert_eq!(state(&b, "uatom"), Some(ChannelState { outstanding: 100, total_sent: 100 }));
    assert!(!b.is_settled("channel-0", 1));
    assert!(b.ibc_packet_timeout("channel-0", 1, &packet).is_ok());
}

fn ask_for_lockup(b: &mut Bridge, owner: &str) -> Ics20Packet {
    let msg = CreateLockupMsg { channel: "channel-0".to_string(), timeout: None };
    b.execute_create_lockup(&msg, &Amount::native(1, "uatom"), owner, NOW).unwrap().packet
}

#[test]
fn opened_lockup_account_is_kept() {
    let mut b = bridge();
    let packet = ask_for_lockup(&mut b, "owner");
    assert_eq!(b.lockup("channel-0", "owner"), None);
    assert_eq!(
        b.query_lockup("channel-0", "owner"),
        LockupResponse { owner: "owner".to_string(), address: String::new() }
    );
    let payload = br#"{"contract":"osmo1lockup"}"#.to_vec();
    assert_eq!(
        b.on_packet_ack("channel-0", 1, &packet, &Ics20Ack::Result(payload.clone())),
        Ok(Settlement::Completed { payload })
    );
    assert_eq!(b.lockup("channel-0", "owner"), Some(&"osmo1lockup".to_string()));
    assert_eq!(b.lockup("channel-0", "other"), None);
    assert_eq!(b.lockup("channel-1", "owner"), None);
    assert_eq!(
        b.query_lockup("channel-0", "owner"),
        LockupResponse { owner: "owner".to_string(), address: "osmo1lockup".to_string() }
    );
}

#[test]
fn lockup_is_kept_only_for_a_readable_result_of_that_action() {
    let mut b = bridge();
    // an error opens nothing
    let first = ask_for_lockup(&mut b, "owner");
    assert!(b.on_packet_ack("channel-0", 1, &first, &Ics20Ack::Error("no".to_string())).is_ok());
    assert_eq!(b.lockup("channel-0", "owner"), None);
    // a payload that names no account opens nothing, and the packet is settled all the same
    let second = ask_for_lockup(&mut b, "owner");
    let odd = Ics20Ack::Result(br#"{"contract": "spaced"}"#.to_vec());
    assert!(b.on_packet_ack("channel-0", 2, &second, &odd).is_ok());
    assert_eq!(b.lockup("channel-0", "owner"), None);
    assert!(b.is_settled("channel-0", 2));
    // a timeout opens nothing
    let third = ask_for_lockup(&mut b, "owner");
    assert!(b.on_packet_timeout("channel-0", 3, &third).is_ok());
    assert_eq!(b.lockup("channel-0", "owner"), None);
    // the same payload behind another action opens nothing
    let msg = ics20_swap_client::msg::LockTokensMsg {
        channel: "channel-0".to_string(),
        timeout: None,
        duration: 5,
    };
    let lock = b.execute_lock_tokens(&msg, &Amount::native(1, "uatom"), "owner", NOW).unwrap().packet;
    assert_eq!(lock.action, Some(OsmoPacket::Lock(LockPacket { duration: 5 })));
    let named = Ics20Ack::Result(br#"{"contract":"osmo1lockup"}"#.to_vec());
    assert!(b.on_packet_ack("channel-0", 4, &lock, &named).is_ok());
    assert_eq!(b.lockup("channel-0", "owner"), None);
    // a refused report opens nothing
    let fifth = ask_for_lockup(&mut b, "owner");
    assert_eq!(
        b.on_packet_ack("channel-0", 4, &fifth, &named),
        Err(ContractError::AlreadySettled)
    );
    assert_eq!(b.lockup("channel-0", "owner"), None);
    // and a later account replaces an earlier one
    assert!(b.on_packet_ack("channel-0", 5, &fifth, &named).is_ok());
    let sixth = ask_for_lockup(&mut b, "owner");
    let moved = Ics20Ack::Result(br#"{"contract":"osmo1moved"}"#.to_vec());
    assert!(b.ibc_packet_ack("channel-0", 6, &sixth.encode(), &moved.encode()).is_ok());
    assert_eq!(b.lockup("channel-0", "owner"), Some(&"osmo1moved".to_string()));
}
