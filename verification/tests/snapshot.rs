use ics20_swap_client::amount::Amount;
use ics20_swap_client::error::ContractError;
use ics20_swap_client::ibc_msg::Ics20Packet;
use ics20_swap_client::msg::{AllowMsg, AllowedInfo, AllowedTokenInfo, ExternalTokenMsg, TransferMsg};
use ics20_swap_client::ibc_msg::{Ics20Ack, OsmoPacket};
use ics20_swap_client::state::{
    AllowInfo, Balance, Bridge, ChannelInfo, ChannelState, Config, IbcEndpoint, Lockup, Snapshot,
};
use ics20_swap_client::store::PacketId;
use ics20_swap_client::timestamp::Timestamp;

fn channel(id: &str) -> ChannelInfo {
    ChannelInfo {
        id: id.to_string(),
        counterparty_endpoint: IbcEndpoint {
            port_id: "transfer".to_string(),
            channel_id: format!("remote-{}", id),
        },
        connection_id: "connection-0".to_string(),
    }
}

fn busy_bridge() -> Bridge {
    let mut b = Bridge::new(Config { default_timeout: 9 }, "gov");
    for id in ["channel-0", "channel-1"] {
        assert_eq!(b.on_channel_connect(channel(id)), Ok(()));
    }
    b.execute_allow("gov", &AllowMsg { contract: "token".to_string(), gas_limit: Some(5) }).unwrap();
    b.execute_allow_external_token(
        "gov",
        &ExternalTokenMsg { denom: "uosmo".to_string(), contract: "wrapped".to_string() },
    )
    .unwrap();
    let now = Timestamp { nanos: 1 };
    for (ch, amount) in [("channel-0", 10u128), ("channel-1", 20), ("channel-0", 30)] {
        let msg = TransferMsg {
            channel: ch.to_string(),
            remote_address: "r".to_string(),
            timeout: None,
        };
        b.execute_transfer(&msg, &Amount::native(amount, "uatom"), "me", now).unwrap();
    }
    let p = Ics20Packet::new(10, "uatom", "me", "r", None);
    b.on_packet_timeout("channel-0", 1, &p).unwrap();
    let asked = Ics20Packet::new(0, "uatom", "owner", "owner", Some(OsmoPacket::LockupAccount {}));
    let opened = Ics20Ack::Result(br#"{"contract":"osmo1lockup"}"#.to_vec());
    b.on_packet_ack("channel-1", 1, &asked, &opened).unwrap();
    b
}

#[test]
fn snapshot_lists_the_state() {
    let s = busy_bridge().snapshot();
    assert_eq!(s.config, Config { default_timeout: 9 });
    assert_eq!(s.admin, "gov");
    let mut ids: Vec<&str> = s.channels.iter().map(|c| c.id.as_str()).collect();
    ids.sort();
    assert_eq!(ids, vec!["channel-0", "channel-1"]);
    let mut balances = s.balances.clone();
    balances.sort_by(|a, b| a.channel.cmp(&b.channel));
    assert_eq!(
        balances,
        vec![
            Balance {
                channel: "channel-0".to_string(),
                denom: "uatom".to_string(),
                state: ChannelState { outstanding: 30, total_sent: 40 },
            },
            Balance {
                channel: "channel-1".to_string(),
                denom: "uatom".to_string(),
                state: ChannelState { outstanding: 20, total_sent: 20 },
            },
        ]
    );
    assert_eq!(
        s.allow_list,
        vec![AllowedInfo { contract: "token".to_string(), gas_limit: Some(5) }]
    );
    assert_eq!(
        s.external_tokens,
        vec![AllowedTokenInfo { denom: "uosmo".to_string(), contract: "wrapped".to_string() }]
    );
    assert_eq!(
        s.settled,
        vec![
            PacketId { channel: "channel-0".to_string(), sequence: 1 },
            PacketId { channel: "channel-1".to_string(), sequence: 1 },
        ]
    );
    assert_eq!(
        s.lockups,
        vec![Lockup {
            channel: "channel-1".to_string(),
            owner: "owner".to_string(),
            address: "osmo1lockup".to_string(),
        }]
    );
}

#[test]
fn restored_bridge_is_the_same_bridge() {
    let before = busy_bridge();
    let s = before.snapshot();
    let mut after = Bridge::restore(&s).unwrap();
    assert_eq!(after.snapshot(), s);
    assert_eq!(after.admin(), "gov");
    assert_eq!(after.config(), Config { default_timeout: 9 });
    assert_eq!(after.channel("channel-1"), Some(&channel("channel-1")));
    assert_eq!(after.channel("channel-2"), None);
    assert_eq!(after.allowed("token"), Some(AllowInfo { gas_limit: Some(5) }));
    assert_eq!(after.external_token("uosmo"), Some(&"wrapped".to_string()));
    assert_eq!(after.lockup("channel-1", "owner"), Some(&"osmo1lockup".to_string()));
    assert_eq!(after.lockup("channel-0", "owner"), None);
    assert_eq!(
        after.channel_state("channel-0", "uatom"),
        Some(ChannelState { outstanding: 30, total_sent: 40 })
    );
    // what was settled stays settled
    let p = Ics20Packet::new(10, "uatom", "me", "r", None);
    assert_eq!(after.on_packet_timeout("channel-0", 1, &p), Err(ContractError::AlreadySettled));
    assert!(after.on_packet_timeout("channel-0", 2, &p).is_ok());
}

fn empty_snapshot() -> Snapshot {
    Bridge::new(Config { default_timeout: 1 }, "gov").snapshot()
}

#[test]
fn empty_bridge_has_empty_lists() {
    let s = empty_snapshot();
    assert!(s.channels.is_empty());
    assert!(s.balances.is_empty());
    assert!(s.allow_list.is_empty());
    assert!(s.external_tokens.is_empty());
    assert!(s.settled.is_empty());
    assert!(s.lockups.is_empty());
    assert!(Bridge::restore(&s).is_ok());
}

#[test]
fn inconsistent_balances_are_refused() {
    let mut s = empty_snapshot();
    s.balances.push(Balance {
        channel: "channel-0".to_string(),
        denom: "uatom".to_string(),
        state: ChannelState { outstanding: 2, total_sent: 1 },
    });
    assert_eq!(Bridge::restore(&s).err(), Some(ContractError::InvalidState));
    s.balances[0].state.total_sent = 2;
    assert!(Bridge::restore(&s).is_ok());
}

#[test]
fn later_rows_replace_earlier_ones() {
    let mut s = empty_snapshot();
    for (outstanding, total_sent) in [(5u128, 1u128), (1, 5)] {
        s.balances.push(Balance {
            channel: "channel-0".to_string(),
            denom: "uatom".to_string(),
            state: ChannelState { outstanding, total_sent },
        });
    }
    s.allow_list.push(AllowedInfo { contract: "t".to_string(), gas_limit: None });
    s.allow_list.push(AllowedInfo { contract: "t".to_string(), gas_limit: Some(1) });
    s.settled.push(PacketId { channel: "c".to_string(), sequence: 4 });
    s.settled.push(PacketId { channel: "c".to_string(), sequence: 4 });
    for address in ["first", "second"] {
        s.lockups.push(Lockup {
            channel: "c".to_string(),
            owner: "o".to_string(),
            address: address.to_string(),
        });
    }
    let b = Bridge::restore(&s).unwrap();
    assert_eq!(
        b.channel_state("channel-0", "uatom"),
        Some(ChannelState { outstanding: 1, total_sent: 5 })
    );
    assert_eq!(b.allowed("t"), Some(AllowInfo { gas_limit: Some(1) }));
    assert!(b.is_settled("c", 4));
    assert!(!b.is_settled("c", 5));
    assert_eq!(b.lockup("c", "o"), Some(&"second".to_string()));
    assert_eq!(b.snapshot().settled.len(), 1);
    assert_eq!(b.snapshot().balances.len(), 1);
}
