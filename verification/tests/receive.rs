use ics20_swap_client::amount::Amount;
use ics20_swap_client::error::ContractError;
use ics20_swap_client::ibc::{
    ack_fail, ack_success, acknowledge, parse_voucher, Delivery, Module, Receipt,
};
use ics20_swap_client::ibc_msg::{
    ClaimPacket, ExitPoolPacket, Ics20Ack, Ics20Packet, JoinPoolPacket, LockPacket, OsmoPacket,
    SwapPacket, UnlockPacket, Voucher,
};
use ics20_swap_client::msg::{AllowMsg, ExternalTokenMsg};
use ics20_swap_client::state::{Bridge, ChannelInfo, Config, IbcEndpoint};

fn bridge() -> Bridge {
    let mut b = Bridge::new(Config { default_timeout: 60 }, "gov");
    let info = ChannelInfo {
        id: "channel-0".to_string(),
        counterparty_endpoint: IbcEndpoint {
            port_id: "transfer".to_string(),
            channel_id: "channel-7".to_string(),
        },
        connection_id: "connection-2".to_string(),
    };
    assert_eq!(b.on_channel_connect(info), Ok(()));
    assert_eq!(
        b.execute_allow("gov", &AllowMsg { contract: "token".to_string(), gas_limit: None }),
        Ok(())
    );
    assert_eq!(
        b.execute_allow_external_token(
            "gov",
            &ExternalTokenMsg { denom: "uosmo".to_string(), contract: "wrapped-osmo".to_string() }
        ),
        Ok(())
    );
    b
}

fn rejected(e: ContractError) -> Receipt {
    Receipt::Rejected(Ics20Ack::Error(e.message()))
}

#[test]
fn voucher_of_returning_token() {
    assert_eq!(
        parse_voucher("transfer/channel-7/uatom", "transfer", "channel-7"),
        Voucher { denom: "uatom".to_string(), our_chain: true }
    );
    // only the first prefix is taken off
    assert_eq!(
        parse_voucher("transfer/channel-7/transfer/channel-7/uatom", "transfer", "channel-7"),
        Voucher { denom: "transfer/channel-7/uatom".to_string(), our_chain: true }
    );
    assert_eq!(
        parse_voucher("transfer/channel-7/", "transfer", "channel-7"),
        Voucher { denom: String::new(), our_chain: true }
    );
}

#[test]
fn voucher_of_foreign_token() {
    for denom in [
        "uosmo",
        "",
        "transfer/channel-7",
        "transfer/channel-8/uatom",
        "other/channel-7/uatom",
        "transfer/channel-70/uatom",
        "xtransfer/channel-7/uatom",
    ] {
        assert_eq!(
            parse_voucher(denom, "transfer", "channel-7"),
            Voucher { denom: denom.to_string(), our_chain: false }
        );
    }
}

#[test]
fn plain_native_packet_is_released() {
    let b = bridge();
    let p = Ics20Packet::new(100, "transfer/channel-7/uatom", "remote", "local", None);
    assert_eq!(
        b.on_packet_receive("channel-0", Ok(p)),
        Receipt::Accepted(Delivery {
            voucher: Voucher { denom: "uatom".to_string(), our_chain: true },
            asset: Amount::native(100, "uatom"),
            receiver: "local".to_string(),
            action: None,
            module: None,
        })
    );
}

#[test]
fn external_token_is_minted_and_action_passed_on() {
    let b = bridge();
    let action = OsmoPacket::Lock(LockPacket { duration: 10 });
    let p = Ics20Packet::new(5, "uosmo", "remote", "local", Some(action.clone()));
    assert_eq!(
        b.on_packet_receive("channel-0", Ok(p)),
        Receipt::Accepted(Delivery {
            voucher: Voucher { denom: "uosmo".to_string(), our_chain: false },
            asset: Amount::cw20(5, "wrapped-osmo"),
            receiver: "local".to_string(),
            action: Some(action),
            module: Some(Module::Staking),
        })
    );
}

#[test]
fn undecodable_packet_is_answered_with_error_ack() {
    let b = bridge();
    assert_eq!(
        b.on_packet_receive("channel-0", Err("unknown variant `teleport`".to_string())),
        Receipt::Rejected(Ics20Ack::Error("unknown variant `teleport`".to_string()))
    );
}

#[test]
fn inbound_refusals() {
    let b = bridge();
    let ok = || Ics20Packet::new(1, "uosmo", "remote", "local", None);
    assert_eq!(b.on_packet_receive("channel-1", Ok(ok())), rejected(ContractError::NoSuchChannel));
    let big = Ics20Packet::new(1u128 << 64, "uosmo", "remote", "local", None);
    assert_eq!(b.on_packet_receive("channel-0", Ok(big)), rejected(ContractError::AmountOverflow));
    let unknown = Ics20Packet::new(1, "ujuno", "remote", "local", None);
    assert_eq!(
        b.on_packet_receive("channel-0", Ok(unknown)),
        rejected(ContractError::NotOnAllowList)
    );
    let ours_unlisted =
        Ics20Packet::new(1, "transfer/channel-7/cw20:nope", "remote", "local", None);
    assert_eq!(
        b.on_packet_receive("channel-0", Ok(ours_unlisted)),
        rejected(ContractError::NotOnAllowList)
    );
    let ours_listed = Ics20Packet::new(1, "transfer/channel-7/cw20:token", "remote", "local", None);
    assert_eq!(
        b.on_packet_receive("channel-0", Ok(ours_listed)),
        Receipt::Accepted(Delivery {
            voucher: Voucher { denom: "cw20:token".to_string(), our_chain: true },
            asset: Amount::cw20(1, "token"),
            receiver: "local".to_string(),
            action: None,
            module: None,
        })
    );
    // the amount is judged before the token
    let both = Ics20Packet::new(u128::MAX, "ujuno", "remote", "local", None);
    assert_eq!(b.on_packet_receive("channel-0", Ok(both)), rejected(ContractError::AmountOverflow));
}

#[test]
fn acknowledgements() {
    assert_eq!(ack_success(), Ics20Ack::Result(vec![]));
    assert_eq!(ack_fail("boom".to_string()), Ics20Ack::Error("boom".to_string()));
    assert_eq!(acknowledge(None), Ics20Ack::Result(vec![]));
    assert_eq!(acknowledge(Some(Ok(vec![9, 8]))), Ics20Ack::Result(vec![9, 8]));
    assert_eq!(
        acknowledge(Some(Err("pool 9 not found".to_string()))),
        Ics20Ack::Error("pool 9 not found".to_string())
    );
    assert_eq!(ack_success().clone(), ack_success());
}

#[test]
fn channel_is_registered_once() {
    let mut b = bridge();
    let again = ChannelInfo {
        id: "channel-0".to_string(),
        counterparty_endpoint: IbcEndpoint {
            port_id: "other".to_string(),
            channel_id: "channel-1".to_string(),
        },
        connection_id: "connection-9".to_string(),
    };
    assert_eq!(b.on_channel_connect(again.clone()), Err(ContractError::ChannelExists));
    let kept = b.channel("channel-0").unwrap();
    assert_eq!(kept.connection_id, "connection-2");
    assert_eq!(kept.counterparty_endpoint.channel_id, "channel-7");
    assert_eq!(b.channel("channel-1"), None);
    assert_eq!(again.clone(), again);
}

#[test]
fn bytes_of_a_packet_are_received() {
    let b = bridge();
    let p = Ics20Packet::new(100, "transfer/channel-7/uatom", "remote", "local", None);
    assert_eq!(
        b.ibc_packet_receive("channel-0", &p.encode()),
        b.on_packet_receive("channel-0", Ok(p))
    );
    let wire = br#"{"amount":"5","denom":"uosmo","receiver":"local","sender":"remote","action":{"lock":{"duration":"10"}}}"#;
    assert_eq!(
        b.ibc_packet_receive("channel-0", wire),
        Receipt::Accepted(Delivery {
            voucher: Voucher { denom: "uosmo".to_string(), our_chain: false },
            asset: Amount::cw20(5, "wrapped-osmo"),
            receiver: "local".to_string(),
            action: Some(OsmoPacket::Lock(LockPacket { duration: 10 })),
            module: Some(Module::Staking),
        })
    );
}

#[test]
fn bytes_that_are_no_packet_get_an_error_ack() {
    let b = bridge();
    let unknown_action = br#"{"amount":"5","denom":"uosmo","receiver":"local","sender":"remote","action":{"teleport":{}}}"#;
    for wire in [&unknown_action[..], b"", b"not json", &[0xff, 0x00]] {
        assert_eq!(b.ibc_packet_receive("channel-0", wire), rejected(ContractError::Decode));
    }
    let too_much = br#"{"amount":"18446744073709551616","denom":"uosmo","receiver":"local","sender":"remote"}"#;
    assert_eq!(b.ibc_packet_receive("channel-0", too_much), rejected(ContractError::AmountOverflow));
}

#[test]
fn each_action_goes_to_its_module() {
    let cases = [
        (
            OsmoPacket::Swap(SwapPacket { routes: vec![], token_out_min_amount: 1 }),
            Module::Swap,
        ),
        (
            OsmoPacket::JoinPool(JoinPoolPacket { pool_id: 1, share_out_min_amount: 1 }),
            Module::Pool,
        ),
        (
            OsmoPacket::ExitPool(ExitPoolPacket {
                token_out_denom: "uosmo".to_string(),
                token_out_min_amount: 1,
            }),
            Module::Pool,
        ),
        (OsmoPacket::LockupAccount {}, Module::Lockup),
        (OsmoPacket::Lock(LockPacket { duration: 1 }), Module::Staking),
        (OsmoPacket::Claim(ClaimPacket { denom: "uosmo".to_string() }), Module::Staking),
        (OsmoPacket::Unlock(UnlockPacket { id: 1 }), Module::Staking),
    ];
    let b = bridge();
    for (action, module) in cases {
        assert_eq!(action.module(), module);
        let p = Ics20Packet::new(1, "uosmo", "remote", "local", Some(action));
        match b.on_packet_receive("channel-0", Ok(p)) {
            Receipt::Accepted(d) => assert_eq!(d.module, Some(module)),
            Receipt::Rejected(ack) => panic!("rejected: {:?}", ack),
        }
    }
}
