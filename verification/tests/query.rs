use ics20_swap_client::amount::Amount;
use ics20_swap_client::error::ContractError;
use ics20_swap_client::msg::{
    AllowMsg, AllowedInfo, AllowedResponse, AllowedTokenInfo, AllowedTokenResponse,
    ConfigResponse, ExternalTokenMsg, TransferMsg,
};
use ics20_swap_client::state::{Balance, Bridge, ChannelInfo, ChannelState, Config, IbcEndpoint};
use ics20_swap_client::text::str_lt;
use ics20_swap_client::timestamp::Timestamp;

fn channel(id: &str) -> ChannelInfo {
    ChannelInfo {
        id: id.to_string(),
        counterparty_endpoint: IbcEndpoint {
            port_id: "transfer".to_string(),
            channel_id: "channel-7".to_string(),
        },
        connection_id: "connection-2".to_string(),
    }
}

fn bridge() -> Bridge {
    let mut b = Bridge::new(Config { default_timeout: 60 }, "gov");
    for id in ["channel-2", "channel-0", "channel-10", "channel-1"] {
        assert_eq!(b.on_channel_connect(channel(id)), Ok(()));
    }
    for (contract, gas_limit) in
        [("delta", None), ("alpha", Some(1)), ("charlie", Some(3)), ("bravo", None), ("echo", Some(5))]
    {
        b.execute_allow("gov", &AllowMsg { contract: contract.to_string(), gas_limit }).unwrap();
    }
    for (denom, contract) in [("uosmo", "wrapped-osmo"), ("ujuno", "wrapped-juno")] {
        b.execute_allow_external_token(
            "gov",
            &ExternalTokenMsg { denom: denom.to_string(), contract: contract.to_string() },
        )
        .unwrap();
    }
    b
}

fn contracts(list: &[AllowedInfo]) -> Vec<&str> {
    list.iter().map(|a| a.contract.as_str()).collect()
}

#[test]
fn strings_are_ordered_as_rust_orders_them() {
    let samples = ["", "a", "ab", "b", "B", "channel-10", "channel-2", "é", "z", "日本", "a\u{0}"];
    for a in samples {
        for b in samples {
            assert_eq!(str_lt(a, b), a < b, "{:?} < {:?}", a, b);
        }
    }
}

#[test]
fn channels_are_listed_in_ascending_order() {
    let b = bridge();
    let ids: Vec<String> = b.query_list_channels().channels.into_iter().map(|c| c.id).collect();
    assert_eq!(ids, vec!["channel-0", "channel-1", "channel-10", "channel-2"]);
    assert!(Bridge::new(Config { default_timeout: 1 }, "g").query_list_channels().channels.is_empty());
}

#[test]
fn allowed_contracts_come_in_pages() {
    let b = bridge();
    let all = b.query_list_allowed(&None, None).allow;
    assert_eq!(contracts(&all), vec!["alpha", "bravo", "charlie", "delta", "echo"]);
    assert_eq!(all[0], AllowedInfo { contract: "alpha".to_string(), gas_limit: Some(1) });
    assert_eq!(all[3], AllowedInfo { contract: "delta".to_string(), gas_limit: None });

    let first = b.query_list_allowed(&None, Some(2)).allow;
    assert_eq!(contracts(&first), vec!["alpha", "bravo"]);
    let second = b.query_list_allowed(&Some("bravo".to_string()), Some(2)).allow;
    assert_eq!(contracts(&second), vec!["charlie", "delta"]);
    let third = b.query_list_allowed(&Some("delta".to_string()), Some(2)).allow;
    assert_eq!(contracts(&third), vec!["echo"]);
    let fourth = b.query_list_allowed(&Some("echo".to_string()), Some(2)).allow;
    assert!(fourth.is_empty());
}

#[test]
fn page_edges() {
    let b = bridge();
    // the start is exclusive and need not be a key
    assert_eq!(
        contracts(&b.query_list_allowed(&Some("b".to_string()), Some(1)).allow),
        vec!["bravo"]
    );
    assert_eq!(
        contracts(&b.query_list_allowed(&Some(String::new()), Some(1)).allow),
        vec!["alpha"]
    );
    assert!(b.query_list_allowed(&None, Some(0)).allow.is_empty());
    assert_eq!(b.query_list_allowed(&None, Some(u32::MAX)).allow.len(), 5);
    assert!(b.query_list_allowed(&Some("zulu".to_string()), None).allow.is_empty());
}

#[test]
fn external_tokens_come_in_pages() {
    let b = bridge();
    assert_eq!(
        b.query_list_external_tokens(&None, None).tokens,
        vec![
            AllowedTokenInfo { denom: "ujuno".to_string(), contract: "wrapped-juno".to_string() },
            AllowedTokenInfo { denom: "uosmo".to_string(), contract: "wrapped-osmo".to_string() },
        ]
    );
    assert_eq!(
        b.query_list_external_tokens(&Some("ujuno".to_string()), Some(5)).tokens,
        vec![AllowedTokenInfo { denom: "uosmo".to_string(), contract: "wrapped-osmo".to_string() }]
    );
}

#[test]
fn single_entries_are_found() {
    let b = bridge();
    assert_eq!(b.query_allowed("charlie"), AllowedResponse { is_allowed: true, gas_limit: Some(3) });
    assert_eq!(b.query_allowed("delta"), AllowedResponse { is_allowed: true, gas_limit: None });
    assert_eq!(b.query_allowed("zulu"), AllowedResponse { is_allowed: false, gas_limit: None });
    assert_eq!(
        b.query_external_token("uosmo"),
        AllowedTokenResponse { is_allowed: true, contract: Some("wrapped-osmo".to_string()) }
    );
    assert_eq!(
        b.query_external_token("uatom"),
        AllowedTokenResponse { is_allowed: false, contract: None }
    );
    assert_eq!(
        b.query_config(),
        ConfigResponse { default_timeout: 60, gov_contract: "gov".to_string() }
    );
}

#[test]
fn channel_with_its_accounts() {
    let mut b = bridge();
    let now = Timestamp { nanos: 1 };
    for (ch, amount) in [
        ("channel-0", Amount::native(10, "uosmo")),
        ("channel-0", Amount::native(7, "uatom")),
        ("channel-1", Amount::native(99, "uatom")),
        ("channel-0", Amount::cw20(5, "alpha")),
        ("channel-0", Amount::native(3, "uatom")),
    ] {
        let msg = TransferMsg {
            channel: ch.to_string(),
            remote_address: "r".to_string(),
            timeout: None,
        };
        b.execute_transfer(&msg, &amount, "me", now).unwrap();
    }
    let packet = ics20_swap_client::ibc_msg::Ics20Packet::new(7, "uatom", "me", "r", None);
    b.on_packet_timeout("channel-0", 1, &packet).unwrap();

    let c = b.query_channel("channel-0").unwrap();
    assert_eq!(c.info, channel("channel-0"));
    assert_eq!(
        c.balances,
        vec![Amount::cw20(5, "alpha"), Amount::native(3, "uatom"), Amount::native(10, "uosmo")]
    );
    assert_eq!(
        c.total_sent,
        vec![Amount::cw20(5, "alpha"), Amount::native(10, "uatom"), Amount::native(10, "uosmo")]
    );
    assert_eq!(
        b.list_balances("channel-1"),
        vec![Balance {
            channel: "channel-1".to_string(),
            denom: "uatom".to_string(),
            state: ChannelState { outstanding: 99, total_sent: 99 },
        }]
    );
    let quiet = b.query_channel("channel-2").unwrap();
    assert!(quiet.balances.is_empty() && quiet.total_sent.is_empty());
    assert_eq!(b.query_channel("channel-3").err(), Some(ContractError::NoSuchChannel));
}
