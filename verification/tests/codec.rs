use std::collections::BTreeMap;

use ics20_swap_client::error::ContractError;
use ics20_swap_client::ibc_msg::{
    ClaimPacket, CreateLockupAck, ExitPoolPacket, Ics20Ack, Ics20Packet, JoinPoolPacket,
    LockPacket, LockResultAck, OsmoPacket, SwapAmountInAck, SwapAmountInRoute, SwapPacket,
    UnLockResultAck, UnlockPacket,
};
use ics20_swap_client::timestamp::Timestamp;
use ics20_swap_client::json::{write_decimal, write_number, write_quoted};

fn swap(routes: Vec<(u64, &str)>, min: u128) -> OsmoPacket {
    OsmoPacket::Swap(SwapPacket {
        routes: routes
            .into_iter()
            .map(|(pool_id, d)| SwapAmountInRoute { pool_id, token_out_denom: d.to_string() })
            .collect(),
        token_out_min_amount: min,
    })
}

fn all_actions() -> Vec<OsmoPacket> {
    vec![
        swap(vec![(7, "uosmo")], 50),
        swap(vec![], 0),
        swap(vec![(1, "a"), (2, "b"), (u64::MAX, "c\"d")], u128::MAX),
        OsmoPacket::JoinPool(JoinPoolPacket { pool_id: 3, share_out_min_amount: 17 }),
        OsmoPacket::ExitPool(ExitPoolPacket {
            token_out_denom: "uosmo".to_string(),
            token_out_min_amount: 9,
        }),
        OsmoPacket::LockupAccount {},
        OsmoPacket::Lock(LockPacket { duration: 86_400 }),
        OsmoPacket::Claim(ClaimPacket { denom: "gamm/pool/1".to_string() }),
        OsmoPacket::Unlock(UnlockPacket { id: 42 }),
    ]
}

#[test]
fn plain_packet_is_plain_ics20_json() {
    let p = Ics20Packet::new(100, "uatom", "this-chain-addr", "addr1", None);
    let text = p.to_json();
    assert_eq!(
        text,
        r#"{"amount":"100","denom":"uatom","receiver":"addr1","sender":"this-chain-addr"}"#
    );
    assert!(!text.contains("action"));
    assert_eq!(Ics20Packet::from_json(&text), Ok(p));
}

#[test]
fn plain_packet_reads_as_a_flat_json_object() {
    let p = Ics20Packet::new(12345, "transfer/channel-3/uatom", "wasm1sender", "osmo1rcv", None);
    let fields: BTreeMap<String, String> = cosmwasm_std::from_json(p.to_json().as_bytes()).unwrap();
    let keys: Vec<&str> = fields.keys().map(|k| k.as_str()).collect();
    assert_eq!(keys, vec!["amount", "denom", "receiver", "sender"]);
    assert_eq!(fields["amount"], "12345");
    assert_eq!(fields["denom"], "transfer/channel-3/uatom");
    assert_eq!(fields["receiver"], "osmo1rcv");
    assert_eq!(fields["sender"], "wasm1sender");
}

#[test]
fn swap_packet_json() {
    let p = Ics20Packet::new(100, "uatom", "me", "me", Some(swap(vec![(7, "uosmo")], 50)));
    assert_eq!(
        p.to_json(),
        [
            r#"{"amount":"100","denom":"uatom","receiver":"me","sender":"me","#,
            r#""action":{"swap":{"routes":[{"pool_id":"7","token_out_denom":"uosmo"}],"#,
            r#""token_out_min_amount":"50"}}}"#,
        ]
        .join("")
    );
}

#[test]
fn each_action_json() {
    let texts: Vec<String> = all_actions()
        .into_iter()
        .map(|a| Ics20Packet::new(1, "d", "s", "r", Some(a)).to_json())
        .collect();
    let head = r#"{"amount":"1","denom":"d","receiver":"r","sender":"s","action":"#;
    let long_swap = [
        r#"{"swap":{"routes":[{"pool_id":"1","token_out_denom":"a"},"#,
        r#"{"pool_id":"2","token_out_denom":"b"},"#,
        r#"{"pool_id":"18446744073709551615","token_out_denom":"c\"d"}],"#,
        r#""token_out_min_amount":"340282366920938463463374607431768211455"}}"#,
    ]
    .join("");
    let expected = [
        r#"{"swap":{"routes":[{"pool_id":"7","token_out_denom":"uosmo"}],"token_out_min_amount":"50"}}"#,
        r#"{"swap":{"routes":[],"token_out_min_amount":"0"}}"#,
        long_swap.as_str(),
        r#"{"join_pool":{"pool_id":"3","share_out_min_amount":"17"}}"#,
        r#"{"exit_pool":{"token_out_denom":"uosmo","token_out_min_amount":"9"}}"#,
        r#"{"lockup_account":{}}"#,
        r#"{"lock":{"duration":"86400"}}"#,
        r#"{"claim":{"denom":"gamm/pool/1"}}"#,
        r#"{"unlock":{"id":"42"}}"#,
    ];
    assert_eq!(texts.len(), expected.len());
    for (text, action) in texts.iter().zip(expected) {
        assert_eq!(text, &format!("{}{}}}", head, action));
    }
}

#[test]
fn packets_round_trip() {
    let strings = [
        "",
        "uatom",
        "with \"quotes\" and \\backslashes\\",
        "tab\there\nnewline\r\u{8}\u{c}",
        "\u{0}\u{1}\u{1f}\u{7f}",
        "ünïcödé ✓ 🚀",
        "}{\",\"action\":",
        "\\u0041",
    ];
    let mut actions: Vec<Option<OsmoPacket>> = all_actions().into_iter().map(Some).collect();
    actions.push(None);
    for (i, s) in strings.iter().enumerate() {
        for action in &actions {
            for amount in [0u128, 9, 10, 100, u64::MAX as u128, u128::MAX] {
                let p = Ics20Packet {
                    amount,
                    denom: s.to_string(),
                    receiver: strings[(i + 1) % strings.len()].to_string(),
                    sender: strings[(i + 2) % strings.len()].to_string(),
                    action: action.clone(),
                };
                let text = p.to_json();
                assert_eq!(Ics20Packet::from_json(&text), Ok(p));
            }
        }
    }
}

#[test]
fn strings_are_escaped_as_the_host_does() {
    for s in [
        "",
        "plain",
        "q\"b\\s/",
        "\u{0}\u{1}\u{2}\u{7}\u{8}\u{9}\u{a}\u{b}\u{c}\u{d}\u{e}\u{1f} \u{7f}",
        "ünïcödé ✓ 🚀",
    ] {
        let mut ours = String::new();
        write_quoted(&mut ours, s);
        assert_eq!(ours, cosmwasm_std::to_json_string(&s).unwrap());
    }
    let mut ours = String::from("x");
    write_quoted(&mut ours, "a\u{1b}b");
    assert_eq!(ours, "x\"a\\u001Bb\"");
}

#[test]
fn numbers_are_written_as_the_host_does() {
    for n in [0u128, 1, 9, 10, 99, 100, 1 << 64, u128::MAX] {
        let mut ours = String::new();
        write_number(&mut ours, n);
        assert_eq!(ours, cosmwasm_std::to_json_string(&cosmwasm_std::Uint128::new(n)).unwrap());
        let mut digits = String::new();
        write_decimal(&mut digits, n);
        assert_eq!(digits, n.to_string());
    }
    let mut ours = String::new();
    write_number(&mut ours, u64::MAX as u128);
    assert_eq!(ours, cosmwasm_std::to_json_string(&cosmwasm_std::Uint64::new(u64::MAX)).unwrap());
}

#[test]
fn unknown_action_is_a_decode_error() {
    let text = r#"{"amount":"1","denom":"d","receiver":"r","sender":"s","action":{"teleport":{}}}"#;
    assert_eq!(Ics20Packet::from_json(text), Err(ContractError::Decode));
    let text = r#"{"amount":"1","denom":"d","receiver":"r","sender":"s","action":{"Swap":{"routes":[],"token_out_min_amount":"0"}}}"#;
    assert_eq!(Ics20Packet::from_json(text), Err(ContractError::Decode));
    let text = r#"{"amount":"1","denom":"d","receiver":"r","sender":"s","action":{"lockup":{}}}"#;
    assert_eq!(Ics20Packet::from_json(text), Err(ContractError::Decode));
}

#[test]
fn amount_must_fit_128_bits() {
    let fits = r#"{"amount":"340282366920938463463374607431768211455","denom":"d","receiver":"r","sender":"s"}"#;
    assert_eq!(Ics20Packet::from_json(fits).map(|p| p.amount), Ok(u128::MAX));
    let too_big = r#"{"amount":"340282366920938463463374607431768211456","denom":"d","receiver":"r","sender":"s"}"#;
    assert_eq!(Ics20Packet::from_json(too_big), Err(ContractError::Decode));
    let way_too_big = r#"{"amount":"99999999999999999999999999999999999999999999999999","denom":"d","receiver":"r","sender":"s"}"#;
    assert_eq!(Ics20Packet::from_json(way_too_big), Err(ContractError::Decode));
    let pool_too_big = r#"{"amount":"1","denom":"d","receiver":"r","sender":"s","action":{"unlock":{"id":"18446744073709551616"}}}"#;
    assert_eq!(Ics20Packet::from_json(pool_too_big), Err(ContractError::Decode));
    let pool_fits = r#"{"amount":"1","denom":"d","receiver":"r","sender":"s","action":{"unlock":{"id":"18446744073709551615"}}}"#;
    assert_eq!(
        Ics20Packet::from_json(pool_fits).map(|p| p.action),
        Ok(Some(OsmoPacket::Unlock(UnlockPacket { id: u64::MAX })))
    );
}

#[test]
fn other_shapes_are_decode_errors() {
    for text in [
        "",
        "{}",
        "null",
        r#"{"amount":"1","denom":"d","receiver":"r","sender":"s"} "#,
        r#" {"amount":"1","denom":"d","receiver":"r","sender":"s"}"#,
        r#"{"amount": "1","denom":"d","receiver":"r","sender":"s"}"#,
        r#"{"amount":1,"denom":"d","receiver":"r","sender":"s"}"#,
        r#"{"amount":"01","denom":"d","receiver":"r","sender":"s"}"#,
        r#"{"amount":"+1","denom":"d","receiver":"r","sender":"s"}"#,
        r#"{"amount":"-1","denom":"d","receiver":"r","sender":"s"}"#,
        r#"{"amount":"","denom":"d","receiver":"r","sender":"s"}"#,
        r#"{"amount":"1x","denom":"d","receiver":"r","sender":"s"}"#,
        r#"{"denom":"d","amount":"1","receiver":"r","sender":"s"}"#,
        r#"{"amount":"1","denom":"d","receiver":"r"}"#,
        r#"{"amount":"1","denom":"d","receiver":"r","sender":"s","memo":""}"#,
        r#"{"amount":"1","denom":"d","receiver":"r","sender":"s","action":null}"#,
        r#"{"amount":"1","denom":"d","receiver":"r","sender":"s","action":{"lockup_account":{}}"#,
        r#"{"amount":"1","denom":"d","receiver":"r","sender":"s","action":{"lockup_account":{}}}}"#,
        r#"{"amount":"1","denom":"d","receiver":"r","sender":"s""#,
        r#"{"amount":"1","denom":"d","receiver":"r","sender":"s}"#,
        r#"{"amount":"1","denom":"\u0041","receiver":"r","sender":"s"}"#,
        r#"{"amount":"1","denom":"\/","receiver":"r","sender":"s"}"#,
        r#"{"amount":"1","denom":"\u001f","receiver":"r","sender":"s"}"#,
        r#"{"amount":"1","denom":"\x","receiver":"r","sender":"s"}"#,
        r#"{"amount":"1","denom":"\","receiver":"r","sender":"s"}"#,
        r#"{"amount":"1","denom":"d","receiver":"r","sender":"s","action":{"swap":{"routes":[,],"token_out_min_amount":"0"}}}"#,
        r#"{"amount":"1","denom":"d","receiver":"r","sender":"s","action":{"swap":{"routes":[{"pool_id":"1","token_out_denom":"a"},],"token_out_min_amount":"0"}}}"#,
    ] {
        assert_eq!(Ics20Packet::from_json(text), Err(ContractError::Decode), "{}", text);
    }
    // upper-case hex is how control characters are written
    let ok = r#"{"amount":"1","denom":"\u001F","receiver":"r","sender":"s"}"#;
    assert_eq!(Ics20Packet::from_json(ok).map(|p| p.denom), Ok("\u{1f}".to_string()));
}

#[test]
fn ack_json_shapes() {
    assert_eq!(Ics20Ack::Result(vec![1]).to_json(), r#"{"result":"AQ=="}"#);
    assert_eq!(Ics20Ack::Result(vec![]).to_json(), r#"{"result":""}"#);
    assert_eq!(Ics20Ack::Result(b"abc".to_vec()).to_json(), r#"{"result":"YWJj"}"#);
    assert_eq!(
        Ics20Ack::Error("no \"pool\" 9".to_string()).to_json(),
        r#"{"error":"no \"pool\" 9"}"#
    );
    assert_eq!(Ics20Ack::Error(String::new()).to_json(), r#"{"error":""}"#);
}

#[test]
fn ack_payload_is_base64_as_the_host_does() {
    for payload in [vec![], vec![0u8], vec![0xfb, 0xff], (0u8..=255).collect::<Vec<u8>>()] {
        let theirs = cosmwasm_std::Binary::from(payload.clone()).to_base64();
        assert_eq!(Ics20Ack::Result(payload).to_json(), format!("{{\"result\":\"{}\"}}", theirs));
    }
}

#[test]
fn acks_round_trip() {
    let acks = vec![
        Ics20Ack::Result(vec![]),
        Ics20Ack::Result(vec![0]),
        Ics20Ack::Result(vec![1, 2]),
        Ics20Ack::Result(br#"{"amount":"48","denom":"uosmo"}"#.to_vec()),
        Ics20Ack::Result((0u8..=255).collect()),
        Ics20Ack::Error(String::new()),
        Ics20Ack::Error("YWJj".to_string()),
        Ics20Ack::Error("line\nbreak \"quoted\" \\ \u{1} ✓".to_string()),
    ];
    for a in acks {
        assert_eq!(Ics20Ack::from_json(&a.to_json()), Ok(a.clone()));
        assert_eq!(Ics20Ack::decode(&a.encode()), Ok(a.clone()));
        assert_eq!(a.encode(), a.to_json().into_bytes());
    }
}

#[test]
fn swap_ack_below_minimum_is_read_as_a_result() {
    let payload = br#"{"amount":"48","denom":"uosmo"}"#.to_vec();
    let wire = Ics20Ack::Result(payload.clone()).encode();
    assert_eq!(Ics20Ack::decode(&wire), Ok(Ics20Ack::Result(payload)));
}

#[test]
fn other_ack_shapes_are_decode_errors() {
    for text in [
        "",
        "{}",
        r#"{"result":"AQ"}"#,
        r#"{"result":"AQ=="} "#,
        r#"{"result":"A"}"#,
        r#"{"result":"!!!!"}"#,
        r#"{"result":"AQ==","error":"x"}"#,
        r#"{"Result":"AQ=="}"#,
        r#"{"results":"AQ=="}"#,
        r#"{"error":"x"}}"#,
        r#"{"error":x}"#,
        r#"{"error": "x"}"#,
        r#"{"result":"QUJDA"}"#,
    ] {
        assert_eq!(Ics20Ack::from_json(text), Err(ContractError::Decode), "{}", text);
        assert_eq!(Ics20Ack::decode(text.as_bytes()), Err(ContractError::Decode), "{}", text);
    }
}

#[test]
fn packets_on_the_wire() {
    let p = Ics20Packet::new(100, "uatom", "s", "r✓", Some(OsmoPacket::LockupAccount {}));
    let wire = p.encode();
    assert_eq!(wire, p.to_json().into_bytes());
    assert_eq!(Ics20Packet::decode(&wire), Ok(p));
    assert_eq!(Ics20Packet::decode(&[0xff, 0xfe]), Err(ContractError::Decode));
    assert_eq!(Ics20Packet::decode(b""), Err(ContractError::Decode));
    // a character cut in the middle is no text
    let mut cut = Ics20Packet::new(1, "✓", "s", "r", None).encode();
    let at = cut.iter().position(|b| *b == 0xe2).unwrap();
    cut.remove(at + 1);
    assert_eq!(Ics20Packet::decode(&cut), Err(ContractError::Decode));
}

#[test]
fn answers_of_actions_as_json() {
    let swap = SwapAmountInAck { amount: 48, denom: "uosmo".to_string() };
    assert_eq!(swap.to_json(), r#"{"amount":"48","denom":"uosmo"}"#);
    assert_eq!(SwapAmountInAck::from_json(&swap.to_json()), Ok(swap));

    let lockup = CreateLockupAck { contract: "osmo1\"x".to_string() };
    assert_eq!(lockup.to_json(), r#"{"contract":"osmo1\"x"}"#);
    assert_eq!(CreateLockupAck::from_json(&lockup.to_json()), Ok(lockup.clone()));
    assert_eq!(CreateLockupAck::decode(&lockup.encode()), Ok(lockup.clone()));
    assert_eq!(lockup.encode(), lockup.to_json().into_bytes());

    let lock = LockResultAck { lock_id: u64::MAX };
    assert_eq!(lock.to_json(), r#"{"lock_id":"18446744073709551615"}"#);
    assert_eq!(LockResultAck::from_json(&lock.to_json()), Ok(lock));

    let unlock = UnLockResultAck { end_time: Timestamp { nanos: 1_571_797_419_879_305_533 } };
    assert_eq!(unlock.to_json(), r#"{"end_time":"1571797419879305533"}"#);
    assert_eq!(UnLockResultAck::from_json(&unlock.to_json()), Ok(unlock));
    assert_eq!(
        unlock.to_json(),
        format!(
            "{{\"end_time\":{}}}",
            cosmwasm_std::to_json_string(&cosmwasm_std::Timestamp::from_nanos(
                1_571_797_419_879_305_533
            ))
            .unwrap()
        )
    );
}

#[test]
fn other_answers_are_decode_errors() {
    for text in [
        "",
        "{}",
        r#"{"amount":"48"}"#,
        r#"{"denom":"uosmo","amount":"48"}"#,
        r#"{"amount":"048","denom":"uosmo"}"#,
        r#"{"amount":"340282366920938463463374607431768211456","denom":"uosmo"}"#,
        r#"{"amount":"48","denom":"uosmo"} "#,
        r#"{"amount":"48","denom":"uosmo","more":"x"}"#,
    ] {
        assert_eq!(SwapAmountInAck::from_json(text), Err(ContractError::Decode), "{}", text);
    }
    for text in ["", r#"{"contract":1}"#, r#"{"contract":"a"}}"#, r#"{"address":"a"}"#] {
        assert_eq!(CreateLockupAck::from_json(text), Err(ContractError::Decode), "{}", text);
        assert_eq!(CreateLockupAck::decode(text.as_bytes()), Err(ContractError::Decode));
    }
    assert_eq!(CreateLockupAck::decode(&[0xff]), Err(ContractError::Decode));
    for text in [
        r#"{"lock_id":"18446744073709551616"}"#,
        r#"{"lock_id":"-1"}"#,
        r#"{"lock_id":"01"}"#,
        r#"{"lock_id":""}"#,
        r#"{"lock_id":7}"#,
    ] {
        assert_eq!(LockResultAck::from_json(text), Err(ContractError::Decode), "{}", text);
    }
    for text in [r#"{"end_time":"18446744073709551616"}"#, r#"{"end_time":"x"}"#, r#"{"end":"1"}"#] {
        assert_eq!(UnLockResultAck::from_json(text), Err(ContractError::Decode), "{}", text);
    }
}
