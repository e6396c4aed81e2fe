use ics20_swap_client::amount::Coin;
use ics20_swap_client::error::ContractError;
use ics20_swap_client::msg::{AllowMsg, ExecuteMsg, ExternalTokenMsg, InitMsg};
use ics20_swap_client::state::{AllowInfo, Bridge, Config};
use ics20_swap_client::timestamp::Timestamp;

const NOW: Timestamp = Timestamp { nanos: 0 };

fn allow(contract: &str, gas_limit: Option<u64>) -> AllowMsg {
    AllowMsg { contract: contract.to_string(), gas_limit }
}

#[test]
fn instantiate_takes_settings_and_allow_list() {
    let b = Bridge::instantiate(&InitMsg {
        default_timeout: 77,
        gov_contract: "gov".to_string(),
        allowlist: vec![allow("a", None), allow("b", Some(5)), allow("a", Some(9))],
    });
    assert_eq!(b.config(), Config { default_timeout: 77 });
    assert_eq!(b.admin(), "gov");
    // the later admission of a contract replaces the earlier one
    assert_eq!(b.allowed("a"), Some(AllowInfo { gas_limit: Some(9) }));
    assert_eq!(b.allowed("b"), Some(AllowInfo { gas_limit: Some(5) }));
    assert_eq!(b.allowed("c"), None);
    assert_eq!(b.external_token("a"), None);
    assert_eq!(b.channel("channel-0"), None);
    assert!(!b.is_settled("channel-0", 0));
}

#[test]
fn only_governance_admits_tokens() {
    let mut b = Bridge::new(Config { default_timeout: 1 }, "gov");
    assert_eq!(b.execute_allow("mallory", &allow("t", None)), Err(ContractError::Unauthorized));
    assert_eq!(b.allowed("t"), None);
    assert_eq!(b.execute_allow("gov", &allow("t", Some(1))), Ok(()));
    assert_eq!(b.allowed("t"), Some(AllowInfo { gas_limit: Some(1) }));
    assert_eq!(b.execute_allow("gov", &allow("t", None)), Ok(()));
    assert_eq!(b.allowed("t"), Some(AllowInfo { gas_limit: None }));

    let token = ExternalTokenMsg { denom: "uosmo".to_string(), contract: "wrapped".to_string() };
    assert_eq!(
        b.execute_allow_external_token("gov2", &token),
        Err(ContractError::Unauthorized)
    );
    assert_eq!(b.external_token("uosmo"), None);
    assert_eq!(b.execute_allow_external_token("gov", &token), Ok(()));
    assert_eq!(b.external_token("uosmo"), Some(&"wrapped".to_string()));
}

#[test]
fn admin_guard() {
    let b = Bridge::new(Config { default_timeout: 1 }, "gov");
    assert_eq!(b.assert_admin("gov"), Ok(()));
    assert_eq!(b.assert_admin("Gov"), Err(ContractError::Unauthorized));
    assert_eq!(b.assert_admin(""), Err(ContractError::Unauthorized));
    assert_eq!(b.assert_admin("gov "), Err(ContractError::Unauthorized));
}

#[test]
fn admin_hands_over() {
    let mut b = Bridge::new(Config { default_timeout: 1 }, "gov");
    assert_eq!(b.execute_update_admin("next", "next"), Err(ContractError::Unauthorized));
    assert_eq!(b.admin(), "gov");
    assert_eq!(b.execute_update_admin("gov", "next"), Ok(()));
    assert_eq!(b.admin(), "next");
    assert_eq!(b.assert_admin("gov"), Err(ContractError::Unauthorized));
    assert_eq!(b.execute_allow("next", &allow("t", None)), Ok(()));
}

#[test]
fn governance_commands_through_execute() {
    let mut b = Bridge::new(Config { default_timeout: 1 }, "gov");
    // what comes with a command of governance is not looked at
    let funds = vec![Coin { denom: "uatom".to_string(), amount: 3 }];
    assert_eq!(
        b.execute(&ExecuteMsg::Allow(allow("t", Some(3))), "gov", &funds, NOW),
        Ok(None)
    );
    assert_eq!(b.allowed("t"), Some(AllowInfo { gas_limit: Some(3) }));
    assert_eq!(
        b.execute(&ExecuteMsg::Allow(allow("u", None)), "someone", &funds, NOW),
        Err(ContractError::Unauthorized)
    );
    assert_eq!(b.allowed("u"), None);
    let token = ExternalTokenMsg { denom: "uosmo".to_string(), contract: "wrapped".to_string() };
    assert_eq!(b.execute(&ExecuteMsg::AllowExternalToken(token), "gov", &vec![], NOW), Ok(None));
    assert_eq!(b.external_token("uosmo"), Some(&"wrapped".to_string()));
    assert_eq!(
        b.execute(&ExecuteMsg::UpdateAdmin { admin: "dao".to_string() }, "gov", &funds, NOW),
        Ok(None)
    );
    assert_eq!(b.admin(), "dao");
    assert_eq!(
        b.execute(&ExecuteMsg::UpdateAdmin { admin: "gov".to_string() }, "gov", &funds, NOW),
        Err(ContractError::Unauthorized)
    );
    assert_eq!(b.admin(), "dao");
}
