use payment_gateway::config::{is_valid_evm_address, parse_micro_amount, Config, ConfigError};
use payment_gateway::ledger::{DatabaseError, UserData};
use payment_gateway::remote::{
    record_attributes, record_from_attributes, remote_credit_result, remote_debit_result,
    remote_get_result,
};

const PAY_TO: &str = "0x1234567890abcdef1234567890ABCDEF12345678";

#[test]
fn micro_amounts() {
    assert_eq!(parse_micro_amount("0.001"), Some(1_000));
    assert_eq!(parse_micro_amount("1"), Some(1_000_000));
    assert_eq!(parse_micro_amount("1.5"), Some(1_500_000));
    assert_eq!(parse_micro_amount("0.000001"), Some(1));
    assert_eq!(parse_micro_amount("12.345678"), Some(12_345_678));
    assert_eq!(parse_micro_amount("18446744073709.551615"), Some(u64::MAX));
}

#[test]
fn malformed_micro_amounts() {
    for s in ["", ".5", "1.", "0.0000001", "-1", "1.2.3", "abc", "1,5", "18446744073709.551616", "18446744073710"] {
        assert_eq!(parse_micro_amount(s), None, "input {:?}", s);
    }
}

#[test]
fn evm_addresses() {
    assert!(is_valid_evm_address(PAY_TO));
    assert!(!is_valid_evm_address("0x1234"));
    assert!(!is_valid_evm_address("1x1234567890abcdef1234567890abcdef12345678"));
    assert!(!is_valid_evm_address("0x1234567890abcdef1234567890abcdef1234567g"));
}

#[test]
fn settings_are_checked() {
    let c = Config::from_settings("http://node", "0.001", 8080, "http://fac", PAY_TO).unwrap();
    assert_eq!(c.price_per_request, 1_000);
    assert_eq!(c.port, 8080);
    assert_eq!(c.node_url, "http://node");
    assert_eq!(c.facilitator_url, "http://fac");
    assert_eq!(c.payment_address, PAY_TO);
    assert!(matches!(Config::from_settings("http://node", "0.001", 1, "f", "0xabc"), Err(ConfigError::Invalid(_))));
    assert!(matches!(Config::from_settings("", "0.001", 1, "f", PAY_TO), Err(ConfigError::Invalid(_))));
    assert!(matches!(Config::from_settings("n", "-0.5", 1, "f", PAY_TO), Err(ConfigError::Invalid(_))));
}

#[test]
fn remote_attributes_round_trip() {
    let u = UserData::new(999_000, 1_700_000_000);
    let a = record_attributes("0xabc", &u);
    assert_eq!(a.address, "0xabc");
    assert_eq!(a.balance, "999000");
    assert_eq!(a.latest_timestamp, "1700000000");
    assert_eq!(record_from_attributes(Some(&a.balance), Some(&a.latest_timestamp)), Ok(u));
}

#[test]
fn remote_attributes_missing() {
    assert_eq!(
        record_from_attributes(None, Some("1")),
        Err(DatabaseError::AttributeNotFound("balance".to_string()))
    );
    assert_eq!(
        record_from_attributes(Some("x"), Some("1")),
        Err(DatabaseError::AttributeNotFound("balance".to_string()))
    );
    assert_eq!(
        record_from_attributes(Some("1"), Some("later")),
        Err(DatabaseError::AttributeNotFound("latest_timestamp".to_string()))
    );
}

#[test]
fn remote_debit_outcomes() {
    assert_eq!(
        remote_debit_result(1_000, true, Some("ConditionalCheckFailedException"), None),
        Err(DatabaseError::InsufficientBalance { has: 0, need: 1_000 })
    );
    assert_eq!(
        remote_debit_result(1_000, false, Some("timeout"), None),
        Err(DatabaseError::DynamoDB("timeout".to_string()))
    );
    assert_eq!(remote_debit_result(1_000, false, None, Some("998000")), Ok(998_000));
    assert_eq!(
        remote_debit_result(1_000, false, None, Some("0.5")),
        Err(DatabaseError::AttributeNotFound("balance".to_string()))
    );
    assert_eq!(
        remote_debit_result(1_000, false, None, None),
        Err(DatabaseError::AttributeNotFound("balance".to_string()))
    );
}

#[test]
fn remote_credit_and_get_outcomes() {
    assert_eq!(remote_credit_result(None, Some("1000000")), Ok(1_000_000));
    assert_eq!(
        remote_credit_result(Some("throttled"), Some("1")),
        Err(DatabaseError::DynamoDB("throttled".to_string()))
    );
    assert_eq!(remote_get_result(None, false, None, None), Ok(None));
    assert_eq!(remote_get_result(None, true, Some("5"), Some("7")), Ok(Some(UserData::new(5, 7))));
    assert_eq!(
        remote_get_result(None, true, Some("5"), None),
        Err(DatabaseError::AttributeNotFound("latest_timestamp".to_string()))
    );
    assert_eq!(
        remote_get_result(Some("down"), true, Some("5"), Some("7")),
        Err(DatabaseError::DynamoDB("down".to_string()))
    );
}
