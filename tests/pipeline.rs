use payment_gateway::client::sign_request;
use payment_gateway::deposit::{deposit_from_authorization, topup_requirements, upstream_error_body};
use payment_gateway::ledger::UserData;
use payment_gateway::pipeline::{auth_failure_message, classify_request, Admission, Gateway, RelayDecision};
use payment_gateway::auth::AuthError;

const KEY: [u8; 32] = [0x22; 32];
const BODY: &[u8] = br#"{"jsonrpc":"2.0","method":"eth_blockNumber","id":1}"#;
const PRICE: u64 = 1_000;
const NOW: u64 = 1_700_000_000;

#[test]
fn payment_header_selects_deposit() {
    assert!(matches!(classify_request(true, None, None, None), Admission::Deposit));
    assert!(matches!(classify_request(true, Some("a"), Some("b"), Some("1")), Admission::Deposit));
}

#[test]
fn complete_auth_headers_are_parsed() {
    match classify_request(false, Some("0xab"), Some("0xcd"), Some("17")) {
        Admission::Authenticated(h) => {
            assert_eq!(h.address, "0xab");
            assert_eq!(h.signature, "0xcd");
            assert_eq!(h.timestamp, 17);
        }
        _ => panic!("expected authenticated"),
    }
}

#[test]
fn missing_or_bad_auth_headers_require_payment() {
    assert!(matches!(classify_request(false, None, Some("s"), Some("1")), Admission::MissingAuth));
    assert!(matches!(classify_request(false, Some("a"), None, Some("1")), Admission::MissingAuth));
    assert!(matches!(classify_request(false, Some("a"), Some("s"), None), Admission::MissingAuth));
    assert!(matches!(classify_request(false, Some("a"), Some("s"), Some("soon")), Admission::MissingAuth));
}

#[test]
fn first_call_without_balance_requires_payment() {
    let mut g = Gateway::new(PRICE);
    let h = sign_request(&KEY, BODY, NOW).unwrap();
    let r = g.handle_authenticated(&h, BODY, NOW, 0);
    assert_eq!(r, RelayDecision::PaymentRequired);
    assert_eq!(r.status(), 402);
    assert_eq!(g.ledger().get_user(&h.address).unwrap(), None);
    assert_eq!(g.cache().size(), 0);
}

#[test]
fn deposit_then_call() {
    let mut g = Gateway::new(PRICE);
    let h = sign_request(&KEY, BODY, NOW).unwrap();
    let d = deposit_from_authorization(Some(&h.address), Some("1000000")).unwrap();
    assert_eq!(d.amount, 1_000_000);
    assert_eq!(g.apply_deposit(&d.payer, d.amount, NOW), RelayDecision::Forward);
    assert_eq!(
        g.ledger().get_user(&h.address).unwrap(),
        Some(UserData::new(1_000_000 - PRICE, NOW))
    );
    let r = g.handle_authenticated(&h, BODY, NOW, 0);
    assert_eq!(r, RelayDecision::Forward);
    assert_eq!(r.status(), 200);
    assert_eq!(g.ledger().get_user(&h.address).unwrap().unwrap().balance, 1_000_000 - 2 * PRICE);
}

#[test]
fn replayed_request_is_refused() {
    let mut g = Gateway::new(PRICE);
    let h = sign_request(&KEY, BODY, NOW).unwrap();
    g.apply_deposit(&h.address, 1_000_000, NOW);
    assert_eq!(g.handle_authenticated(&h, BODY, NOW, 0), RelayDecision::Forward);
    let again = g.handle_authenticated(&h, BODY, NOW, 1);
    assert_eq!(again, RelayDecision::Unauthorized("Replay detected: signature already used".to_string()));
    assert_eq!(again.status(), 401);
    assert_eq!(g.ledger().get_user(&h.address).unwrap().unwrap().balance, 1_000_000 - 2 * PRICE);
}

#[test]
fn replay_is_refused_at_exactly_the_ttl() {
    let mut g = Gateway::new(PRICE);
    let h = sign_request(&KEY, BODY, NOW).unwrap();
    g.apply_deposit(&h.address, 1_000_000, NOW);
    assert_eq!(g.handle_authenticated(&h, BODY, NOW, 0), RelayDecision::Forward);
    let again = g.handle_authenticated(&h, BODY, NOW + 120, 120_000);
    assert_eq!(again, RelayDecision::Unauthorized("Replay detected: signature already used".to_string()));
}

#[test]
fn tampered_request_is_refused() {
    let mut g = Gateway::new(PRICE);
    let h = sign_request(&KEY, BODY, NOW).unwrap();
    g.apply_deposit(&h.address, 1_000_000, NOW);
    let mut body = BODY.to_vec();
    body[3] ^= 0x20;
    let r = g.handle_authenticated(&h, &body, NOW, 0);
    assert_eq!(r.status(), 401);
    let expected_mismatch = RelayDecision::Unauthorized(auth_failure_message(&AuthError::AddressMismatch));
    let expected_recovery = RelayDecision::Unauthorized(auth_failure_message(&AuthError::RecoveryFailed));
    assert!(r == expected_mismatch || r == expected_recovery);
    assert_eq!(g.cache().size(), 0);
}

#[test]
fn insufficient_balance_requires_payment_and_keeps_balance() {
    let mut g = Gateway::new(PRICE);
    let h = sign_request(&KEY, BODY, NOW).unwrap();
    g.apply_deposit(&h.address, PRICE + PRICE / 2, NOW);
    let before = g.ledger().get_user(&h.address).unwrap();
    assert_eq!(before.unwrap().balance, PRICE / 2);
    let r = g.handle_authenticated(&h, BODY, NOW, 0);
    assert_eq!(r, RelayDecision::PaymentRequired);
    assert_eq!(g.ledger().get_user(&h.address).unwrap(), before);
    assert_eq!(g.cache().size(), 0);
}

#[test]
fn upstream_down_still_charges() {
    let mut g = Gateway::new(PRICE);
    let h = sign_request(&KEY, BODY, NOW).unwrap();
    g.apply_deposit(&h.address, 1_000_000, NOW);
    assert_eq!(g.handle_authenticated(&h, BODY, NOW, 0), RelayDecision::Forward);
    let body = upstream_error_body(false, "connection refused");
    assert_eq!(
        body,
        r#"{"jsonrpc":"2.0","error":{"code":-32603,"message":"Failed to connect to node: connection refused"},"id":null}"#
    );
    assert_eq!(g.ledger().get_user(&h.address).unwrap().unwrap().balance, 1_000_000 - 2 * PRICE);
}

#[test]
fn stale_timestamp_is_refused_with_drift() {
    let mut g = Gateway::new(PRICE);
    let h = sign_request(&KEY, BODY, NOW - 61).unwrap();
    let r = g.handle_authenticated(&h, BODY, NOW, 0);
    assert_eq!(
        r,
        RelayDecision::Unauthorized("Authentication failed: Timestamp outside window: 61 seconds drift".to_string())
    );
}

#[test]
fn deposit_needs_payer_and_value() {
    assert!(deposit_from_authorization(None, Some("5")).is_none());
    assert!(deposit_from_authorization(Some(""), Some("5")).is_none());
    assert!(deposit_from_authorization(Some("0xa"), None).is_none());
    assert!(deposit_from_authorization(Some("0xa"), Some("lots")).is_none());
    let d = deposit_from_authorization(Some("0xa"), Some("5")).unwrap();
    assert_eq!((d.payer.as_str(), d.amount), ("0xa", 5));
}

#[test]
fn deposit_overflow_is_a_server_error() {
    let mut g = Gateway::new(PRICE);
    g.apply_deposit("0xa", u64::MAX, NOW);
    let r = g.apply_deposit("0xa", PRICE + 1, NOW);
    assert_eq!(r.status(), 500);
    assert!(matches!(r, RelayDecision::ServerError(_)));
}

#[test]
fn deposit_below_price_is_kept_uncharged() {
    let mut g = Gateway::new(PRICE);
    assert_eq!(g.apply_deposit("0xA", 10, NOW), RelayDecision::Forward);
    assert_eq!(g.ledger().get_user("0xa").unwrap(), Some(UserData::new(10, 0)));
}

#[test]
fn topup_offer_is_one_usdc() {
    let r = topup_requirements(8080, "0x00000000000000000000000000000000000000aa");
    assert_eq!(r.scheme, "exact");
    assert_eq!(r.network, "base-sepolia");
    assert_eq!(r.max_amount_required, 1_000_000);
    assert_eq!(r.resource, "http://localhost:8080/relay");
    assert_eq!(r.mime_type, "application/json");
    assert_eq!(r.pay_to, "0x00000000000000000000000000000000000000aa");
    assert_eq!(r.max_timeout_seconds, 300);
    assert_eq!(r.asset, "0x036CbD53842c5426634e7929541eC2318f3dCF7e");
    assert_eq!((r.extra_name.as_str(), r.extra_version.as_str()), ("USDC", "2"));
}

#[test]
fn upstream_read_failure_body() {
    assert_eq!(
        upstream_error_body(true, "eof"),
        r#"{"jsonrpc":"2.0","error":{"code":-32603,"message":"Failed to read node response: eof"},"id":null}"#
    );
}

#[test]
fn status_codes() {
    assert_eq!(RelayDecision::BadRequest("x".to_string()).status(), 400);
    assert_eq!(RelayDecision::ServerError("x".to_string()).status(), 500);
}

use payment_gateway::deposit::{next_deposit_step, DepositAction, DepositEvent, DepositStage};

#[test]
fn deposit_steps_in_order() {
    let (stage, action) = next_deposit_step(
        DepositStage::Verifying,
        DepositEvent::VerifyAccepted { from: Some("0xPayer".to_string()), value: Some("1000000".to_string()) },
    );
    assert!(matches!(action, DepositAction::Settle));
    let (stage, action) = next_deposit_step(stage, DepositEvent::SettleAccepted);
    assert!(matches!(stage, DepositStage::Done));
    match action {
        DepositAction::Credit(d) => {
            assert_eq!(d.payer, "0xPayer");
            assert_eq!(d.amount, 1_000_000);
        }
        _ => panic!("expected a credit"),
    }
}

#[test]
fn deposit_step_refusals() {
    let (_, a) = next_deposit_step(DepositStage::Verifying, DepositEvent::EnvelopeRejected { reason: "no envelope".to_string() });
    match a {
        DepositAction::Respond(d) => {
            assert_eq!(d, RelayDecision::PaymentRejected("no envelope".to_string()));
            assert_eq!(d.status(), 402);
        }
        _ => panic!("expected a refusal"),
    }
    let (_, a) = next_deposit_step(
        DepositStage::Verifying,
        DepositEvent::VerifyRejected { reason: "insufficient_funds".to_string() },
    );
    assert!(matches!(a, DepositAction::Respond(RelayDecision::PaymentRejected(ref m)) if m == "insufficient_funds"));
    let (_, a) = next_deposit_step(
        DepositStage::Verifying,
        DepositEvent::VerifyAccepted { from: None, value: Some("5".to_string()) },
    );
    match a {
        DepositAction::Respond(d) => {
            assert_eq!(d, RelayDecision::BadRequest("Invalid payment format".to_string()));
            assert_eq!(d.status(), 400);
        }
        _ => panic!("expected a refusal"),
    }
    let (stage, _) = next_deposit_step(
        DepositStage::Verifying,
        DepositEvent::VerifyAccepted { from: Some("0xa".to_string()), value: Some("5".to_string()) },
    );
    let (_, a) = next_deposit_step(stage, DepositEvent::SettleRejected);
    match a {
        DepositAction::Respond(d) => {
            assert_eq!(d, RelayDecision::ServerError("Payment settlement failed".to_string()));
            assert_eq!(d.status(), 500);
        }
        _ => panic!("expected a refusal"),
    }
    let (_, a) = next_deposit_step(DepositStage::Done, DepositEvent::SettleAccepted);
    assert!(matches!(a, DepositAction::Respond(RelayDecision::ServerError(_))));
}
