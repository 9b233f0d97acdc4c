use payment_gateway::auth::{request_digest, signed_message, verify_signature, AuthError};
use payment_gateway::client::{auth_headers, sign_request};
use payment_gateway::text::{decimal_string, parse_u64};

const KEY: [u8; 32] = [0x11; 32];
const BODY: &[u8] = br#"{"jsonrpc":"2.0","method":"eth_blockNumber","id":1}"#;

#[test]
fn digest_is_keccak_of_the_message() {
    let m = signed_message("0xabc", 5, b"{}");
    let expected = alloy::primitives::keccak256(m.as_bytes());
    assert_eq!(request_digest("0xabc", 5, b"{}"), expected.to_vec());
}

#[test]
fn message_is_address_timestamp_and_body_hash() {
    let m = signed_message("0xAbC", 1700000000, b"");
    assert_eq!(
        m,
        "0xAbC1700000000c5d2460186f7233c927e7db2dcc703c0e500b653ca82273b7bfad8045d85a470"
    );
}

#[test]
fn client_headers_pass_the_verifier() {
    let ts = 1_700_000_000;
    let h = sign_request(&KEY, BODY, ts).unwrap();
    assert_eq!(h.timestamp, ts);
    assert!(h.signature.starts_with("0x"));
    assert_eq!(h.signature.len(), 132);
    assert_eq!(verify_signature(&h.address, &h.signature, ts, BODY, ts), Ok(()));
}

#[test]
fn drift_of_sixty_seconds_is_accepted() {
    let ts = 1_700_000_000;
    let h = sign_request(&KEY, BODY, ts).unwrap();
    assert_eq!(verify_signature(&h.address, &h.signature, ts, BODY, ts + 60), Ok(()));
    assert_eq!(verify_signature(&h.address, &h.signature, ts, BODY, ts - 60), Ok(()));
}

#[test]
fn drift_of_sixty_one_seconds_is_rejected() {
    let ts = 1_700_000_000;
    let h = sign_request(&KEY, BODY, ts).unwrap();
    assert_eq!(
        verify_signature(&h.address, &h.signature, ts, BODY, ts + 61),
        Err(AuthError::TimestampDrift(61))
    );
    assert_eq!(
        verify_signature(&h.address, &h.signature, ts, BODY, ts - 61),
        Err(AuthError::TimestampDrift(61))
    );
}

#[test]
fn tampered_body_is_rejected() {
    let ts = 1_700_000_000;
    let h = sign_request(&KEY, BODY, ts).unwrap();
    let mut body = BODY.to_vec();
    body[10] ^= 1;
    let r = verify_signature(&h.address, &h.signature, ts, &body, ts);
    assert!(matches!(r, Err(AuthError::AddressMismatch) | Err(AuthError::RecoveryFailed)));
}

#[test]
fn other_address_is_a_mismatch() {
    let ts = 1_700_000_000;
    let h = sign_request(&KEY, BODY, ts).unwrap();
    let other = "0xaaaaaaaaaaaaaaaaaaaaaaaaaaaaaaaaaaaaaaaa";
    let r = verify_signature(other, &h.signature, ts, BODY, ts);
    assert!(matches!(r, Err(AuthError::AddressMismatch) | Err(AuthError::RecoveryFailed)));
}

#[test]
fn malformed_signature_and_address_are_reported() {
    let ts = 1_700_000_000;
    let h = sign_request(&KEY, BODY, ts).unwrap();
    assert_eq!(
        verify_signature(&h.address, "0x1234", ts, BODY, ts),
        Err(AuthError::BadSignatureFormat)
    );
    let sig = sign_request(&KEY, b"x", ts).unwrap().signature;
    let digest_for_bad = verify_signature("not-an-address", &sig, ts, b"x", ts);
    assert!(matches!(
        digest_for_bad,
        Err(AuthError::BadAddressFormat) | Err(AuthError::RecoveryFailed)
    ));
}

#[test]
fn signature_header_is_prefixed_hex() {
    let h = auth_headers("0xabc", &[0x00, 0xff, 0x1b], 9);
    assert_eq!(h.signature, "0x00ff1b");
    assert_eq!(h.address, "0xabc");
    assert_eq!(h.timestamp, 9);
}

#[test]
fn decimal_forms() {
    assert_eq!(decimal_string(0), "0");
    assert_eq!(decimal_string(1234567890), "1234567890");
    assert_eq!(decimal_string(u64::MAX), "18446744073709551615");
}

#[test]
fn decimal_parsing_follows_std() {
    for s in ["0", "42", "+7", "", "+", "-1", "12a", " 1", "18446744073709551615", "18446744073709551616", "007"] {
        assert_eq!(parse_u64(s), s.parse::<u64>().ok(), "input {:?}", s);
    }
}
