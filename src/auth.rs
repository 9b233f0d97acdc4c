use vstd::prelude::*;
use vstd::utf8::encode_utf8;

use crate::config::is_hex_char;
use crate::text::{decimal, decimal_string, hex_encode, hex_lower};

verus! {

/// How far, in seconds, a request's timestamp may stand from the server's
/// clock.
pub const TIMESTAMP_WINDOW_SECS: u64 = 60;

/// The Keccak-256 digest of `data`.
pub uninterp spec fn keccak_of(data: Seq<u8>) -> Seq<u8>;

/// The 65 bytes (r, s, then v as 27 or 28) of the signature that
/// `Signature::from_str` reads from `text`, if it reads one.
pub uninterp spec fn signature_of(text: Seq<char>) -> Option<Seq<u8>>;

/// The 20-byte address of the key that signed the 32-byte `prehash` with
/// the 65-byte `signature`, if it can be recovered.
pub uninterp spec fn signer_of(signature: Seq<u8>, prehash: Seq<u8>) -> Option<Seq<u8>>;

/// The value of a hexadecimal digit of either case.
pub open spec fn hex_value(c: char) -> nat {
    if '0' <= c && c <= '9' {
        (c as u32 - 48) as nat
    } else if 'a' <= c && c <= 'f' {
        (c as u32 - 87) as nat
    } else {
        (c as u32 - 55) as nat
    }
}

/// `text` without a leading `0x` or `0X`.
pub open spec fn without_hex_prefix(text: Seq<char>) -> Seq<char> {
    if text.len() >= 2 && text[0] == '0' && (text[1] == 'x' || text[1] == 'X') {
        text.subrange(2, text.len() as int)
    } else {
        text
    }
}

/// The 20 bytes of the address that `Address::from_str` reads from `text`:
/// an optional `0x` or `0X`, then forty hexadecimal digits of either case,
/// two to a byte, most significant first.
pub open spec fn address_of(text: Seq<char>) -> Option<Seq<u8>> {
    let h = without_hex_prefix(text);
    if h.len() == 40 && (forall|i: int| 0 <= i < 40 ==> is_hex_char(#[trigger] h[i])) {
        Some(Seq::new(20, |i: int| (hex_value(h[2 * i]) * 16 + hex_value(h[2 * i + 1])) as u8))
    } else {
        None
    }
}

/// Relies on `alloy::primitives::keccak256`: the 32-byte Keccak-256 digest,
/// a function of the input alone.
#[verifier::external_body]
pub(crate) fn keccak256(data: &[u8]) -> (r: Vec<u8>)
    ensures
        r@ == keccak_of(data@),
        r@.len() == 32,
{
    alloy::primitives::keccak256(data).to_vec()
}

/// Relies on `Signature::from_str` (hex, optional `0x`, 65 bytes, a valid
/// recovery byte), handing the signature out through `Signature::as_bytes`.
#[verifier::external_body]
fn parse_signature(text: &str) -> (r: Option<Vec<u8>>)
    ensures
        r matches Some(b) ==> signature_of(text@) == Some(b@) && b@.len() == 65,
        r is None ==> signature_of(text@) is None,
{
    match <alloy::primitives::Signature as core::str::FromStr>::from_str(text) {
        Ok(sig) => Some(sig.as_bytes().to_vec()),
        Err(_) => None,
    }
}

/// Relies on `Signature::recover_address_from_prehash`, on the signature
/// that `Signature::from_raw` reads from the 65 bytes.
#[verifier::external_body]
fn recover_signer(signature: &[u8], prehash: &[u8]) -> (r: Option<Vec<u8>>)
    requires
        signature@.len() == 65,
        prehash@.len() == 32,
    ensures
        r matches Some(a) ==> signer_of(signature@, prehash@) == Some(a@) && a@.len() == 20,
        r is None ==> signer_of(signature@, prehash@) is None,
{
    match alloy::primitives::Signature::from_raw(signature) {
        Ok(sig) => match sig.recover_address_from_prehash(
            &alloy::primitives::B256::from_slice(prehash),
        ) {
            Ok(a) => Some(a.to_vec()),
            Err(_) => None,
        },
        Err(_) => None,
    }
}

/// Relies on `Address::from_str` (`const_hex::decode_to_array`: optional
/// `0x` or `0X`, then exactly forty hex digits): the 20 bytes of the address.
#[verifier::external_body]
fn parse_address(text: &str) -> (r: Option<Vec<u8>>)
    ensures
        r matches Some(a) ==> address_of(text@) == Some(a@) && a@.len() == 20,
        r is None ==> address_of(text@) is None,
{
    match <alloy::primitives::Address as core::str::FromStr>::from_str(text) {
        Ok(a) => Some(a.to_vec()),
        Err(_) => None,
    }
}

/// Why a request's signature does not authorize it.
#[derive(Clone, Copy, Debug, PartialEq, Eq, Structural)]
pub enum AuthError {
    /// The timestamp stands this many seconds from the server's clock.
    TimestampDrift(u64),
    BadSignatureFormat,
    RecoveryFailed,
    BadAddressFormat,
    AddressMismatch,
}

/// The distance between two readings of the clock.
pub open spec fn abs_diff(a: u64, b: u64) -> u64 {
    if a >= b {
        (a - b) as u64
    } else {
        (b - a) as u64
    }
}

/// The message a request signs: the address exactly as sent, the timestamp
/// in decimal, and the lower-case hex of the Keccak-256 digest of the body.
pub open spec fn auth_message(address: Seq<char>, timestamp: u64, body: Seq<u8>) -> Seq<char> {
    address + decimal(timestamp as nat) + hex_lower(keccak_of(body))
}

/// The 32 bytes that are signed: the digest of the UTF-8 form of the message.
pub open spec fn auth_digest(address: Seq<char>, timestamp: u64, body: Seq<u8>) -> Seq<u8> {
    keccak_of(encode_utf8(auth_message(address, timestamp, body)))
}

/// The verdict on a request signed by `signature` for `address`, `timestamp`
/// and `body`, judged at `now`.
pub open spec fn auth_verdict(
    address: Seq<char>,
    signature: Seq<char>,
    timestamp: u64,
    body: Seq<u8>,
    now: u64,
) -> Result<(), AuthError> {
    if abs_diff(now, timestamp) > TIMESTAMP_WINDOW_SECS {
        Err(AuthError::TimestampDrift(abs_diff(now, timestamp)))
    } else {
        match signature_of(signature) {
            None => Err(AuthError::BadSignatureFormat),
            Some(sig) => match signer_of(sig, auth_digest(address, timestamp, body)) {
                None => Err(AuthError::RecoveryFailed),
                Some(signer) => match address_of(address) {
                    None => Err(AuthError::BadAddressFormat),
                    Some(claimed) => if signer == claimed {
                        Ok(())
                    } else {
                        Err(AuthError::AddressMismatch)
                    },
                },
            },
        }
    }
}

/// The message that a request for `address` at `timestamp` with `body`
/// signs.
pub fn signed_message(address: &str, timestamp: u64, body: &[u8]) -> (r: String)
    ensures
        r@ == auth_message(address@, timestamp, body@),
{
    let body_hash = keccak256(body);
    let hash_hex = hex_encode(body_hash.as_slice());
    let ts = decimal_string(timestamp);
    let mut message = address.to_string();
    message.append(ts.as_str());
    message.append(hash_hex.as_str());
    message
}

/// The 32-byte digest that a request for `address` at `timestamp` with
/// `body` signs; the client signs it and the server recovers from it.
pub fn request_digest(address: &str, timestamp: u64, body: &[u8]) -> (r: Vec<u8>)
    ensures
        r@ == auth_digest(address@, timestamp, body@),
        r@.len() == 32,
{
    let message = signed_message(address, timestamp, body);
    keccak256(message.as_str().as_bytes())
}

fn same_bytes(a: &[u8], b: &[u8]) -> (r: bool)
    ensures
        r == (a@ == b@),
{
    if a.len() != b.len() {
        return false;
    }
    let mut i: usize = 0;
    while i < a.len()
        invariant
            a@.len() == b@.len(),
            i <= a@.len(),
            forall|j: int| 0 <= j < i ==> a@[j] == b@[j],
        decreases a@.len() - i,
    {
        if a[i] != b[i] {
            return false;
        }
        i += 1;
    }
    assert(a@ =~= b@);
    true
}

/// Decides whether `signature` authorizes a request for `address` at
/// `timestamp` with `body`, judged at `now` (unix seconds): the timestamp
/// must be within the window, and the key recovered from the signature over
/// the request digest must be the address's.
pub fn verify_signature(
    address: &str,
    signature: &str,
    timestamp: u64,
    body: &[u8],
    now: u64,
) -> (r: Result<(), AuthError>)
    ensures
        r == auth_verdict(address@, signature@, timestamp, body@, now),
{
    let drift = if now >= timestamp {
        now - timestamp
    } else {
        timestamp - now
    };
    if drift > TIMESTAMP_WINDOW_SECS {
        return Err(AuthError::TimestampDrift(drift));
    }
    let digest = request_digest(address, timestamp, body);
    let sig = match parse_signature(signature) {
        Some(s) => s,
        None => return Err(AuthError::BadSignatureFormat),
    };
    let signer = match recover_signer(sig.as_slice(), digest.as_slice()) {
        Some(a) => a,
        None => return Err(AuthError::RecoveryFailed),
    };
    let claimed = match parse_address(address) {
        Some(a) => a,
        None => return Err(AuthError::BadAddressFormat),
    };
    if same_bytes(signer.as_slice(), claimed.as_slice()) {
        Ok(())
    } else {
        Err(AuthError::AddressMismatch)
    }
}

/// A request is accepted exactly when its timestamp stands within 60 s of
/// the server's clock (a drift of 60 s passes, 61 s does not), its signature
/// and address are well formed, and the key recovered from the signature
/// over the request digest is the address's.
pub proof fn lemma_accepts_exactly_signer_in_window(
    address: Seq<char>,
    signature: Seq<char>,
    timestamp: u64,
    body: Seq<u8>,
    now: u64,
)
    ensures
        auth_verdict(address, signature, timestamp, body, now) is Ok <==> {
            &&& abs_diff(now, timestamp) <= TIMESTAMP_WINDOW_SECS
            &&& signature_of(signature) is Some
            &&& address_of(address) is Some
            &&& signer_of(signature_of(signature)->Some_0, auth_digest(address, timestamp, body))
                == address_of(address)
        },
        abs_diff(now, timestamp) > TIMESTAMP_WINDOW_SECS ==> auth_verdict(
            address,
            signature,
            timestamp,
            body,
            now,
        ) == Err::<(), AuthError>(AuthError::TimestampDrift(abs_diff(now, timestamp))),
{
}

} // verus!
