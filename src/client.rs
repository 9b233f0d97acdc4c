use vstd::prelude::*;

use crate::auth::{auth_digest, request_digest};
use crate::pipeline::AuthHeaders;
use crate::text::{hex_encode, hex_lower};

verus! {

/// The text of the address of the secret key `key`, if it is one.
pub uninterp spec fn key_address_text(key: Seq<u8>) -> Option<Seq<char>>;

/// The 65-byte signature (r, s, then v) that the secret key `key` gives the
/// 32-byte `prehash`, if `key` is a secret key; signing is deterministic
/// (RFC 6979).
pub uninterp spec fn prehash_signature(key: Seq<u8>, prehash: Seq<u8>) -> Option<Seq<u8>>;

/// Relies on `PrivateKeySigner::from_slice`, `LocalSigner::address` and the
/// `Display` of `Address`: the text of the address of the secret key
/// `key`, or `None` when the bytes are not a valid secret key.
#[verifier::external_body]
fn signer_address_text(key: &[u8]) -> (r: Option<String>)
    ensures
        r matches Some(t) ==> key_address_text(key@) == Some(t@),
        r is None ==> key_address_text(key@) is None,
{
    match alloy::signers::local::PrivateKeySigner::from_slice(key) {
        Ok(signer) => Some(signer.address().to_string()),
        Err(_) => None,
    }
}

/// Relies on `SignerSync::sign_hash_sync` of the local signer that
/// `PrivateKeySigner::from_slice` makes of `key`, handing the signature out
/// through `Signature::as_bytes` (r, s, then v).
#[verifier::external_body]
fn sign_prehash(key: &[u8], prehash: &[u8]) -> (r: Option<Vec<u8>>)
    requires
        prehash@.len() == 32,
    ensures
        r matches Some(b) ==> prehash_signature(key@, prehash@) == Some(b@) && b@.len() == 65,
        r is None ==> prehash_signature(key@, prehash@) is None,
{
    match alloy::signers::local::PrivateKeySigner::from_slice(key) {
        Ok(signer) => match alloy::signers::SignerSync::sign_hash_sync(
            &signer,
            &alloy::primitives::B256::from_slice(prehash),
        ) {
            Ok(sig) => Some(sig.as_bytes().to_vec()),
            Err(_) => None,
        },
        Err(_) => None,
    }
}

/// The headers that carry `signature` (65 bytes) for `address` at
/// `timestamp`: the signature is sent as `0x` and lower-case hex.
pub fn auth_headers(address: &str, signature: &[u8], timestamp: u64) -> (r: AuthHeaders)
    ensures
        r.address@ == address@,
        r.signature@ == "0x"@ + hex_lower(signature@),
        r.timestamp == timestamp,
{
    let mut text = "0x".to_string();
    let hex = hex_encode(signature);
    text.append(hex.as_str());
    AuthHeaders { address: address.to_string(), signature: text, timestamp }
}

/// Signs a call with `body` at `timestamp` with the secret key `key`: the
/// key's address as text, the request digest over that text, and the
/// headers that carry the signature. `None` when the key is refused.
pub fn sign_request(key: &[u8], body: &[u8], timestamp: u64) -> (r: Option<AuthHeaders>)
    ensures
        match key_address_text(key@) {
            None => r is None,
            Some(address) => match prehash_signature(
                key@,
                auth_digest(address, timestamp, body@),
            ) {
                None => r is None,
                Some(sig) => r matches Some(h) && h.address@ == address && h.signature@ == "0x"@
                    + hex_lower(sig) && h.timestamp == timestamp,
            },
        },
{
    let address = match signer_address_text(key) {
        Some(a) => a,
        None => return None,
    };
    let digest = request_digest(address.as_str(), timestamp, body);
    match sign_prehash(key, digest.as_slice()) {
        Some(sig) => {
            Some(auth_headers(address.as_str(), sig.as_slice(), timestamp))
        },
        None => None,
    }
}

} // verus!
