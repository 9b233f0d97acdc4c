use vstd::prelude::*;

use crate::ledger::{DatabaseError, UserData};

verus! {

/// The eight bytes of `x`, least significant first.
pub open spec fn le_bytes(x: u64) -> Seq<u8> {
    seq![
        (x & 0xff) as u8,
        ((x >> 8u64) & 0xff) as u8,
        ((x >> 16u64) & 0xff) as u8,
        ((x >> 24u64) & 0xff) as u8,
        ((x >> 32u64) & 0xff) as u8,
        ((x >> 40u64) & 0xff) as u8,
        ((x >> 48u64) & 0xff) as u8,
        ((x >> 56u64) & 0xff) as u8,
    ]
}

/// The number whose eight bytes, least significant first, open `b`.
pub open spec fn le_value(b: Seq<u8>) -> u64
    recommends
        b.len() >= 8,
{
    (b[0] as u64) | ((b[1] as u64) << 8u64) | ((b[2] as u64) << 16u64) | ((b[3] as u64) << 24u64)
        | ((b[4] as u64) << 32u64) | ((b[5] as u64) << 40u64) | ((b[6] as u64) << 48u64) | ((
    b[7] as u64) << 56u64)
}

/// The stored form of a record: the balance, then the timestamp, each as
/// eight little-endian bytes.
pub open spec fn record_bytes(u: UserData) -> Seq<u8> {
    le_bytes(u.balance) + le_bytes(u.latest_timestamp)
}

/// The record that the stored bytes `b` (at least sixteen) hold.
pub open spec fn record_of_bytes(b: Seq<u8>) -> UserData
    recommends
        b.len() >= 16,
{
    UserData {
        balance: le_value(b.subrange(0, 8)),
        latest_timestamp: le_value(b.subrange(8, 16)),
    }
}

/// Relies on `bincode::serialize` (fixed-width integers, little endian, no
/// size limit): a pair of `u64` is written as the eight bytes of the first,
/// then the eight bytes of the second, and writing it cannot fail.
#[verifier::external_body]
fn bincode_encode_pair(first: u64, second: u64) -> (r: Vec<u8>)
    ensures
        r@ == le_bytes(first) + le_bytes(second),
{
    match bincode::serialize(&(first, second)) {
        Ok(v) => v,
        Err(_) => Vec::new(),
    }
}

/// Relies on `bincode::deserialize` (fixed-width integers, little endian,
/// trailing bytes allowed): a pair of `u64` is read from the first sixteen
/// bytes, and reading fails exactly when fewer are given.
#[verifier::external_body]
fn bincode_decode_pair(bytes: &[u8]) -> (r: Option<(u64, u64)>)
    ensures
        r is Some <==> bytes@.len() >= 16,
        r matches Some(p) ==> p.0 == le_value(bytes@.subrange(0, 8)) && p.1 == le_value(
            bytes@.subrange(8, 16),
        ),
{
    bincode::deserialize::<(u64, u64)>(bytes).ok()
}

/// The stored form of `data`.
pub fn encode_user(data: &UserData) -> (r: Vec<u8>)
    ensures
        r@ == record_bytes(*data),
{
    bincode_encode_pair(data.balance, data.latest_timestamp)
}

/// Reads a record back from its stored form.
pub fn decode_user(bytes: &[u8]) -> (r: Result<UserData, DatabaseError>)
    ensures
        bytes@.len() >= 16 ==> r == Ok::<UserData, DatabaseError>(record_of_bytes(bytes@)),
        bytes@.len() < 16 ==> r is Err && r->Err_0 is Serialization,
{
    match bincode_decode_pair(bytes) {
        Some(p) => Ok(UserData { balance: p.0, latest_timestamp: p.1 }),
        None => Err(DatabaseError::Serialization("stored record is shorter than 16 bytes".to_string())),
    }
}

proof fn lemma_le_round_trip(x: u64)
    ensures
        le_value(le_bytes(x)) == x,
{
    let b = le_bytes(x);
    let b0 = b[0];
    let b1 = b[1];
    let b2 = b[2];
    let b3 = b[3];
    let b4 = b[4];
    let b5 = b[5];
    let b6 = b[6];
    let b7 = b[7];
    assert((b0 as u64) | ((b1 as u64) << 8u64) | ((b2 as u64) << 16u64) | ((b3 as u64) << 24u64)
        | ((b4 as u64) << 32u64) | ((b5 as u64) << 40u64) | ((b6 as u64) << 48u64) | ((b7 as u64)
        << 56u64) == x) by (bit_vector)
        requires
            b0 == (x & 0xff) as u8,
            b1 == ((x >> 8u64) & 0xff) as u8,
            b2 == ((x >> 16u64) & 0xff) as u8,
            b3 == ((x >> 24u64) & 0xff) as u8,
            b4 == ((x >> 32u64) & 0xff) as u8,
            b5 == ((x >> 40u64) & 0xff) as u8,
            b6 == ((x >> 48u64) & 0xff) as u8,
            b7 == ((x >> 56u64) & 0xff) as u8,
    ;
}

/// Reading back the stored form of a record gives the record: the stored
/// form is sixteen bytes, and decoding them is the identity on records.
pub proof fn lemma_record_round_trip(u: UserData)
    ensures
        record_bytes(u).len() == 16,
        record_of_bytes(record_bytes(u)) == u,
{
    let b = record_bytes(u);
    lemma_le_round_trip(u.balance);
    lemma_le_round_trip(u.latest_timestamp);
    assert(b.subrange(0, 8) =~= le_bytes(u.balance));
    assert(b.subrange(8, 16) =~= le_bytes(u.latest_timestamp));
}

} // verus!
