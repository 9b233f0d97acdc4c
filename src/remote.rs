use vstd::prelude::*;

use crate::ledger::{DatabaseError, UserData};
use crate::text::{
    decimal, decimal_digit, decimal_string, digits_value, is_digit, parse_u64, parse_u64_spec,
    unsigned_body,
};

verus! {

/// A record as the remote store holds it: one item per address, each field
/// an attribute, numbers as decimal strings.
pub struct RecordAttributes {
    pub address: String,
    pub balance: String,
    pub latest_timestamp: String,
}

/// The attributes that store `data` under the key `address`.
pub fn record_attributes(address: &str, data: &UserData) -> (r: RecordAttributes)
    ensures
        r.address@ == address@,
        r.balance@ == decimal(data.balance as nat),
        r.latest_timestamp@ == decimal(data.latest_timestamp as nat),
{
    RecordAttributes {
        address: address.to_string(),
        balance: decimal_string(data.balance),
        latest_timestamp: decimal_string(data.latest_timestamp),
    }
}

/// Reads a record back from its `balance` and `latest_timestamp`
/// attributes; an attribute that is missing or not a number is reported as
/// not found, the balance first.
pub fn record_from_attributes(balance: Option<&str>, latest_timestamp: Option<&str>) -> (r: Result<
    UserData,
    DatabaseError,
>)
    ensures
        match (balance, latest_timestamp) {
            (Some(b), Some(t)) if parse_u64_spec(b@) is Some && parse_u64_spec(t@) is Some => r
                == Ok::<UserData, DatabaseError>(
                UserData {
                    balance: parse_u64_spec(b@)->Some_0,
                    latest_timestamp: parse_u64_spec(t@)->Some_0,
                },
            ),
            (Some(b), _) if parse_u64_spec(b@) is Some => r matches Err(
                DatabaseError::AttributeNotFound(name),
            ) && name@ == "latest_timestamp"@,
            _ => r matches Err(DatabaseError::AttributeNotFound(name)) && name@ == "balance"@,
        },
{
    let b = match balance {
        Some(text) => parse_u64(text),
        None => None,
    };
    let b = match b {
        Some(v) => v,
        None => return Err(DatabaseError::AttributeNotFound("balance".to_string())),
    };
    let t = match latest_timestamp {
        Some(text) => parse_u64(text),
        None => None,
    };
    match t {
        Some(v) => Ok(UserData { balance: b, latest_timestamp: v }),
        None => Err(DatabaseError::AttributeNotFound("latest_timestamp".to_string())),
    }
}

/// The returned balance, read as a number, or the missing-attribute error.
fn returned_balance_value(returned_balance: Option<&str>) -> (r: Result<u64, DatabaseError>)
    ensures
        match returned_balance {
            Some(b) if parse_u64_spec(b@) is Some => r == Ok::<u64, DatabaseError>(
                parse_u64_spec(b@)->Some_0,
            ),
            _ => r matches Err(DatabaseError::AttributeNotFound(n)) && n@ == "balance"@,
        },
{
    let parsed = match returned_balance {
        Some(b) => parse_u64(b),
        None => None,
    };
    match parsed {
        Some(v) => Ok(v),
        None => Err(DatabaseError::AttributeNotFound("balance".to_string())),
    }
}

/// The outcome of a remote debit, a conditional update guarded by
/// `balance >= amount`, from what the store answered: a failed guard is an
/// insufficient balance; any other store error is passed on; otherwise the
/// new balance that the store returned is read.
pub fn remote_debit_result(
    amount: u64,
    guard_failed: bool,
    store_error: Option<&str>,
    returned_balance: Option<&str>,
) -> (r: Result<u64, DatabaseError>)
    ensures
        guard_failed ==> (r matches Err(DatabaseError::InsufficientBalance { need, .. }) && need
            == amount),
        !guard_failed && store_error is Some ==> (r matches Err(DatabaseError::DynamoDB(m)) && m@
            == store_error->Some_0@),
        !guard_failed && store_error is None ==> match returned_balance {
            Some(b) if parse_u64_spec(b@) is Some => r == Ok::<u64, DatabaseError>(
                parse_u64_spec(b@)->Some_0,
            ),
            _ => r matches Err(DatabaseError::AttributeNotFound(n)) && n@ == "balance"@,
        },
{
    if guard_failed {
        // The store does not tell the balance it refused.
        return Err(DatabaseError::InsufficientBalance { has: 0, need: amount });
    }
    match store_error {
        Some(e) => Err(DatabaseError::DynamoDB(e.to_string())),
        None => returned_balance_value(returned_balance),
    }
}

/// The outcome of a remote credit, an unconditional update that adds to the
/// balance, from what the store answered: a store error is passed on;
/// otherwise the new balance that the store returned is read.
pub fn remote_credit_result(store_error: Option<&str>, returned_balance: Option<&str>) -> (r: Result<
    u64,
    DatabaseError,
>)
    ensures
        store_error is Some ==> (r matches Err(DatabaseError::DynamoDB(m)) && m@
            == store_error->Some_0@),
        store_error is None ==> match returned_balance {
            Some(b) if parse_u64_spec(b@) is Some => r == Ok::<u64, DatabaseError>(
                parse_u64_spec(b@)->Some_0,
            ),
            _ => r matches Err(DatabaseError::AttributeNotFound(n)) && n@ == "balance"@,
        },
{
    match store_error {
        Some(e) => Err(DatabaseError::DynamoDB(e.to_string())),
        None => returned_balance_value(returned_balance),
    }
}

/// The outcome of a remote read, from what the store answered: a store
/// error is passed on, a missing item is no record, and a found item is read
/// from its attributes.
pub fn remote_get_result(
    store_error: Option<&str>,
    item_found: bool,
    balance: Option<&str>,
    latest_timestamp: Option<&str>,
) -> (r: Result<Option<UserData>, DatabaseError>)
    ensures
        store_error is Some ==> (r matches Err(DatabaseError::DynamoDB(m)) && m@
            == store_error->Some_0@),
        store_error is None && !item_found ==> r == Ok::<Option<UserData>, DatabaseError>(None),
        store_error is None && item_found ==> match (balance, latest_timestamp) {
            (Some(b), Some(t)) if parse_u64_spec(b@) is Some && parse_u64_spec(t@) is Some => r
                == Ok::<Option<UserData>, DatabaseError>(
                Some(
                    UserData {
                        balance: parse_u64_spec(b@)->Some_0,
                        latest_timestamp: parse_u64_spec(t@)->Some_0,
                    },
                ),
            ),
            _ => r is Err,
        },
{
    match store_error {
        Some(e) => Err(DatabaseError::DynamoDB(e.to_string())),
        None => if !item_found {
            Ok(None)
        } else {
            match record_from_attributes(balance, latest_timestamp) {
                Ok(u) => Ok(Some(u)),
                Err(e) => Err(e),
            }
        },
    }
}

proof fn lemma_decimal_digits(n: nat)
    ensures
        decimal(n).len() > 0,
        forall|i: int| 0 <= i < decimal(n).len() ==> is_digit(#[trigger] decimal(n)[i]),
        digits_value(decimal(n)) == n,
    decreases n,
{
    if n < 10 {
        assert(decimal(n) == seq![decimal_digit(n)]);
        assert(decimal(n).drop_last() =~= Seq::<char>::empty());
        assert(((decimal_digit(n) as u32 - 48) as nat) == n);
        assert(digits_value(decimal(n).drop_last()) == 0);
        assert(decimal(n).last() == decimal_digit(n));
    } else {
        lemma_decimal_digits(n / 10);
        let d = n % 10;
        assert(decimal(n).drop_last() =~= decimal(n / 10));
        assert(((decimal_digit(d) as u32 - 48) as nat) == d);
        assert(decimal(n).last() == decimal_digit(d));
        assert((n / 10) * 10 + n % 10 == n);
        assert(digits_value(decimal(n)) == digits_value(decimal(n / 10)) * 10 + d);
        assert forall|i: int| 0 <= i < decimal(n).len() implies is_digit(#[trigger] decimal(n)[i]) by {
            if i < decimal(n / 10).len() {
                assert(decimal(n)[i] == decimal(n / 10)[i]);
            }
        }
    }
}

/// Reading back the decimal form of a number gives the number.
pub proof fn lemma_decimal_round_trip(n: u64)
    ensures
        parse_u64_spec(decimal(n as nat)) == Some(n),
{
    lemma_decimal_digits(n as nat);
    assert(is_digit(decimal(n as nat)[0]));
    assert(unsigned_body(decimal(n as nat)) == decimal(n as nat));
}

/// Reading back the attributes that store a record gives the record.
pub proof fn lemma_attributes_round_trip(data: UserData)
    ensures
        parse_u64_spec(decimal(data.balance as nat)) == Some(data.balance),
        parse_u64_spec(decimal(data.latest_timestamp as nat)) == Some(data.latest_timestamp),
{
    lemma_decimal_round_trip(data.balance);
    lemma_decimal_round_trip(data.latest_timestamp);
}

} // verus!
