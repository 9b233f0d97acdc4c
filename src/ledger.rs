use vstd::prelude::*;

verus! {

/// One account of the ledger: its balance in micro-units of the settlement
/// asset (10^-6 USDC) and the unix time of its last successful debit.
#[derive(Clone, Copy, Debug, PartialEq, Eq, Structural)]
pub struct UserData {
    pub balance: u64,
    pub latest_timestamp: u64,
}

impl UserData {
    pub fn new(balance: u64, timestamp: u64) -> (r: UserData)
        ensures
            r.balance == balance,
            r.latest_timestamp == timestamp,
    {
        UserData { balance, latest_timestamp: timestamp }
    }
}

/// What a ledger operation can fail with.
#[derive(Debug, PartialEq, Eq)]
pub enum DatabaseError {
    /// The embedded store failed.
    RocksDB(String),
    /// The remote store failed.
    DynamoDB(String),
    /// A stored record could not be read back.
    Serialization(String),
    /// A debit asked for more than the balance holds.
    InsufficientBalance { has: u64, need: u64 },
    /// A credit would take the balance past the largest amount a record holds.
    BalanceOverflow { has: u64, add: u64 },
    /// A remote record lacks an attribute.
    AttributeNotFound(String),
    /// A remote attribute does not hold a number.
    ParseError(String),
}

/// The record of an account that was never written.
pub open spec fn fresh_record() -> UserData {
    UserData { balance: 0, latest_timestamp: 0 }
}

/// The record held for `key`, or a fresh one.
pub open spec fn record_or_fresh(ledger: Map<Seq<char>, UserData>, key: Seq<char>) -> UserData {
    if ledger.contains_key(key) {
        ledger[key]
    } else {
        fresh_record()
    }
}

/// A credit of `amount` fits in the balance of `prev`.
pub open spec fn credit_fits(prev: UserData, amount: u64) -> bool {
    prev.balance + amount <= u64::MAX
}

/// `prev` after a credit of `amount`; its timestamp is kept.
pub open spec fn after_credit(prev: UserData, amount: u64) -> UserData {
    UserData { balance: (prev.balance + amount) as u64, latest_timestamp: prev.latest_timestamp }
}

/// A debit of `amount` is covered by the balance of `prev`.
pub open spec fn debit_allowed(prev: UserData, amount: u64) -> bool {
    prev.balance >= amount
}

/// `prev` after a debit of `amount` at `timestamp`.
pub open spec fn after_debit(prev: UserData, amount: u64, timestamp: u64) -> UserData {
    UserData { balance: (prev.balance - amount) as u64, latest_timestamp: timestamp }
}

/// Adds `amount` to `prev`, failing when the sum does not fit.
pub fn credit_record(prev: UserData, amount: u64) -> (r: Result<UserData, DatabaseError>)
    ensures
        credit_fits(prev, amount) ==> r == Ok::<UserData, DatabaseError>(after_credit(prev, amount)),
        !credit_fits(prev, amount) ==> r == Err::<UserData, DatabaseError>(
            DatabaseError::BalanceOverflow { has: prev.balance, add: amount },
        ),
{
    if prev.balance > u64::MAX - amount {
        Err(DatabaseError::BalanceOverflow { has: prev.balance, add: amount })
    } else {
        Ok(UserData { balance: prev.balance + amount, latest_timestamp: prev.latest_timestamp })
    }
}

/// Takes `amount` from `prev` and stamps it with `timestamp`, failing when
/// the balance does not cover it.
pub fn debit_record(prev: UserData, amount: u64, timestamp: u64) -> (r: Result<
    UserData,
    DatabaseError,
>)
    ensures
        debit_allowed(prev, amount) ==> r == Ok::<UserData, DatabaseError>(
            after_debit(prev, amount, timestamp),
        ),
        !debit_allowed(prev, amount) ==> r == Err::<UserData, DatabaseError>(
            DatabaseError::InsufficientBalance { has: prev.balance, need: amount },
        ),
{
    if prev.balance < amount {
        Err(DatabaseError::InsufficientBalance { has: prev.balance, need: amount })
    } else {
        Ok(UserData { balance: prev.balance - amount, latest_timestamp: timestamp })
    }
}

/// One operation on an account.
pub enum LedgerOp {
    Credit { amount: u64 },
    Debit { amount: u64, timestamp: u64 },
}

/// The record after `op`; an operation that fails leaves it as it was.
pub open spec fn apply_op(r: UserData, op: LedgerOp) -> UserData {
    match op {
        LedgerOp::Credit { amount } => if credit_fits(r, amount) {
            after_credit(r, amount)
        } else {
            r
        },
        LedgerOp::Debit { amount, timestamp } => if debit_allowed(r, amount) {
            after_debit(r, amount, timestamp)
        } else {
            r
        },
    }
}

/// The record after `ops`, in order.
pub open spec fn apply_ops(r: UserData, ops: Seq<LedgerOp>) -> UserData
    decreases ops.len(),
{
    if ops.len() == 0 {
        r
    } else {
        apply_op(apply_ops(r, ops.drop_last()), ops.last())
    }
}

/// Sum of the credits among `ops` that took effect.
pub open spec fn credited_total(r: UserData, ops: Seq<LedgerOp>) -> int
    decreases ops.len(),
{
    if ops.len() == 0 {
        0
    } else {
        let before = apply_ops(r, ops.drop_last());
        credited_total(r, ops.drop_last()) + match ops.last() {
            LedgerOp::Credit { amount } => if credit_fits(before, amount) {
                amount as int
            } else {
                0
            },
            LedgerOp::Debit { .. } => 0,
        }
    }
}

/// Sum of the debits among `ops` that took effect.
pub open spec fn debited_total(r: UserData, ops: Seq<LedgerOp>) -> int
    decreases ops.len(),
{
    if ops.len() == 0 {
        0
    } else {
        let before = apply_ops(r, ops.drop_last());
        debited_total(r, ops.drop_last()) + match ops.last() {
            LedgerOp::Debit { amount, .. } => if debit_allowed(before, amount) {
                amount as int
            } else {
                0
            },
            LedgerOp::Credit { .. } => 0,
        }
    }
}

/// Number of debits among `ops` that took effect.
pub open spec fn debit_successes(r: UserData, ops: Seq<LedgerOp>) -> nat
    decreases ops.len(),
{
    if ops.len() == 0 {
        0
    } else {
        let before = apply_ops(r, ops.drop_last());
        debit_successes(r, ops.drop_last()) + match ops.last() {
            LedgerOp::Debit { amount, .. } => if debit_allowed(before, amount) {
                1nat
            } else {
                0nat
            },
            LedgerOp::Credit { .. } => 0nat,
        }
    }
}

proof fn lemma_balance_equation(r: UserData, ops: Seq<LedgerOp>)
    ensures
        apply_ops(r, ops).balance == r.balance + credited_total(r, ops) - debited_total(r, ops),
    decreases ops.len(),
{
    if ops.len() > 0 {
        lemma_balance_equation(r, ops.drop_last());
    }
}

/// After any sequence of credits and debits on one account, the balance is
/// the starting balance plus the credits minus the debits that succeeded,
/// and so is the balance after every prefix of the sequence; none of these
/// balances is negative.
pub proof fn lemma_balance_accounts_for_ops(r: UserData, ops: Seq<LedgerOp>)
    ensures
        apply_ops(r, ops).balance == r.balance + credited_total(r, ops) - debited_total(r, ops),
        forall|i: int|
            0 <= i <= ops.len() ==> {
                let prefix = #[trigger] ops.subrange(0, i);
                &&& apply_ops(r, prefix).balance == r.balance + credited_total(r, prefix)
                    - debited_total(r, prefix)
                &&& r.balance + credited_total(r, prefix) - debited_total(r, prefix) >= 0
            },
{
    lemma_balance_equation(r, ops);
    assert forall|i: int| 0 <= i <= ops.len() implies {
        let prefix = #[trigger] ops.subrange(0, i);
        &&& apply_ops(r, prefix).balance == r.balance + credited_total(r, prefix)
            - debited_total(r, prefix)
        &&& r.balance + credited_total(r, prefix) - debited_total(r, prefix) >= 0
    } by {
        lemma_balance_equation(r, ops.subrange(0, i));
    }
}

/// The operation is a debit of `amount`.
pub open spec fn is_debit_of(op: LedgerOp, amount: u64) -> bool {
    match op {
        LedgerOp::Debit { amount: a, .. } => a == amount,
        LedgerOp::Credit { .. } => false,
    }
}

/// Every operation of `ops` is a debit of `amount`.
pub open spec fn all_debits_of(ops: Seq<LedgerOp>, amount: u64) -> bool {
    forall|i: int| 0 <= i < ops.len() ==> is_debit_of(#[trigger] ops[i], amount)
}

proof fn lemma_repeated_debits(r: UserData, ops: Seq<LedgerOp>, amount: u64)
    requires
        amount > 0,
        all_debits_of(ops, amount),
    ensures
        ({
            let q = (r.balance as int) / (amount as int);
            let k = if ops.len() <= q { ops.len() as int } else { q };
            &&& debit_successes(r, ops) == k
            &&& apply_ops(r, ops).balance == r.balance - k * amount
        }),
    decreases ops.len(),
{
    assert((r.balance as int) / (amount as int) >= 0) by (nonlinear_arith)
        requires amount > 0;
    if ops.len() > 0 {
        let init = ops.drop_last();
        assert forall|i: int| 0 <= i < init.len() implies is_debit_of(#[trigger] init[i], amount) by {
            assert(init[i] == ops[i]);
        }
        lemma_repeated_debits(r, init, amount);
        let q = (r.balance as int) / (amount as int);
        let b = r.balance as int;
        let a = amount as int;
        assert(is_debit_of(ops[ops.len() - 1], amount));
        assert(b - q * a < a && b - q * a >= 0) by (nonlinear_arith)
            requires q == b / a, a > 0, b >= 0;
        let before = apply_ops(r, init);
        assert(ops.drop_last() == init);
        if init.len() < q {
            assert(b - init.len() * a >= a) by (nonlinear_arith)
                requires init.len() < q, q * a <= b, a > 0;
            assert((init.len() + 1) * a == init.len() * a + a) by (nonlinear_arith);
            assert(debit_allowed(before, amount));
            assert(apply_ops(r, ops) == after_debit(before, amount, ops.last()->timestamp));
            assert(debit_successes(r, ops) == debit_successes(r, init) + 1);
            assert(debit_successes(r, ops) == ops.len());
            assert(apply_ops(r, ops).balance == b - ops.len() * a);
        } else {
            assert(before.balance == b - q * a);
            assert(!debit_allowed(before, amount));
            assert(apply_ops(r, ops) == before);
            assert(debit_successes(r, ops) == debit_successes(r, init));
            assert(debit_successes(r, ops) == q);
            assert(apply_ops(r, ops).balance == b - q * a);
        }
        match ops.last() {
            LedgerOp::Debit { amount: x, timestamp } => {
                assert(x == amount);
            },
            LedgerOp::Credit { .. } => {
                assert(false);
            },
        }
    }
}

/// N debits of `amount` against a balance B with N * amount > B, applied in
/// any linear order: exactly B / amount of them succeed, the others fail
/// for want of balance, and B mod amount is left.
pub proof fn lemma_debits_exhaust_balance(r: UserData, ops: Seq<LedgerOp>, amount: u64)
    requires
        amount > 0,
        all_debits_of(ops, amount),
        ops.len() * amount > r.balance,
    ensures
        debit_successes(r, ops) == r.balance / amount,
        ops.len() - debit_successes(r, ops) == ops.len() - r.balance / amount,
        apply_ops(r, ops).balance == r.balance % amount,
{
    lemma_repeated_debits(r, ops, amount);
    let q = (r.balance as int) / (amount as int);
    let b = r.balance as int;
    let a = amount as int;
    assert(q < ops.len()) by (nonlinear_arith)
        requires q == b / a, a > 0, b >= 0, ops.len() * a > b;
    assert(b - q * a == b % a) by (nonlinear_arith)
        requires q == b / a, a > 0, b >= 0;
}

} // verus!
