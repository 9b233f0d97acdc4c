use vstd::prelude::*;

use crate::codec::{decode_user, encode_user, lemma_record_round_trip, record_bytes};
use crate::ledger::{
    after_credit, after_debit, credit_fits, credit_record, debit_allowed, debit_record,
    record_or_fresh, DatabaseError, UserData,
};
use crate::text::{lower_of, to_lowercase};

verus! {

/// One stored account: its key (the lower-cased address) and the record in
/// its stored form.
pub struct StoredRecord {
    key: String,
    value: Vec<u8>,
}

/// The balance ledger: one record per lower-cased address, kept in its
/// stored binary form. Each method runs as one step, so callers that share
/// a ledger behind a lock get per-address linearizable credits and debits.
pub struct Database {
    records: Vec<StoredRecord>,
    ledger: Ghost<Map<Seq<char>, UserData>>,
}

impl View for Database {
    type V = Map<Seq<char>, UserData>;

    closed spec fn view(&self) -> Map<Seq<char>, UserData> {
        self.ledger@
    }
}

impl Database {
    /// Each stored record is the encoding of the record the ledger holds
    /// for its key, and each key is stored once.
    pub closed spec fn wf(&self) -> bool {
        &&& forall|i: int|
            0 <= i < self.records@.len() ==> #[trigger] self.ledger@.contains_key(
                self.records@[i].key@,
            ) && self.records@[i].value@ == record_bytes(self.ledger@[self.records@[i].key@])
        &&& forall|k: Seq<char>|
            #[trigger] self.ledger@.contains_key(k) ==> exists|i: int|
                0 <= i < self.records@.len() && #[trigger] self.records@[i].key@ == k
        &&& forall|i: int, j: int|
            0 <= i < j < self.records@.len() ==> self.records@[i].key@ != self.records@[j].key@
    }

    /// An empty ledger.
    pub fn new() -> (r: Database)
        ensures
            r.wf(),
            r@ == Map::<Seq<char>, UserData>::empty(),
    {
        Database { records: Vec::new(), ledger: Ghost(Map::empty()) }
    }

    fn find(&self, key: &String) -> (r: Option<usize>)
        requires
            self.wf(),
        ensures
            r matches Some(i) ==> i < self.records@.len() && self.records@[i as int].key@ == key@,
            r is None ==> !self@.contains_key(key@),
    {
        let mut i: usize = 0;
        while i < self.records.len()
            invariant
                self.wf(),
                i <= self.records@.len(),
                forall|j: int| 0 <= j < i ==> self.records@[j].key@ != key@,
            decreases self.records@.len() - i,
        {
            if self.records[i].key == *key {
                return Some(i);
            }
            i += 1;
        }
        None
    }

    fn read_record(&self, key: &String) -> (r: Result<Option<UserData>, DatabaseError>)
        requires
            self.wf(),
        ensures
            r == Ok::<Option<UserData>, DatabaseError>(self@.get(key@)),
    {
        match self.find(key) {
            Some(i) => {
                let ghost stored = self.ledger@[key@];
                proof {
                    assert(self.ledger@.contains_key(self.records@[i as int].key@));
                    lemma_record_round_trip(stored);
                }
                match decode_user(self.records[i].value.as_slice()) {
                    Ok(u) => Ok(Some(u)),
                    Err(e) => Err(e),
                }
            },
            None => Ok(None),
        }
    }

    fn write_record(&mut self, key: String, data: UserData)
        requires
            old(self).wf(),
        ensures
            final(self).wf(),
            final(self)@ == old(self)@.insert(key@, data),
    {
        let value = encode_user(&data);
        let ghost before = self.ledger@;
        let ghost k = key@;
        match self.find(&key) {
            Some(i) => {
                self.records.set(i, StoredRecord { key, value });
                proof {
                    self.ledger = Ghost(before.insert(k, data));
                    assert forall|q: Seq<char>|
                        #[trigger] self.ledger@.contains_key(q) implies exists|a: int|
                            0 <= a < self.records@.len() && #[trigger] self.records@[a].key@ == q by {
                        if q == k {
                            assert(self.records@[i as int].key@ == q);
                        } else {
                            let a = choose|a: int|
                                0 <= a < old(self).records@.len() && #[trigger] old(self).records@[a].key@ == q;
                            assert(self.records@[a].key@ == q);
                        }
                    }
                    assert forall|a: int| 0 <= a < self.records@.len() implies #[trigger] self.ledger@.contains_key(
                        self.records@[a].key@,
                    ) && self.records@[a].value@ == record_bytes(self.ledger@[self.records@[a].key@]) by {
                        if a != i {
                            assert(old(self).ledger@.contains_key(old(self).records@[a].key@));
                        }
                    }
                }
            },
            None => {
                self.records.push(StoredRecord { key, value });
                proof {
                    self.ledger = Ghost(before.insert(k, data));
                    assert forall|q: Seq<char>|
                        #[trigger] self.ledger@.contains_key(q) implies exists|a: int|
                            0 <= a < self.records@.len() && #[trigger] self.records@[a].key@ == q by {
                        if q == k {
                            assert(self.records@[self.records@.len() - 1].key@ == q);
                        } else {
                            let a = choose|a: int|
                                0 <= a < old(self).records@.len() && #[trigger] old(self).records@[a].key@ == q;
                            assert(self.records@[a].key@ == q);
                        }
                    }
                    assert forall|a: int| 0 <= a < self.records@.len() implies #[trigger] self.ledger@.contains_key(
                        self.records@[a].key@,
                    ) && self.records@[a].value@ == record_bytes(self.ledger@[self.records@[a].key@]) by {
                        if a < old(self).records@.len() {
                            assert(old(self).ledger@.contains_key(old(self).records@[a].key@));
                        }
                    }
                }
            },
        }
    }

    /// The record of `address` (any letter case), or `None` if it was never
    /// written.
    pub fn get_user(&self, address: &str) -> (r: Result<Option<UserData>, DatabaseError>)
        requires
            self.wf(),
        ensures
            r == Ok::<Option<UserData>, DatabaseError>(self@.get(lower_of(address@))),
    {
        let key = to_lowercase(address);
        self.read_record(&key)
    }

    /// Stores `data` as the record of `address`.
    pub fn update_user(&mut self, address: &str, data: UserData) -> (r: Result<(), DatabaseError>)
        requires
            old(self).wf(),
        ensures
            final(self).wf(),
            r is Ok,
            final(self)@ == old(self)@.insert(lower_of(address@), data),
    {
        let key = to_lowercase(address);
        self.write_record(key, data);
        Ok(())
    }

    /// Credits `amount` micro-units to `address`, creating its record with
    /// a zero balance and timestamp if it has none; returns the new balance.
    pub fn add_balance(&mut self, address: &str, amount: u64) -> (r: Result<u64, DatabaseError>)
        requires
            old(self).wf(),
        ensures
            final(self).wf(),
            ({
                let key = lower_of(address@);
                let prev = record_or_fresh(old(self)@, key);
                &&& credit_fits(prev, amount) ==> r == Ok::<u64, DatabaseError>(
                    after_credit(prev, amount).balance,
                ) && final(self)@ == old(self)@.insert(key, after_credit(prev, amount))
                &&& !credit_fits(prev, amount) ==> r == Err::<u64, DatabaseError>(
                    DatabaseError::BalanceOverflow { has: prev.balance, add: amount },
                ) && final(self)@ == old(self)@
            }),
    {
        let key = to_lowercase(address);
        let prev = match self.read_record(&key) {
            Ok(Some(u)) => u,
            Ok(None) => UserData::new(0, 0),
            Err(e) => return Err(e),
        };
        match credit_record(prev, amount) {
            Ok(next) => {
                self.write_record(key, next);
                Ok(next.balance)
            },
            Err(e) => Err(e),
        }
    }

    /// Debits `amount` micro-units from `address` and stamps its record with
    /// `timestamp`; fails, changing nothing, when the balance does not cover
    /// the amount. Returns the remaining balance.
    pub fn deduct_balance(&mut self, address: &str, amount: u64, timestamp: u64) -> (r: Result<
        u64,
        DatabaseError,
    >)
        requires
            old(self).wf(),
        ensures
            final(self).wf(),
            ({
                let key = lower_of(address@);
                let prev = record_or_fresh(old(self)@, key);
                &&& debit_allowed(prev, amount) ==> r == Ok::<u64, DatabaseError>(
                    after_debit(prev, amount, timestamp).balance,
                ) && final(self)@ == old(self)@.insert(key, after_debit(prev, amount, timestamp))
                &&& !debit_allowed(prev, amount) ==> r == Err::<u64, DatabaseError>(
                    DatabaseError::InsufficientBalance { has: prev.balance, need: amount },
                ) && final(self)@ == old(self)@
            }),
    {
        let key = to_lowercase(address);
        let prev = match self.read_record(&key) {
            Ok(Some(u)) => u,
            Ok(None) => UserData::new(0, 0),
            Err(e) => return Err(e),
        };
        match debit_record(prev, amount, timestamp) {
            Ok(next) => {
                self.write_record(key, next);
                Ok(next.balance)
            },
            Err(e) => Err(e),
        }
    }
}

/// What a ledger backend offers the admission pipeline. Each operation is
/// atomic for its address; a backend may fail for its own reasons (storage,
/// network), and then changes nothing.
pub trait DatabaseTrait: Sized {
    /// The records held, by lower-cased address.
    spec fn records(&self) -> Map<Seq<char>, UserData>;

    /// The backend's own invariant.
    spec fn valid(&self) -> bool;

    /// The backend never fails for reasons of its own (no storage or
    /// network in the way): only the ledger's rules refuse an operation.
    spec fn infallible(&self) -> bool;

    /// The record of `address`, or `None` if it was never written.
    fn get_user(&self, address: &str) -> (r: Result<Option<UserData>, DatabaseError>)
        requires
            self.valid(),
        ensures
            r is Ok ==> r == Ok::<Option<UserData>, DatabaseError>(
                self.records().get(lower_of(address@)),
            ),
            self.infallible() ==> r is Ok,
    ;

    /// Stores `data` as the record of `address`.
    fn update_user(&mut self, address: &str, data: UserData) -> (r: Result<(), DatabaseError>)
        requires
            old(self).valid(),
        ensures
            final(self).valid(),
            final(self).infallible() == old(self).infallible(),
            old(self).infallible() ==> r is Ok,
            r is Ok ==> final(self).records() == old(self).records().insert(
                lower_of(address@),
                data,
            ),
            r is Err ==> final(self).records() == old(self).records(),
    ;

    /// Credits `amount` to `address`; returns the new balance.
    fn add_balance(&mut self, address: &str, amount: u64) -> (r: Result<u64, DatabaseError>)
        requires
            old(self).valid(),
        ensures
            final(self).valid(),
            final(self).infallible() == old(self).infallible(),
            ({
                let key = lower_of(address@);
                let prev = record_or_fresh(old(self).records(), key);
                &&& old(self).infallible() && credit_fits(prev, amount) ==> r is Ok
                &&& r is Ok ==> credit_fits(prev, amount) && r == Ok::<u64, DatabaseError>(
                    after_credit(prev, amount).balance,
                ) && final(self).records() == old(self).records().insert(
                    key,
                    after_credit(prev, amount),
                )
                &&& r is Err ==> final(self).records() == old(self).records()
            }),
    ;

    /// Debits `amount` from `address` at `timestamp`, refusing with
    /// `InsufficientBalance` when the balance does not cover it; returns the
    /// remaining balance.
    fn deduct_balance(&mut self, address: &str, amount: u64, timestamp: u64) -> (r: Result<
        u64,
        DatabaseError,
    >)
        requires
            old(self).valid(),
        ensures
            final(self).valid(),
            final(self).infallible() == old(self).infallible(),
            ({
                let key = lower_of(address@);
                let prev = record_or_fresh(old(self).records(), key);
                &&& old(self).infallible() && debit_allowed(prev, amount) ==> r is Ok
                &&& r is Ok ==> debit_allowed(prev, amount) && r == Ok::<u64, DatabaseError>(
                    after_debit(prev, amount, timestamp).balance,
                ) && final(self).records() == old(self).records().insert(
                    key,
                    after_debit(prev, amount, timestamp),
                )
                &&& !debit_allowed(prev, amount) ==> r is Err
                &&& (r matches Err(DatabaseError::InsufficientBalance { need, .. }) ==> need
                    == amount && !debit_allowed(prev, amount))
                &&& r is Err ==> final(self).records() == old(self).records()
            }),
    ;
}

impl DatabaseTrait for Database {
    open spec fn records(&self) -> Map<Seq<char>, UserData> {
        self@
    }

    open spec fn valid(&self) -> bool {
        self.wf()
    }

    open spec fn infallible(&self) -> bool {
        true
    }

    fn get_user(&self, address: &str) -> (r: Result<Option<UserData>, DatabaseError>) {
        Database::get_user(self, address)
    }

    fn update_user(&mut self, address: &str, data: UserData) -> (r: Result<(), DatabaseError>) {
        Database::update_user(self, address, data)
    }

    fn add_balance(&mut self, address: &str, amount: u64) -> (r: Result<u64, DatabaseError>) {
        Database::add_balance(self, address, amount)
    }

    fn deduct_balance(&mut self, address: &str, amount: u64, timestamp: u64) -> (r: Result<
        u64,
        DatabaseError,
    >) {
        Database::deduct_balance(self, address, amount, timestamp)
    }
}

} // verus!
