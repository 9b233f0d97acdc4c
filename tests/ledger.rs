use payment_gateway::codec::{decode_user, encode_user};
use payment_gateway::database::Database;
use payment_gateway::ledger::{credit_record, debit_record, DatabaseError, UserData};

#[test]
fn database_test_database_operations() {
    let mut db = Database::new();
    let address = "0x1234567890abcdef1234567890abcdef12345678";

    assert!(db.get_user(address).unwrap().is_none());

    let balance = db.add_balance(address, 10_000_000).unwrap();
    assert_eq!(balance, 10_000_000);

    let user = db.get_user(address).unwrap().unwrap();
    assert_eq!(user.balance, 10_000_000);

    let remaining = db.deduct_balance(address, 3_000_000, 1234567890).unwrap();
    assert_eq!(remaining, 7_000_000);

    let user = db.get_user(address).unwrap().unwrap();
    assert_eq!(user.balance, 7_000_000);
    assert_eq!(user.latest_timestamp, 1234567890);

    let result = db.deduct_balance(address, 10_000_000, 1234567891);
    assert!(result.is_err());
}

#[test]
fn credit_creates_record_with_amount() {
    let mut db = Database::new();
    assert_eq!(db.add_balance("0xabc", 42).unwrap(), 42);
    assert_eq!(db.get_user("0xabc").unwrap(), Some(UserData::new(42, 0)));
}

#[test]
fn addresses_compare_without_case() {
    let mut db = Database::new();
    db.add_balance("0xABCDEF", 5).unwrap();
    assert_eq!(db.get_user("0xabcdef").unwrap().unwrap().balance, 5);
    assert_eq!(db.add_balance("0xAbCdEf", 5).unwrap(), 10);
}

#[test]
fn debit_of_whole_balance_leaves_zero() {
    let mut db = Database::new();
    db.add_balance("0xa", 1_000).unwrap();
    assert_eq!(db.deduct_balance("0xa", 1_000, 7).unwrap(), 0);
    assert_eq!(db.get_user("0xa").unwrap(), Some(UserData::new(0, 7)));
}

#[test]
fn debit_of_one_more_than_balance_fails_and_changes_nothing() {
    let mut db = Database::new();
    db.add_balance("0xa", 1_000).unwrap();
    assert_eq!(
        db.deduct_balance("0xa", 1_001, 7),
        Err(DatabaseError::InsufficientBalance { has: 1_000, need: 1_001 })
    );
    assert_eq!(db.get_user("0xa").unwrap(), Some(UserData::new(1_000, 0)));
}

#[test]
fn debit_of_unknown_address_is_insufficient() {
    let mut db = Database::new();
    assert_eq!(
        db.deduct_balance("0xnew", 1, 7),
        Err(DatabaseError::InsufficientBalance { has: 0, need: 1 })
    );
    assert_eq!(db.get_user("0xnew").unwrap(), None);
}

#[test]
fn credit_past_the_largest_balance_fails() {
    let mut db = Database::new();
    db.add_balance("0xa", u64::MAX).unwrap();
    assert_eq!(
        db.add_balance("0xa", 1),
        Err(DatabaseError::BalanceOverflow { has: u64::MAX, add: 1 })
    );
    assert_eq!(credit_record(UserData::new(1, 3), 2), Ok(UserData::new(3, 3)));
}

#[test]
fn debit_record_stamps_time() {
    assert_eq!(debit_record(UserData::new(10, 1), 4, 99), Ok(UserData::new(6, 99)));
    assert_eq!(
        debit_record(UserData::new(3, 1), 4, 99),
        Err(DatabaseError::InsufficientBalance { has: 3, need: 4 })
    );
}

#[test]
fn credits_and_debits_add_up() {
    let mut db = Database::new();
    let ops: [(bool, u64); 6] = [(true, 100), (false, 30), (false, 80), (true, 50), (false, 120), (false, 1)];
    let mut credits: u64 = 0;
    let mut debits: u64 = 0;
    for (is_credit, amount) in ops {
        if is_credit {
            db.add_balance("0xa", amount).unwrap();
            credits += amount;
        } else if db.deduct_balance("0xa", amount, 1).is_ok() {
            debits += amount;
        }
    }
    assert_eq!(db.get_user("0xa").unwrap().unwrap().balance, credits - debits);
    assert_eq!(credits - debits, 0);
}

#[test]
fn repeated_debits_exhaust_balance() {
    let mut db = Database::new();
    db.add_balance("0xa", 10).unwrap();
    let mut ok = 0;
    let mut insufficient = 0;
    for _ in 0..5 {
        match db.deduct_balance("0xa", 3, 1) {
            Ok(_) => ok += 1,
            Err(DatabaseError::InsufficientBalance { .. }) => insufficient += 1,
            Err(e) => panic!("unexpected {:?}", e),
        }
    }
    assert_eq!(ok, 3);
    assert_eq!(insufficient, 2);
    assert_eq!(db.get_user("0xa").unwrap().unwrap().balance, 1);
}

#[test]
fn record_encoding_is_two_little_endian_words() {
    let u = UserData::new(0x0102030405060708, 1);
    let bytes = encode_user(&u);
    assert_eq!(bytes, vec![8, 7, 6, 5, 4, 3, 2, 1, 1, 0, 0, 0, 0, 0, 0, 0]);
    assert_eq!(decode_user(&bytes), Ok(u));
}

#[test]
fn short_record_does_not_decode() {
    match decode_user(&[1, 2, 3]) {
        Err(DatabaseError::Serialization(_)) => {}
        other => panic!("unexpected {:?}", other),
    }
}

#[test]
fn rocksdb_test_database_operations() {
    let mut db = Database::new();
    let address = "0x1234567890abcdef1234567890abcdef12345678";

    assert!(db.get_user(address).unwrap().is_none());

    let balance = db.add_balance(address, 10_000_000).unwrap();
    assert_eq!(balance, 10_000_000);

    let user = db.get_user(address).unwrap().unwrap();
    assert_eq!(user.balance, 10_000_000);

    let remaining = db.deduct_balance(address, 3_000_000, 1234567890).unwrap();
    assert_eq!(remaining, 7_000_000);

    let user = db.get_user(address).unwrap().unwrap();
    assert_eq!(user.balance, 7_000_000);
    assert_eq!(user.latest_timestamp, 1234567890);

    let result = db.deduct_balance(address, 10_000_000, 1234567891);
    assert!(result.is_err());
}
