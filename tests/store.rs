use exex_store::keys::{from_hex_text, to_decimal_text, to_hex_text};
use exex_store::lookup::{absent_as_empty_code, absent_as_error, absent_as_none};
use exex_store::{AccountChange, Address, Block, Database, Fetched, StateDiff, StoreError, B256, U256};
use rusqlite::Connection;
use std::sync::{Arc, Mutex};

fn addr(b: u8) -> Address {
    Address { bytes: [b; 20] }
}

fn block(number: u64, fill: u8, data: &str) -> Block {
    Block { number, hash: B256 { bytes: [fill; 32] }, data: data.to_string() }
}

fn open() -> Database {
    Database::new(Connection::open_in_memory().unwrap()).unwrap()
}

fn balance_payload(balance: u64) -> String {
    format!("{{\"balance\":{}}}", balance)
}

fn balance_of(payload: &str) -> u64 {
    let v: serde_json::Value = serde_json::from_str(payload).unwrap();
    v["balance"].as_u64().unwrap()
}

fn set_balance(db: &mut Database, a: Address, balance: u64) {
    db.upsert_account(a, |_| Ok(balance_payload(balance))).unwrap();
}

#[test]
fn initialize_twice_is_fine() {
    let mut db = open();
    assert_eq!(db.create_tables(), Ok(()));
    assert_eq!(db.create_tables(), Ok(()));
    assert_eq!(db.get_block(1), Ok(None));
}

#[test]
fn commit_block_with_upsert_and_removal() {
    let mut db = open();
    let x = addr(0x11);
    let y = addr(0x22);
    set_balance(&mut db, y, 5);
    assert_eq!(balance_of(&db.get_account(y).unwrap().unwrap()), 5);
    let diff = StateDiff {
        changes: vec![
            AccountChange { address: x, account: Some(balance_payload(10)) },
            AccountChange { address: y, account: None },
        ],
    };
    assert_eq!(db.insert_block_with_bundle(&block(1, 0xab, "{\"n\":1}"), diff), Ok(()));
    assert_eq!(db.get_block(1), Ok(Some("{\"n\":1}".to_string())));
    assert_eq!(balance_of(&db.get_account(x).unwrap().unwrap()), 10);
    assert_eq!(db.get_account(y), Ok(None));
}

#[test]
fn failed_commit_leaves_nothing() {
    let mut db = open();
    let z = addr(0x33);
    let w = addr(0x44);
    set_balance(&mut db, w, 7);
    assert_eq!(db.insert_block_with_bundle(&block(1, 1, "first"), StateDiff { changes: vec![] }), Ok(()));
    let diff = StateDiff {
        changes: vec![
            AccountChange { address: z, account: Some(balance_payload(3)) },
            AccountChange { address: w, account: None },
        ],
    };
    let r = db.insert_block_with_bundle(&block(1, 2, "second"), diff);
    assert!(matches!(r, Err(StoreError::Transaction(_))));
    assert_eq!(db.get_block(1), Ok(Some("first".to_string())));
    assert_eq!(db.get_account(z), Ok(None));
    assert_eq!(balance_of(&db.get_account(w).unwrap().unwrap()), 7);
    assert_eq!(db.block_hash(1), Ok(B256 { bytes: [1; 32] }));
}

#[test]
fn upsert_applies_transformation() {
    let mut db = open();
    let a = addr(0x55);
    set_balance(&mut db, a, 4);
    db.upsert_account(a, |cur| {
        let old = balance_of(&cur.unwrap());
        Ok(balance_payload(old * 3))
    })
    .unwrap();
    assert_eq!(balance_of(&db.get_account(a).unwrap().unwrap()), 12);
}

#[test]
fn upsert_passes_none_for_new_account() {
    let mut db = open();
    let a = addr(0x56);
    db.upsert_account(a, |cur| {
        assert!(cur.is_none());
        Ok(balance_payload(1))
    })
    .unwrap();
    assert_eq!(db.basic(a), Ok(Some(balance_payload(1))));
}

#[test]
fn upsert_error_from_transformation_writes_nothing() {
    let mut db = open();
    let a = addr(0x57);
    let r = db.upsert_account(a, |_| Err(StoreError::Decode("bad".to_string())));
    assert_eq!(r, Err(StoreError::Decode("bad".to_string())));
    assert_eq!(db.get_account(a), Ok(None));
}

#[test]
fn removal_of_existing_account() {
    let mut db = open();
    let a = addr(0x66);
    set_balance(&mut db, a, 9);
    let diff = StateDiff { changes: vec![AccountChange { address: a, account: None }] };
    assert_eq!(db.insert_block_with_bundle(&block(5, 5, "b5"), diff), Ok(()));
    assert_eq!(db.get_account(a), Ok(None));
}

#[test]
fn last_change_of_an_address_wins() {
    let mut db = open();
    let a = addr(0x67);
    let diff = StateDiff {
        changes: vec![
            AccountChange { address: a, account: None },
            AccountChange { address: a, account: Some(balance_payload(8)) },
        ],
    };
    assert_eq!(db.insert_block_with_bundle(&block(6, 6, "b6"), diff), Ok(()));
    assert_eq!(balance_of(&db.get_account(a).unwrap().unwrap()), 8);
}

#[test]
fn missing_block_is_none() {
    let mut db = open();
    assert_eq!(db.get_block(42), Ok(None));
    assert_eq!(db.basic(addr(1)), Ok(None));
}

#[test]
fn block_hash_of_missing_block_is_an_error() {
    let mut db = open();
    assert!(matches!(db.block_hash(3), Err(StoreError::Inconsistency(_))));
}

#[test]
fn block_hash_of_stored_block() {
    let mut db = open();
    let mut h = [0u8; 32];
    for (i, b) in h.iter_mut().enumerate() {
        *b = i as u8 * 7;
    }
    let b = Block { number: 12, hash: B256 { bytes: h }, data: "x".to_string() };
    assert_eq!(db.insert_block_with_bundle(&b, StateDiff { changes: vec![] }), Ok(()));
    assert_eq!(db.block_hash(12), Ok(B256 { bytes: h }));
}

fn shared(name: &str) -> (Connection, Database) {
    let uri = format!("file:{}?mode=memory&cache=shared", name);
    let side = Connection::open(&uri).unwrap();
    side.execute_batch("CREATE TABLE IF NOT EXISTS bytecode (id INTEGER PRIMARY KEY, hash TEXT UNIQUE, data TEXT);")
        .unwrap();
    let db = Database::new(Connection::open(&uri).unwrap()).unwrap();
    (side, db)
}

#[test]
fn unknown_code_hash_is_empty_code() {
    let (_side, mut db) = shared("codes_unknown");
    assert_eq!(db.code_by_hash(B256 { bytes: [9; 32] }), Ok(vec![]));
}

#[test]
fn stored_code_is_decoded() {
    let (side, mut db) = shared("codes_known");
    let h = B256 { bytes: [0xcd; 32] };
    let key = format!("0x{}", "cd".repeat(32));
    side.execute("INSERT INTO bytecode (hash, data) VALUES (?, ?)", (key, "0x6001FF00")).unwrap();
    assert_eq!(db.code_by_hash(h), Ok(vec![0x60, 0x01, 0xff, 0x00]));
}

#[test]
fn malformed_code_is_a_decode_error() {
    let (side, mut db) = shared("codes_bad");
    let key = format!("0x{}", "01".repeat(32));
    side.execute("INSERT INTO bytecode (hash, data) VALUES (?, ?)", (key, "0x6")).unwrap();
    assert!(matches!(db.code_by_hash(B256 { bytes: [1; 32] }), Err(StoreError::Decode(_))));
}

#[test]
fn unknown_code_hash_on_fresh_store_is_empty() {
    let mut db = open();
    assert_eq!(db.code_by_hash(B256 { bytes: [0; 32] }), Ok(vec![]));
}

#[test]
fn code_without_table_is_a_query_error() {
    let (side, mut db) = shared("codes_dropped");
    side.execute_batch("DROP TABLE bytecode;").unwrap();
    assert!(matches!(db.code_by_hash(B256 { bytes: [0; 32] }), Err(StoreError::Query(_))));
}

#[test]
fn storage_reads_zero() {
    let mut db = open();
    let idx = U256 { limbs: [5, 0, 0, 1] };
    assert_eq!(db.storage(addr(2), idx), Ok(U256 { limbs: [0; 4] }));
}

#[test]
fn increments_through_a_shared_handle_are_not_lost() {
    let db = Arc::new(Mutex::new(open()));
    let x = addr(0x77);
    set_balance(&mut db.lock().unwrap(), x, 0);
    let inc = |db: &Arc<Mutex<Database>>| {
        db.lock()
            .unwrap()
            .upsert_account(x, |cur| Ok(balance_payload(balance_of(&cur.unwrap()) + 1)))
            .unwrap();
    };
    let a = Arc::clone(&db);
    let b = Arc::clone(&db);
    inc(&a);
    inc(&b);
    assert_eq!(balance_of(&db.lock().unwrap().get_account(x).unwrap().unwrap()), 2);
}

#[test]
fn upsert_after_failed_read_does_not_call_transformation() {
    let (side, mut db) = shared("accounts_dropped");
    side.execute_batch("DROP TABLE account;").unwrap();
    let mut called = false;
    let r = db.upsert_account(addr(0x79), |_| {
        called = true;
        Ok(balance_payload(1))
    });
    assert!(matches!(r, Err(StoreError::Query(_))));
    assert!(!called);
}

#[test]
fn absence_policies() {
    assert_eq!(absent_as_none(Fetched::Absent), Ok(None));
    assert_eq!(absent_as_none(Fetched::Row("r".to_string())), Ok(Some("r".to_string())));
    assert_eq!(absent_as_none(Fetched::Failed("e".to_string())), Err(StoreError::Query("e".to_string())));
    assert_eq!(absent_as_empty_code(Fetched::Absent), Ok(vec![]));
    assert_eq!(absent_as_empty_code(Fetched::Row("abCD".to_string())), Ok(vec![0xab, 0xcd]));
    assert!(matches!(absent_as_error(Fetched::Absent), Err(StoreError::Inconsistency(_))));
    assert!(matches!(absent_as_error(Fetched::Row("0x00".to_string())), Err(StoreError::Decode(_))));
    assert_eq!(
        absent_as_error(Fetched::Failed("e".to_string())),
        Err(StoreError::Query("e".to_string()))
    );
}

#[test]
fn key_texts() {
    assert_eq!(to_decimal_text(0), "0");
    assert_eq!(to_decimal_text(1), "1");
    assert_eq!(to_decimal_text(18446744073709551615), "18446744073709551615");
    assert_eq!(to_hex_text(&[0x00, 0x0f, 0xa0, 0xff]), "0x000fa0ff");
    assert_eq!(to_hex_text(&[]), "0x");
}

#[test]
fn hex_reading() {
    assert_eq!(from_hex_text("0x"), Some(vec![]));
    assert_eq!(from_hex_text(""), Some(vec![]));
    assert_eq!(from_hex_text("0x0aFf"), Some(vec![0x0a, 0xff]));
    assert_eq!(from_hex_text("0aff"), Some(vec![0x0a, 0xff]));
    assert_eq!(from_hex_text("0x0g"), None);
    assert_eq!(from_hex_text("abc"), None);
    assert_eq!(from_hex_text("0xé0"), None);
}
