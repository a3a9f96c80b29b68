//! The SQL text of every statement and query that the store sends.
use vstd::prelude::*;

verus! {

pub open spec fn create_sql() -> Seq<char> {
    "CREATE TABLE IF NOT EXISTS block (id INTEGER PRIMARY KEY, number TEXT UNIQUE, hash TEXT, data TEXT); CREATE TABLE IF NOT EXISTS account (id INTEGER PRIMARY KEY, address TEXT UNIQUE, data TEXT); CREATE TABLE IF NOT EXISTS bytecode (id INTEGER PRIMARY KEY, hash TEXT UNIQUE, data TEXT);"@
}

pub fn create_text() -> (r: &'static str)
    ensures
        r@ == create_sql(),
{
    "CREATE TABLE IF NOT EXISTS block (id INTEGER PRIMARY KEY, number TEXT UNIQUE, hash TEXT, data TEXT); CREATE TABLE IF NOT EXISTS account (id INTEGER PRIMARY KEY, address TEXT UNIQUE, data TEXT); CREATE TABLE IF NOT EXISTS bytecode (id INTEGER PRIMARY KEY, hash TEXT UNIQUE, data TEXT);"
}

pub open spec fn begin_sql() -> Seq<char> {
    "BEGIN"@
}

pub fn begin_text() -> (r: &'static str)
    ensures
        r@ == begin_sql(),
{
    "BEGIN"
}

pub open spec fn commit_sql() -> Seq<char> {
    "COMMIT"@
}

pub fn commit_text() -> (r: &'static str)
    ensures
        r@ == commit_sql(),
{
    "COMMIT"
}

pub open spec fn rollback_sql() -> Seq<char> {
    "ROLLBACK"@
}

pub fn rollback_text() -> (r: &'static str)
    ensures
        r@ == rollback_sql(),
{
    "ROLLBACK"
}

/// Parameters: number, hash, payload. The unique number column makes it fail
/// for a number that is stored already.
pub open spec fn insert_block_sql() -> Seq<char> {
    "INSERT INTO block (number, hash, data) VALUES (?, ?, ?)"@
}

pub fn insert_block_text() -> (r: &'static str)
    ensures
        r@ == insert_block_sql(),
{
    "INSERT INTO block (number, hash, data) VALUES (?, ?, ?)"
}

/// Parameters: address, payload.
pub open spec fn upsert_account_sql() -> Seq<char> {
    "INSERT INTO account (address, data) VALUES (?, ?) ON CONFLICT(address) DO UPDATE SET data = excluded.data"@
}

pub fn upsert_account_text() -> (r: &'static str)
    ensures
        r@ == upsert_account_sql(),
{
    "INSERT INTO account (address, data) VALUES (?, ?) ON CONFLICT(address) DO UPDATE SET data = excluded.data"
}

/// Parameter: address.
pub open spec fn delete_account_sql() -> Seq<char> {
    "DELETE FROM account WHERE address = ?"@
}

pub fn delete_account_text() -> (r: &'static str)
    ensures
        r@ == delete_account_sql(),
{
    "DELETE FROM account WHERE address = ?"
}

pub open spec fn block_data_sql() -> Seq<char> {
    "SELECT data FROM block WHERE number = ?"@
}

pub fn block_data_text() -> (r: &'static str)
    ensures
        r@ == block_data_sql(),
{
    "SELECT data FROM block WHERE number = ?"
}

pub open spec fn block_hash_sql() -> Seq<char> {
    "SELECT hash FROM block WHERE number = ?"@
}

pub fn block_hash_text() -> (r: &'static str)
    ensures
        r@ == block_hash_sql(),
{
    "SELECT hash FROM block WHERE number = ?"
}

pub open spec fn account_data_sql() -> Seq<char> {
    "SELECT data FROM account WHERE address = ?"@
}

pub fn account_data_text() -> (r: &'static str)
    ensures
        r@ == account_data_sql(),
{
    "SELECT data FROM account WHERE address = ?"
}

pub open spec fn code_sql() -> Seq<char> {
    "SELECT data FROM bytecode WHERE hash = ?"@
}

pub fn code_text() -> (r: &'static str)
    ensures
        r@ == code_sql(),
{
    "SELECT data FROM bytecode WHERE hash = ?"
}

/// The texts of the statements that change rows or transactions are distinct.
pub proof fn lemma_texts_distinct()
    ensures
        begin_sql() != commit_sql(),
        begin_sql() != rollback_sql(),
        begin_sql() != create_sql(),
        commit_sql() != rollback_sql(),
        commit_sql() != create_sql(),
        rollback_sql() != create_sql(),
        insert_block_sql() != upsert_account_sql(),
        insert_block_sql() != delete_account_sql(),
        upsert_account_sql() != delete_account_sql(),
{
    reveal_strlit("BEGIN");
    reveal_strlit("COMMIT");
    reveal_strlit("ROLLBACK");
    reveal_strlit("CREATE TABLE IF NOT EXISTS block (id INTEGER PRIMARY KEY, number TEXT UNIQUE, hash TEXT, data TEXT); CREATE TABLE IF NOT EXISTS account (id INTEGER PRIMARY KEY, address TEXT UNIQUE, data TEXT); CREATE TABLE IF NOT EXISTS bytecode (id INTEGER PRIMARY KEY, hash TEXT UNIQUE, data TEXT);");
    reveal_strlit("INSERT INTO block (number, hash, data) VALUES (?, ?, ?)");
    reveal_strlit("INSERT INTO account (address, data) VALUES (?, ?) ON CONFLICT(address) DO UPDATE SET data = excluded.data");
    reveal_strlit("DELETE FROM account WHERE address = ?");
    assert(begin_sql().len() != commit_sql().len());
    assert(begin_sql().len() != rollback_sql().len());
    assert(begin_sql().len() != create_sql().len());
    assert(commit_sql().len() != rollback_sql().len());
    assert(commit_sql().len() != create_sql().len());
    assert(rollback_sql().len() != create_sql().len());
    assert(insert_block_sql().len() != upsert_account_sql().len());
    assert(insert_block_sql().len() != delete_account_sql().len());
    assert(upsert_account_sql().len() != delete_account_sql().len());
}

} // verus!
