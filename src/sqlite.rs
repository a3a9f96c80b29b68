//! The calls into the embedded SQL engine. What the engine returns depends on
//! what is stored on disk, so none of these promises a result; each records
//! what it handed to the engine, and the callers state what holds whatever
//! came back.
use vstd::prelude::*;
use crate::lookup::{found_of, Fetched};
use crate::model::{Record, Sent};

verus! {

#[verifier::external_type_specification]
#[verifier::external_body]
pub struct ExConnection(rusqlite::Connection);

#[verifier::external_type_specification]
#[verifier::external_body]
pub struct ExError(rusqlite::Error);

/// A store over one connection. Every method takes `&mut self`, so that each
/// operation, a whole transaction included, has the connection to itself;
/// callers that share a store across threads hold it behind a lock.
pub struct Database {
    conn: rusqlite::Connection,
    log: Ghost<Seq<Record>>,
}

impl Database {
    /// The calls that this store has made into the engine, each with what it
    /// handed over and its outcome, in order. Only the calls below add to it.
    pub closed spec fn history(&self) -> Seq<Record> {
        self.log@
    }

    /// A store over the connection that has made no call yet.
    pub(crate) fn from_connection(conn: rusqlite::Connection) -> (db: Database)
        ensures
            db.history() == Seq::<Record>::empty(),
    {
        Database { conn, log: Ghost(Seq::empty()) }
    }
}

/// Relies on `rusqlite::Connection::execute_batch`: runs statements that take
/// no parameters, in order, stopping at the first failure. The call is
/// recorded in the store's history with its text and outcome.
#[verifier::external_body]
pub(crate) fn run_batch(db: &mut Database, sql: &str) -> (r: Result<(), rusqlite::Error>)
    ensures
        final(db).history() == old(db).history().push(Record { sent: Sent::Batch(sql@), ok: r is Ok }),
{
    db.conn.execute_batch(sql)
}

/// Relies on `rusqlite::Connection::execute`: runs one statement with its
/// positional text parameters and returns how many rows it changed. The call
/// is recorded in the store's history with its text, parameters and outcome.
#[verifier::external_body]
pub(crate) fn run_statement(db: &mut Database, sql: &str, params: &Vec<String>) -> (r: Result<
    usize,
    rusqlite::Error,
>)
    ensures
        final(db).history() == old(db).history().push(
            Record { sent: Sent::Exec(sql@, params@.map_values(|p: String| p@)), ok: r is Ok },
        ),
{
    db.conn.execute(sql, rusqlite::params_from_iter(params.iter()))
}

/// Relies on `rusqlite::Connection::query_row`: runs a query with one text
/// parameter and reads the first column of its first row as text; it fails
/// with `rusqlite::Error::QueryReturnedNoRows` where no row matched. The call
/// is recorded in the store's history with its text, key and what it found.
#[verifier::external_body]
pub(crate) fn query_text(db: &mut Database, sql: &str, key: &str) -> (f: Fetched)
    ensures
        final(db).history() == old(db).history().push(
            Record { sent: Sent::Query(sql@, key@, found_of(f)), ok: f is Row },
        ),
{
    match db.conn.query_row(sql, [key], |row| row.get::<usize, String>(0)) {
        Ok(s) => Fetched::Row(s),
        Err(rusqlite::Error::QueryReturnedNoRows) => Fetched::Absent,
        Err(e) => Fetched::Failed(e.to_string()),
    }
}

/// Relies on the `Display` impl of `rusqlite::Error`, for the message that an
/// error of the library carries.
#[verifier::external_body]
pub(crate) fn error_text(e: &rusqlite::Error) -> (r: String) {
    e.to_string()
}

} // verus!
