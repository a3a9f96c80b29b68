//! The store: blocks and account state in two tables of one connection.
use vstd::prelude::*;
use crate::keys::{decimal_text, hex_text, to_decimal_text, to_hex_text, Address, B256, U256};
use crate::keys::{hex_body, hex_bytes, is_hex_digits};
use crate::lookup::{
    absent_as_empty_code, absent_as_error, absent_as_none, found_of, is_digest_text, Fetched, StoreError,
};
use crate::model::{
    aborted_at, aborted_events, committed_events, failed_event, lemma_closed_after_aborted,
    lemma_closed_after_committed, lemma_closed_after_one, lemma_closed_trans, sent_events, sent_stmt,
    stays_closed, succeeded, Event, Found, Record, RowWrite, Sent, Stmt,
};
use crate::sql::{
    account_data_sql, account_data_text, upsert_account_sql, begin_text, block_data_sql, block_data_text, block_hash_sql,
    block_hash_text, code_sql, code_text, commit_text, create_text, delete_account_text,
    insert_block_text, rollback_text, upsert_account_text,
};
use crate::sqlite::{error_text, query_text, run_batch, run_statement, Database};

verus! {

/// A processed block: its number, its hash and its serialized payload.
#[derive(Clone, Debug, PartialEq, Eq)]
pub struct Block {
    pub number: u64,
    pub hash: B256,
    pub data: String,
}

/// The change of one account in a state diff: its new serialized payload, or
/// `None` where the account was removed.
#[derive(Clone, Debug, PartialEq, Eq)]
pub struct AccountChange {
    pub address: Address,
    pub account: Option<String>,
}

/// The account changes that one block made, in order.
#[derive(Clone, Debug, PartialEq, Eq)]
pub struct StateDiff {
    pub changes: Vec<AccountChange>,
}

/// The key of a block row.
pub open spec fn block_key(number: u64) -> Seq<char> {
    decimal_text(number as nat)
}

/// The key of an account row.
pub open spec fn account_key(address: Address) -> Seq<char> {
    hex_text(address.bytes@)
}

/// The row write that one account change makes.
pub open spec fn change_write(c: AccountChange) -> RowWrite {
    match c.account {
        Some(d) => RowWrite::UpsertAccount { address: account_key(c.address), data: d@ },
        None => RowWrite::DeleteAccount { address: account_key(c.address) },
    }
}

/// The row writes that committing a block with its diff makes: the block row,
/// then one write for each account change, in order.
pub open spec fn commit_writes(block: Block, diff: StateDiff) -> Seq<RowWrite> {
    seq![
        RowWrite::InsertBlock {
            number: block_key(block.number),
            hash: hex_text(block.hash.bytes@),
            data: block.data@,
        },
    ] + diff.changes@.map_values(|c: AccountChange| change_write(c))
}

/// The call of an account upsert with the given payload and outcome.
pub open spec fn upsert_record(address: Address, d: Seq<char>, ok: bool) -> Record {
    Record {
        sent: sent_stmt(Stmt::Write(RowWrite::UpsertAccount { address: account_key(address), data: d })),
        ok,
    }
}

/// The call of a query with its key and what it found.
pub open spec fn query_record(sql: Seq<char>, key: Seq<char>, found: Found) -> Record {
    Record { sent: Sent::Query(sql, key, found), ok: found is Row }
}

/// What a read that treats absence as `None` found, by its result.
pub open spec fn read_found(r: Result<Option<String>, StoreError>) -> Found {
    match r {
        Ok(Some(t)) => Found::Row(t@),
        Ok(None) => Found::NoRow,
        Err(_) => Found::Failed,
    }
}

impl Database {
    /// Takes the connection and creates the tables that are missing.
    pub fn new(connection: rusqlite::Connection) -> (r: Result<Database, StoreError>)
        ensures
            r matches Ok(db) ==> db.history() == seq![Record { sent: sent_stmt(Stmt::CreateTables), ok: true }],
            r matches Ok(db) ==> stays_closed(Seq::empty(), db.history()),
            r matches Err(e) ==> e is Init,
    {
        let mut db = Database::from_connection(connection);
        proof {
            assert(db.history() == Seq::<Record>::empty());
        }
        match db.create_tables() {
            Ok(()) => {
                assert(db.history() =~= seq![Record { sent: sent_stmt(Stmt::CreateTables), ok: true }]);
                Ok(db)
            },
            Err(e) => Err(e),
        }
    }

    /// Creates the `block`, `account` and `bytecode` tables where they do not
    /// exist yet; tables that exist are left as they are.
    pub fn create_tables(&mut self) -> (r: Result<(), StoreError>)
        ensures
            final(self).history() == old(self).history().push(
                Record { sent: sent_stmt(Stmt::CreateTables), ok: r is Ok },
            ),
            stays_closed(old(self).history(), final(self).history()),
            r matches Err(e) ==> e is Init,
    {
        let res = run_batch(self, create_text());
        proof {
            lemma_closed_after_one(old(self).history(), Record { sent: sent_stmt(Stmt::CreateTables), ok: res is Ok });
        }
        match res {
            Ok(()) => Ok(()),
            Err(e) => Err(StoreError::Init(error_text(&e))),
        }
    }

    /// Sends a statement that opens, commits or rolls back a transaction.
    fn control(&mut self, sql: &str, stmt: Ghost<Stmt>) -> (r: Result<(), String>)
        requires
            sent_stmt(stmt@) == Sent::Batch(sql@),
        ensures
            final(self).history() == old(self).history().push(
                Record { sent: sent_stmt(stmt@), ok: r is Ok },
            ),
    {
        match run_batch(self, sql) {
            Ok(()) => Ok(()),
            Err(e) => Err(error_text(&e)),
        }
    }

    /// Sends a statement that writes rows.
    fn write(&mut self, sql: &str, params: Vec<String>, w: Ghost<RowWrite>) -> (r: Result<(), String>)
        requires
            sent_stmt(Stmt::Write(w@)) == Sent::Exec(sql@, params@.map_values(|p: String| p@)),
        ensures
            final(self).history() == old(self).history().push(
                Record { sent: sent_stmt(Stmt::Write(w@)), ok: r is Ok },
            ),
    {
        match run_statement(self, sql, &params) {
            Ok(_) => Ok(()),
            Err(e) => Err(error_text(&e)),
        }
    }

    /// Inserts the account row, or replaces its payload.
    fn write_account(&mut self, address: &Address, data: String) -> (r: Result<(), String>)
        ensures
            final(self).history() == old(self).history().push(upsert_record(*address, data@, r is Ok)),
    {
        let ghost w = RowWrite::UpsertAccount { address: account_key(*address), data: data@ };
        let params = vec![to_hex_text(&address.bytes), data];
        assert(sent_stmt(Stmt::Write(w)) == Sent::Exec(upsert_account_sql(), params@.map_values(|p: String| p@))) by {
            assert(params@.map_values(|p: String| p@) =~= seq![account_key(*address), data@]);
        }
        self.write(upsert_account_text(), params, Ghost(w))
    }

    /// Makes the row write of one account change.
    fn apply_change(&mut self, c: &AccountChange) -> (r: Result<(), String>)
        ensures
            final(self).history() == old(self).history().push(
                Record { sent: sent_stmt(Stmt::Write(change_write(*c))), ok: r is Ok },
            ),
    {
        match &c.account {
            Some(data) => self.write_account(&c.address, data.clone()),
            None => {
                let params = vec![to_hex_text(&c.address.bytes)];
                assert(params@.map_values(|p: String| p@) =~= seq![account_key(c.address)]);
                self.write(delete_account_text(), params, Ghost(change_write(*c)))
            },
        }
    }

    /// Commits a block and its state diff in one transaction: the block row,
    /// then for each account change an upsert of its row or, for a removed
    /// account, a delete. On any failure the transaction is rolled back and
    /// no row of it is kept.
    pub fn insert_block_with_bundle(&mut self, block: &Block, bundle: StateDiff) -> (r: Result<
        (),
        StoreError,
    >)
        ensures
            r is Ok ==> final(self).history() == old(self).history() + sent_events(
                committed_events(commit_writes(*block, bundle)),
            ),
            r is Err ==> exists|s: Seq<Event>|
                final(self).history() == old(self).history() + sent_events(s) && aborted_events(
                    commit_writes(*block, bundle),
                    s,
                ),
            r matches Err(e) ==> e is Transaction,
            stays_closed(old(self).history(), final(self).history()),
    {
        let ghost h0 = self.history();
        let ghost ws = commit_writes(*block, bundle);
        let ghost b = seq![Event { stmt: Stmt::Begin, ok: true }];
        let begin = self.control(begin_text(), Ghost(Stmt::Begin));
        if let Err(m) = begin {
            proof {
                let s = seq![Event { stmt: Stmt::Begin, ok: false }];
                assert(self.history() =~= h0 + sent_events(s));
                lemma_closed_after_aborted(h0, ws, s);
            }
            return Err(StoreError::Transaction(m));
        }
        let params = vec![to_decimal_text(block.number), to_hex_text(&block.hash.bytes), block.data.clone()];
        assert(params@.map_values(|p: String| p@) =~= seq![
            block_key(block.number),
            hex_text(block.hash.bytes@),
            block.data@,
        ]);
        let inserted = self.write(insert_block_text(), params, Ghost(ws[0]));
        if let Err(m) = inserted {
            let rb = self.control(rollback_text(), Ghost(Stmt::Rollback));
            proof {
                let s = b + succeeded(ws.take(0)) + seq![
                    failed_event(ws, 0),
                    Event { stmt: Stmt::Rollback, ok: rb is Ok },
                ];
                assert(succeeded(ws.take(0)) =~= Seq::<Event>::empty());
                assert(self.history() =~= h0 + sent_events(s));
                assert(s.drop_last() =~= b + succeeded(ws.take(0)) + seq![failed_event(ws, 0)]);
                assert(aborted_at(ws, 0, s));
                lemma_closed_after_aborted(h0, ws, s);
            }
            return Err(StoreError::Transaction(m));
        }
        proof {
            assert(succeeded(ws.take(1)) =~= seq![Event { stmt: Stmt::Write(ws[0]), ok: true }]);
            assert(self.history() =~= h0 + sent_events(b + succeeded(ws.take(1))));
        }
        let mut i: usize = 0;
        while i < bundle.changes.len()
            invariant
                i <= bundle.changes@.len(),
                ws == commit_writes(*block, bundle),
                ws.len() == bundle.changes@.len() + 1,
                h0 == old(self).history(),
                b == seq![Event { stmt: Stmt::Begin, ok: true }],
                self.history() == h0 + sent_events(b + succeeded(ws.take(i + 1))),
            decreases bundle.changes@.len() - i,
        {
            let applied = self.apply_change(&bundle.changes[i]);
            assert(ws[i + 1] == change_write(bundle.changes@[i as int]));
            if let Err(m) = applied {
                let rb = self.control(rollback_text(), Ghost(Stmt::Rollback));
                proof {
                    let k = i + 1;
                    let s = b + succeeded(ws.take(k)) + seq![
                        failed_event(ws, k),
                        Event { stmt: Stmt::Rollback, ok: rb is Ok },
                    ];
                    assert(self.history() =~= h0 + sent_events(s));
                    assert(s.drop_last() =~= b + succeeded(ws.take(k)) + seq![failed_event(ws, k)]);
                    assert(aborted_at(ws, k, s));
                    assert(aborted_events(ws, s));
                    assert(self.history() == old(self).history() + sent_events(s));
                    lemma_closed_after_aborted(h0, ws, s);
                }
                return Err(StoreError::Transaction(m));
            }
            proof {
                assert(succeeded(ws.take(i + 2)) =~= succeeded(ws.take(i + 1)).push(
                    Event { stmt: Stmt::Write(ws[i + 1]), ok: true },
                ));
                assert(self.history() =~= h0 + sent_events(b + succeeded(ws.take(i + 2))));
            }
            i = i + 1;
        }
        assert(ws.take(i + 1) =~= ws);
        let committed = self.control(commit_text(), Ghost(Stmt::Commit));
        if let Err(m) = committed {
            let rb = self.control(rollback_text(), Ghost(Stmt::Rollback));
            proof {
                let k = ws.len() as int;
                let s = b + succeeded(ws.take(k)) + seq![
                    failed_event(ws, k),
                    Event { stmt: Stmt::Rollback, ok: rb is Ok },
                ];
                assert(ws.take(k) =~= ws);
                assert(self.history() =~= h0 + sent_events(s));
                assert(s.drop_last() =~= b + succeeded(ws.take(k)) + seq![failed_event(ws, k)]);
                assert(aborted_at(ws, k, s));
                lemma_closed_after_aborted(h0, ws, s);
            }
            return Err(StoreError::Transaction(m));
        }
        proof {
            assert(self.history() =~= h0 + sent_events(committed_events(ws)));
            lemma_closed_after_committed(h0, ws);
        }
        Ok(())
    }

    /// Looks a key up with a query that reads one text column.
    fn fetch(&mut self, sql: &str, key: String) -> (f: Fetched)
        ensures
            final(self).history() == old(self).history().push(query_record(sql@, key@, found_of(f))),
            stays_closed(old(self).history(), final(self).history()),
    {
        let f = query_text(self, sql, key.as_str());
        proof {
            lemma_closed_after_one(old(self).history(), query_record(sql@, key@, found_of(f)));
        }
        f
    }

    /// The payload of the block with the given number: `None` where no block
    /// has it, an error only where the engine fails.
    pub fn get_block(&mut self, number: u64) -> (r: Result<Option<String>, StoreError>)
        ensures
            final(self).history() == old(self).history().push(
                query_record(block_data_sql(), block_key(number), read_found(r)),
            ),
            r matches Err(e) ==> e is Query,
            stays_closed(old(self).history(), final(self).history()),
    {
        let found = self.fetch(block_data_text(), to_decimal_text(number));
        absent_as_none(found)
    }

    /// The payload of the account with the given address: `None` where no
    /// account has it, an error only where the engine fails.
    pub fn get_account(&mut self, address: Address) -> (r: Result<Option<String>, StoreError>)
        ensures
            final(self).history() == old(self).history().push(
                query_record(account_data_sql(), account_key(address), read_found(r)),
            ),
            r matches Err(e) ==> e is Query,
            stays_closed(old(self).history(), final(self).history()),
    {
        let found = self.fetch(account_data_text(), to_hex_text(&address.bytes));
        absent_as_none(found)
    }

    /// Reads the account (or `None`), hands what was read to `f`, and writes
    /// what `f` returns as the account's payload; the read and the write
    /// happen in one exclusive use of the store, so no concurrent update is
    /// lost. A failed read returns its error at once, and an error of `f` is
    /// returned as it is; neither writes.
    pub fn upsert_account<F: FnOnce(Option<String>) -> Result<String, StoreError>>(
        &mut self,
        address: Address,
        f: F,
    ) -> (r: Result<(), StoreError>)
        requires
            forall|a: Option<String>| f.requires((a,)),
        ensures
            exists|read: Result<Option<String>, StoreError>|
                #![trigger read_found(read)]
                {
                    let q = old(self).history().push(
                        query_record(account_data_sql(), account_key(address), read_found(read)),
                    );
                    match read {
                        Err(e) => e is Query && r == Err::<(), StoreError>(e) && final(self).history() == q,
                        Ok(a) => exists|fr: Result<String, StoreError>|
                            #![trigger f.ensures((a,), fr)]
                            f.ensures((a,), fr) && match fr {
                                Err(e) => r == Err::<(), StoreError>(e) && final(self).history() == q,
                                Ok(d) => final(self).history() == q.push(
                                    upsert_record(address, d@, r is Ok),
                                ) && (r matches Err(e) ==> e is Query),
                            },
                    }
                },
            stays_closed(old(self).history(), final(self).history()),
    {
        let ghost h0 = self.history();
        let read = self.get_account(address);
        let ghost h1 = self.history();
        let ghost gread = read;
        match read {
            Err(e) => {
                assert(read_found(gread) == Found::Failed);
                Err(e)
            },
            Ok(current) => {
                let ghost a = current;
                let fr = f(current);
                let ghost gfr = fr;
                match fr {
                    Err(e) => {
                        assert(f.ensures((a,), gfr));
                        Err(e)
                    },
                    Ok(account) => {
                        let ghost d = account;
                        let res = self.write_account(&address, account);
                        proof {
                            lemma_closed_after_one(h1, upsert_record(address, d@, res is Ok));
                            lemma_closed_trans(h0, h1, self.history());
                        }
                        assert(f.ensures((a,), gfr));
                        match res {
                            Ok(()) => Ok(()),
                            Err(m) => Err(StoreError::Query(m)),
                        }
                    },
                }
            },
        }
    }

    /// The account for the execution engine: as `get_account`; an address
    /// never seen is `None`.
    pub fn basic(&mut self, address: Address) -> (r: Result<Option<String>, StoreError>)
        ensures
            final(self).history() == old(self).history().push(
                query_record(account_data_sql(), account_key(address), read_found(r)),
            ),
            r matches Err(e) ==> e is Query,
            stays_closed(old(self).history(), final(self).history()),
    {
        self.get_account(address)
    }

    /// The code stored under a hash in the `bytecode` table: an unknown hash
    /// gives empty code, not an error.
    pub fn code_by_hash(&mut self, code_hash: B256) -> (r: Result<Vec<u8>, StoreError>)
        ensures
            exists|found: Found|
                #![trigger query_record(code_sql(), hex_text(code_hash.bytes@), found)]
                final(self).history() == old(self).history().push(
                    query_record(code_sql(), hex_text(code_hash.bytes@), found),
                ) && match found {
                    Found::Row(s) => if is_hex_digits(hex_body(s)) {
                        r matches Ok(v) && v@ == hex_bytes(hex_body(s))
                    } else {
                        r matches Err(e) && e is Decode
                    },
                    Found::NoRow => r matches Ok(v) && v@.len() == 0,
                    Found::Failed => r matches Err(e) && e is Query,
                },
            stays_closed(old(self).history(), final(self).history()),
    {
        let found = self.fetch(code_text(), to_hex_text(&code_hash.bytes));
        let ghost fd = found_of(found);
        let r = absent_as_empty_code(found);
        assert(self.history() == old(self).history().push(query_record(code_sql(), hex_text(code_hash.bytes@), fd)));
        r
    }

    /// The value of a storage slot. Slots are not persisted by this store:
    /// every slot reads as zero, and nothing is sent to the engine.
    pub fn storage(&mut self, address: Address, index: U256) -> (r: Result<U256, StoreError>)
        ensures
            final(self).history() == old(self).history(),
            r matches Ok(v) && v.value() == 0,
    {
        Ok(U256::zero())
    }

    /// The hash of the block with the given number. The engine asks only for
    /// numbers in range, so a missing hash is an inconsistency and an error.
    pub fn block_hash(&mut self, number: u64) -> (r: Result<B256, StoreError>)
        ensures
            exists|found: Found|
                #![trigger query_record(block_hash_sql(), block_key(number), found)]
                final(self).history() == old(self).history().push(
                    query_record(block_hash_sql(), block_key(number), found),
                ) && match found {
                    Found::Row(s) => if is_digest_text(s) {
                        r matches Ok(h) && h.bytes@ == hex_bytes(hex_body(s))
                    } else {
                        r matches Err(e) && e is Decode
                    },
                    Found::NoRow => r matches Err(e) && e is Inconsistency,
                    Found::Failed => r matches Err(e) && e is Query,
                },
            stays_closed(old(self).history(), final(self).history()),
    {
        let found = self.fetch(block_hash_text(), to_decimal_text(number));
        let ghost fd = found_of(found);
        let r = absent_as_error(found);
        assert(self.history() == old(self).history().push(query_record(block_hash_sql(), block_key(number), fd)));
        r
    }
}

} // verus!
