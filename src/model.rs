use vstd::prelude::*;
use crate::sql::{
    begin_sql, commit_sql, create_sql, delete_account_sql, insert_block_sql, lemma_texts_distinct,
    rollback_sql, upsert_account_sql,
};

verus! {

/// A change of table rows, as one SQL statement makes it.
pub enum RowWrite {
    /// Adds a block row under its number key.
    InsertBlock { number: Seq<char>, hash: Seq<char>, data: Seq<char> },
    /// Inserts the account row, or replaces its payload if the address is present.
    UpsertAccount { address: Seq<char>, data: Seq<char> },
    /// Removes the account row, if any.
    DeleteAccount { address: Seq<char> },
}

/// What a statement that the store sends does.
pub enum Stmt {
    CreateTables,
    Begin,
    Commit,
    Rollback,
    Write(RowWrite),
}

/// What a statement does, and whether the engine reported success.
pub struct Event {
    pub stmt: Stmt,
    pub ok: bool,
}

/// The rows of the block and account tables: a block number key maps to
/// (hash text, payload), an address key to the account payload.
pub struct Tables {
    pub blocks: Map<Seq<char>, (Seq<char>, Seq<char>)>,
    pub accounts: Map<Seq<char>, Seq<char>>,
}

/// The committed rows, and the rows as an open transaction sees them.
pub struct Model {
    pub committed: Tables,
    pub pending: Option<Tables>,
}

pub open spec fn apply_write(t: Tables, w: RowWrite) -> Tables {
    match w {
        RowWrite::InsertBlock { number, hash, data } => Tables {
            blocks: t.blocks.insert(number, (hash, data)),
            accounts: t.accounts,
        },
        RowWrite::UpsertAccount { address, data } => Tables {
            blocks: t.blocks,
            accounts: t.accounts.insert(address, data),
        },
        RowWrite::DeleteAccount { address } => Tables {
            blocks: t.blocks,
            accounts: t.accounts.remove(address),
        },
    }
}

/// The effect of one event: a failed statement changes nothing; a write goes
/// to the open transaction if there is one and is committed at once if not;
/// a rollback ends the transaction and drops its writes. That a rollback
/// ends the transaction even where the engine reports a failure is taken of
/// the engine: SQLite ends a transaction that it cannot roll back in place,
/// and a rollback with no transaction open changes nothing.
pub open spec fn step(m: Model, e: Event) -> Model {
    match e.stmt {
        Stmt::Rollback => Model { committed: m.committed, pending: None },
        _ => if !e.ok {
            m
        } else {
            match e.stmt {
                Stmt::Begin => Model { committed: m.committed, pending: Some(m.committed) },
                Stmt::Commit => match m.pending {
                    Some(p) => Model { committed: p, pending: None },
                    None => m,
                },
                Stmt::Write(w) => match m.pending {
                    Some(p) => Model { committed: m.committed, pending: Some(apply_write(p, w)) },
                    None => Model { committed: apply_write(m.committed, w), pending: None },
                },
                _ => m,
            }
        },
    }
}

/// The effect of a sequence of events, in order.
pub open spec fn run(m: Model, log: Seq<Event>) -> Model
    decreases log.len(),
{
    if log.len() == 0 {
        m
    } else {
        step(run(m, log.drop_last()), log.last())
    }
}

/// Each write marked as a success.
pub open spec fn succeeded(ws: Seq<RowWrite>) -> Seq<Event> {
    ws.map_values(|w: RowWrite| Event { stmt: Stmt::Write(w), ok: true })
}

/// The writes applied one after another.
pub open spec fn apply_writes(t: Tables, ws: Seq<RowWrite>) -> Tables
    decreases ws.len(),
{
    if ws.len() == 0 {
        t
    } else {
        apply_write(apply_writes(t, ws.drop_last()), ws.last())
    }
}

/// The events of a transaction in which every statement succeeded.
pub open spec fn committed_events(ws: Seq<RowWrite>) -> Seq<Event> {
    seq![Event { stmt: Stmt::Begin, ok: true }] + succeeded(ws) + seq![
        Event { stmt: Stmt::Commit, ok: true },
    ]
}

/// The event by which a transaction over `ws` failed after `k` successful
/// writes: the next write, or the commit when all of them succeeded.
pub open spec fn failed_event(ws: Seq<RowWrite>, k: int) -> Event {
    if k < ws.len() {
        Event { stmt: Stmt::Write(ws[k]), ok: false }
    } else {
        Event { stmt: Stmt::Commit, ok: false }
    }
}

/// The events of a transaction over `ws` whose first `k` writes succeeded,
/// whose next statement failed, and which was then rolled back.
pub open spec fn aborted_at(ws: Seq<RowWrite>, k: int, s: Seq<Event>) -> bool {
    &&& 0 <= k <= ws.len()
    &&& s.len() == k + 3
    &&& s.drop_last() == seq![Event { stmt: Stmt::Begin, ok: true }] + succeeded(ws.take(k)) + seq![
        failed_event(ws, k),
    ]
    &&& s.last().stmt == Stmt::Rollback
}

/// The events of a transaction over `ws` that did not go through: the begin
/// failed, or it was rolled back after a failure.
pub open spec fn aborted_events(ws: Seq<RowWrite>, s: Seq<Event>) -> bool {
    s == seq![Event { stmt: Stmt::Begin, ok: false }] || exists|k: int| #[trigger]
        aborted_at(ws, k, s)
}

pub proof fn lemma_run_append(m: Model, a: Seq<Event>, b: Seq<Event>)
    ensures
        run(m, a + b) == run(run(m, a), b),
    decreases b.len(),
{
    if b.len() == 0 {
        assert(a + b =~= a);
    } else {
        assert((a + b).drop_last() =~= a + b.drop_last());
        lemma_run_append(m, a, b.drop_last());
    }
}

/// Inside an open transaction, successful writes touch only its rows.
pub proof fn lemma_run_writes_pending(c: Tables, p: Tables, ws: Seq<RowWrite>)
    ensures
        run(Model { committed: c, pending: Some(p) }, succeeded(ws)) == (Model {
            committed: c,
            pending: Some(apply_writes(p, ws)),
        }),
    decreases ws.len(),
{
    if ws.len() > 0 {
        assert(succeeded(ws).drop_last() =~= succeeded(ws.drop_last()));
        lemma_run_writes_pending(c, p, ws.drop_last());
    }
}

/// A transaction that did not go through leaves the committed rows as they
/// were and no transaction open.
pub proof fn lemma_aborted_changes_nothing(m: Model, ws: Seq<RowWrite>, s: Seq<Event>)
    requires
        m.pending is None,
        aborted_events(ws, s),
    ensures
        run(m, s) == m,
{
    if s == seq![Event { stmt: Stmt::Begin, ok: false }] {
        assert(s.drop_last() =~= Seq::<Event>::empty());
        reveal_with_fuel(run, 2);
    } else {
        let k = choose|k: int| #[trigger] aborted_at(ws, k, s);
        let b = seq![Event { stmt: Stmt::Begin, ok: true }];
        let w = succeeded(ws.take(k));
        let d = s.drop_last();
        assert(b.drop_last() =~= Seq::<Event>::empty());
        reveal_with_fuel(run, 2);
        lemma_run_writes_pending(m.committed, m.committed, ws.take(k));
        lemma_run_append(m, b, w);
        assert(d.drop_last() =~= b + w);
        assert(run(m, b + w).committed == m.committed);
        assert(run(m, d).committed == m.committed);
    }
}

/// A transaction in which every statement succeeded applies its writes, in
/// order, to the committed rows.
pub proof fn lemma_committed_applies(m: Model, ws: Seq<RowWrite>)
    requires
        m.pending is None,
    ensures
        run(m, committed_events(ws)) == (Model {
            committed: apply_writes(m.committed, ws),
            pending: None,
        }),
{
    let b = seq![Event { stmt: Stmt::Begin, ok: true }];
    let c = seq![Event { stmt: Stmt::Commit, ok: true }];
    assert(b.drop_last() =~= Seq::<Event>::empty());
    assert(c.drop_last() =~= Seq::<Event>::empty());
    reveal_with_fuel(run, 2);
    lemma_run_writes_pending(m.committed, m.committed, ws);
    lemma_run_append(m, b, succeeded(ws));
    lemma_run_append(m, b + succeeded(ws), c);
}

/// What a query found: the text of the first column of its row, no row, or
/// a failure of the engine.
pub enum Found {
    Row(Seq<char>),
    NoRow,
    Failed,
}

/// What is handed to the engine: statements without parameters; one
/// statement with its text parameters; a query with its key, and what it
/// found.
pub enum Sent {
    Batch(Seq<char>),
    Exec(Seq<char>, Seq<Seq<char>>),
    Query(Seq<char>, Seq<char>, Found),
}

/// One call into the engine and whether it succeeded.
pub struct Record {
    pub sent: Sent,
    pub ok: bool,
}

/// What the store sends to perform a statement.
pub open spec fn sent_stmt(s: Stmt) -> Sent {
    match s {
        Stmt::CreateTables => Sent::Batch(create_sql()),
        Stmt::Begin => Sent::Batch(begin_sql()),
        Stmt::Commit => Sent::Batch(commit_sql()),
        Stmt::Rollback => Sent::Batch(rollback_sql()),
        Stmt::Write(RowWrite::InsertBlock { number, hash, data }) => Sent::Exec(
            insert_block_sql(),
            seq![number, hash, data],
        ),
        Stmt::Write(RowWrite::UpsertAccount { address, data }) => Sent::Exec(
            upsert_account_sql(),
            seq![address, data],
        ),
        Stmt::Write(RowWrite::DeleteAccount { address }) => Sent::Exec(
            delete_account_sql(),
            seq![address],
        ),
    }
}

/// What a call into the engine does to the rows; queries, and text that the
/// store does not send, do nothing.
pub open spec fn decode(x: Sent) -> Option<Stmt> {
    match x {
        Sent::Batch(sql) => if sql == begin_sql() {
            Some(Stmt::Begin)
        } else if sql == commit_sql() {
            Some(Stmt::Commit)
        } else if sql == rollback_sql() {
            Some(Stmt::Rollback)
        } else if sql == create_sql() {
            Some(Stmt::CreateTables)
        } else {
            None
        },
        Sent::Exec(sql, p) => if sql == insert_block_sql() && p.len() == 3 {
            Some(Stmt::Write(RowWrite::InsertBlock { number: p[0], hash: p[1], data: p[2] }))
        } else if sql == upsert_account_sql() && p.len() == 2 {
            Some(Stmt::Write(RowWrite::UpsertAccount { address: p[0], data: p[1] }))
        } else if sql == delete_account_sql() && p.len() == 1 {
            Some(Stmt::Write(RowWrite::DeleteAccount { address: p[0] }))
        } else {
            None
        },
        Sent::Query(..) => None,
    }
}

pub open spec fn step_record(m: Model, r: Record) -> Model {
    match decode(r.sent) {
        Some(s) => step(m, Event { stmt: s, ok: r.ok }),
        None => m,
    }
}

/// The rows after a sequence of calls into the engine, in order.
pub open spec fn run_history(m: Model, h: Seq<Record>) -> Model
    decreases h.len(),
{
    if h.len() == 0 {
        m
    } else {
        step_record(run_history(m, h.drop_last()), h.last())
    }
}

/// The calls that perform the given statements, with their outcomes.
pub open spec fn sent_events(es: Seq<Event>) -> Seq<Record> {
    es.map_values(|e: Event| Record { sent: sent_stmt(e.stmt), ok: e.ok })
}

/// A history that leaves no transaction open when it starts with none.
pub open spec fn stays_closed(before: Seq<Record>, after: Seq<Record>) -> bool {
    forall|m: Model|
        run_history(m, before).pending is None ==> (#[trigger] run_history(m, after)).pending is None
}

pub proof fn lemma_decode_sent(s: Stmt)
    ensures
        decode(sent_stmt(s)) == Some(s),
{
    lemma_texts_distinct();
    match s {
        Stmt::Write(RowWrite::InsertBlock { number, hash, data }) => {
            assert(seq![number, hash, data][2] == data);
        },
        _ => {},
    }
}

pub proof fn lemma_run_history_append(m: Model, a: Seq<Record>, b: Seq<Record>)
    ensures
        run_history(m, a + b) == run_history(run_history(m, a), b),
    decreases b.len(),
{
    if b.len() == 0 {
        assert(a + b =~= a);
    } else {
        assert((a + b).drop_last() =~= a + b.drop_last());
        lemma_run_history_append(m, a, b.drop_last());
    }
}

/// Sending the calls of some statements has the effect of the statements.
pub proof fn lemma_run_sent(m: Model, es: Seq<Event>)
    ensures
        run_history(m, sent_events(es)) == run(m, es),
    decreases es.len(),
{
    if es.len() > 0 {
        assert(sent_events(es).drop_last() =~= sent_events(es.drop_last()));
        lemma_run_sent(m, es.drop_last());
        lemma_decode_sent(es.last().stmt);
    }
}

/// A query changes no row.
pub proof fn lemma_query_changes_nothing(m: Model, h: Seq<Record>, r: Record)
    requires
        r.sent is Query,
    ensures
        run_history(m, h.push(r)) == run_history(m, h),
{
    assert(h.push(r).drop_last() =~= h);
}

pub proof fn lemma_closed_trans(a: Seq<Record>, b: Seq<Record>, c: Seq<Record>)
    requires
        stays_closed(a, b),
        stays_closed(b, c),
    ensures
        stays_closed(a, c),
{
    assert forall|m: Model| run_history(m, a).pending is None implies (#[trigger] run_history(
        m,
        c,
    )).pending is None by {
        assert(run_history(m, b).pending is None);
    }
}

/// A query, the creation of tables, or a single write outside a transaction
/// opens none.
pub proof fn lemma_closed_after_one(h: Seq<Record>, r: Record)
    requires
        r.sent is Query || r.sent == sent_stmt(Stmt::CreateTables) || exists|w: RowWrite|
            r.sent == sent_stmt(Stmt::Write(w)),
    ensures
        stays_closed(h, h.push(r)),
{
    assert forall|m: Model| run_history(m, h).pending is None implies (#[trigger] run_history(
        m,
        h.push(r),
    )).pending is None by {
        assert(h.push(r).drop_last() =~= h);
        if r.sent == sent_stmt(Stmt::CreateTables) {
            lemma_decode_sent(Stmt::CreateTables);
        } else if !(r.sent is Query) {
            let w = choose|w: RowWrite| r.sent == sent_stmt(Stmt::Write(w));
            lemma_decode_sent(Stmt::Write(w));
        }
    }
}

pub proof fn lemma_closed_after_committed(h: Seq<Record>, ws: Seq<RowWrite>)
    ensures
        stays_closed(h, h + sent_events(committed_events(ws))),
{
    assert forall|m: Model| run_history(m, h).pending is None implies (#[trigger] run_history(
        m,
        h + sent_events(committed_events(ws)),
    )).pending is None by {
        lemma_run_history_append(m, h, sent_events(committed_events(ws)));
        lemma_run_sent(run_history(m, h), committed_events(ws));
        lemma_committed_applies(run_history(m, h), ws);
    }
}

pub proof fn lemma_closed_after_aborted(h: Seq<Record>, ws: Seq<RowWrite>, s: Seq<Event>)
    requires
        aborted_events(ws, s),
    ensures
        stays_closed(h, h + sent_events(s)),
{
    assert forall|m: Model| run_history(m, h).pending is None implies (#[trigger] run_history(
        m,
        h + sent_events(s),
    )).pending is None by {
        lemma_run_history_append(m, h, sent_events(s));
        lemma_run_sent(run_history(m, h), s);
        lemma_aborted_changes_nothing(run_history(m, h), ws, s);
    }
}

/// The rows as the next statement sees them: those of the open transaction,
/// if there is one.
pub open spec fn visible(m: Model) -> Tables {
    match m.pending {
        Some(p) => p,
        None => m.committed,
    }
}

/// The block number that a call inserts, if it is a block insert.
pub open spec fn inserted_number(x: Sent) -> Option<Seq<char>> {
    match decode(x) {
        Some(Stmt::Write(RowWrite::InsertBlock { number, .. })) => Some(number),
        _ => None,
    }
}

/// The engine held the unique number column over a history: it reported no
/// block insert as a success whose number was stored already.
pub open spec fn keeps_numbers_unique(m: Model, h: Seq<Record>) -> bool {
    forall|i: int|
        0 <= i < h.len() && h[i].ok && (#[trigger] inserted_number(h[i].sent)) is Some
            ==> !visible(run_history(m, h.take(i))).blocks.contains_key(
            inserted_number(h[i].sent)->Some_0,
        )
}

} // verus!
