//! What holds of the rows across calls of the store, stated over the model
//! of the statements it sends.
use vstd::prelude::*;
use crate::keys::{digit_char, hex_digits, hex_text, Address};
use crate::model::{
    aborted_events, apply_writes, committed_events, lemma_aborted_changes_nothing,
    lemma_committed_applies, lemma_decode_sent, lemma_query_changes_nothing, lemma_run_history_append, lemma_run_sent,
    run_history, sent_events, sent_stmt, inserted_number, keeps_numbers_unique, visible, Event, Found, Model, Record, RowWrite, Stmt, Tables,
};
use crate::sql::account_data_sql;
use crate::store::{
    account_key, block_key, change_write, commit_writes, query_record, upsert_record, Block, StateDiff,
};

verus! {

proof fn lemma_digit_char_injective(a: int, b: int)
    requires
        0 <= a < 16,
        0 <= b < 16,
        digit_char(a) == digit_char(b),
    ensures
        a == b,
{
}

proof fn lemma_hex_digits_injective(a: Seq<u8>, b: Seq<u8>)
    requires
        a.len() == b.len(),
        hex_digits(a) == hex_digits(b),
    ensures
        a == b,
    decreases a.len(),
{
    if a.len() > 0 {
        lemma_hex_digits_len(a.drop_last());
        lemma_hex_digits_len(b.drop_last());
        let n: int = hex_digits(a.drop_last()).len() as int;
        let x = a.last();
        let y = b.last();
        assert(hex_digits(a)[n] == digit_char(x as int / 16));
        assert(hex_digits(b)[n] == digit_char(y as int / 16));
        assert(hex_digits(a)[n + 1] == digit_char(x as int % 16));
        assert(hex_digits(b)[n + 1] == digit_char(y as int % 16));
        lemma_digit_char_injective(x as int / 16, y as int / 16);
        lemma_digit_char_injective(x as int % 16, y as int % 16);
        assert(hex_digits(a.drop_last()) =~= hex_digits(a).take(n));
        assert(hex_digits(b.drop_last()) =~= hex_digits(b).take(n));
        lemma_hex_digits_injective(a.drop_last(), b.drop_last());
        assert(a =~= a.drop_last().push(x));
        assert(b =~= b.drop_last().push(y));
    }
}

proof fn lemma_hex_digits_len(a: Seq<u8>)
    ensures
        hex_digits(a).len() == 2 * a.len(),
    decreases a.len(),
{
    if a.len() > 0 {
        lemma_hex_digits_len(a.drop_last());
    }
}

/// Distinct addresses have distinct row keys.
pub proof fn lemma_account_key_injective(a: Address, b: Address)
    requires
        account_key(a) == account_key(b),
    ensures
        a == b,
{
    assert(hex_digits(a.bytes@) =~= hex_text(a.bytes@).skip(2));
    assert(hex_digits(b.bytes@) =~= hex_text(b.bytes@).skip(2));
    lemma_hex_digits_injective(a.bytes@, b.bytes@);
    assert(a.bytes == b.bytes);
}

/// Whether a write touches the account row with key `k`.
pub open spec fn touches_account(w: RowWrite, k: Seq<char>) -> bool {
    match w {
        RowWrite::InsertBlock { .. } => false,
        RowWrite::UpsertAccount { address, .. } => address == k,
        RowWrite::DeleteAccount { address } => address == k,
    }
}

/// The last write that touches an account row decides it.
pub proof fn lemma_last_write_wins(t: crate::model::Tables, ws: Seq<RowWrite>, i: int, k: Seq<char>)
    requires
        0 <= i < ws.len(),
        touches_account(ws[i], k),
        forall|j: int| i < j < ws.len() ==> !touches_account(#[trigger] ws[j], k),
    ensures
        apply_writes(t, ws).accounts.contains_key(k) == ws[i] is UpsertAccount,
        ws[i] matches RowWrite::UpsertAccount { data, .. } ==> apply_writes(t, ws).accounts[k] == data,
    decreases ws.len(),
{
    if i < ws.len() - 1 {
        assert(ws.drop_last()[i] == ws[i]);
        assert forall|j: int| i < j < ws.drop_last().len() implies !touches_account(#[trigger] ws.drop_last()[j], k) by {
            assert(ws.drop_last()[j] == ws[j]);
        }
        lemma_last_write_wins(t, ws.drop_last(), i, k);
        assert(!touches_account(ws.last(), k));
    }
}

/// A commit that did not go through changes no row: whatever the rows were
/// before the call (with no transaction open), they are the same after it;
/// in particular neither the block row nor any account row of its diff was
/// added, changed or removed.
pub proof fn law_failed_commit_keeps_rows(
    m: Model,
    before: Seq<Record>,
    after: Seq<Record>,
    block: Block,
    diff: StateDiff,
)
    requires
        run_history(m, before).pending is None,
        exists|s: Seq<Event>|
            after == before + sent_events(s) && aborted_events(commit_writes(block, diff), s),
    ensures
        run_history(m, after) == run_history(m, before),
{
    let s = choose|s: Seq<Event>|
        after == before + sent_events(s) && aborted_events(commit_writes(block, diff), s);
    lemma_run_history_append(m, before, sent_events(s));
    lemma_run_sent(run_history(m, before), s);
    lemma_aborted_changes_nothing(run_history(m, before), commit_writes(block, diff), s);
}

/// Creating the tables changes no row, so doing it twice is the same as doing
/// it once.
pub proof fn law_create_tables_idempotent(m: Model, before: Seq<Record>)
    ensures
        ({
            let c = Record { sent: sent_stmt(Stmt::CreateTables), ok: true };
            &&& run_history(m, before.push(c)) == run_history(m, before)
            &&& run_history(m, before.push(c).push(c)) == run_history(m, before.push(c))
        }),
{
    let c = Record { sent: sent_stmt(Stmt::CreateTables), ok: true };
    lemma_decode_sent(Stmt::CreateTables);
    assert(before.push(c).drop_last() == before);
    assert(before.push(c).push(c).drop_last() == before.push(c));
}

/// After a successful upsert of an account outside a transaction (the read
/// of the old payload, then the write), its row holds the new payload,
/// whatever it held before.
pub proof fn law_upsert_then_read(
    m: Model,
    before: Seq<Record>,
    address: Address,
    found: Found,
    d: Seq<char>,
)
    requires
        run_history(m, before).pending is None,
    ensures
        ({
            let after = before.push(query_record(account_data_sql(), account_key(address), found)).push(
                upsert_record(address, d, true),
            );
            &&& run_history(m, after).committed.accounts.contains_key(account_key(address))
            &&& run_history(m, after).committed.accounts[account_key(address)] == d
        }),
{
    let q = before.push(query_record(account_data_sql(), account_key(address), found));
    let after = q.push(upsert_record(address, d, true));
    lemma_query_changes_nothing(m, before, query_record(account_data_sql(), account_key(address), found));
    assert(after.drop_last() == q);
    lemma_decode_sent(Stmt::Write(RowWrite::UpsertAccount { address: account_key(address), data: d }));
}

/// After a successful commit, the block row is stored under its number, and
/// each account of the diff holds what its last change says: the new payload,
/// or no row where the account was removed, even if it existed before.
pub proof fn law_commit_applies_diff(
    m: Model,
    before: Seq<Record>,
    block: Block,
    diff: StateDiff,
    i: int,
)
    requires
        run_history(m, before).pending is None,
        0 <= i < diff.changes@.len(),
        forall|j: int|
            i < j < diff.changes@.len() ==> (#[trigger] diff.changes@[j]).address
                != diff.changes@[i].address,
    ensures
        ({
            let t = run_history(m, before + sent_events(committed_events(commit_writes(block, diff)))).committed;
            let c = diff.changes@[i];
            &&& t.blocks.contains_key(block_key(block.number))
            &&& t.accounts.contains_key(account_key(c.address)) == c.account is Some
            &&& c.account matches Some(d) ==> t.accounts[account_key(c.address)] == d@
        }),
{
    let ws = commit_writes(block, diff);
    let k = account_key(diff.changes@[i].address);
    lemma_commit_history(m, before, ws);
    assert(ws[i + 1] == change_write(diff.changes@[i]));
    assert forall|j: int| i + 1 < j < ws.len() implies !touches_account(#[trigger] ws[j], k) by {
        assert(ws[j] == change_write(diff.changes@[j - 1]));
        if touches_account(ws[j], k) {
            lemma_account_key_injective(diff.changes@[j - 1].address, diff.changes@[i].address);
        }
    }
    lemma_last_write_wins(run_history(m, before).committed, ws, i + 1, k);
    lemma_block_row_kept(run_history(m, before).committed, ws, block_key(block.number));
}

/// After a successful commit, the block rows are those before with this
/// block's row added under its number (which was not stored before, where
/// the engine keeps numbers unique: see `law_duplicate_number_fails`), and
/// the account rows of addresses that the diff does not
/// name are as they were.
pub proof fn law_commit_keeps_other_rows(
    m: Model,
    before: Seq<Record>,
    block: Block,
    diff: StateDiff,
    address: Address,
)
    requires
        run_history(m, before).pending is None,
        forall|j: int| 0 <= j < diff.changes@.len() ==> (#[trigger] diff.changes@[j]).address != address,
    ensures
        ({
            let t0 = run_history(m, before).committed;
            let t = run_history(m, before + sent_events(committed_events(commit_writes(block, diff)))).committed;
            &&& t.blocks == t0.blocks.insert(
                block_key(block.number),
                (hex_text(block.hash.bytes@), block.data@),
            )
            &&& t.accounts.contains_key(account_key(address)) == t0.accounts.contains_key(account_key(address))
            &&& t.accounts[account_key(address)] == t0.accounts[account_key(address)]
        }),
{
    let ws = commit_writes(block, diff);
    let k = account_key(address);
    let t0 = run_history(m, before).committed;
    lemma_commit_history(m, before, ws);
    assert forall|j: int| 0 < j < ws.len() implies !touches_account(#[trigger] ws[j], k) && !(ws[j] is InsertBlock) by {
        assert(ws[j] == change_write(diff.changes@[j - 1]));
        if touches_account(ws[j], k) {
            lemma_account_key_injective(diff.changes@[j - 1].address, address);
        }
    }
    lemma_untouched(t0, ws, k);
    assert(ws.take(1).drop_last() =~= Seq::<RowWrite>::empty());
    assert(ws.take(1).last() == ws[0]);
    reveal_with_fuel(apply_writes, 2);
    assert(apply_writes(t0, ws.take(1)) == crate::model::apply_write(t0, ws[0]));
}

/// The rows after a successful commit are its writes applied to the rows
/// before it.
proof fn lemma_commit_history(m: Model, before: Seq<Record>, ws: Seq<RowWrite>)
    requires
        run_history(m, before).pending is None,
    ensures
        run_history(m, before + sent_events(committed_events(ws))).committed == apply_writes(
            run_history(m, before).committed,
            ws,
        ),
{
    lemma_run_history_append(m, before, sent_events(committed_events(ws)));
    lemma_run_sent(run_history(m, before), committed_events(ws));
    lemma_committed_applies(run_history(m, before), ws);
}

/// Writes after the first that touch neither the account row `k` nor any
/// block row leave both as the first write left them.
proof fn lemma_untouched(t: Tables, ws: Seq<RowWrite>, k: Seq<char>)
    requires
        ws.len() > 0,
        forall|j: int| 0 < j < ws.len() ==> !touches_account(#[trigger] ws[j], k) && !(ws[j] is InsertBlock),
    ensures
        apply_writes(t, ws).blocks == apply_writes(t, ws.take(1)).blocks,
        apply_writes(t, ws).accounts.contains_key(k) == apply_writes(t, ws.take(1)).accounts.contains_key(k),
        apply_writes(t, ws).accounts[k] == apply_writes(t, ws.take(1)).accounts[k],
    decreases ws.len(),
{
    if ws.len() > 1 {
        assert forall|j: int| 0 < j < ws.drop_last().len() implies !touches_account(#[trigger] ws.drop_last()[j], k) && !(ws.drop_last()[j] is InsertBlock) by {
            assert(ws.drop_last()[j] == ws[j]);
        }
        lemma_untouched(t, ws.drop_last(), k);
        assert(ws.drop_last().take(1) =~= ws.take(1));
        assert(!touches_account(ws.last(), k));
    } else {
        assert(ws.take(1) =~= ws);
    }
}

/// A block row, once written, is kept by later writes.
proof fn lemma_block_row_kept(t: crate::model::Tables, ws: Seq<RowWrite>, n: Seq<char>)
    requires
        ws.len() > 0,
        ws[0] matches RowWrite::InsertBlock { number, .. } && number == n,
    ensures
        apply_writes(t, ws).blocks.contains_key(n),
    decreases ws.len(),
{
    if ws.len() > 1 {
        assert(ws.drop_last()[0] == ws[0]);
        lemma_block_row_kept(t, ws.drop_last(), n);
    } else {
        assert(ws.drop_last().len() == 0);
    }
}

/// Block numbers are unique: where the engine holds the unique number
/// column, a commit of a block whose number is stored already cannot have
/// succeeded. Its block insert fails, and the commit is then rolled back
/// (`law_failed_commit_keeps_rows`).
pub proof fn law_duplicate_number_fails(m: Model, before: Seq<Record>, block: Block, diff: StateDiff)
    requires
        run_history(m, before).pending is None,
        run_history(m, before).committed.blocks.contains_key(block_key(block.number)),
    ensures
        !keeps_numbers_unique(m, before + sent_events(committed_events(commit_writes(block, diff)))),
{
    let ws = commit_writes(block, diff);
    let h = before + sent_events(committed_events(ws));
    let i = before.len() as int + 1;
    let begin = Record { sent: sent_stmt(Stmt::Begin), ok: true };
    lemma_decode_sent(Stmt::Begin);
    lemma_decode_sent(Stmt::Write(ws[0]));
    assert(committed_events(ws)[1] == Event { stmt: Stmt::Write(ws[0]), ok: true });
    assert(h[i] == Record { sent: sent_stmt(Stmt::Write(ws[0])), ok: true });
    assert(h.take(i) =~= before.push(begin));
    assert(before.push(begin).drop_last() =~= before);
    assert(visible(run_history(m, h.take(i))) == run_history(m, before).committed);
    assert(inserted_number(h[i].sent) == Some(block_key(block.number)));
}

} // verus!
