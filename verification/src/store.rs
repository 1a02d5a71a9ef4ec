//! A model of the table that the rows are written to. The store keys a row
//! by movie title and movie id, and a write replaces the row that has its
//! key: the table after a run of writes holds, under each key, the last row
//! written for it.

use crate::loader::{rows_of, ReferencesView};
use crate::project::WriteRowView;
use vstd::prelude::*;

verus! {

/// The primary key of a row: title and movie id.
pub type RowKey = (Seq<char>, i32);

/// The table: rows by key.
pub type Table = Map<RowKey, WriteRowView>;

/// The key under which a row is stored.
pub open spec fn key_of(row: WriteRowView) -> RowKey {
    (row.name, row.mid)
}

/// The table after the rows have been written to it in order.
pub open spec fn table_after(table: Table, rows: Seq<WriteRowView>) -> Table
    decreases rows.len(),
{
    if rows.len() == 0 {
        table
    } else {
        table_after(table, rows.drop_last()).insert(key_of(rows.last()), rows.last())
    }
}

/// The last of the rows that has the given key.
pub open spec fn last_write(rows: Seq<WriteRowView>, key: RowKey) -> Option<WriteRowView>
    decreases rows.len(),
{
    if rows.len() == 0 {
        None
    } else if key_of(rows.last()) == key {
        Some(rows.last())
    } else {
        last_write(rows.drop_last(), key)
    }
}

/// After a run of writes a key holds the last row written for it, or what
/// the table held before where no row was written for it.
pub proof fn lemma_table_after(table: Table, rows: Seq<WriteRowView>, key: RowKey)
    ensures
        table_after(table, rows).get(key) == match last_write(rows, key) {
            Some(row) => Some(row),
            None => table.get(key),
        },
    decreases rows.len(),
{
    if rows.len() > 0 {
        lemma_table_after(table, rows.drop_last(), key);
    }
}

/// Writing the same rows a second time leaves the table as the first time
/// left it: the same keys with the same rows.
pub proof fn lemma_rewrite_changes_nothing(table: Table, rows: Seq<WriteRowView>)
    ensures
        table_after(table_after(table, rows), rows) == table_after(table, rows),
{
    let once = table_after(table, rows);
    let twice = table_after(once, rows);
    assert forall|key: RowKey| #[trigger] twice.get(key) == once.get(key) by {
        lemma_table_after(table, rows, key);
        lemma_table_after(once, rows, key);
    }
    assert forall|key: RowKey| twice.contains_key(key) == once.contains_key(key) by {
        assert(twice.get(key) == once.get(key));
    }
    assert forall|key: RowKey| twice.contains_key(key) implies twice[key] == once[key] by {
        assert(twice.get(key) == once.get(key));
    }
    assert(twice =~= once);
}

/// Loading the same movie lines against the same reference data a second
/// time writes the same rows, and the table ends as the first load left it.
pub proof fn lemma_reload_is_idempotent(table: Table, refs: ReferencesView, lines: Seq<Seq<char>>)
    ensures
        table_after(table_after(table, rows_of(refs, lines)), rows_of(refs, lines)) == table_after(
            table,
            rows_of(refs, lines),
        ),
        table_after(table_after(table, rows_of(refs, lines)), rows_of(refs, lines)).dom().len()
            == table_after(table, rows_of(refs, lines)).dom().len(),
{
    lemma_rewrite_changes_nothing(table, rows_of(refs, lines));
}

} // verus!
