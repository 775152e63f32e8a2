//! What holds of every batch.

use crate::batch::{
    added_rows_come_last, first_uneven_row_is_reported, sum_of, valid_batch_is_even, BatchView,
};
use crate::error::ErrorView;
use crate::row::Value;
use crate::text::decimal;
use vstd::prelude::*;

verus! {

/// A new batch holds its statement, which has no cursor and was not executed, no rows, and no
/// option that was not asked for. It cannot be executed.
pub proof fn new_batch_is_empty(sql: Seq<char>)
    ensures
        ({
            let batch = BatchView::empty(sql);
            &&& batch.sql == sql
            &&& batch.statement_sql == sql
            &&& batch.cursor_id == 0
            &&& !batch.executed
            &&& batch.rows.len() == 0
            &&& batch.num_columns == 0
            &&& !batch.options.batch_errors
            &&& !batch.options.array_dml_row_counts
            &&& !batch.options.auto_commit
            &&& batch.validated() == Err::<(), ErrorView>(ErrorView::Internal("Batch has no rows"@))
        }),
{
}

/// One more row comes last, and decides the number of columns if and only if it is the first.
/// Nothing else changes.
pub proof fn row_is_added_last(batch: BatchView, row: Seq<Value>)
    ensures
        ({
            let after = batch.with_row(row);
            &&& after.rows.len() == batch.rows.len() + 1
            &&& after.rows.last() == row
            &&& after.rows.drop_last() == batch.rows
            &&& batch.rows.len() == 0 ==> after.num_columns == row.len()
            &&& batch.rows.len() > 0 ==> after.num_columns == batch.num_columns
            &&& after.sql == batch.sql
            &&& after.statement_sql == batch.statement_sql
            &&& after.cursor_id == batch.cursor_id
            &&& after.executed == batch.executed
            &&& after.options == batch.options
        }),
{
    assert(batch.with_row(row).rows.drop_last() =~= batch.rows);
}

/// Rows that are added at once are added one after another.
pub proof fn rows_are_added_in_order(batch: BatchView, rows: Seq<Seq<Value>>, more: Seq<Value>)
    ensures
        batch.with_rows(Seq::empty()) == batch,
        batch.with_rows(rows.push(more)) == batch.with_rows(rows).with_row(more),
{
    assert(rows.push(more).drop_last() =~= rows);
}

/// Adding rows to a batch without any takes the number of columns from the first of them, and keeps
/// all else.
pub proof fn first_row_decides_columns(batch: BatchView, rows: Seq<Seq<Value>>)
    ensures
        ({
            let after = batch.with_rows(rows);
            &&& after.rows == batch.rows + rows
            &&& after.num_columns == (if batch.rows.len() == 0 && rows.len() > 0 {
                rows[0].len()
            } else {
                batch.num_columns
            })
            &&& after.sql == batch.sql
            &&& after.statement_sql == batch.statement_sql
            &&& after.cursor_id == batch.cursor_id
            &&& after.executed == batch.executed
            &&& after.options == batch.options
        }),
    decreases rows.len(),
{
    added_rows_come_last(batch, rows);
    if rows.len() > 0 {
        first_row_decides_columns(batch, rows.drop_last());
        added_rows_come_last(batch, rows.drop_last());
    }
}

/// A batch of rows can be executed if and only if all of them have as many columns as the first.
pub proof fn even_rows_are_valid(sql: Seq<char>, rows: Seq<Seq<Value>>)
    requires
        rows.len() > 0,
    ensures
        BatchView::empty(sql).with_rows(rows).validated() is Ok <==> forall|i: int|
            0 <= i < rows.len() ==> (#[trigger] rows[i]).len() == rows[0].len(),
{
    let batch = BatchView::empty(sql).with_rows(rows);
    first_row_decides_columns(BatchView::empty(sql), rows);
    assert(batch.rows =~= rows);
    valid_batch_is_even(batch);
}

/// Of a batch that cannot be executed the first row is told that has another number of columns than
/// the first row, with the number it has and the number it should have.
pub proof fn uneven_row_is_told(sql: Seq<char>, rows: Seq<Seq<Value>>, row: int)
    requires
        0 <= row < rows.len(),
        rows[row].len() != rows[0].len(),
        forall|i: int| 0 <= i < row ==> (#[trigger] rows[i]).len() == rows[0].len(),
    ensures
        BatchView::empty(sql).with_rows(rows).validated() == Err::<(), ErrorView>(
            ErrorView::Internal(
                "Row "@ + decimal(row as nat) + " has "@ + decimal(rows[row].len())
                    + " columns, expected "@ + decimal(rows[0].len()),
            ),
        ),
{
    let batch = BatchView::empty(sql).with_rows(rows);
    first_row_decides_columns(BatchView::empty(sql), rows);
    assert(batch.rows =~= rows);
    first_uneven_row_is_reported(batch, row);
}

/// The sum of counts grows by each count, and is zero without any.
pub proof fn each_count_is_added(counts: Seq<u64>, count: u64)
    ensures
        sum_of(Seq::empty()) == 0,
        sum_of(counts.push(count)) == sum_of(counts) + count,
{
    assert(counts.push(count).drop_last() =~= counts);
}

} // verus!
