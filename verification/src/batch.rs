//! Batch execution support for Oracle connections
//!
//! This module provides types and methods for executing statements multiple times
//! with different bind values efficiently (executemany pattern).

use crate::error::{outcome, Error, ErrorView, Result};
use crate::row::Value;
use crate::statement::Statement;
use crate::text::{append_decimal, append_padded_decimal, decimal, padded_decimal};
use vstd::prelude::*;

verus! {

/// Options for batch execution
#[derive(Debug, Clone)]
pub struct BatchOptions {
    /// Whether to continue execution after errors (batch errors mode)
    pub batch_errors: bool,
    /// Whether to return row counts for each statement
    pub array_dml_row_counts: bool,
    /// Whether to commit after successful completion
    pub auto_commit: bool,
}

impl Default for BatchOptions {
    fn default() -> (options: Self)
        ensures
            options == (BatchOptions {
                batch_errors: false,
                array_dml_row_counts: false,
                auto_commit: false,
            }),
    {
        BatchOptions { batch_errors: false, array_dml_row_counts: false, auto_commit: false }
    }
}

impl BatchOptions {
    /// Create default batch options
    pub fn new() -> (options: Self)
        ensures
            options == (BatchOptions {
                batch_errors: false,
                array_dml_row_counts: false,
                auto_commit: false,
            }),
    {
        BatchOptions::default()
    }

    /// Enable batch errors mode (continue on errors)
    pub fn with_batch_errors(self) -> (options: Self)
        ensures
            options == (BatchOptions { batch_errors: true, ..self }),
    {
        BatchOptions { batch_errors: true, ..self }
    }

    /// Enable array DML row counts
    pub fn with_row_counts(self) -> (options: Self)
        ensures
            options == (BatchOptions { array_dml_row_counts: true, ..self }),
    {
        BatchOptions { array_dml_row_counts: true, ..self }
    }

    /// Enable auto-commit
    pub fn with_auto_commit(self) -> (options: Self)
        ensures
            options == (BatchOptions { auto_commit: true, ..self }),
    {
        BatchOptions { auto_commit: true, ..self }
    }
}

/// A collection of bind values for batch execution
#[derive(Debug, Clone)]
pub struct BatchBinds {
    /// The SQL statement
    sql: String,
    /// Parsed statement information
    statement: Statement,
    /// Rows of bind values (each row is one execution)
    rows: Vec<Vec<Value>>,
    /// Number of columns per row
    num_columns: usize,
    /// Execution options
    options: BatchOptions,
}

/// What a batch holds.
pub struct BatchView {
    /// The SQL statement
    pub sql: Seq<char>,
    /// The text of the parsed statement
    pub statement_sql: Seq<char>,
    /// The cursor of the parsed statement
    pub cursor_id: u16,
    /// Whether the parsed statement was executed
    pub executed: bool,
    /// Rows of bind values
    pub rows: Seq<Seq<Value>>,
    /// Number of columns per row
    pub num_columns: nat,
    /// Execution options
    pub options: BatchOptions,
}

/// The first row, not before `from`, that does not have the given number of columns.
pub open spec fn first_uneven(rows: Seq<Seq<Value>>, columns: nat, from: nat) -> Option<nat>
    decreases rows.len() - from,
{
    if from >= rows.len() {
        None
    } else if rows[from as int].len() != columns {
        Some(from)
    } else {
        first_uneven(rows, columns, from + 1)
    }
}

/// What is said of a row that does not have the number of columns it should have.
pub open spec fn uneven_row_text(row: nat, columns: nat, expected: nat) -> Seq<char> {
    "Row "@ + decimal(row) + " has "@ + decimal(columns) + " columns, expected "@ + decimal(
        expected,
    )
}

impl BatchView {
    /// A batch without rows.
    pub open spec fn empty(sql: Seq<char>) -> BatchView {
        BatchView {
            sql,
            statement_sql: sql,
            cursor_id: 0,
            executed: false,
            rows: Seq::empty(),
            num_columns: 0,
            options: BatchOptions {
                batch_errors: false,
                array_dml_row_counts: false,
                auto_commit: false,
            },
        }
    }

    /// The batch with one more row; the first row decides the number of columns.
    pub open spec fn with_row(self, row: Seq<Value>) -> BatchView {
        BatchView {
            rows: self.rows.push(row),
            num_columns: if self.rows.len() == 0 {
                row.len()
            } else {
                self.num_columns
            },
            ..self
        }
    }

    /// The batch with several more rows, in their order.
    pub open spec fn with_rows(self, rows: Seq<Seq<Value>>) -> BatchView
        decreases rows.len(),
    {
        if rows.len() == 0 {
            self
        } else {
            self.with_rows(rows.drop_last()).with_row(rows.last())
        }
    }

    /// How validating the batch ends.
    pub open spec fn validated(self) -> core::result::Result<(), ErrorView> {
        if self.rows.len() == 0 {
            Err(ErrorView::Internal("Batch has no rows"@))
        } else {
            match first_uneven(self.rows, self.num_columns, 0) {
                None => Ok(()),
                Some(row) => Err(
                    ErrorView::Internal(
                        uneven_row_text(row, self.rows[row as int].len(), self.num_columns),
                    ),
                ),
            }
        }
    }

    /// True of a batch whose number of columns is that of its first row, or zero without rows.
    pub open spec fn wf(self) -> bool {
        self.num_columns == (if self.rows.len() == 0 {
            0
        } else {
            self.rows[0].len()
        })
    }
}

/// The rows of a vector of vectors.
pub open spec fn rows_of(rows: Seq<Vec<Value>>) -> Seq<Seq<Value>> {
    rows.map_values(|row: Vec<Value>| row@)
}

impl View for BatchBinds {
    type V = BatchView;

    closed spec fn view(&self) -> BatchView {
        BatchView {
            sql: self.sql@,
            statement_sql: self.statement.sql@,
            cursor_id: self.statement.cursor_id,
            executed: self.statement.executed,
            rows: rows_of(self.rows@),
            num_columns: self.num_columns as nat,
            options: self.options,
        }
    }
}

impl BatchBinds {
    /// Create a new batch with the given SQL statement
    pub fn new(sql: &str) -> (batch: Self)
        ensures
            batch@ == BatchView::empty(sql@),
            batch@.wf(),
    {
        let batch = BatchBinds {
            sql: sql.to_string(),
            statement: Statement::new(sql),
            rows: Vec::new(),
            num_columns: 0,
            options: BatchOptions::default(),
        };
        assert(batch@.rows =~= Seq::empty());
        batch
    }

    /// Append a row
    fn push_row(&mut self, values: Vec<Value>)
        ensures
            final(self)@ == old(self)@.with_row(values@),
    {
        if self.rows.len() == 0 {
            self.num_columns = values.len();
        }
        self.rows.push(values);
        assert(self@.rows =~= old(self)@.rows.push(values@));
    }

    /// Add a row of bind values
    pub fn add_row(&mut self, values: Vec<Value>) -> (batch: &mut Self)
        ensures
            batch@ == old(self)@.with_row(values@),
            old(self)@.wf() ==> batch@.wf(),
            *final(self) == *final(batch),
    {
        self.push_row(values);
        self
    }

    /// Set batch execution options
    pub fn with_options(&mut self, options: BatchOptions) -> (batch: &mut Self)
        ensures
            batch@ == (BatchView { options, ..old(self)@ }),
            *final(self) == *final(batch),
    {
        self.options = options;
        self
    }

    /// Get the number of rows (executions)
    pub fn row_count(&self) -> (count: usize)
        ensures
            count == self@.rows.len(),
    {
        self.rows.len()
    }

    /// Get the number of bind columns per row
    pub fn column_count(&self) -> (count: usize)
        ensures
            count == self@.num_columns,
    {
        self.num_columns
    }

    /// Get the SQL statement
    pub fn sql(&self) -> (sql: &str)
        ensures
            sql@ == self@.sql,
    {
        self.sql.as_str()
    }

    /// Get the parsed statement information
    pub fn statement(&self) -> (statement: &Statement)
        ensures
            statement.sql@ == self@.statement_sql,
            statement.cursor_id == self@.cursor_id,
            statement.executed == self@.executed,
    {
        &self.statement
    }

    /// Get the rows of bind values
    pub fn rows(&self) -> (rows: &Vec<Vec<Value>>)
        ensures
            rows_of(rows@) == self@.rows,
    {
        &self.rows
    }

    /// Get the execution options
    pub fn options(&self) -> (options: &BatchOptions)
        ensures
            *options == self@.options,
    {
        &self.options
    }

    /// Check if batch is empty
    pub fn is_empty(&self) -> (empty: bool)
        ensures
            empty == (self@.rows.len() == 0),
    {
        self.rows.len() == 0
    }

    /// Validate that all rows have the same number of columns
    pub fn validate(&self) -> (result: Result<()>)
        ensures
            outcome(result) == self@.validated(),
    {
        if self.rows.len() == 0 {
            return Err(Error::Internal("Batch has no rows".to_string()));
        }
        let mut i: usize = 0;
        while i < self.rows.len()
            invariant
                i <= self.rows@.len(),
                self.rows@.len() > 0,
                first_uneven(self@.rows, self@.num_columns, 0) == first_uneven(
                    self@.rows,
                    self@.num_columns,
                    i as nat,
                ),
            decreases self.rows@.len() - i,
        {
            let columns: usize = self.rows[i].len();
            assert(self@.rows[i as int].len() == columns);
            if columns != self.num_columns {
                let mut text = "Row ".to_string();
                append_decimal(&mut text, i as u64);
                text.append(" has ");
                append_decimal(&mut text, columns as u64);
                text.append(" columns, expected ");
                append_decimal(&mut text, self.num_columns as u64);
                return Err(Error::Internal(text));
            }
            i = i + 1;
        }
        Ok(())
    }
}

/// Builder for creating batch execution requests
#[derive(Debug)]
pub struct BatchBuilder {
    batch: BatchBinds,
}

impl View for BatchBuilder {
    type V = BatchView;

    closed spec fn view(&self) -> BatchView {
        self.batch@
    }
}

impl BatchBuilder {
    /// Create a new batch builder with the given SQL statement
    pub fn new(sql: &str) -> (builder: Self)
        ensures
            builder@ == BatchView::empty(sql@),
            builder@.wf(),
    {
        BatchBuilder { batch: BatchBinds::new(sql) }
    }

    /// Add a row of bind values
    pub fn add_row(self, values: Vec<Value>) -> (builder: Self)
        ensures
            builder@ == self@.with_row(values@),
            self@.wf() ==> builder@.wf(),
    {
        let mut batch = self.batch;
        batch.push_row(values);
        BatchBuilder { batch }
    }

    /// Add multiple rows at once
    pub fn add_rows(self, rows: Vec<Vec<Value>>) -> (builder: Self)
        ensures
            builder@ == self@.with_rows(rows_of(rows@)),
            self@.wf() ==> builder@.wf(),
    {
        let mut batch = self.batch;
        let ghost all = rows_of(rows@);
        assert(all.take(0) =~= Seq::empty());
        for row in it: rows
            invariant
                it.seq() == rows@,
                all == rows_of(rows@),
                batch@ == self@.with_rows(all.take(it.index())),
                self@.wf() ==> batch@.wf(),
        {
            proof {
                let next = all.take(it.index() + 1);
                assert(next.drop_last() =~= all.take(it.index()));
                assert(next.last() == row@);
            }
            batch.push_row(row);
        }
        assert(all.take(all.len() as int) =~= all);
        BatchBuilder { batch }
    }

    /// Enable batch errors mode
    pub fn with_batch_errors(self) -> (builder: Self)
        ensures
            builder@ == (BatchView {
                options: BatchOptions { batch_errors: true, ..self@.options },
                ..self@
            }),
    {
        let mut batch = self.batch;
        batch.options.batch_errors = true;
        BatchBuilder { batch }
    }

    /// Enable array DML row counts
    pub fn with_row_counts(self) -> (builder: Self)
        ensures
            builder@ == (BatchView {
                options: BatchOptions { array_dml_row_counts: true, ..self@.options },
                ..self@
            }),
    {
        let mut batch = self.batch;
        batch.options.array_dml_row_counts = true;
        BatchBuilder { batch }
    }

    /// Enable auto-commit
    pub fn with_auto_commit(self) -> (builder: Self)
        ensures
            builder@ == (BatchView {
                options: BatchOptions { auto_commit: true, ..self@.options },
                ..self@
            }),
    {
        let mut batch = self.batch;
        batch.options.auto_commit = true;
        BatchBuilder { batch }
    }

    /// Build the batch
    pub fn build(self) -> (batch: BatchBinds)
        ensures
            batch@ == self@,
    {
        self.batch
    }
}

/// Result of batch execution
#[derive(Debug, Clone)]
pub struct BatchResult {
    /// Number of rows affected for each statement (if requested)
    pub row_counts: Option<Vec<u64>>,
    /// Total rows affected
    pub total_rows_affected: u64,
    /// Errors encountered (if batch_errors mode enabled)
    pub errors: Vec<BatchError>,
    /// Number of successful executions
    pub success_count: usize,
    /// Number of failed executions
    pub failure_count: usize,
}

/// The sum of some numbers.
pub open spec fn sum_of(counts: Seq<u64>) -> nat
    decreases counts.len(),
{
    if counts.len() == 0 {
        0
    } else {
        sum_of(counts.drop_last()) + counts.last() as nat
    }
}

/// The sum of fewer numbers is no greater.
proof fn lemma_sum_of_front(counts: Seq<u64>, len: int)
    requires
        0 <= len <= counts.len(),
    ensures
        sum_of(counts.take(len)) <= sum_of(counts),
    decreases counts.len() - len,
{
    if len < counts.len() {
        lemma_sum_of_front(counts, len + 1);
        assert(counts.take(len + 1).drop_last() =~= counts.take(len));
    } else {
        assert(counts.take(len) =~= counts);
    }
}

impl BatchResult {
    /// True of the result of a batch of which nothing was executed.
    pub open spec fn is_blank(self) -> bool {
        &&& self.row_counts is None
        &&& self.total_rows_affected == 0
        &&& self.errors@.len() == 0
        &&& self.success_count == 0
        &&& self.failure_count == 0
    }

    /// Create a new empty batch result
    pub fn new() -> (result: Self)
        ensures
            result.is_blank(),
            result.row_counts is None,
            result.total_rows_affected == 0,
            result.errors@.len() == 0,
            result.success_count == 0,
            result.failure_count == 0,
    {
        BatchResult {
            row_counts: None,
            total_rows_affected: 0,
            errors: Vec::new(),
            success_count: 0,
            failure_count: 0,
        }
    }

    /// Create a batch result with row counts
    pub fn with_row_counts(counts: Vec<u64>) -> (result: Self)
        requires
            sum_of(counts@) <= u64::MAX,
        ensures
            result.row_counts == Some(counts),
            result.total_rows_affected == sum_of(counts@),
            result.errors@.len() == 0,
            result.success_count == counts@.len(),
            result.failure_count == 0,
    {
        let mut total: u64 = 0;
        let mut i: usize = 0;
        assert(counts@.take(0) =~= Seq::empty());
        while i < counts.len()
            invariant
                i <= counts@.len(),
                total == sum_of(counts@.take(i as int)),
                sum_of(counts@) <= u64::MAX,
            decreases counts@.len() - i,
        {
            proof {
                lemma_sum_of_front(counts@, i + 1);
                assert(counts@.take(i + 1).drop_last() =~= counts@.take(i as int));
            }
            total = total + counts[i];
            i = i + 1;
        }
        assert(counts@.take(i as int) =~= counts@);
        let success_count: usize = counts.len();
        BatchResult {
            row_counts: Some(counts),
            total_rows_affected: total,
            errors: Vec::new(),
            success_count,
            failure_count: 0,
        }
    }

    /// Check if all executions succeeded
    pub fn is_success(&self) -> (success: bool)
        ensures
            success == (self.errors@.len() == 0),
    {
        self.errors.len() == 0
    }

    /// Check if there were any errors
    pub fn has_errors(&self) -> (errors: bool)
        ensures
            errors == (self.errors@.len() != 0),
    {
        self.errors.len() != 0
    }
}

impl Default for BatchResult {
    fn default() -> (result: Self)
        ensures
            result.is_blank(),
            result.row_counts is None,
            result.total_rows_affected == 0,
            result.errors@.len() == 0,
            result.success_count == 0,
            result.failure_count == 0,
    {
        BatchResult::new()
    }
}

/// An error that occurred during batch execution
#[derive(Debug, Clone)]
pub struct BatchError {
    /// The row index where the error occurred (0-based)
    pub row_index: usize,
    /// Oracle error code
    pub code: u32,
    /// Error message
    pub message: String,
}

impl BatchError {
    /// Create a new batch error
    pub fn new(row_index: usize, code: u32, message: &str) -> (error: Self)
        ensures
            error.row_index == row_index,
            error.code == code,
            error.message@ == message@,
    {
        BatchError { row_index, code, message: message.to_string() }
    }

    /// Write the error out: the row, the code with at least five digits, and the message
    pub fn to_string(&self) -> (text: String)
        ensures
            text@ == "Row "@ + decimal(self.row_index as nat) + ": ORA-"@ + padded_decimal(
                self.code as nat,
                5,
            ) + ": "@ + self.message@,
    {
        let mut text = "Row ".to_string();
        append_decimal(&mut text, self.row_index as u64);
        text.append(": ORA-");
        append_padded_decimal(&mut text, self.code as u64, 5);
        text.append(": ");
        text.append(self.message.as_str());
        text
    }
}

/// A batch can be executed if and only if it has rows and all of them have as many columns as the
/// first.
pub proof fn valid_batch_is_even(batch: BatchView)
    requires
        batch.wf(),
    ensures
        batch.validated() is Ok <==> batch.rows.len() > 0 && forall|i: int|
            0 <= i < batch.rows.len() ==> (#[trigger] batch.rows[i]).len() == batch.rows[0].len(),
{
    lemma_first_uneven(batch.rows, batch.num_columns, 0);
}

/// The row that is reported is the first that does not have the number of columns of the batch.
pub proof fn first_uneven_row_is_reported(batch: BatchView, row: int)
    requires
        0 <= row < batch.rows.len(),
        batch.rows[row].len() != batch.num_columns,
        forall|i: int| 0 <= i < row ==> (#[trigger] batch.rows[i]).len() == batch.num_columns,
    ensures
        batch.validated() == Err::<(), ErrorView>(
            ErrorView::Internal(
                uneven_row_text(row as nat, batch.rows[row].len(), batch.num_columns),
            ),
        ),
{
    lemma_first_uneven(batch.rows, batch.num_columns, 0);
}

/// What the first uneven row is, said directly.
proof fn lemma_first_uneven(rows: Seq<Seq<Value>>, columns: nat, from: nat)
    ensures
        match first_uneven(rows, columns, from) {
            None => forall|i: int|
                from <= i < rows.len() ==> (#[trigger] rows[i]).len() == columns,
            Some(row) => from <= row < rows.len() && rows[row as int].len() != columns && forall|
                i: int,
            |
                from <= i < row ==> (#[trigger] rows[i]).len() == columns,
        },
    decreases rows.len() - from,
{
    if from < rows.len() && rows[from as int].len() == columns {
        lemma_first_uneven(rows, columns, from + 1);
    }
}

/// Adding rows at once keeps those that were there, and puts the new ones behind them.
pub proof fn added_rows_come_last(batch: BatchView, rows: Seq<Seq<Value>>)
    ensures
        batch.with_rows(rows).rows == batch.rows + rows,
        batch.with_rows(rows).sql == batch.sql,
        batch.with_rows(rows).options == batch.options,
        batch.wf() ==> batch.with_rows(rows).wf(),
    decreases rows.len(),
{
    if rows.len() > 0 {
        added_rows_come_last(batch, rows.drop_last());
        assert(rows.drop_last().push(rows.last()) =~= rows);
        assert((batch.rows + rows.drop_last()).push(rows.last()) =~= batch.rows + rows);
    } else {
        assert(batch.rows + rows =~= batch.rows);
    }
}

} // verus!
