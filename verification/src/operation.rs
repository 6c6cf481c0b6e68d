//! The operation framework: reads, counter reads, writes, counter writes.
//!
//! An operation owns a shared prepared-statement configuration and — for
//! reads — a validation strategy; counter variants differ only in the
//! strategy and statement text chosen at factory construction. The request
//! itself travels over the network outside the core; the functions here
//! build everything that is sent (the statement text, its execution
//! parameters, the keys of a batch) and decide what every possible reply
//! means. A factory builds one cheap operation instance per worker so
//! workers share no mutable state.

use vstd::prelude::*;
use vstd::string::StringExecFns;

use crate::error::{ExecutionError, OperationError, ValidationError};
use crate::generator::{spec_generate_row, RowGenerator};
use crate::settings::Settings;
use crate::validator::{spec_validate, RowValidator};
use crate::value::{row_view, rows_view, Row, Value};

verus! {

/// Per-operation instruction to the worker loop: proceed to the next
/// logical index, or halt this worker early.
#[derive(Clone, Copy, Debug, PartialEq, Eq, Structural)]
pub enum OpFlow {
    Continue,
    Break,
}

/// The plain execution-time parameters of a prepared statement, fixed at
/// preparation time and shared read-only by every worker. The driver-side
/// handle it configures lives outside the core.
pub struct PreparedStatement {
    /// The statement text sent for preparation.
    pub text: String,
    /// Reads are marked idempotent so the client layer may retry them.
    pub idempotent: bool,
    pub consistency: crate::settings::Consistency,
    pub serial_consistency: crate::settings::SerialConsistency,
}

impl Clone for PreparedStatement {
    fn clone(&self) -> (r: Self)
        ensures
            r == *self,
    {
        PreparedStatement {
            text: self.text.clone(),
            idempotent: self.idempotent,
            consistency: self.consistency,
            serial_consistency: self.serial_consistency,
        }
    }
}

/// The text prepared for reads against `table`, keyed by partition key.
pub open spec fn spec_statement_text(table: Seq<char>) -> Seq<char> {
    "SELECT * FROM "@ + table + " WHERE KEY IN ?"@
}

/// Builds the read statement text for `table`.
pub fn statement_text(table: &str) -> (r: String)
    ensures
        r@ == spec_statement_text(table@),
{
    String::from_str("SELECT * FROM ").concat(table).concat(" WHERE KEY IN ?")
}

/// The digit character of `d`.
pub open spec fn spec_digit_char(d: nat) -> char {
    if d == 0 {
        '0'
    } else if d == 1 {
        '1'
    } else if d == 2 {
        '2'
    } else if d == 3 {
        '3'
    } else if d == 4 {
        '4'
    } else if d == 5 {
        '5'
    } else if d == 6 {
        '6'
    } else if d == 7 {
        '7'
    } else if d == 8 {
        '8'
    } else {
        '9'
    }
}

/// The decimal digits of `n`, most significant first.
pub open spec fn spec_decimal(n: nat) -> Seq<char>
    decreases n,
{
    if n < 10 {
        seq![spec_digit_char(n)]
    } else {
        spec_decimal(n / 10).push(spec_digit_char(n % 10))
    }
}

/// The single-character string of digit `d`.
fn digit_str(d: u64) -> (r: &'static str)
    requires
        d < 10,
    ensures
        r@ == seq![spec_digit_char(d as nat)],
{
    proof {
        reveal_strlit("0");
        reveal_strlit("1");
        reveal_strlit("2");
        reveal_strlit("3");
        reveal_strlit("4");
        reveal_strlit("5");
        reveal_strlit("6");
        reveal_strlit("7");
        reveal_strlit("8");
        reveal_strlit("9");
    }
    let r = match d {
        0 => "0",
        1 => "1",
        2 => "2",
        3 => "3",
        4 => "4",
        5 => "5",
        6 => "6",
        7 => "7",
        8 => "8",
        _ => "9",
    };
    proof {
        assert(r@ =~= seq![spec_digit_char(d as nat)]);
    }
    r
}

/// Renders `n` in decimal.
pub fn render_u64(n: u64) -> (r: String)
    ensures
        r@ == spec_decimal(n as nat),
    decreases n,
{
    if n < 10 {
        String::from_str(digit_str(n))
    } else {
        let mut s = render_u64(n / 10);
        s.append(digit_str(n % 10));
        proof {
            assert(s@ =~= spec_decimal(n as nat));
        }
        s
    }
}

/// The payload column list `, C0, C1, ...` of the first `columns` columns.
pub open spec fn spec_column_list(columns: nat) -> Seq<char>
    decreases columns,
{
    if columns == 0 {
        Seq::empty()
    } else {
        spec_column_list((columns - 1) as nat) + ", C"@ + spec_decimal((columns - 1) as nat)
    }
}

/// One `, ?` placeholder per payload column.
pub open spec fn spec_marker_list(columns: nat) -> Seq<char>
    decreases columns,
{
    if columns == 0 {
        Seq::empty()
    } else {
        spec_marker_list((columns - 1) as nat) + ", ?"@
    }
}

/// The text prepared for writes against `table` with `columns` payload
/// columns: the key and every payload column, one placeholder each.
pub open spec fn spec_write_statement_text(table: Seq<char>, columns: nat) -> Seq<char> {
    "INSERT INTO "@ + table + " (KEY"@ + spec_column_list(columns) + ") VALUES (?"@
        + spec_marker_list(columns) + ")"@
}

/// Builds the write statement text for `table` with `columns` payload
/// columns.
pub fn write_statement_text(table: &str, columns: usize) -> (r: String)
    ensures
        r@ == spec_write_statement_text(table@, columns as nat),
{
    let mut cols = String::new();
    let mut marks = String::new();
    let mut j: usize = 0;
    while j < columns
        invariant
            j <= columns,
            cols@ == spec_column_list(j as nat),
            marks@ == spec_marker_list(j as nat),
        decreases columns - j,
    {
        cols.append(", C");
        cols.append(render_u64(j as u64).as_str());
        marks.append(", ?");
        j += 1;
    }
    let r = String::from_str("INSERT INTO ")
        .concat(table)
        .concat(" (KEY")
        .concat(cols.as_str())
        .concat(") VALUES (?")
        .concat(marks.as_str())
        .concat(")");
    proof {
        assert(r@ =~= spec_write_statement_text(table@, columns as nat));
    }
    r
}

/// One read operation: a statement configuration plus a validation
/// strategy. One instance exists per worker; instances share nothing
/// mutable.
pub struct ReadOperation {
    pub statement: PreparedStatement,
    pub row_validator: RowValidator,
}

/// What a reply to a batched lookup means: `None` when the returned row
/// count equals the number of keys asked for, otherwise the mismatch to
/// report.
pub open spec fn spec_batch_report(expected: nat, actual: nat) -> Option<ValidationError> {
    if actual == expected {
        None
    } else {
        Some(
            ValidationError::UnexpectedRowCount {
                expected: expected as usize,
                actual: actual as usize,
            },
        )
    }
}

impl ReadOperation {
    /// Decides the outcome of one single-key read for `row`, given the
    /// reply the database sent back.
    ///
    /// A transport or database failure is re-raised unchanged so the worker
    /// loop can count it and decide the pool-wide consequence; a reply is
    /// validated with the operation's strategy, and a mismatch is re-raised
    /// the same way. A clean reply lets the worker continue. The caller
    /// logs every raised error together with the partition key `row[0]`.
    pub fn execute(&self, row: &Row, reply: Result<Vec<Row>, ExecutionError>) -> (r: Result<
        OpFlow,
        OperationError,
    >)
        ensures
            match reply {
                Err(e) => r == Err::<OpFlow, OperationError>(OperationError::Execution(e)),
                Ok(rows) => match spec_validate(
                    self.row_validator,
                    row_view(row@),
                    rows_view(rows@),
                ) {
                    Ok(()) => r == Ok::<OpFlow, OperationError>(OpFlow::Continue),
                    Err(v) => r == Err::<OpFlow, OperationError>(OperationError::Validation(v)),
                },
            },
    {
        match reply {
            Err(e) => Err(OperationError::Execution(e)),
            Ok(rows) => match self.row_validator.validate_row(row, &rows) {
                Ok(()) => Ok(OpFlow::Continue),
                Err(v) => Err(OperationError::Validation(v)),
            },
        }
    }

    /// Decides the outcome of one batched multi-key lookup for `rows`,
    /// given the reply.
    ///
    /// A transport or database failure is re-raised as for `execute`. On a
    /// reply, only the returned row count is held against the number of
    /// keys asked for: an undercount means some keys were missing, but the
    /// mismatch is only reported (second component, for the caller to log)
    /// and the worker proceeds to its next batch.
    pub fn execute_in(&self, rows: &Vec<Row>, reply: Result<Vec<Row>, ExecutionError>) -> (r:
        Result<(OpFlow, Option<ValidationError>), OperationError>)
        ensures
            match reply {
                Err(e) => r == Err::<(OpFlow, Option<ValidationError>), OperationError>(
                    OperationError::Execution(e),
                ),
                Ok(returned) => r == Ok::<(OpFlow, Option<ValidationError>), OperationError>(
                    (OpFlow::Continue, spec_batch_report(rows@.len(), returned@.len())),
                ),
            },
    {
        match reply {
            Err(e) => Err(OperationError::Execution(e)),
            Ok(returned) => {
                let report: Option<ValidationError> = if returned.len() == rows.len() {
                    None
                } else {
                    Some(
                        ValidationError::UnexpectedRowCount {
                            expected: rows.len(),
                            actual: returned.len(),
                        },
                    )
                };
                Ok((OpFlow::Continue, report))
            },
        }
    }

    /// The partition keys of a batch, in order: what a batched lookup is
    /// keyed by.
    pub fn batch_keys(&self, rows: &Vec<Row>) -> (r: Vec<Value>)
        requires
            forall|i: int| 0 <= i < rows@.len() ==> rows@[i]@.len() >= 1,
        ensures
            r@.len() == rows@.len(),
            forall|i: int| 0 <= i < r@.len() ==> r@[i]@ == rows@[i]@[0]@,
    {
        let mut r: Vec<Value> = Vec::new();
        let mut i: usize = 0;
        while i < rows.len()
            invariant
                i <= rows@.len(),
                r@.len() == i,
                forall|k: int| 0 <= k < rows@.len() ==> rows@[k]@.len() >= 1,
                forall|k: int| 0 <= k < i ==> r@[k]@ == rows@[k]@[0]@,
            decreases rows@.len() - i,
        {
            r.push(rows[i][0].clone());
            i += 1;
        }
        r
    }

    /// Generates the expected row for `index`; delegated to the generator
    /// so operation kinds can vary how much of a row they need.
    pub fn generate_row(&self, generator: &RowGenerator, index: u64) -> (r: Row)
        requires
            generator.wf(),
        ensures
            row_view(r@) == spec_generate_row(generator.columns@, index),
    {
        generator.generate_row(index)
    }
}

/// One counter-column assignment `Cj = Cj + ?` of the counter-write text.
pub open spec fn spec_counter_assign(j: nat) -> Seq<char> {
    "C"@ + spec_decimal(j) + " = C"@ + spec_decimal(j) + " + ?"@
}

/// The `SET` list of a counter write over the first `columns` columns.
pub open spec fn spec_counter_set_list(columns: nat) -> Seq<char>
    decreases columns,
{
    if columns == 0 {
        Seq::empty()
    } else if columns == 1 {
        spec_counter_assign(0)
    } else {
        spec_counter_set_list((columns - 1) as nat) + ", "@ + spec_counter_assign(
            (columns - 1) as nat,
        )
    }
}

/// The text prepared for counter writes against `table`: counters are
/// incremented in place, keyed by partition key.
pub open spec fn spec_counter_write_statement_text(table: Seq<char>, columns: nat) -> Seq<char> {
    "UPDATE "@ + table + " SET "@ + spec_counter_set_list(columns) + " WHERE KEY = ?"@
}

/// Builds the counter-write statement text for `table` with `columns`
/// counter columns.
pub fn counter_write_statement_text(table: &str, columns: usize) -> (r: String)
    requires
        columns >= 1,
    ensures
        r@ == spec_counter_write_statement_text(table@, columns as nat),
{
    let mut sets = String::new();
    let mut j: usize = 0;
    while j < columns
        invariant
            j <= columns,
            sets@ == spec_counter_set_list(j as nat),
        decreases columns - j,
    {
        if j > 0 {
            sets.append(", ");
        }
        let digits = render_u64(j as u64);
        sets.append("C");
        sets.append(digits.as_str());
        sets.append(" = C");
        sets.append(digits.as_str());
        sets.append(" + ?");
        proof {
            assert(sets@ =~= spec_counter_set_list(j as nat + 1));
        }
        j += 1;
    }
    let r = String::from_str("UPDATE ")
        .concat(table)
        .concat(" SET ")
        .concat(sets.as_str())
        .concat(" WHERE KEY = ?");
    proof {
        assert(r@ =~= spec_counter_write_statement_text(table@, columns as nat));
    }
    r
}

/// One write operation (regular or counter): a statement configuration
/// alone. A write regenerates the full row and sends it; the reply carries
/// no independently checkable content, so a write validates nothing — it
/// either applied or failed.
pub struct WriteOperation {
    pub statement: PreparedStatement,
}

impl WriteOperation {
    /// Decides the outcome of one single-row write, given the reply the
    /// database sent back: a failure is re-raised for the worker loop to
    /// count and judge, and a clean reply lets the worker continue.
    pub fn execute(&self, row: &Row, reply: Result<Vec<Row>, ExecutionError>) -> (r: Result<
        OpFlow,
        OperationError,
    >)
        ensures
            match reply {
                Err(e) => r == Err::<OpFlow, OperationError>(OperationError::Execution(e)),
                Ok(_) => r == Ok::<OpFlow, OperationError>(OpFlow::Continue),
            },
    {
        match reply {
            Err(e) => Err(OperationError::Execution(e)),
            Ok(_) => Ok(OpFlow::Continue),
        }
    }

    /// Generates the full row for `index`: a write sends every column.
    pub fn generate_row(&self, generator: &RowGenerator, index: u64) -> (r: Row)
        requires
            generator.wf(),
        ensures
            row_view(r@) == spec_generate_row(generator.columns@, index),
    {
        generator.generate_row(index)
    }
}

/// Builds one `WriteOperation` per worker, mirroring the read factory.
pub struct GenericWriteOperationFactory {
    pub statement: PreparedStatement,
}

impl GenericWriteOperationFactory {
    /// The factory for regular writes: one placeholder per column of the
    /// generated row.
    pub fn new_regular(settings: &Settings, table: &str, columns: usize) -> (r: Self)
        ensures
            r.statement.text@ == spec_write_statement_text(table@, columns as nat),
            r.statement.idempotent == true,
            r.statement.consistency == settings.consistency,
            r.statement.serial_consistency == settings.serial_consistency,
    {
        GenericWriteOperationFactory {
            statement: PreparedStatement {
                text: write_statement_text(table, columns),
                idempotent: true,
                consistency: settings.consistency,
                serial_consistency: settings.serial_consistency,
            },
        }
    }

    /// The factory for counter writes. A counter increment re-applied by a
    /// transparent retry would double-count, so the statement is not marked
    /// idempotent.
    pub fn new_counter(settings: &Settings, table: &str, columns: usize) -> (r: Self)
        requires
            columns >= 1,
        ensures
            r.statement.text@ == spec_counter_write_statement_text(table@, columns as nat),
            r.statement.idempotent == false,
            r.statement.consistency == settings.consistency,
            r.statement.serial_consistency == settings.serial_consistency,
    {
        GenericWriteOperationFactory {
            statement: PreparedStatement {
                text: counter_write_statement_text(table, columns),
                idempotent: false,
                consistency: settings.consistency,
                serial_consistency: settings.serial_consistency,
            },
        }
    }

    /// Creates one operation instance for one worker; never performs I/O.
    pub fn create(&self) -> (r: WriteOperation)
        ensures
            r.statement == self.statement,
    {
        WriteOperation { statement: self.statement.clone() }
    }
}

/// Builds one `ReadOperation` per worker from an immutable statement
/// configuration prepared once before the run starts.
pub struct GenericReadOperationFactory {
    pub statement: PreparedStatement,
    pub row_validator: RowValidator,
}

impl GenericReadOperationFactory {
    /// Assembles the statement configuration for reads against `table`:
    /// the statement text, the idempotency flag, and the consistency
    /// levels from the settings. The network half of preparation — handing
    /// this text to the database and learning whether it accepts it — is
    /// the caller's, and its rejection is the caller's fatal
    /// `PreparationError`.
    pub fn new(settings: &Settings, table: &str, row_validator: RowValidator) -> (r: Self)
        ensures
            r.statement.text@ == spec_statement_text(table@),
            r.statement.idempotent == true,
            r.statement.consistency == settings.consistency,
            r.statement.serial_consistency == settings.serial_consistency,
            r.row_validator == row_validator,
    {
        GenericReadOperationFactory {
            statement: PreparedStatement {
                text: statement_text(table),
                idempotent: true,
                consistency: settings.consistency,
                serial_consistency: settings.serial_consistency,
            },
            row_validator,
        }
    }

    /// The factory for regular reads, which recompute the expected row and
    /// compare it field by field.
    pub fn new_regular(settings: &Settings, table: &str) -> (r: Self)
        ensures
            r.statement.text@ == spec_statement_text(table@),
            r.statement.idempotent == true,
            r.statement.consistency == settings.consistency,
            r.statement.serial_consistency == settings.serial_consistency,
            r.row_validator == RowValidator::Equal,
    {
        Self::new(settings, table, RowValidator::Equal)
    }

    /// The factory for counter reads, where the counter's magnitude is not
    /// independently reproducible and only a row's existence is checked.
    pub fn new_counter(settings: &Settings, table: &str) -> (r: Self)
        ensures
            r.statement.text@ == spec_statement_text(table@),
            r.statement.idempotent == true,
            r.statement.consistency == settings.consistency,
            r.statement.serial_consistency == settings.serial_consistency,
            r.row_validator == RowValidator::Exists,
    {
        Self::new(settings, table, RowValidator::Exists)
    }

    /// Creates one operation instance for one worker: clones the shared
    /// statement configuration, never performs I/O.
    pub fn create(&self) -> (r: ReadOperation)
        ensures
            r.statement == self.statement,
            r.row_validator == self.row_validator,
    {
        ReadOperation { statement: self.statement.clone(), row_validator: self.row_validator }
    }
}

} // verus!
