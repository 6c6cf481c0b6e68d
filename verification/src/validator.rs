//! Row validation.
//!
//! Two strategies, selected when an operation is built: *equality*
//! recomputes the expected row and compares every non-key column of the one
//! returned row against it; *existence* only demands that some row came back,
//! for columns (counters) whose value is not independently reproducible.

use vstd::prelude::*;

use crate::error::ValidationError;
use crate::value::{row_view, rows_view, value_eq, Row, ValueV};

verus! {

/// The validation strategy of one operation.
#[derive(Clone, Copy, Debug, PartialEq, Eq, Structural)]
pub enum RowValidator {
    /// Expect exactly one row whose non-key columns equal the expected row.
    Equal,
    /// Expect at least one row; never inspect column content.
    Exists,
}

/// Whether `row` is an acceptable answer for `expected` under the equality
/// strategy: same width, and every non-key column (index 1 and up) equal.
/// The key column (index 0) is what the read was keyed by and is not
/// compared.
pub open spec fn row_matches(expected: Seq<ValueV>, row: Seq<ValueV>) -> bool {
    &&& row.len() == expected.len()
    &&& forall|j: int| 1 <= j < expected.len() ==> row[j] == expected[j]
}

/// The first column index at or after `j` where `row` diverges from
/// `expected`: a differing value, or the place where one row ends before the
/// other. Returns `expected.len()` when no divergence exists at or after `j`.
pub open spec fn first_divergence_from(expected: Seq<ValueV>, row: Seq<ValueV>, j: int) -> int
    decreases expected.len() - j,
{
    if j >= expected.len() || j >= row.len() {
        if expected.len() == row.len() {
            expected.len() as int
        } else if j >= row.len() {
            row.len() as int
        } else {
            expected.len() as int
        }
    } else if row[j] != expected[j] {
        j
    } else {
        first_divergence_from(expected, row, j + 1)
    }
}

/// What the equality strategy answers for a given expected row and row set.
pub open spec fn spec_validate_equal(expected: Seq<ValueV>, actual: Seq<Seq<ValueV>>) -> Result<
    (),
    ValidationError,
> {
    if actual.len() != 1 {
        Err(ValidationError::RowCountMismatch { count: actual.len() as usize })
    } else if row_matches(expected, actual[0]) {
        Ok(())
    } else {
        Err(
            ValidationError::ColumnMismatch {
                index: first_divergence_from(expected, actual[0], 1) as usize,
            },
        )
    }
}

/// What the existence strategy answers for a given row set.
pub open spec fn spec_validate_exists(actual: Seq<Seq<ValueV>>) -> Result<(), ValidationError> {
    if actual.len() == 0 {
        Err(ValidationError::RowMissing)
    } else {
        Ok(())
    }
}

/// What a validator answers for a given expected row and row set.
pub open spec fn spec_validate(
    v: RowValidator,
    expected: Seq<ValueV>,
    actual: Seq<Seq<ValueV>>,
) -> Result<(), ValidationError> {
    match v {
        RowValidator::Equal => spec_validate_equal(expected, actual),
        RowValidator::Exists => spec_validate_exists(actual),
    }
}

impl RowValidator {
    /// Validates the row set a read returned against the expected row.
    pub fn validate_row(&self, expected: &Row, actual: &Vec<Row>) -> (r: Result<
        (),
        ValidationError,
    >)
        ensures
            r == spec_validate(*self, row_view(expected@), rows_view(actual@)),
    {
        match self {
            RowValidator::Equal => validate_equal(expected, actual),
            RowValidator::Exists => validate_exists(actual),
        }
    }
}

/// Equality validation: exactly one row, all non-key columns equal.
fn validate_equal(expected: &Row, actual: &Vec<Row>) -> (r: Result<(), ValidationError>)
    ensures
        r == spec_validate_equal(row_view(expected@), rows_view(actual@)),
{
    let ghost e: Seq<ValueV> = row_view(expected@);
    let ghost a: Seq<Seq<ValueV>> = rows_view(actual@);
    if actual.len() != 1 {
        return Err(ValidationError::RowCountMismatch { count: actual.len() });
    }
    let row: &Row = &actual[0];
    let ghost rv: Seq<ValueV> = row_view(row@);
    assert(a[0] == rv);
    let width_ok: bool = row.len() == expected.len();
    let shorter: usize = if row.len() < expected.len() {
        row.len()
    } else {
        expected.len()
    };
    let mut j: usize = 1;
    while j < shorter
        invariant
            1 <= j,
            j <= shorter || j == 1,
            shorter == if rv.len() < e.len() {
                rv.len()
            } else {
                e.len()
            },
            e == row_view(expected@),
            rv == row_view(row@),
            actual@.len() == 1,
            rows_view(actual@)[0] == rv,
            width_ok == (rv.len() == e.len()),
            expected@.len() == e.len(),
            row@.len() == rv.len(),
            forall|k: int| 1 <= k < j ==> rv[k] == e[k],
            first_divergence_from(e, rv, 1) == first_divergence_from(e, rv, j as int),
        decreases shorter - j,
    {
        assert(rv[j as int] == row@[j as int]@);
        assert(e[j as int] == expected@[j as int]@);
        if !value_eq(&row[j], &expected[j]) {
            assert(first_divergence_from(e, rv, j as int) == j as int);
            assert(!row_matches(e, rv));
            return Err(ValidationError::ColumnMismatch { index: j });
        }
        assert(first_divergence_from(e, rv, j as int) == first_divergence_from(
            e,
            rv,
            j as int + 1,
        ));
        j += 1;
    }
    if width_ok {
        assert(row_matches(e, rv));
        Ok(())
    } else {
        let index: usize = if j >= row.len() {
            row.len()
        } else {
            expected.len()
        };
        assert(!row_matches(e, rv));
        assert(first_divergence_from(e, rv, j as int) == index as int);
        Err(ValidationError::ColumnMismatch { index })
    }
}

/// The equality strategy accepts nothing but exactly one row: zero rows or
/// more than one always fail with `RowCountMismatch`, never with success —
/// whatever the rows hold.
pub proof fn lemma_equal_rejects_wrong_row_count(expected: Seq<ValueV>, actual: Seq<Seq<ValueV>>)
    requires
        actual.len() != 1,
    ensures
        spec_validate_equal(expected, actual) == Err::<(), ValidationError>(
            ValidationError::RowCountMismatch { count: actual.len() as usize },
        ),
{
}

/// With exactly one row back, the equality strategy fails with
/// `ColumnMismatch` exactly when some non-key column differs (or the widths
/// do), and succeeds otherwise.
pub proof fn lemma_equal_decides_by_columns(expected: Seq<ValueV>, actual: Seq<Seq<ValueV>>)
    requires
        actual.len() == 1,
    ensures
        row_matches(expected, actual[0]) <==> spec_validate_equal(expected, actual) == Ok::<
            (),
            ValidationError,
        >(()),
        !row_matches(expected, actual[0]) ==> (spec_validate_equal(expected, actual) matches Err(e)
            && e is ColumnMismatch),
{
}

/// The existence strategy succeeds whenever at least one row came back,
/// whatever the rows hold, and fails with `RowMissing` exactly on an empty
/// result.
pub proof fn lemma_exists_decides_by_presence(actual: Seq<Seq<ValueV>>)
    ensures
        actual.len() >= 1 <==> spec_validate_exists(actual) == Ok::<(), ValidationError>(()),
        actual.len() == 0 <==> spec_validate_exists(actual) == Err::<(), ValidationError>(
            ValidationError::RowMissing,
        ),
{
}

/// Existence validation: at least one row came back.
fn validate_exists(actual: &Vec<Row>) -> (r: Result<(), ValidationError>)
    ensures
        r == spec_validate_exists(rows_view(actual@)),
{
    if actual.len() == 0 {
        Err(ValidationError::RowMissing)
    } else {
        Ok(())
    }
}

} // verus!
