//! Error taxonomy of the stress core.
//!
//! Configuration and preparation failures are fatal and stop a run before any
//! load is generated; execution and validation failures concern a single
//! operation and are recorded without stopping the pool by default.

use vstd::prelude::*;

verus! {

/// A distribution or settings specification could not be parsed.
/// Fatal: surfaced at startup. `token` names the malformed token.
#[derive(Clone, Debug)]
pub struct ConfigurationError {
    pub token: String,
}

/// The database rejected a statement at preparation time.
/// Fatal: aborts the run before any worker starts.
#[derive(Clone, Debug)]
pub struct PreparationError {
    pub detail: String,
}

/// A transport- or database-level failure of a single request.
/// Recorded per operation; non-fatal by default.
#[derive(Clone, Debug)]
pub struct ExecutionError {
    pub detail: String,
}

/// A returned row set did not match what the generator predicts.
#[derive(Clone, Copy, Debug, PartialEq, Eq, Structural)]
pub enum ValidationError {
    /// A single-key read returned zero or more than one row.
    RowCountMismatch { count: usize },
    /// A non-key column of the one returned row differs from the
    /// expected row; `index` is the first differing column.
    ColumnMismatch { index: usize },
    /// An existence check found no row at all.
    RowMissing,
    /// A batched lookup returned a different number of rows than
    /// the number of keys it asked for.
    UnexpectedRowCount { expected: usize, actual: usize },
}

/// Everything a single operation can fail with, re-raised to the worker
/// loop so the loop decides the pool-wide consequence.
#[derive(Clone, Debug)]
pub enum OperationError {
    Execution(ExecutionError),
    Validation(ValidationError),
}

} // verus!
