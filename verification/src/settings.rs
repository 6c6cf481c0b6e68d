//! The immutable run settings.
//!
//! Built once at startup from the command line (outside the core), then
//! shared read-only by every worker for the lifetime of the run.

use vstd::prelude::*;

use crate::distribution::{dist_wf, Distribution};

verus! {

/// The closed set of operation kinds a run can mix.
#[derive(Clone, Copy, Debug, PartialEq, Eq, Structural)]
pub enum OperationKind {
    Read,
    CounterRead,
    Write,
    CounterWrite,
}

/// Per-request consistency level, fixed at statement preparation time.
#[derive(Clone, Copy, Debug, PartialEq, Eq, Structural)]
pub enum Consistency {
    Any,
    One,
    Two,
    Three,
    Quorum,
    All,
    LocalQuorum,
    EachQuorum,
    LocalOne,
}

/// Serial consistency level for lightweight transactions.
#[derive(Clone, Copy, Debug, PartialEq, Eq, Structural)]
pub enum SerialConsistency {
    Serial,
    LocalSerial,
}

/// The global stop condition of a run.
#[derive(Clone, Copy, Debug, PartialEq, Eq, Structural)]
pub enum StopCondition {
    /// Stop once this many operations have completed.
    OperationCount { count: u64 },
    /// Stop once this much time has elapsed, in milliseconds.
    Duration { millis: u64 },
}

/// Whether the stop condition is met after `ops_done` completed operations
/// and `elapsed_millis` of wall time.
pub open spec fn spec_stop_met(stop: StopCondition, ops_done: u64, elapsed_millis: u64) -> bool {
    match stop {
        StopCondition::OperationCount { count } => ops_done >= count,
        StopCondition::Duration { millis } => elapsed_millis >= millis,
    }
}

/// Decides whether the stop condition is met.
pub fn stop_met(stop: &StopCondition, ops_done: u64, elapsed_millis: u64) -> (r: bool)
    ensures
        r == spec_stop_met(*stop, ops_done, elapsed_millis),
{
    match stop {
        StopCondition::OperationCount { count } => ops_done >= *count,
        StopCondition::Duration { millis } => elapsed_millis >= *millis,
    }
}

/// The immutable settings snapshot the core reads.
pub struct Settings {
    /// Consistency level for every prepared statement.
    pub consistency: Consistency,
    /// Serial consistency level for every prepared statement.
    pub serial_consistency: SerialConsistency,
    /// How many workers run concurrently.
    pub concurrency: usize,
    /// When the run stops.
    pub stop: StopCondition,
    /// The operation mix, cycled through in order: operation `i` of a
    /// worker's sequence has kind `mix[i mod mix.len()]`.
    pub mix: Vec<OperationKind>,
    /// One distribution shape per generated payload column.
    pub columns: Vec<Distribution>,
    /// The run seed: reruns with the same seed reproduce the same rows.
    pub seed: u64,
}

impl Settings {
    pub open spec fn wf(&self) -> bool {
        &&& self.concurrency >= 1
        &&& self.mix@.len() >= 1
        &&& forall|j: int| 0 <= j < self.columns@.len() ==> dist_wf(self.columns@[j])
    }

    /// The kind of the `i`-th operation under this settings' mix.
    pub fn kind_of_operation(&self, i: u64) -> (r: OperationKind)
        requires
            self.wf(),
        ensures
            r == self.mix@[(i as int) % (self.mix@.len() as int)],
    {
        let slot = (i % (self.mix.len() as u64)) as usize;
        self.mix[slot]
    }
}

} // verus!
