//! Worker-pool run control.
//!
//! The pool spawns N workers; each repeatedly takes the next logical row
//! index, executes its operation, records the outcome in its own shard and
//! then checks the run control signal — so a worker stops within one
//! operation of the stop condition or an abort. The network half of each
//! operation lives outside the core; these functions decide, from the
//! current state and what just happened, what the worker does next.

use vstd::arithmetic::div_mod::lemma_fundamental_div_mod;
use vstd::arithmetic::mul::lemma_mul_inequality;
use vstd::prelude::*;

use crate::stats::OpOutcome;

verus! {

/// The pool-wide run control signal. Mutated from every worker, so it must
/// live in one atomic cell outside the core; it moves only monotonically
/// from `Running` to `Stopped` or `Aborted`, never back.
#[derive(Clone, Copy, Debug, PartialEq, Eq, Structural)]
pub enum RunSignal {
    Running,
    Stopped,
    Aborted,
}

/// How far along the monotonic `Running -> Stopped -> Aborted` order a
/// signal stands.
pub open spec fn spec_severity(s: RunSignal) -> int {
    match s {
        RunSignal::Running => 0,
        RunSignal::Stopped => 1,
        RunSignal::Aborted => 2,
    }
}

/// The signal after `requested` is raised while the signal holds `cur`:
/// whichever of the two is further along. This is the only way the signal
/// moves, so it never moves backwards.
pub open spec fn spec_signal_join(cur: RunSignal, requested: RunSignal) -> RunSignal {
    if spec_severity(requested) >= spec_severity(cur) {
        requested
    } else {
        cur
    }
}

/// Raises `requested` over `cur`.
pub fn signal_join(cur: RunSignal, requested: RunSignal) -> (r: RunSignal)
    ensures
        r == spec_signal_join(cur, requested),
{
    let keep = match (cur, requested) {
        (RunSignal::Aborted, _) => true,
        (RunSignal::Stopped, RunSignal::Running) => true,
        _ => false,
    };
    if keep {
        cur
    } else {
        requested
    }
}

/// The signal is monotonic and terminal states are absorbing: a signal
/// never returns to `Running`, and `Aborted` is final.
pub proof fn lemma_signal_monotone(cur: RunSignal, requested: RunSignal)
    ensures
        spec_severity(spec_signal_join(cur, requested)) >= spec_severity(cur),
        cur != RunSignal::Running ==> spec_signal_join(cur, requested) != RunSignal::Running,
        cur == RunSignal::Aborted ==> spec_signal_join(cur, requested) == RunSignal::Aborted,
{
}

/// When a per-operation failure is configured as fatal for the whole pool.
/// The default policy keeps generating load despite isolated failures.
#[derive(Clone, Copy, Debug, PartialEq, Eq, Structural, Default)]
pub struct AbortPolicy {
    /// Abort the run on the first transport or database failure.
    pub on_execution_error: bool,
    /// Abort the run on the first validation failure.
    pub on_validation_error: bool,
}

/// Whether `o` is fatal under policy `p`.
pub open spec fn spec_outcome_fatal(p: AbortPolicy, o: OpOutcome) -> bool {
    ||| p.on_execution_error && o is FailedExecution
    ||| p.on_validation_error && o is FailedValidation
}

/// Decides whether `o` is fatal under policy `p`.
pub fn outcome_fatal(p: AbortPolicy, o: OpOutcome) -> (r: bool)
    ensures
        r == spec_outcome_fatal(p, o),
{
    match o {
        OpOutcome::Success { .. } => false,
        OpOutcome::FailedExecution => p.on_execution_error,
        OpOutcome::FailedValidation => p.on_validation_error,
    }
}

/// What the worker loop raises over the signal after one operation
/// completes: abort on a fatal outcome, stop once the stop condition is
/// met, otherwise leave the signal as it stands. Centralizing this here —
/// not in the operation — keeps the pool-wide abort policy in one place.
pub open spec fn spec_control_update(
    cur: RunSignal,
    stop_met: bool,
    fatal: bool,
) -> RunSignal {
    spec_signal_join(
        cur,
        if fatal {
            RunSignal::Aborted
        } else if stop_met {
            RunSignal::Stopped
        } else {
            RunSignal::Running
        },
    )
}

/// Applies `spec_control_update`.
pub fn control_update(cur: RunSignal, stop_met: bool, fatal: bool) -> (r: RunSignal)
    ensures
        r == spec_control_update(cur, stop_met, fatal),
{
    if fatal {
        signal_join(cur, RunSignal::Aborted)
    } else if stop_met {
        signal_join(cur, RunSignal::Stopped)
    } else {
        signal_join(cur, RunSignal::Running)
    }
}

/// Once the stop condition is met or a fatal outcome occurs, the signal the
/// loop raises is no longer `Running` — so, with `lemma_prompt_termination`,
/// every worker's next check is its last.
pub proof fn lemma_stop_condition_stops(cur: RunSignal, stop_met: bool, fatal: bool)
    requires
        stop_met || fatal,
    ensures
        spec_control_update(cur, stop_met, fatal) != RunSignal::Running,
        fatal ==> spec_control_update(cur, stop_met, fatal) == RunSignal::Aborted,
{
}

/// One worker's lifecycle: `Idle -> Running -> {Stopped, Aborted}`.
#[derive(Clone, Copy, Debug, PartialEq, Eq, Structural)]
pub enum WorkerState {
    Idle,
    Running,
    Stopped,
    Aborted,
}

impl WorkerState {
    pub open spec fn is_terminal(&self) -> bool {
        *self is Stopped || *self is Aborted
    }
}

/// What a worker does next, decided between operations: from its state,
/// the signal it just checked, and the next logical index on offer. The
/// second component is the index to execute, if any.
pub open spec fn spec_worker_step(
    state: WorkerState,
    signal: RunSignal,
    next: Option<u64>,
) -> (WorkerState, Option<u64>) {
    if signal is Aborted || state is Aborted {
        (WorkerState::Aborted, None::<u64>)
    } else if signal is Stopped || state is Stopped {
        (WorkerState::Stopped, None::<u64>)
    } else {
        match next {
            Some(i) => (WorkerState::Running, Some(i)),
            None => (WorkerState::Stopped, None::<u64>),
        }
    }
}

/// Decides one worker step.
pub fn worker_step(state: WorkerState, signal: RunSignal, next: Option<u64>) -> (r: (
    WorkerState,
    Option<u64>,
))
    ensures
        r == spec_worker_step(state, signal, next),
{
    if matches!(signal, RunSignal::Aborted) || matches!(state, WorkerState::Aborted) {
        (WorkerState::Aborted, None)
    } else if matches!(signal, RunSignal::Stopped) || matches!(state, WorkerState::Stopped) {
        (WorkerState::Stopped, None)
    } else {
        match next {
            Some(i) => (WorkerState::Running, Some(i)),
            None => (WorkerState::Stopped, None),
        }
    }
}

/// Prompt termination: once the signal has left `Running`, the very next
/// step of every worker — whatever its state and whatever index is on
/// offer — reaches a terminal state and issues no further operation. The
/// signal is checked after each operation, so the pool unwinds within one
/// operation's latency of the stop condition or an abort, at any
/// concurrency level.
pub proof fn lemma_prompt_termination(state: WorkerState, signal: RunSignal, next: Option<u64>)
    requires
        signal != RunSignal::Running,
    ensures
        spec_worker_step(state, signal, next).0.is_terminal(),
        spec_worker_step(state, signal, next).1 is None,
{
}

/// Terminal worker states are absorbing: no step leaves them, and no
/// further operation is ever issued from them.
pub proof fn lemma_terminal_absorbing(state: WorkerState, signal: RunSignal, next: Option<u64>)
    requires
        state.is_terminal(),
    ensures
        spec_worker_step(state, signal, next).0.is_terminal(),
        spec_worker_step(state, signal, next).1 is None,
{
}

/// The shared logical-index cursor: hands out each index in `[0, limit)`
/// exactly once, in order. Workers share it through one point of
/// serialization outside the core (an atomic counter), preserving the
/// one-writer-per-index invariant that deterministic generation needs.
pub struct Cursor {
    pub next: u64,
    pub limit: u64,
}

impl Cursor {
    pub open spec fn wf(&self) -> bool {
        self.next <= self.limit
    }

    /// A cursor over `[0, limit)`.
    pub fn new(limit: u64) -> (r: Cursor)
        ensures
            r.next == 0,
            r.limit == limit,
            r.wf(),
    {
        Cursor { next: 0, limit }
    }

    /// Takes the next index: each call returns one more than the last,
    /// until the range is exhausted.
    pub fn next_index(&mut self) -> (r: Option<u64>)
        requires
            old(self).wf(),
        ensures
            final (self).wf(),
            final (self).limit == old(self).limit,
            old(self).next < old(self).limit ==> r == Some(old(self).next) && final (self).next
                == old(self).next + 1,
            old(self).next >= old(self).limit ==> r is None && final (self).next == old(
                self,
            ).next,
    {
        if self.next < self.limit {
            let i = self.next;
            self.next = self.next + 1;
            Some(i)
        } else {
            None
        }
    }
}

/// Where worker `w`'s static partition of `[0, total)` begins, under `workers`
/// workers: the first `total % workers` workers get one extra index.
/// Worker `w` owns `[start(w), start(w + 1))`.
pub open spec fn spec_partition_start(total: u64, workers: u64, w: u64) -> int
    recommends
        workers >= 1,
{
    let q = total as int / workers as int;
    let r = total as int % workers as int;
    w * q + if w < r {
        w as int
    } else {
        r
    }
}

/// Partition starts are ordered and land inside `[0, total]`: consecutive
/// workers own adjacent, disjoint blocks, and together the blocks cover
/// `[0, total)` exactly — no index is processed by two workers.
pub proof fn lemma_partition_bounds(total: u64, workers: u64, w: u64)
    requires
        workers >= 1,
        w <= workers,
    ensures
        0 <= spec_partition_start(total, workers, w) <= total,
        w < workers ==> spec_partition_start(total, workers, w) <= spec_partition_start(
            total,
            workers,
            (w + 1) as u64,
        ),
        spec_partition_start(total, workers, 0) == 0,
        spec_partition_start(total, workers, workers) == total,
{
    let q = total as int / workers as int;
    let r = total as int % workers as int;
    lemma_fundamental_div_mod(total as int, workers as int);
    assert(0 <= r < workers);
    assert(q >= 0);
    lemma_mul_inequality(w as int, workers as int, q);
    if w < workers {
        lemma_mul_inequality(w as int + 1, workers as int, q);
        assert((w + 1) * q == w * q + q) by (nonlinear_arith);
    }
    assert(workers * q + r == total);
}

/// Partition starts are ordered across any two workers.
pub proof fn lemma_partition_starts_ordered(total: u64, workers: u64, a: u64, b: u64)
    requires
        workers >= 1,
        a <= b <= workers,
    ensures
        spec_partition_start(total, workers, a) <= spec_partition_start(total, workers, b),
    decreases b - a,
{
    if a < b {
        lemma_partition_bounds(total, workers, (b - 1) as u64);
        lemma_partition_starts_ordered(total, workers, a, (b - 1) as u64);
    }
}

/// No logical index lies in two distinct workers' blocks: statically
/// partitioned workers never process the same index, so each index has one
/// writer.
pub proof fn lemma_partition_blocks_disjoint(total: u64, workers: u64, w1: u64, w2: u64, i: int)
    requires
        workers >= 1,
        w1 < w2 < workers,
        spec_partition_start(total, workers, w1) <= i < spec_partition_start(
            total,
            workers,
            (w1 + 1) as u64,
        ),
    ensures
        !(spec_partition_start(total, workers, w2) <= i < spec_partition_start(
            total,
            workers,
            (w2 + 1) as u64,
        )),
{
    lemma_partition_starts_ordered(total, workers, (w1 + 1) as u64, w2);
}

/// Computes `spec_partition_start`.
pub fn partition_start(total: u64, workers: u64, w: u64) -> (r: u64)
    requires
        workers >= 1,
        w <= workers,
    ensures
        r == spec_partition_start(total, workers, w),
        r <= total,
{
    proof {
        lemma_partition_bounds(total, workers, w);
    }
    let q = total / workers;
    let rem = total % workers;
    let extra = if w < rem {
        w
    } else {
        rem
    };
    w * q + extra
}

} // verus!
