//! Sharded run statistics.
//!
//! Each worker owns one `StatsShard` and records into it with no
//! synchronization; shards are merged by value at reporting time and at
//! shutdown. The merge is commutative and associative, and merging the
//! final shard states of any run equals a single-threaded sequential replay
//! of the same `record` calls — proved below — so the aggregate loses and
//! double-counts nothing however the calls were split across workers.
//!
//! Latencies land in 65 exponential buckets: bucket `k` holds samples whose
//! bit length is `k`, i.e. bucket 0 holds latency 0 and bucket `k >= 1`
//! holds latencies in `[2^(k-1), 2^k)`.

use vstd::arithmetic::power2::{lemma2_to64, lemma2_to64_rest, pow2};
use vstd::pervasive::VecAdditionalExecFns;
use vstd::prelude::*;

use crate::error::OperationError;

verus! {

/// How many latency buckets a shard holds.
pub const NUM_BUCKETS: usize = 65;

/// The outcome of one completed operation, by coarse cause.
#[derive(Clone, Copy, Debug, PartialEq, Eq, Structural)]
pub enum OpOutcome {
    /// The operation completed and validated cleanly, touching `rows` rows.
    Success { rows: u64 },
    /// A transport- or database-level failure.
    FailedExecution,
    /// The reply failed validation.
    FailedValidation,
}

/// The coarse outcome of an operation result, with `rows_returned` rows on
/// success.
pub open spec fn spec_outcome_of<T>(r: Result<T, OperationError>, rows_returned: u64) -> OpOutcome {
    match r {
        Ok(_) => OpOutcome::Success { rows: rows_returned },
        Err(OperationError::Execution(_)) => OpOutcome::FailedExecution,
        Err(OperationError::Validation(_)) => OpOutcome::FailedValidation,
    }
}

/// Classifies an operation result as the outcome to record, with
/// `rows_returned` rows on success.
pub fn outcome_of<T>(r: &Result<T, OperationError>, rows_returned: u64) -> (o: OpOutcome)
    ensures
        o == spec_outcome_of(*r, rows_returned),
{
    match r {
        Ok(_) => OpOutcome::Success { rows: rows_returned },
        Err(OperationError::Execution(_)) => OpOutcome::FailedExecution,
        Err(OperationError::Validation(_)) => OpOutcome::FailedValidation,
    }
}

/// How many rows an outcome contributes to the aggregate.
pub open spec fn spec_rows_of(o: OpOutcome) -> nat {
    match o {
        OpOutcome::Success { rows } => rows as nat,
        OpOutcome::FailedExecution => 0,
        OpOutcome::FailedValidation => 0,
    }
}

/// The mathematical state of one shard (and of the aggregate, which is a
/// merge of shards).
#[verifier::ext_equal]
pub ghost struct ShardV {
    pub attempted: nat,
    pub succeeded: nat,
    pub failed_execution: nat,
    pub failed_validation: nat,
    pub rows_processed: nat,
    pub buckets: Seq<nat>,
}

/// Shard sanity: 65 buckets, the outcome counters partition `attempted`,
/// and no bucket exceeds `attempted`.
pub open spec fn shard_wf(s: ShardV) -> bool {
    &&& s.buckets.len() == NUM_BUCKETS
    &&& s.succeeded + s.failed_execution + s.failed_validation == s.attempted
    &&& forall|i: int| 0 <= i < s.buckets.len() ==> s.buckets[i] <= s.attempted
}

/// The state of a shard that has recorded nothing.
pub open spec fn spec_empty_shard() -> ShardV {
    ShardV {
        attempted: 0,
        succeeded: 0,
        failed_execution: 0,
        failed_validation: 0,
        rows_processed: 0,
        buckets: Seq::new(NUM_BUCKETS as nat, |i: int| 0),
    }
}

/// The bit length of `v`: which latency bucket `v` lands in.
pub open spec fn spec_bucket_of(v: u64) -> nat
    decreases v,
{
    if v == 0 {
        0
    } else {
        1 + spec_bucket_of(v / 2)
    }
}

proof fn lemma_bucket_of_le(v: u64, k: nat)
    requires
        v < pow2(k),
    ensures
        spec_bucket_of(v) <= k,
    decreases v,
{
    if v > 0 {
        assert(k >= 1) by {
            if k == 0 {
                assert(pow2(0) == 1) by {
                    lemma2_to64();
                }
            }
        }
        vstd::arithmetic::power2::lemma_pow2_unfold(k);
        lemma_bucket_of_le(v / 2, (k - 1) as nat);
    }
}

/// Every latency lands in one of the 65 buckets.
pub proof fn lemma_bucket_of_in_range(v: u64)
    ensures
        spec_bucket_of(v) < NUM_BUCKETS,
{
    lemma2_to64();
    lemma2_to64_rest();
    lemma_bucket_of_le(v, 64);
}

/// One `record` call applied to the mathematical shard state.
pub open spec fn spec_record(s: ShardV, o: OpOutcome, latency: u64) -> ShardV {
    let b = spec_bucket_of(latency) as int;
    ShardV {
        attempted: s.attempted + 1,
        succeeded: s.succeeded + if o is Success {
            1nat
        } else {
            0nat
        },
        failed_execution: s.failed_execution + if o is FailedExecution {
            1nat
        } else {
            0nat
        },
        failed_validation: s.failed_validation + if o is FailedValidation {
            1nat
        } else {
            0nat
        },
        rows_processed: s.rows_processed + spec_rows_of(o),
        buckets: s.buckets.update(b, (s.buckets[b] + 1) as nat),
    }
}

/// The merge of two shard states: every counter and bucket added.
pub open spec fn spec_merge(a: ShardV, b: ShardV) -> ShardV {
    ShardV {
        attempted: a.attempted + b.attempted,
        succeeded: a.succeeded + b.succeeded,
        failed_execution: a.failed_execution + b.failed_execution,
        failed_validation: a.failed_validation + b.failed_validation,
        rows_processed: a.rows_processed + b.rows_processed,
        buckets: Seq::new(NUM_BUCKETS as nat, |i: int| a.buckets[i] + b.buckets[i]),
    }
}

/// The merge of a whole sequence of shard states, left to right.
pub open spec fn spec_merge_all(shards: Seq<ShardV>) -> ShardV
    decreases shards.len(),
{
    if shards.len() == 0 {
        spec_empty_shard()
    } else {
        spec_merge(spec_merge_all(shards.drop_last()), shards.last())
    }
}

/// Recording keeps a shard well formed.
pub proof fn lemma_record_wf(s: ShardV, o: OpOutcome, latency: u64)
    requires
        shard_wf(s),
    ensures
        shard_wf(spec_record(s, o, latency)),
{
    lemma_bucket_of_in_range(latency);
}

/// Merging keeps shards well formed.
pub proof fn lemma_merge_wf(a: ShardV, b: ShardV)
    requires
        shard_wf(a),
        shard_wf(b),
    ensures
        shard_wf(spec_merge(a, b)),
{
}

/// The merge of well-formed shards is well formed.
pub proof fn lemma_merge_all_wf(shards: Seq<ShardV>)
    requires
        forall|k: int| 0 <= k < shards.len() ==> shard_wf(shards[k]),
    ensures
        shard_wf(spec_merge_all(shards)),
    decreases shards.len(),
{
    if shards.len() > 0 {
        lemma_merge_all_wf(shards.drop_last());
        lemma_merge_wf(spec_merge_all(shards.drop_last()), shards.last());
    }
}

/// The merge is commutative.
pub proof fn lemma_merge_commutative(a: ShardV, b: ShardV)
    ensures
        spec_merge(a, b) == spec_merge(b, a),
{
    assert(spec_merge(a, b) =~= spec_merge(b, a));
}

/// The merge is associative.
pub proof fn lemma_merge_associative(a: ShardV, b: ShardV, c: ShardV)
    ensures
        spec_merge(spec_merge(a, b), c) == spec_merge(a, spec_merge(b, c)),
{
    assert(spec_merge(spec_merge(a, b), c) =~= spec_merge(a, spec_merge(b, c)));
}

/// The empty shard is the merge's identity.
pub proof fn lemma_merge_empty(a: ShardV)
    requires
        shard_wf(a),
    ensures
        spec_merge(spec_empty_shard(), a) == a,
        spec_merge(a, spec_empty_shard()) == a,
{
    assert(spec_merge(spec_empty_shard(), a) =~= a);
    assert(spec_merge(a, spec_empty_shard()) =~= a);
}

/// Recording into either side of a merge records into the merge.
pub proof fn lemma_merge_record(a: ShardV, b: ShardV, o: OpOutcome, latency: u64)
    requires
        shard_wf(a),
        shard_wf(b),
    ensures
        spec_merge(spec_record(a, o, latency), b) == spec_record(spec_merge(a, b), o, latency),
        spec_merge(a, spec_record(b, o, latency)) == spec_record(spec_merge(a, b), o, latency),
{
    lemma_bucket_of_in_range(latency);
    assert(spec_merge(spec_record(a, o, latency), b) =~= spec_record(
        spec_merge(a, b),
        o,
        latency,
    ));
    assert(spec_merge(a, spec_record(b, o, latency)) =~= spec_record(
        spec_merge(a, b),
        o,
        latency,
    ));
}

/// Recording into one shard of a sequence records into the sequence's merge.
pub proof fn lemma_merge_all_record(shards: Seq<ShardV>, j: int, o: OpOutcome, latency: u64)
    requires
        0 <= j < shards.len(),
        forall|k: int| 0 <= k < shards.len() ==> shard_wf(shards[k]),
    ensures
        spec_merge_all(shards.update(j, spec_record(shards[j], o, latency))) == spec_record(
            spec_merge_all(shards),
            o,
            latency,
        ),
    decreases shards.len(),
{
    let upd = shards.update(j, spec_record(shards[j], o, latency));
    lemma_merge_all_wf(shards.drop_last());
    if j == shards.len() - 1 {
        assert(upd.drop_last() =~= shards.drop_last());
        lemma_merge_record(spec_merge_all(shards.drop_last()), shards.last(), o, latency);
    } else {
        assert(upd.drop_last() =~= shards.drop_last().update(
            j,
            spec_record(shards.drop_last()[j], o, latency),
        ));
        lemma_merge_all_record(shards.drop_last(), j, o, latency);
        lemma_merge_record(spec_merge_all(shards.drop_last()), shards.last(), o, latency);
        assert(upd.last() == shards.last());
    }
}

/// One `record` call, tagged with the shard (worker) it went to.
pub ghost struct Event {
    pub shard: int,
    pub outcome: OpOutcome,
    pub latency: u64,
}

/// The events of `events` that went to shard `k`, in order.
pub open spec fn spec_events_for(events: Seq<Event>, k: int) -> Seq<Event>
    decreases events.len(),
{
    if events.len() == 0 {
        Seq::empty()
    } else if events.last().shard == k {
        spec_events_for(events.drop_last(), k).push(events.last())
    } else {
        spec_events_for(events.drop_last(), k)
    }
}

/// A single-threaded sequential replay of `record` calls into one shard,
/// ignoring the shard tags.
pub open spec fn spec_replay(events: Seq<Event>) -> ShardV
    decreases events.len(),
{
    if events.len() == 0 {
        spec_empty_shard()
    } else {
        spec_record(spec_replay(events.drop_last()), events.last().outcome, events.last().latency)
    }
}

/// The final state of each of `n` shards after the calls of `events` have
/// been applied, each to its own shard, in order.
pub open spec fn spec_final_shards(events: Seq<Event>, n: int) -> Seq<ShardV> {
    Seq::new(n as nat, |k: int| spec_replay(spec_events_for(events, k)))
}

/// A replayed shard is well formed.
pub proof fn lemma_replay_wf(events: Seq<Event>)
    ensures
        shard_wf(spec_replay(events)),
    decreases events.len(),
{
    if events.len() > 0 {
        lemma_replay_wf(events.drop_last());
        lemma_record_wf(
            spec_replay(events.drop_last()),
            events.last().outcome,
            events.last().latency,
        );
    }
}

/// The merge of any number of empty shards is empty.
proof fn lemma_merge_all_empty(n: int)
    requires
        n >= 0,
    ensures
        spec_merge_all(Seq::new(n as nat, |k: int| spec_empty_shard())) == spec_empty_shard(),
    decreases n,
{
    let s = Seq::new(n as nat, |k: int| spec_empty_shard());
    if n == 0 {
        assert(s.len() == 0);
    } else {
        assert(s.drop_last() =~= Seq::new((n - 1) as nat, |k: int| spec_empty_shard()));
        lemma_merge_all_empty(n - 1);
        lemma_merge_empty(spec_empty_shard());
    }
}

/// The sharding theorem: however a sequence of `record` calls is split
/// across `n` shards, merging the final shard states equals a
/// single-threaded sequential replay of the same calls — nothing is lost
/// and nothing is double-counted.
pub proof fn lemma_sharded_merge_equals_replay(events: Seq<Event>, n: int)
    requires
        n >= 0,
        forall|i: int| 0 <= i < events.len() ==> 0 <= #[trigger] events[i].shard < n,
    ensures
        spec_merge_all(spec_final_shards(events, n)) == spec_replay(events),
    decreases events.len(),
{
    if events.len() == 0 {
        assert(spec_final_shards(events, n) =~= Seq::new(n as nat, |k: int| spec_empty_shard()))
            by {
            assert forall|k: int| 0 <= k < n implies spec_replay(spec_events_for(events, k))
                == spec_empty_shard() by {
                assert(spec_events_for(events, k).len() == 0);
            }
        }
        lemma_merge_all_empty(n);
    } else {
        let es = events.drop_last();
        let e = events.last();
        let j = e.shard;
        assert(forall|i: int| 0 <= i < es.len() ==> 0 <= #[trigger] es[i].shard < n);
        lemma_sharded_merge_equals_replay(es, n);
        let prev = spec_final_shards(es, n);
        assert forall|k: int| 0 <= k < prev.len() implies shard_wf(prev[k]) by {
            lemma_replay_wf(spec_events_for(es, k));
        }
        assert(spec_final_shards(events, n) =~= prev.update(
            j,
            spec_record(prev[j], e.outcome, e.latency),
        )) by {
            assert forall|k: int| 0 <= k < n implies spec_final_shards(events, n)[k] == prev.update(
                j,
                spec_record(prev[j], e.outcome, e.latency),
            )[k] by {
                if k == j {
                    assert(spec_events_for(events, k) == spec_events_for(es, k).push(e));
                    let ek = spec_events_for(es, k).push(e);
                    assert(ek.drop_last() =~= spec_events_for(es, k));
                    assert(ek.last() == e);
                } else {
                    assert(spec_events_for(events, k) == spec_events_for(es, k));
                }
            }
        }
        lemma_merge_all_record(prev, j, e.outcome, e.latency);
    }
}

/// One worker's statistics: owned exclusively by that worker for the run,
/// merged by value at reporting time.
#[derive(Debug)]
pub struct StatsShard {
    /// Operations attempted, whatever their outcome.
    pub attempted: u64,
    /// Operations that completed and validated cleanly.
    pub succeeded: u64,
    /// Operations that failed at the transport or database level.
    pub failed_execution: u64,
    /// Operations whose reply failed validation.
    pub failed_validation: u64,
    /// Rows touched by successful operations.
    pub rows_processed: u64,
    /// Latency histogram; index is the sample's bit length.
    pub latency_buckets: Vec<u64>,
}

impl View for StatsShard {
    type V = ShardV;

    open spec fn view(&self) -> ShardV {
        ShardV {
            attempted: self.attempted as nat,
            succeeded: self.succeeded as nat,
            failed_execution: self.failed_execution as nat,
            failed_validation: self.failed_validation as nat,
            rows_processed: self.rows_processed as nat,
            buckets: self.latency_buckets@.map_values(|x: u64| x as nat),
        }
    }
}

/// Computes the latency bucket of `v`.
pub fn bucket_of(v: u64) -> (r: usize)
    ensures
        r == spec_bucket_of(v),
        r < NUM_BUCKETS,
{
    proof {
        lemma_bucket_of_in_range(v);
    }
    let mut cur = v;
    let mut idx: usize = 0;
    while cur > 0
        invariant
            idx + spec_bucket_of(cur) == spec_bucket_of(v),
            spec_bucket_of(v) < NUM_BUCKETS,
        decreases cur,
    {
        cur = cur / 2;
        idx += 1;
    }
    idx
}

impl StatsShard {
    /// A shard that has recorded nothing.
    pub fn new() -> (r: StatsShard)
        ensures
            r@ == spec_empty_shard(),
            shard_wf(r@),
    {
        let mut buckets: Vec<u64> = Vec::new();
        let mut i: usize = 0;
        while i < NUM_BUCKETS
            invariant
                i <= NUM_BUCKETS,
                buckets@.len() == i,
                forall|j: int| 0 <= j < i ==> buckets@[j] == 0,
            decreases NUM_BUCKETS - i,
        {
            buckets.push(0);
            i += 1;
        }
        let r = StatsShard {
            attempted: 0,
            succeeded: 0,
            failed_execution: 0,
            failed_validation: 0,
            rows_processed: 0,
            latency_buckets: buckets,
        };
        proof {
            assert(r@.buckets =~= spec_empty_shard().buckets);
        }
        r
    }

    /// Records one completed operation. O(1), no synchronization; called
    /// only by the worker that owns the shard.
    pub fn record(&mut self, outcome: OpOutcome, latency: u64)
        requires
            shard_wf(old(self)@),
            old(self)@.attempted < u64::MAX,
            old(self)@.rows_processed + spec_rows_of(outcome) <= u64::MAX,
        ensures
            final(self)@ == spec_record(old(self)@, outcome, latency),
            shard_wf(final(self)@),
    {
        proof {
            lemma_record_wf(old(self)@, outcome, latency);
        }
        self.attempted = self.attempted + 1;
        match outcome {
            OpOutcome::Success { rows } => {
                self.succeeded = self.succeeded + 1;
                self.rows_processed = self.rows_processed + rows;
            },
            OpOutcome::FailedExecution => {
                self.failed_execution = self.failed_execution + 1;
            },
            OpOutcome::FailedValidation => {
                self.failed_validation = self.failed_validation + 1;
            },
        }
        let b = bucket_of(latency);
        let cur = self.latency_buckets[b];
        self.latency_buckets.set(b, cur + 1);
        proof {
            assert(self@.buckets =~= spec_record(old(self)@, outcome, latency).buckets);
            assert(self@ =~= spec_record(old(self)@, outcome, latency));
        }
    }

    /// Adds another shard's counters into this one, by value.
    pub fn add(&mut self, other: &StatsShard)
        requires
            shard_wf(old(self)@),
            shard_wf(other@),
            old(self)@.attempted + other@.attempted <= u64::MAX,
            old(self)@.rows_processed + other@.rows_processed <= u64::MAX,
        ensures
            final(self)@ == spec_merge(old(self)@, other@),
            shard_wf(final(self)@),
    {
        proof {
            lemma_merge_wf(old(self)@, other@);
        }
        self.attempted = self.attempted + other.attempted;
        self.succeeded = self.succeeded + other.succeeded;
        self.failed_execution = self.failed_execution + other.failed_execution;
        self.failed_validation = self.failed_validation + other.failed_validation;
        self.rows_processed = self.rows_processed + other.rows_processed;
        let mut b: usize = 0;
        while b < NUM_BUCKETS
            invariant
                b <= NUM_BUCKETS,
                self.latency_buckets@.len() == NUM_BUCKETS,
                other.latency_buckets@.len() == NUM_BUCKETS,
                forall|j: int|
                    0 <= j < b ==> self.latency_buckets@[j] == old(self).latency_buckets@[j]
                        + other.latency_buckets@[j],
                forall|j: int|
                    b <= j < NUM_BUCKETS ==> self.latency_buckets@[j] == old(
                        self,
                    ).latency_buckets@[j],
                old(self)@.attempted + other@.attempted <= u64::MAX,
                shard_wf(old(self)@),
                shard_wf(other@),
                self.attempted == old(self)@.attempted + other@.attempted,
                self.succeeded == old(self)@.succeeded + other@.succeeded,
                self.failed_execution == old(self)@.failed_execution + other@.failed_execution,
                self.failed_validation == old(self)@.failed_validation + other@.failed_validation,
                self.rows_processed == old(self)@.rows_processed + other@.rows_processed,
            decreases NUM_BUCKETS - b,
        {
            let cur = self.latency_buckets[b];
            let add = other.latency_buckets[b];
            proof {
                assert(old(self)@.buckets[b as int] == old(self).latency_buckets@[b as int]);
                assert(other@.buckets[b as int] == other.latency_buckets@[b as int]);
            }
            self.latency_buckets.set(b, cur + add);
            b += 1;
        }
        proof {
            assert(self@.buckets =~= spec_merge(old(self)@, other@).buckets);
            assert(self@ =~= spec_merge(old(self)@, other@));
        }
    }
}

/// How many samples sit in buckets `[0, b)`.
pub open spec fn spec_cum(buckets: Seq<nat>, b: int) -> nat
    decreases b,
{
    if b <= 0 {
        0
    } else {
        spec_cum(buckets, b - 1) + buckets[b - 1]
    }
}

/// A cumulative count over `b` buckets of at most `m` each is at most `b * m`.
proof fn lemma_cum_bound(buckets: Seq<nat>, b: int, m: nat)
    requires
        0 <= b <= buckets.len(),
        forall|i: int| 0 <= i < buckets.len() ==> buckets[i] <= m,
    ensures
        spec_cum(buckets, b) <= b * m,
    decreases b,
{
    if b > 0 {
        lemma_cum_bound(buckets, b - 1, m);
        assert(b * m == (b - 1) * m + m) by (nonlinear_arith);
    }
}

/// Cumulative counts grow with the bucket bound.
proof fn lemma_cum_mono(buckets: Seq<nat>, a: int, b: int)
    requires
        a <= b,
    ensures
        spec_cum(buckets, a) <= spec_cum(buckets, b),
    decreases b - a,
{
    if a < b {
        lemma_cum_mono(buckets, a, b - 1);
    }
}

impl StatsShard {
    /// The latency percentile bucket: the first bucket `r` such that the
    /// samples in buckets `0..=r` are at least `pct` percent of all
    /// samples. The latencies of that bucket bound the percentile.
    pub fn latency_percentile(&self, pct: u64) -> (r: usize)
        requires
            shard_wf(self@),
            1 <= pct <= 100,
        ensures
            r < NUM_BUCKETS,
            100 * spec_cum(self@.buckets, r as int + 1) >= pct * spec_cum(
                self@.buckets,
                NUM_BUCKETS as int,
            ),
            forall|b: int|
                0 <= b < r ==> 100 * #[trigger] spec_cum(self@.buckets, b + 1) < pct * spec_cum(
                    self@.buckets,
                    NUM_BUCKETS as int,
                ),
    {
        let ghost bks = self@.buckets;
        proof {
            assert(forall|i: int| 0 <= i < bks.len() ==> bks[i] <= u64::MAX as nat);
            lemma_cum_bound(bks, NUM_BUCKETS as int, u64::MAX as nat);
        }
        let mut total: u128 = 0;
        let mut i: usize = 0;
        while i < NUM_BUCKETS
            invariant
                i <= NUM_BUCKETS,
                bks == self@.buckets,
                self.latency_buckets@.len() == NUM_BUCKETS,
                total == spec_cum(bks, i as int),
                total <= (NUM_BUCKETS as int) * (u64::MAX as int),
            decreases NUM_BUCKETS - i,
        {
            proof {
                lemma_cum_bound(bks, i as int + 1, u64::MAX as nat);
            }
            total = total + (self.latency_buckets[i] as u128);
            i += 1;
        }
        proof {
            assert((pct as int) * (total as int) <= 100 * ((NUM_BUCKETS as int) * (u64::MAX
                as int))) by (nonlinear_arith)
                requires
                    1 <= pct <= 100,
                    0 <= total <= (NUM_BUCKETS as int) * (u64::MAX as int),
            ;
        }
        let goal: u128 = (pct as u128) * total;
        let mut cum: u128 = 0;
        let mut b: usize = 0;
        while b < NUM_BUCKETS
            invariant
                b <= NUM_BUCKETS,
                bks == self@.buckets,
                self.latency_buckets@.len() == NUM_BUCKETS,
                cum == spec_cum(bks, b as int),
                total == spec_cum(bks, NUM_BUCKETS as int),
                total <= (NUM_BUCKETS as int) * (u64::MAX as int),
                goal == pct * total,
                pct <= 100,
                forall|j: int| 0 <= j < b ==> 100 * #[trigger] spec_cum(bks, j + 1) < pct * total,
            decreases NUM_BUCKETS - b,
        {
            proof {
                lemma_cum_mono(bks, b as int + 1, NUM_BUCKETS as int);
                assert(100 * (spec_cum(bks, b as int + 1) as int) <= 100 * (total as int));
            }
            cum = cum + (self.latency_buckets[b] as u128);
            proof {
                assert(cum == spec_cum(bks, b as int + 1));
                assert(cum <= total);
            }
            if 100 * cum >= goal {
                return b;
            }
            b += 1;
        }
        proof {
            let ghost j64: int = 64;
            assert(100 * spec_cum(bks, j64 + 1) < pct * total);
            assert(100 * spec_cum(bks, 65) < pct * total);
            assert(pct * total <= 100 * total) by (nonlinear_arith)
                requires
                    pct <= 100,
                    total >= 0,
            ;
            assert(false);
        }
        NUM_BUCKETS - 1
    }
}

/// The shard states of a sequence of shards.
pub open spec fn views_of(shards: Seq<StatsShard>) -> Seq<ShardV> {
    shards.map_values(|s: StatsShard| s@)
}

/// Prefix merges never exceed the full merge, counter by counter.
proof fn lemma_merge_all_prefix_le(shards: Seq<ShardV>, i: int)
    requires
        0 <= i <= shards.len(),
    ensures
        spec_merge_all(shards.subrange(0, i)).attempted <= spec_merge_all(shards).attempted,
        spec_merge_all(shards.subrange(0, i)).rows_processed <= spec_merge_all(
            shards,
        ).rows_processed,
    decreases shards.len() - i,
{
    if i == shards.len() {
        assert(shards.subrange(0, i) =~= shards);
    } else {
        lemma_merge_all_prefix_le(shards, i + 1);
        let next = shards.subrange(0, i + 1);
        assert(next.drop_last() =~= shards.subrange(0, i));
        assert(next.last() == shards[i]);
    }
}

/// A snoc step of the sequence merge.
proof fn lemma_merge_all_snoc(shards: Seq<ShardV>, i: int)
    requires
        0 <= i < shards.len(),
    ensures
        spec_merge_all(shards.subrange(0, i + 1)) == spec_merge(
            spec_merge_all(shards.subrange(0, i)),
            shards[i],
        ),
{
    let next = shards.subrange(0, i + 1);
    assert(next.drop_last() =~= shards.subrange(0, i));
    assert(next.last() == shards[i]);
}

/// Merges a snapshot of all shards into one aggregate: a pure reduction
/// over the shard values. The final merge after all workers have stopped
/// is exact.
pub fn merge(shards: &Vec<StatsShard>) -> (r: StatsShard)
    requires
        forall|k: int| 0 <= k < shards@.len() ==> shard_wf(#[trigger] shards@[k]@),
        spec_merge_all(views_of(shards@)).attempted <= u64::MAX,
        spec_merge_all(views_of(shards@)).rows_processed <= u64::MAX,
    ensures
        r@ == spec_merge_all(views_of(shards@)),
        shard_wf(r@),
{
    let ghost all = views_of(shards@);
    let mut r = StatsShard::new();
    proof {
        assert(all.subrange(0, 0) =~= Seq::<ShardV>::empty());
    }
    let mut i: usize = 0;
    while i < shards.len()
        invariant
            i <= shards@.len(),
            all == views_of(shards@),
            forall|k: int| 0 <= k < shards@.len() ==> shard_wf(#[trigger] shards@[k]@),
            spec_merge_all(all).attempted <= u64::MAX,
            spec_merge_all(all).rows_processed <= u64::MAX,
            r@ == spec_merge_all(all.subrange(0, i as int)),
            shard_wf(r@),
        decreases shards@.len() - i,
    {
        proof {
            lemma_merge_all_snoc(all, i as int);
            lemma_merge_all_prefix_le(all, i as int + 1);
            assert(all[i as int] == shards@[i as int]@);
        }
        r.add(&shards[i]);
        i += 1;
    }
    proof {
        assert(all.subrange(0, shards@.len() as int) =~= all);
    }
    r
}

} // verus!
