use cql_stress::codec::{decode_u64, encode_u64};
use cql_stress::distribution::{parse_distribution, Distribution, Sampler};
use cql_stress::error::{ExecutionError, OperationError, ValidationError};
use cql_stress::generator::RowGenerator;
use cql_stress::operation::{
    counter_write_statement_text, render_u64, statement_text, write_statement_text,
    GenericReadOperationFactory, GenericWriteOperationFactory, OpFlow, ReadOperation,
};
use cql_stress::run::{
    control_update, outcome_fatal, partition_start, signal_join, worker_step, AbortPolicy, Cursor,
    RunSignal, WorkerState,
};
use cql_stress::settings::{
    stop_met, Consistency, OperationKind, SerialConsistency, Settings, StopCondition,
};
use cql_stress::stats::{bucket_of, merge, outcome_of, OpOutcome, StatsShard};
use cql_stress::validator::RowValidator;
use cql_stress::value::{value_eq, Row, Value};

fn rows_equal(a: &Row, b: &Row) -> bool {
    a.len() == b.len() && (0..a.len()).all(|i| value_eq(&a[i], &b[i]))
}

fn test_settings() -> Settings {
    Settings {
        consistency: Consistency::Quorum,
        serial_consistency: SerialConsistency::LocalSerial,
        concurrency: 4,
        stop: StopCondition::OperationCount { count: 1000 },
        mix: vec![OperationKind::Read],
        columns: vec![
            Distribution::Uniform { min: 0, max: 999 },
            Distribution::Fixed { value: 7 },
        ],
        seed: 42,
    }
}

fn test_generator(seed: u64) -> RowGenerator {
    RowGenerator::new(vec![
        Sampler::new(Distribution::Uniform { min: 0, max: 999 }, seed),
        Sampler::new(Distribution::Fixed { value: 7 }, seed.wrapping_add(1)),
    ])
}

// --- distribution parsing ---

#[test]
fn parse_fixed() {
    let d = parse_distribution("FIXED(42)").unwrap();
    assert_eq!(d, Distribution::Fixed { value: 42 });
}

#[test]
fn parse_seq() {
    let d = parse_distribution("SEQ(1..100)").unwrap();
    assert_eq!(d, Distribution::Sequence { min: 1, max: 100 });
}

#[test]
fn parse_uniform() {
    let d = parse_distribution("UNIFORM(1..100)").unwrap();
    assert_eq!(d, Distribution::Uniform { min: 1, max: 100 });
}

#[test]
fn parse_large_number() {
    let d = parse_distribution("FIXED(999999999999999999)").unwrap();
    assert_eq!(d, Distribution::Fixed { value: 999_999_999_999_999_999 });
}

#[test]
fn parse_rejects_malformed() {
    // Every malformed specification is a ConfigurationError naming the token.
    for bad in [
        "",
        "FIXED",
        "FIXED(",
        "FIXED()",
        "FIXED(12",
        "FIXED(1x)",
        "SEQ(1..)",
        "SEQ(..9)",
        "SEQ(1.9)",
        "UNIFORM(1...9)",
        "NORMAL(1..9)",
        "GAUSSIAN()",
        "fixed(1)",
        "FIXED(1)x",
        // a 19-digit argument is over the accepted width
        "FIXED(1000000000000000000)",
    ] {
        let r = parse_distribution(bad);
        assert!(r.is_err(), "expected a parse failure on {:?}", bad);
        assert_eq!(r.err().unwrap().token, bad);
    }
}

#[test]
fn parse_gaussian() {
    let d = parse_distribution("GAUSSIAN(1..100)").unwrap();
    assert_eq!(d, Distribution::Gaussian { min: 1, max: 100 });
}

#[test]
fn sample_gaussian_is_seeded_deterministic_and_in_range() {
    let a = Sampler::new(Distribution::Gaussian { min: 100, max: 200 }, 7);
    let b = Sampler::new(Distribution::Gaussian { min: 100, max: 200 }, 7);
    let mut sum: u64 = 0;
    for n in 0..1000u64 {
        let v = a.sample(n);
        assert_eq!(v, b.sample(n));
        assert!((100..=200).contains(&v));
        sum += v;
    }
    // the averaged draws concentrate around the middle of the range
    let mean = sum / 1000;
    assert!((130..=170).contains(&mean));
}

#[test]
fn parse_rejects_inverted_range() {
    assert!(parse_distribution("UNIFORM(9..1)").is_err());
    assert!(parse_distribution("SEQ(9..1)").is_err());
}

// --- sampling ---

#[test]
fn sample_fixed_and_sequence() {
    let f = Sampler::new(Distribution::Fixed { value: 5 }, 0);
    assert_eq!(f.sample(0), 5);
    assert_eq!(f.sample(123), 5);
    let s = Sampler::new(Distribution::Sequence { min: 10, max: 12 }, 0);
    assert_eq!(s.sample(0), 10);
    assert_eq!(s.sample(1), 11);
    assert_eq!(s.sample(2), 12);
    assert_eq!(s.sample(3), 10);
}

#[test]
fn sample_uniform_is_seeded_deterministic_and_in_range() {
    let a = Sampler::new(Distribution::Uniform { min: 100, max: 200 }, 7);
    let b = Sampler::new(Distribution::Uniform { min: 100, max: 200 }, 7);
    for n in 0..1000u64 {
        let v = a.sample(n);
        assert_eq!(v, b.sample(n));
        assert!((100..=200).contains(&v));
    }
}

// --- codec ---

#[test]
fn codec_round_trip() {
    for n in [0u64, 1, 255, 256, 0x0102030405060708, u64::MAX] {
        let e = encode_u64(n);
        assert_eq!(e.len(), 8);
        assert_eq!(decode_u64(&e), n);
    }
    assert_eq!(
        encode_u64(0x0102030405060708),
        vec![1u8, 2, 3, 4, 5, 6, 7, 8]
    );
}

// --- row generation ---

#[test]
fn generate_row_is_referentially_transparent() {
    let g1 = test_generator(42);
    let g2 = test_generator(42);
    for i in [0u64, 1, 17, 999, u64::MAX] {
        let r1 = g1.generate_row(i);
        let r2 = g1.generate_row(i);
        let r3 = g2.generate_row(i);
        assert!(rows_equal(&r1, &r2));
        assert!(rows_equal(&r1, &r3));
        assert_eq!(r1.len(), 3);
    }
}

#[test]
fn generated_keys_are_unique() {
    let g = test_generator(42);
    let a = g.generate_row(1);
    let b = g.generate_row(2);
    assert!(!value_eq(&a[0], &b[0]));
}

#[test]
fn equality_validation_round_trip() {
    let g = test_generator(42);
    let row = g.generate_row(5);
    let expected = g.generate_row(5);
    let v = RowValidator::Equal;
    assert_eq!(v.validate_row(&expected, &vec![row]), Ok(()));
}

// --- validators ---

#[test]
fn equal_validator_rejects_zero_rows() {
    let g = test_generator(1);
    let expected = g.generate_row(0);
    let r = RowValidator::Equal.validate_row(&expected, &vec![]);
    assert_eq!(r, Err(ValidationError::RowCountMismatch { count: 0 }));
}

#[test]
fn equal_validator_rejects_two_rows() {
    let g = test_generator(1);
    let expected = g.generate_row(0);
    let a = g.generate_row(0);
    let b = g.generate_row(0);
    // two identical, individually correct rows are still a count mismatch
    let r = RowValidator::Equal.validate_row(&expected, &vec![a, b]);
    assert_eq!(r, Err(ValidationError::RowCountMismatch { count: 2 }));
}

#[test]
fn equal_validator_rejects_column_mismatch() {
    let g = test_generator(1);
    let expected = g.generate_row(0);
    let mut actual = g.generate_row(0);
    actual[2] = Value::Int(12345);
    let r = RowValidator::Equal.validate_row(&expected, &vec![actual]);
    assert_eq!(r, Err(ValidationError::ColumnMismatch { index: 2 }));
}

#[test]
fn equal_validator_ignores_key_column() {
    let g = test_generator(1);
    let expected = g.generate_row(0);
    let mut actual = g.generate_row(0);
    actual[0] = Value::Blob(vec![9, 9, 9]);
    let r = RowValidator::Equal.validate_row(&expected, &vec![actual]);
    assert_eq!(r, Ok(()));
}

#[test]
fn exists_validator_accepts_any_content() {
    let expected = vec![Value::Int(1)];
    let junk1 = vec![Value::Counter(-3)];
    let junk2: Row = vec![];
    let v = RowValidator::Exists;
    assert_eq!(v.validate_row(&expected, &vec![junk1]), Ok(()));
    assert_eq!(v.validate_row(&expected, &vec![junk2.clone(), junk2]), Ok(()));
}

#[test]
fn exists_validator_rejects_empty_result() {
    let expected = vec![Value::Int(1)];
    let r = RowValidator::Exists.validate_row(&expected, &vec![]);
    assert_eq!(r, Err(ValidationError::RowMissing));
}

// --- operation and factory ---

#[test]
fn factory_builds_statement_from_settings() {
    let settings = test_settings();
    let f = GenericReadOperationFactory::new(&settings, "keyspace1.standard1", RowValidator::Equal);
    assert_eq!(
        f.statement.text,
        "SELECT * FROM keyspace1.standard1 WHERE KEY IN ?"
    );
    assert!(f.statement.idempotent);
    assert_eq!(f.statement.consistency, Consistency::Quorum);
    assert_eq!(f.statement.serial_consistency, SerialConsistency::LocalSerial);
    let op = f.create();
    assert_eq!(op.statement.text, f.statement.text);
    assert_eq!(op.row_validator, RowValidator::Equal);
}

#[test]
fn statement_text_format() {
    assert_eq!(statement_text("tab"), "SELECT * FROM tab WHERE KEY IN ?");
}

#[test]
fn render_decimal() {
    assert_eq!(render_u64(0), "0");
    assert_eq!(render_u64(10), "10");
    assert_eq!(render_u64(12345), "12345");
    assert_eq!(render_u64(u64::MAX), "18446744073709551615");
}

#[test]
fn write_statement_texts() {
    assert_eq!(
        write_statement_text("keyspace1.standard1", 3),
        "INSERT INTO keyspace1.standard1 (KEY, C0, C1, C2) VALUES (?, ?, ?, ?)"
    );
    assert_eq!(
        write_statement_text("keyspace1.standard1", 0),
        "INSERT INTO keyspace1.standard1 (KEY) VALUES (?)"
    );
    assert_eq!(
        counter_write_statement_text("keyspace1.counter1", 2),
        "UPDATE keyspace1.counter1 SET C0 = C0 + ?, C1 = C1 + ? WHERE KEY = ?"
    );
}

#[test]
fn write_factory_and_operation() {
    let settings = test_settings();
    let wf = GenericWriteOperationFactory::new_regular(&settings, "keyspace1.standard1", 2);
    assert!(wf.statement.idempotent);
    let cf = GenericWriteOperationFactory::new_counter(&settings, "keyspace1.counter1", 2);
    // a retried counter increment would double-count
    assert!(!cf.statement.idempotent);
    let op = wf.create();
    let g = test_generator(11);
    let row = op.generate_row(&g, 8);
    assert!(matches!(op.execute(&row, Ok(vec![])), Ok(OpFlow::Continue)));
    let err = ExecutionError { detail: "overloaded".to_string() };
    assert!(matches!(
        op.execute(&row, Err(err)),
        Err(OperationError::Execution(_))
    ));
}

fn read_operation(v: RowValidator) -> ReadOperation {
    GenericReadOperationFactory::new(&test_settings(), "keyspace1.standard1", v).create()
}

#[test]
fn execute_propagates_execution_error() {
    let op = read_operation(RowValidator::Equal);
    let g = test_generator(3);
    let row = g.generate_row(1);
    let err = ExecutionError { detail: "connection reset".to_string() };
    let r = op.execute(&row, Err(err));
    match r {
        Err(OperationError::Execution(e)) => assert_eq!(e.detail, "connection reset"),
        other => panic!("expected an execution error, got {:?}", other.is_ok()),
    }
}

#[test]
fn execute_validates_reply() {
    let op = read_operation(RowValidator::Equal);
    let g = test_generator(3);
    let row = g.generate_row(1);
    let good = g.generate_row(1);
    assert!(matches!(op.execute(&row, Ok(vec![good])), Ok(OpFlow::Continue)));
    let r = op.execute(&row, Ok(vec![]));
    assert!(matches!(
        r,
        Err(OperationError::Validation(ValidationError::RowCountMismatch { count: 0 }))
    ));
}

#[test]
fn batch_keys_extracts_partition_keys() {
    let op = read_operation(RowValidator::Equal);
    let g = test_generator(3);
    let rows: Vec<Row> = (0..16).map(|i| g.generate_row(i)).collect();
    let keys = op.batch_keys(&rows);
    assert_eq!(keys.len(), 16);
    for (i, k) in keys.iter().enumerate() {
        assert!(value_eq(k, &rows[i][0]));
    }
}

// --- sharded statistics ---

fn some_events() -> Vec<(usize, OpOutcome, u64)> {
    let mut events = Vec::new();
    for i in 0..200u64 {
        let outcome = if i % 13 == 0 {
            OpOutcome::FailedExecution
        } else if i % 17 == 0 {
            OpOutcome::FailedValidation
        } else {
            OpOutcome::Success { rows: 1 + i % 3 }
        };
        events.push(((i % 4) as usize, outcome, i * 37 % 5000));
    }
    events
}

#[test]
fn sharded_stats_merge_equals_sequential_replay() {
    let events = some_events();
    let mut shards: Vec<StatsShard> = (0..4).map(|_| StatsShard::new()).collect();
    let mut replay = StatsShard::new();
    for (shard, outcome, latency) in &events {
        shards[*shard].record(*outcome, *latency);
        replay.record(*outcome, *latency);
    }
    let merged = merge(&shards);
    assert_eq!(merged.attempted, replay.attempted);
    assert_eq!(merged.succeeded, replay.succeeded);
    assert_eq!(merged.failed_execution, replay.failed_execution);
    assert_eq!(merged.failed_validation, replay.failed_validation);
    assert_eq!(merged.rows_processed, replay.rows_processed);
    assert_eq!(merged.latency_buckets, replay.latency_buckets);
}

#[test]
fn merge_is_commutative_on_values() {
    let events = some_events();
    let mut a = StatsShard::new();
    let mut b = StatsShard::new();
    for (shard, outcome, latency) in &events {
        if *shard == 0 {
            a.record(*outcome, *latency);
        } else {
            b.record(*outcome, *latency);
        }
    }
    let ab = merge(&vec![
        merge(&vec![a, StatsShard::new()]),
        merge(&vec![b, StatsShard::new()]),
    ]);
    let events = some_events();
    let mut a2 = StatsShard::new();
    let mut b2 = StatsShard::new();
    for (shard, outcome, latency) in &events {
        if *shard == 0 {
            a2.record(*outcome, *latency);
        } else {
            b2.record(*outcome, *latency);
        }
    }
    let ba = merge(&vec![b2, a2]);
    assert_eq!(ab.attempted, ba.attempted);
    assert_eq!(ab.latency_buckets, ba.latency_buckets);
}

#[test]
fn latency_buckets_by_bit_length() {
    assert_eq!(bucket_of(0), 0);
    assert_eq!(bucket_of(1), 1);
    assert_eq!(bucket_of(2), 2);
    assert_eq!(bucket_of(3), 2);
    assert_eq!(bucket_of(1000), 10);
    assert_eq!(bucket_of(u64::MAX), 64);
}

#[test]
fn latency_percentiles_from_buckets() {
    let mut s = StatsShard::new();
    for _ in 0..50 {
        s.record(OpOutcome::Success { rows: 1 }, 0);
    }
    for _ in 0..50 {
        s.record(OpOutcome::Success { rows: 1 }, 1000);
    }
    assert_eq!(s.latency_percentile(50), 0);
    assert_eq!(s.latency_percentile(51), 10);
    assert_eq!(s.latency_percentile(100), 10);
}

#[test]
fn outcome_classification() {
    let ok: Result<u32, OperationError> = Ok(1);
    assert_eq!(outcome_of(&ok, 3), OpOutcome::Success { rows: 3 });
    let ex: Result<u32, OperationError> = Err(OperationError::Execution(ExecutionError {
        detail: "timeout".to_string(),
    }));
    assert_eq!(outcome_of(&ex, 0), OpOutcome::FailedExecution);
    let va: Result<u32, OperationError> =
        Err(OperationError::Validation(ValidationError::RowMissing));
    assert_eq!(outcome_of(&va, 0), OpOutcome::FailedValidation);
}

// --- run control ---

#[test]
fn signal_is_monotonic() {
    assert_eq!(signal_join(RunSignal::Running, RunSignal::Stopped), RunSignal::Stopped);
    assert_eq!(signal_join(RunSignal::Stopped, RunSignal::Running), RunSignal::Stopped);
    assert_eq!(signal_join(RunSignal::Stopped, RunSignal::Aborted), RunSignal::Aborted);
    assert_eq!(signal_join(RunSignal::Aborted, RunSignal::Running), RunSignal::Aborted);
    assert_eq!(signal_join(RunSignal::Aborted, RunSignal::Stopped), RunSignal::Aborted);
    assert_eq!(signal_join(RunSignal::Running, RunSignal::Running), RunSignal::Running);
}

#[test]
fn worker_stops_within_one_step_of_stop_signal() {
    for state in [WorkerState::Idle, WorkerState::Running] {
        for next in [Some(5u64), None] {
            let (s, ix) = worker_step(state, RunSignal::Stopped, next);
            assert_eq!(s, WorkerState::Stopped);
            assert_eq!(ix, None);
            let (s, ix) = worker_step(state, RunSignal::Aborted, next);
            assert_eq!(s, WorkerState::Aborted);
            assert_eq!(ix, None);
        }
    }
}

#[test]
fn operation_mix_cycles_in_order() {
    let mut settings = test_settings();
    settings.mix = vec![
        OperationKind::Read,
        OperationKind::Read,
        OperationKind::Write,
    ];
    assert_eq!(settings.kind_of_operation(0), OperationKind::Read);
    assert_eq!(settings.kind_of_operation(1), OperationKind::Read);
    assert_eq!(settings.kind_of_operation(2), OperationKind::Write);
    assert_eq!(settings.kind_of_operation(3), OperationKind::Read);
    assert_eq!(settings.kind_of_operation(5), OperationKind::Write);
}

#[test]
fn stop_conditions() {
    let by_count = StopCondition::OperationCount { count: 10 };
    assert!(!stop_met(&by_count, 9, 0));
    assert!(stop_met(&by_count, 10, 0));
    let by_time = StopCondition::Duration { millis: 60_000 };
    assert!(!stop_met(&by_time, 1_000_000, 59_999));
    assert!(stop_met(&by_time, 0, 60_000));
}

#[test]
fn abort_policy_is_centralized() {
    let default_policy = AbortPolicy::default();
    assert!(!outcome_fatal(default_policy, OpOutcome::FailedExecution));
    assert!(!outcome_fatal(default_policy, OpOutcome::FailedValidation));
    let strict = AbortPolicy { on_execution_error: false, on_validation_error: true };
    assert!(outcome_fatal(strict, OpOutcome::FailedValidation));
    assert!(!outcome_fatal(strict, OpOutcome::FailedExecution));
    assert_eq!(
        control_update(RunSignal::Running, false, true),
        RunSignal::Aborted
    );
    assert_eq!(
        control_update(RunSignal::Running, true, false),
        RunSignal::Stopped
    );
    assert_eq!(
        control_update(RunSignal::Running, false, false),
        RunSignal::Running
    );
}

#[test]
fn cursor_hands_out_each_index_once() {
    let mut c = Cursor::new(3);
    assert_eq!(c.next_index(), Some(0));
    assert_eq!(c.next_index(), Some(1));
    assert_eq!(c.next_index(), Some(2));
    assert_eq!(c.next_index(), None);
    assert_eq!(c.next_index(), None);
}

#[test]
fn partition_blocks_cover_without_overlap() {
    let total = 10u64;
    let workers = 4u64;
    let starts: Vec<u64> = (0..=workers).map(|w| partition_start(total, workers, w)).collect();
    assert_eq!(starts, vec![0, 3, 6, 8, 10]);
    // adjacent blocks: every index in [0, total) falls in exactly one block
    for w in 0..workers as usize {
        assert!(starts[w] <= starts[w + 1]);
    }
}

// --- end-to-end scenarios ---

/// Runs a pool of 4 workers to the configured stop condition against a
/// simulated database that returns `reply_for(i)` for the i-th operation,
/// and returns the final shards.
fn simulate_run(
    reply_for: impl Fn(u64) -> Result<Vec<Row>, ExecutionError>,
) -> Vec<StatsShard> {
    let settings = test_settings();
    let factory =
        GenericReadOperationFactory::new(&settings, "keyspace1.standard1", RowValidator::Equal);
    let generator = test_generator(settings.seed);
    let index_dist = Sampler::new(Distribution::Uniform { min: 0, max: 999 }, settings.seed);
    let workers = settings.concurrency as u64;

    let ops: Vec<_> = (0..workers).map(|_| factory.create()).collect();
    let mut shards: Vec<StatsShard> = (0..workers).map(|_| StatsShard::new()).collect();
    let mut states: Vec<WorkerState> = (0..workers).map(|_| WorkerState::Idle).collect();
    let mut cursor = Cursor::new(u64::MAX);
    let mut signal = RunSignal::Running;
    let mut ops_done = 0u64;

    // round-robin the workers; each takes the next logical index, executes,
    // records into its own shard, then checks the signal
    let mut w = 0usize;
    loop {
        let (state, index) = worker_step(states[w], signal, cursor.next_index());
        states[w] = state;
        match index {
            None => {
                if states.iter().all(|s| {
                    matches!(s, WorkerState::Stopped | WorkerState::Aborted)
                }) {
                    break;
                }
            }
            Some(i) => {
                let logical = index_dist.sample(i);
                let row = ops[w].generate_row(&generator, logical);
                let result = ops[w].execute(&row, reply_for(i));
                let rows_returned = if result.is_ok() { 1 } else { 0 };
                let outcome = outcome_of(&result, rows_returned);
                shards[w].record(outcome, 100 + i % 64);
                ops_done += 1;
                let fatal = outcome_fatal(AbortPolicy::default(), outcome);
                signal = control_update(signal, stop_met(&settings.stop, ops_done, 0), fatal);
            }
        }
        w = (w + 1) % workers as usize;
    }
    shards
}

#[test]
fn run_of_1000_operations_counts_each_exactly_once() {
    let settings = test_settings();
    let generator = test_generator(settings.seed);
    let index_dist = Sampler::new(Distribution::Uniform { min: 0, max: 999 }, settings.seed);
    let shards = simulate_run(|i| {
        let logical = index_dist.sample(i);
        Ok(vec![generator.generate_row(logical)])
    });
    let merged = merge(&shards);
    assert_eq!(merged.attempted, 1000);
    assert_eq!(merged.succeeded, 1000);
    let sum: u64 = shards.iter().map(|s| s.attempted).sum();
    assert_eq!(sum, 1000);
}

#[test]
fn one_execution_error_does_not_stop_the_pool() {
    let settings = test_settings();
    let generator = test_generator(settings.seed);
    let index_dist = Sampler::new(Distribution::Uniform { min: 0, max: 999 }, settings.seed);
    let shards = simulate_run(|i| {
        if i == 500 {
            Err(ExecutionError { detail: "node down".to_string() })
        } else {
            let logical = index_dist.sample(i);
            Ok(vec![generator.generate_row(logical)])
        }
    });
    let merged = merge(&shards);
    assert_eq!(merged.attempted, 1000);
    assert_eq!(merged.failed_execution, 1);
    assert_eq!(merged.succeeded, 999);
}

#[test]
fn batched_undercount_reports_but_does_not_abort() {
    let op = read_operation(RowValidator::Equal);
    let g = test_generator(9);
    let batch: Vec<Row> = (0..16).map(|i| g.generate_row(i)).collect();
    // the database only has 15 of the 16 keys
    let reply: Vec<Row> = (0..15).map(|i| g.generate_row(i)).collect();
    let r = op.execute_in(&batch, Ok(reply));
    match r {
        Ok((OpFlow::Continue, Some(ValidationError::UnexpectedRowCount { expected, actual }))) => {
            assert_eq!(expected, 16);
            assert_eq!(actual, 15);
        }
        other => panic!("expected a reported mismatch, got ok={}", other.is_ok()),
    }
    // the worker proceeds: the next, complete batch passes with no report
    let full: Vec<Row> = (0..16).map(|i| g.generate_row(i)).collect();
    let r2 = op.execute_in(&batch, Ok(full));
    assert!(matches!(r2, Ok((OpFlow::Continue, None))));
}
