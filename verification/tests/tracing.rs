use gql_tracing::clock::{duration_nanos, Clock, Timestamp, TS_MAX_NANOS, TS_MIN_NANOS};
use gql_tracing::trace::{resolve_outcome, ApolloTracing, FieldRecord, HookOutcome, Phase, Inner};

fn ts(nanos: i128) -> Timestamp {
    Timestamp { nanos }
}

fn record(name: &str, start: i128, end: i128, offset: i64) -> FieldRecord {
    FieldRecord {
        path: vec![name.to_string()],
        field_name: name.to_string(),
        parent_type: "Query".to_string(),
        return_type: "String!".to_string(),
        start_time: ts(start),
        end_time: ts(end),
        start_offset: offset,
    }
}

fn started_operation(clock: Clock, start_nanos: i128) -> Inner {
    let factory = ApolloTracing::new(clock);
    let mut inner = factory.create();
    assert_eq!(inner.phase, Phase::Uninitialized);
    inner.begin_execute(ts(start_nanos));
    assert_eq!(inner.phase, Phase::ExecutingOperation);
    inner
}

#[test]
fn report_sorted_by_start_offset() {
    let mut inner = started_operation(Clock::Jiff, 0);
    for (name, offset) in [("c", 5_000), ("a", 1_000), ("b", 3_000)] {
        let off = inner.field_start_offset(ts(offset as i128));
        assert_eq!(off, offset);
        inner.finish_resolve(record(name, offset as i128, offset as i128 + 100, off));
    }
    let report = inner.finish_execute(ts(10_000));
    assert_eq!(inner.phase, Phase::Completed);
    let offsets: Vec<i64> = report.resolvers.iter().map(|r| r.start_offset).collect();
    assert_eq!(offsets, vec![1_000, 3_000, 5_000]);
    let names: Vec<&str> = report.resolvers.iter().map(|r| r.field_name.as_str()).collect();
    assert_eq!(names, vec!["a", "b", "c"]);
    assert_eq!(report.version, 1);
    assert_eq!(report.duration, Some(10_000));
}

#[test]
fn record_duration_is_end_minus_start() {
    let mut inner = started_operation(Clock::Jiff, 0);
    inner.finish_resolve(record("a", 2_000, 9_500, 2_000));
    let report = inner.finish_execute(ts(20_000));
    assert_eq!(report.resolvers.len(), 1);
    assert_eq!(report.resolvers[0].duration, Some(7_500));
}

#[test]
fn operation_duration_bounds_every_record() {
    let mut inner = started_operation(Clock::Jiff, 0);
    inner.finish_resolve(record("a", 0, 10_000_000, 0));
    inner.finish_resolve(record("b", 1_000_000, 6_000_000, 1_000_000));
    let report = inner.finish_execute(ts(10_500_000));
    let op = report.duration.unwrap();
    for entry in &report.resolvers {
        let d = entry.duration.unwrap();
        assert!(op >= entry.start_offset + d);
    }
}

#[test]
fn concurrent_example_two_fields() {
    // Fields `a` (10 ms, offset 0) and `b` (5 ms, offset 1 ms) overlap;
    // completion order is b first, then a.
    let mut inner = started_operation(Clock::Jiff, 0);
    let off_a = inner.field_start_offset(ts(0));
    let off_b = inner.field_start_offset(ts(1_000_000));
    // b completes first and is appended first.
    inner.finish_resolve(record("b", 1_000_000, 6_000_000, off_b));
    inner.finish_resolve(record("a", 0, 10_000_000, off_a));
    let report = inner.finish_execute(ts(10_500_000));
    assert_eq!(report.resolvers.len(), 2);
    assert_eq!(report.resolvers[0].field_name, "a");
    assert_eq!(report.resolvers[0].start_offset, 0);
    assert_eq!(report.resolvers[0].duration, Some(10_000_000));
    assert_eq!(report.resolvers[1].field_name, "b");
    assert_eq!(report.resolvers[1].start_offset, 1_000_000);
    assert_eq!(report.resolvers[1].duration, Some(5_000_000));
    let op = report.duration.unwrap();
    assert!((10_000_000..=11_000_000).contains(&op));
}

#[test]
fn completion_order_does_not_change_report() {
    let recs = [
        record("a", 1_000, 2_000, 1_000),
        record("b", 3_000, 4_000, 3_000),
        record("c", 5_000, 6_000, 5_000),
    ];
    let mut first = started_operation(Clock::Jiff, 0);
    for r in [&recs[2], &recs[0], &recs[1]] {
        first.finish_resolve(clone_record(r));
    }
    let mut second = started_operation(Clock::Jiff, 0);
    for r in [&recs[1], &recs[2], &recs[0]] {
        second.finish_resolve(clone_record(r));
    }
    let rep1 = first.finish_execute(ts(10_000));
    let rep2 = second.finish_execute(ts(10_000));
    assert_eq!(rep1.resolvers.len(), 3);
    assert_eq!(rep1.resolvers.len(), rep2.resolvers.len());
    for (e1, e2) in rep1.resolvers.iter().zip(rep2.resolvers.iter()) {
        assert_eq!(e1.field_name, e2.field_name);
        assert_eq!(e1.path, e2.path);
        assert_eq!(e1.parent_type, e2.parent_type);
        assert_eq!(e1.return_type, e2.return_type);
        assert_eq!(e1.start_offset, e2.start_offset);
        assert_eq!(e1.duration, e2.duration);
    }
}

fn clone_record(r: &FieldRecord) -> FieldRecord {
    FieldRecord {
        path: r.path.clone(),
        field_name: r.field_name.clone(),
        parent_type: r.parent_type.clone(),
        return_type: r.return_type.clone(),
        start_time: r.start_time,
        end_time: r.end_time,
        start_offset: r.start_offset,
    }
}

#[test]
fn equal_offsets_keep_insertion_order() {
    let mut inner = started_operation(Clock::Jiff, 0);
    for name in ["first", "second", "third"] {
        inner.finish_resolve(record(name, 1_000, 2_000, 1_000));
    }
    let report = inner.finish_execute(ts(10_000));
    let names: Vec<&str> = report.resolvers.iter().map(|r| r.field_name.as_str()).collect();
    assert_eq!(names, vec!["first", "second", "third"]);
}

#[test]
fn failed_outcome_propagates_unchanged() {
    let mut inner = started_operation(Clock::Jiff, 0);
    inner.finish_resolve(record("a", 1_000, 2_000, 1_000));
    let outcome: Result<&str, &str> = Err("resolver blew up");
    let (result, report) = inner.finish_execute_with(ts(5_000), outcome);
    assert_eq!(result, Err("resolver blew up"));
    // The trace is still built beside the failure, never in place of it.
    assert_eq!(report.version, 1);
    assert_eq!(report.resolvers.len(), 1);
}

#[test]
fn successful_outcome_propagates_unchanged() {
    let mut inner = started_operation(Clock::Jiff, 0);
    let outcome: Result<&str, &str> = Ok("data");
    let (result, _) = inner.finish_execute_with(ts(5_000), outcome);
    assert_eq!(result, Ok("data"));
}

#[test]
fn operations_do_not_cross_contaminate() {
    let factory = ApolloTracing::new(Clock::Jiff);
    let mut op_a = factory.create();
    let mut op_b = factory.create();
    op_a.begin_execute(ts(0));
    op_b.begin_execute(ts(50));
    // Interleave resolutions of the two operations.
    op_a.finish_resolve(record("a1", 100, 200, 100));
    op_b.finish_resolve(record("b1", 150, 250, 100));
    op_a.finish_resolve(record("a2", 300, 400, 300));
    op_b.finish_resolve(record("b2", 350, 450, 300));
    let rep_a = op_a.finish_execute(ts(1_000));
    let rep_b = op_b.finish_execute(ts(1_000));
    let names_a: Vec<&str> = rep_a.resolvers.iter().map(|r| r.field_name.as_str()).collect();
    let names_b: Vec<&str> = rep_b.resolvers.iter().map(|r| r.field_name.as_str()).collect();
    assert_eq!(names_a, vec!["a1", "a2"]);
    assert_eq!(names_b, vec!["b1", "b2"]);
}

#[test]
fn offset_degrades_to_zero_not_negative() {
    let inner = started_operation(Clock::Jiff, 5_000);
    // Clock stepped backwards: field start precedes operation start.
    assert_eq!(inner.field_start_offset(ts(4_000)), 0);
}

#[test]
fn offset_degrades_to_zero_on_overflow() {
    let inner = started_operation(Clock::Jiff, TS_MIN_NANOS);
    // The distance exceeds what a 64-bit count can hold.
    assert_eq!(inner.field_start_offset(ts(TS_MAX_NANOS)), 0);
}

#[test]
fn operation_duration_null_on_overflow() {
    let mut inner = started_operation(Clock::Jiff, TS_MIN_NANOS);
    inner.finish_resolve(record("a", 0, 1, 0));
    let report = inner.finish_execute(ts(TS_MAX_NANOS));
    assert_eq!(report.duration, None);
    // Missing timing degrades to a null field; the record itself stays.
    assert_eq!(report.resolvers.len(), 1);
}

#[test]
fn duration_nanos_exact_and_absent() {
    assert_eq!(duration_nanos(&ts(10), &ts(75)), Some(65));
    assert_eq!(duration_nanos(&ts(75), &ts(10)), Some(-65));
    assert_eq!(duration_nanos(&ts(TS_MIN_NANOS), &ts(TS_MAX_NANOS)), None);
}

#[test]
fn timestamp_from_nanos_checks_range() {
    assert_eq!(Timestamp::from_nanos(42).map(|t| t.nanos), Some(42));
    assert!(Timestamp::from_nanos(TS_MAX_NANOS + 1).is_none());
    assert!(Timestamp::from_nanos(TS_MIN_NANOS - 1).is_none());
}

#[test]
fn operation_without_fields_still_reports() {
    let mut inner = started_operation(Clock::Jiff, 100);
    let report = inner.finish_execute(ts(400));
    assert_eq!(report.version, 1);
    assert_eq!(report.duration, Some(300));
    assert!(report.resolvers.is_empty());
}

#[test]
fn short_circuit_outcome_wins() {
    assert_eq!(resolve_outcome(HookOutcome::Proceed, 7), 7);
    assert_eq!(resolve_outcome(HookOutcome::ShortCircuit(3), 7), 3);
}
