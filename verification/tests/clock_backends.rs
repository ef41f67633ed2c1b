use gql_tracing::clock::{duration_nanos, Clock, Timestamp};
use gql_tracing::scalars::{ScalarValue, ZonedDateTime};
use gql_tracing::trace::{ApolloTracing, FieldRecord, Phase};

fn ts(nanos: i128) -> Timestamp {
    Timestamp { nanos }
}

fn record(name: &str, start: i128, end: i128, offset: i64) -> FieldRecord {
    FieldRecord {
        path: vec![name.to_string()],
        field_name: name.to_string(),
        parent_type: "Query".to_string(),
        return_type: "Int!".to_string(),
        start_time: ts(start),
        end_time: ts(end),
        start_offset: offset,
    }
}

#[test]
fn both_backends_render_the_epoch() {
    let epoch = ts(0);
    assert_eq!(Clock::Jiff.to_rfc3339(&epoch), "1970-01-01T00:00:00Z");
    assert_eq!(Clock::Chrono.to_rfc3339(&epoch), "1970-01-01T00:00:00+00:00");
}

#[test]
fn both_backends_render_the_same_instant() {
    // 2024-01-15T10:30:00Z as nanoseconds since the epoch.
    let instant = ts(1_705_314_600_000_000_000);
    assert_eq!(Clock::Jiff.to_rfc3339(&instant), "2024-01-15T10:30:00Z");
    assert_eq!(Clock::Chrono.to_rfc3339(&instant), "2024-01-15T10:30:00+00:00");
}

#[test]
fn swapping_backend_keeps_report_shape() {
    let mut reports = Vec::new();
    for clock in [Clock::Jiff, Clock::Chrono] {
        let factory = ApolloTracing::new(clock);
        let mut inner = factory.create();
        inner.begin_execute(ts(0));
        inner.finish_resolve(record("b", 2_000, 3_000, 2_000));
        inner.finish_resolve(record("a", 1_000, 2_500, 1_000));
        reports.push(inner.finish_execute(ts(5_000)));
    }
    let (jiff_report, chrono_report) = (&reports[0], &reports[1]);
    // Everything but the rendered time strings is identical.
    assert_eq!(jiff_report.version, chrono_report.version);
    assert_eq!(jiff_report.duration, chrono_report.duration);
    assert_eq!(jiff_report.resolvers.len(), chrono_report.resolvers.len());
    for (e1, e2) in jiff_report.resolvers.iter().zip(chrono_report.resolvers.iter()) {
        assert_eq!(e1.path, e2.path);
        assert_eq!(e1.field_name, e2.field_name);
        assert_eq!(e1.parent_type, e2.parent_type);
        assert_eq!(e1.return_type, e2.return_type);
        assert_eq!(e1.start_offset, e2.start_offset);
        assert_eq!(e1.duration, e2.duration);
    }
    // Both render some string for the bounds; only its precision differs.
    assert!(!jiff_report.start_time.is_empty());
    assert!(!chrono_report.start_time.is_empty());
}

#[test]
fn live_clocks_give_usable_timestamps() {
    for clock in [Clock::Jiff, Clock::Chrono] {
        let factory = ApolloTracing::new(clock);
        let mut inner = factory.create();
        let start = clock.now();
        inner.begin_execute(start);
        let end = clock.now();
        let report = inner.finish_execute(end);
        assert_eq!(inner.phase, Phase::Completed);
        assert_eq!(report.version, 1);
        let d = report.duration.unwrap();
        assert!(d >= 0);
        if end.nanos >= start.nanos {
            assert_eq!(Some(d), duration_nanos(&start, &end));
        }
    }
}

#[test]
fn rendered_instants_parse_back() {
    // A rendered bound parses back to the instant it was rendered from,
    // whichever backend rendered it.
    let instant = ts(1_705_314_600_123_456_789);
    for clock in [Clock::Jiff, Clock::Chrono] {
        let rendered = clock.to_rfc3339(&instant);
        let parsed = ZonedDateTime::parse(ScalarValue::Str(rendered)).unwrap();
        assert_eq!(parsed.timestamp.nanos, instant.nanos);
    }
}

#[test]
fn regressed_clock_still_reports() {
    // The end reading precedes the start: the interval degrades to
    // empty, but a report is still produced, never dropped.
    let factory = ApolloTracing::new(Clock::Jiff);
    let mut inner = factory.create();
    inner.begin_execute(ts(5_000));
    inner.finish_resolve(FieldRecord {
        path: vec!["a".to_string()],
        field_name: "a".to_string(),
        parent_type: "Query".to_string(),
        return_type: "Int!".to_string(),
        start_time: ts(5_100),
        end_time: ts(5_200),
        start_offset: 100,
    });
    let report = inner.finish_execute(ts(4_000));
    assert_eq!(report.version, 1);
    assert_eq!(report.duration, Some(0));
    assert_eq!(report.resolvers.len(), 1);
    assert_eq!(inner.end_time.nanos, 5_000);
}
