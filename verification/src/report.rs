//! The versioned trace report attached to a response.
//!
//! The report's shape is fixed by these types: whichever clock backend
//! produced the timestamps, a report holds the same fields, and the wire
//! keys under which a host serializes them (`version`, `startTime`,
//! `endTime`, `duration`, `execution`, `resolvers`, `path`, `fieldName`,
//! `parentType`, `returnType`, `startOffset`) never vary. Only the numeric
//! values and time strings depend on the backend.

use vstd::prelude::*;
use crate::clock::{Clock, Timestamp, duration_nanos, duration_nanos_spec, rfc3339_spec};
use crate::trace::{
    FieldRecord, lemma_sort_deterministic_order, offset_spec, sort_by_offset, sorted_by_offset,
};

verus! {

/// Mathematical content of one resolver entry.
pub ghost struct ResolverEntryV {
    pub path: Seq<Seq<char>>,
    pub field_name: Seq<char>,
    pub parent_type: Seq<char>,
    pub return_type: Seq<char>,
    pub start_offset: i64,
    pub duration: Option<i64>,
}

/// One entry of the report's `resolvers` list: the field's identity and
/// its timing, with `duration` absent when it was not representable.
pub struct ResolverEntry {
    pub path: Vec<String>,
    pub field_name: String,
    pub parent_type: String,
    pub return_type: String,
    pub start_offset: i64,
    pub duration: Option<i64>,
}

impl View for ResolverEntry {
    type V = ResolverEntryV;

    open spec fn view(&self) -> ResolverEntryV {
        ResolverEntryV {
            path: self.path.deep_view(),
            field_name: self.field_name@,
            parent_type: self.parent_type@,
            return_type: self.return_type@,
            start_offset: self.start_offset,
            duration: self.duration,
        }
    }
}

/// Mathematical content of a report.
pub ghost struct TraceReportV {
    pub version: int,
    pub start_time: Seq<char>,
    pub end_time: Seq<char>,
    pub duration: Option<i64>,
    pub resolvers: Seq<ResolverEntryV>,
}

/// The versioned report: operation bounds as the backend's RFC 3339
/// strings, the operation duration (absent when unrepresentable), and the
/// resolver entries sorted ascending by `start_offset`.
pub struct TraceReport {
    pub version: u32,
    pub start_time: String,
    pub end_time: String,
    pub duration: Option<i64>,
    pub resolvers: Vec<ResolverEntry>,
}

impl View for TraceReport {
    type V = TraceReportV;

    open spec fn view(&self) -> TraceReportV {
        TraceReportV {
            version: self.version as int,
            start_time: self.start_time@,
            end_time: self.end_time@,
            duration: self.duration,
            resolvers: self.resolvers.deep_view(),
        }
    }
}

impl DeepView for ResolverEntry {
    type V = ResolverEntryV;

    open spec fn deep_view(&self) -> ResolverEntryV {
        self.view()
    }
}

/// The resolver entry a record yields: its identity fields unchanged and
/// its duration computed from its own start and end instants.
pub open spec fn entry_v_of(rec: FieldRecord) -> ResolverEntryV {
    ResolverEntryV {
        path: rec.path.deep_view(),
        field_name: rec.field_name@,
        parent_type: rec.parent_type@,
        return_type: rec.return_type@,
        start_offset: rec.start_offset,
        duration: duration_nanos_spec(rec.start_time, rec.end_time),
    }
}

/// The report an operation yields: version 1, the clock's rendering of
/// the operation bounds, the operation duration, and one entry per record
/// in the order given.
pub open spec fn report_v(
    clock: Clock,
    start: Timestamp,
    end: Timestamp,
    records: Seq<FieldRecord>,
) -> TraceReportV {
    TraceReportV {
        version: 1,
        start_time: rfc3339_spec(clock, start.nanos as int),
        end_time: rfc3339_spec(clock, end.nanos as int),
        duration: duration_nanos_spec(start, end),
        resolvers: records.map_values(|r: FieldRecord| entry_v_of(r)),
    }
}

fn clone_path(path: &Vec<String>) -> (r: Vec<String>)
    ensures
        r@ == path@,
{
    let mut out: Vec<String> = Vec::new();
    let mut i: usize = 0;
    while i < path.len()
        invariant
            0 <= i <= path@.len(),
            out@ == path@.subrange(0, i as int),
        decreases path@.len() - i,
    {
        out.push(path[i].clone());
        proof {
            assert(path@.subrange(0, i as int + 1)
                =~= path@.subrange(0, i as int).push(path@[i as int]));
        }
        i = i + 1;
    }
    proof {
        assert(path@.subrange(0, path@.len() as int) =~= path@);
    }
    out
}

fn entry_of(rec: &FieldRecord) -> (r: ResolverEntry)
    requires
        rec.well_formed(),
    ensures
        r@ == entry_v_of(*rec),
{
    let duration = duration_nanos(&rec.start_time, &rec.end_time);
    let r = ResolverEntry {
        path: clone_path(&rec.path),
        field_name: rec.field_name.clone(),
        parent_type: rec.parent_type.clone(),
        return_type: rec.return_type.clone(),
        start_offset: rec.start_offset,
        duration,
    };
    proof {
        assert(r.path.deep_view() =~= rec.path.deep_view());
        assert(r@ =~= entry_v_of(*rec));
    }
    r
}

/// Builds the report for an operation that started at `start`, ended at
/// `end`, and collected `records`, rendering the bounds with `clock`.
pub fn build_report(
    clock: &Clock,
    start: &Timestamp,
    end: &Timestamp,
    records: &Vec<FieldRecord>,
) -> (r: TraceReport)
    requires
        start.well_formed(),
        end.well_formed(),
        forall|i: int| 0 <= i < records@.len() ==> #[trigger] records@[i].well_formed(),
    ensures
        r@ == report_v(*clock, *start, *end, records@),
{
    let mut resolvers: Vec<ResolverEntry> = Vec::new();
    let mut i: usize = 0;
    while i < records.len()
        invariant
            0 <= i <= records@.len(),
            forall|k: int| 0 <= k < records@.len() ==> #[trigger] records@[k].well_formed(),
            resolvers@.len() == i,
            forall|k: int| 0 <= k < i
                ==> #[trigger] resolvers@[k]@ == entry_v_of(records@[k]),
        decreases records@.len() - i,
    {
        let entry = entry_of(&records[i]);
        resolvers.push(entry);
        i = i + 1;
    }
    proof {
        assert(resolvers.deep_view()
            =~= records@.map_values(|r: FieldRecord| entry_v_of(r)));
    }
    let report = TraceReport {
        version: 1,
        start_time: clock.to_rfc3339(start),
        end_time: clock.to_rfc3339(end),
        duration: duration_nanos(start, end),
        resolvers,
    };
    report
}

/// Every entry's `duration`, when present, is exactly the nanosecond
/// distance from that record's start instant to its end instant, as the
/// active clock backend measures it.
pub proof fn lemma_entry_duration_exact(rec: FieldRecord)
    ensures
        entry_v_of(rec).duration == duration_nanos_spec(rec.start_time, rec.end_time),
        (rec.start_time.nanos <= rec.end_time.nanos && entry_v_of(rec).duration is Some)
            ==> entry_v_of(rec).duration->0 as int
                == rec.end_time.nanos as int - rec.start_time.nanos as int,
{
}

/// A sorted record sequence yields a report whose `resolvers` list is
/// sorted ascending by `startOffset`.
pub proof fn lemma_report_resolvers_sorted(
    clock: Clock,
    start: Timestamp,
    end: Timestamp,
    records: Seq<FieldRecord>,
)
    requires
        sorted_by_offset(records),
    ensures
        forall|i: int, j: int|
            0 <= i < j < report_v(clock, start, end, records).resolvers.len()
                ==> report_v(clock, start, end, records).resolvers[i].start_offset
                    <= report_v(clock, start, end, records).resolvers[j].start_offset,
{
    let rs = report_v(clock, start, end, records).resolvers;
    assert forall|i: int, j: int| 0 <= i < j < rs.len() implies
        rs[i].start_offset <= rs[j].start_offset by {
        assert(rs[i] == entry_v_of(records[i]));
        assert(rs[j] == entry_v_of(records[j]));
    }
}

/// Swapping the clock backend changes only how the operation bounds are
/// rendered as strings: the version, the operation duration, and every
/// resolver entry are identical between backends.
pub proof fn lemma_backend_changes_only_rendering(
    c1: Clock,
    c2: Clock,
    start: Timestamp,
    end: Timestamp,
    records: Seq<FieldRecord>,
)
    ensures
        report_v(c1, start, end, records).version
            == report_v(c2, start, end, records).version,
        report_v(c1, start, end, records).duration
            == report_v(c2, start, end, records).duration,
        report_v(c1, start, end, records).resolvers
            == report_v(c2, start, end, records).resolvers,
{
}

/// An operation that recorded any number of resolutions — concurrent
/// siblings included, whatever order they completed and were appended in
/// — reports exactly that many entries, and every recorded resolution
/// appears among them with its fields verbatim.
pub proof fn lemma_report_accounts_for_every_record(
    clock: Clock,
    start: Timestamp,
    end: Timestamp,
    records: Seq<FieldRecord>,
)
    ensures
        report_v(clock, start, end, sort_by_offset(records)).resolvers.len()
            == records.len(),
        forall|i: int| 0 <= i < records.len()
            ==> report_v(clock, start, end, sort_by_offset(records)).resolvers.contains(
                #[trigger] entry_v_of(records[i]),
            ),
{
    broadcast use vstd::seq_lib::group_to_multiset_ensures;

    lemma_sort_deterministic_order(records);
    let sorted = sort_by_offset(records);
    let rs = report_v(clock, start, end, sorted).resolvers;
    assert forall|i: int| 0 <= i < records.len() implies
        rs.contains(#[trigger] entry_v_of(records[i])) by {
        assert(records.to_multiset().count(records[i]) > 0);
        assert(sorted.to_multiset().count(records[i]) > 0);
        assert(sorted.contains(records[i]));
        let j = choose|j: int| 0 <= j < sorted.len() && sorted[j] == records[i];
        assert(rs[j] == entry_v_of(records[i]));
    }
}

/// When the clock never steps backwards across the operation — it starts
/// no later than any field and ends no earlier than any field — the
/// operation duration, when present, is at least every entry's
/// `startOffset + duration` with a present duration.
pub proof fn lemma_operation_duration_bound(
    clock: Clock,
    start: Timestamp,
    end: Timestamp,
    records: Seq<FieldRecord>,
)
    requires
        forall|i: int| 0 <= i < records.len()
            ==> start.nanos <= #[trigger] records[i].start_time.nanos,
        forall|i: int| 0 <= i < records.len()
            ==> #[trigger] records[i].end_time.nanos <= end.nanos,
        forall|i: int| 0 <= i < records.len()
            ==> #[trigger] records[i].start_offset
                == offset_spec(start, records[i].start_time),
    ensures
        report_v(clock, start, end, records).duration is Some
            ==> forall|i: int|
                0 <= i < records.len()
                    && #[trigger] report_v(clock, start, end, records).resolvers[i].duration
                        is Some
                    ==> report_v(clock, start, end, records).duration->0 as int
                        >= report_v(clock, start, end, records).resolvers[i].start_offset as int
                            + report_v(clock, start, end, records).resolvers[i].duration->0 as int,
{
    let rv = report_v(clock, start, end, records);
    if rv.duration is Some {
        assert forall|i: int|
            0 <= i < records.len() && #[trigger] rv.resolvers[i].duration is Some
            implies rv.duration->0 as int
                >= rv.resolvers[i].start_offset as int + rv.resolvers[i].duration->0 as int by {
            let rec = records[i];
            assert(rv.resolvers[i] == entry_v_of(rec));
            let op_d = end.nanos as int - start.nanos as int;
            let rec_d = rec.end_time.nanos as int - rec.start_time.nanos as int;
            assert(rv.duration->0 as int == op_d);
            assert(rv.resolvers[i].duration->0 as int == rec_d);
            let off = offset_spec(start, rec.start_time) as int;
            assert(off == rec.start_offset as int);
            assert(off <= rec.start_time.nanos as int - start.nanos as int || off == 0);
            assert(off + rec_d <= op_d);
        }
    }
}

} // verus!
