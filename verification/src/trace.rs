//! Per-operation tracing state and its lifecycle.
//!
//! An operation's trace lives in one [`Inner`] value, created fresh by an
//! [`ApolloTracing`] factory, mutated while the operation's fields resolve,
//! and finalized exactly once into a report. The lifecycle follows the
//! phases uninitialized, executing, completed; a completed trace is never
//! reused, which is the isolation boundary between operations.

use vstd::prelude::*;
use vstd::multiset::Multiset;
use crate::clock::{Clock, Timestamp, duration_nanos, duration_nanos_spec};
use crate::report::{TraceReport, build_report, report_v};

verus! {

/// One completed field resolution: where the field stands in the response
/// tree, its declaring and result type names, and when it ran.
pub struct FieldRecord {
    /// Path segments from the root to the field, already rendered as text.
    pub path: Vec<String>,
    pub field_name: String,
    pub parent_type: String,
    pub return_type: String,
    /// Instant the resolution began.
    pub start_time: Timestamp,
    /// Instant the resolution returned.
    pub end_time: Timestamp,
    /// Nanoseconds from operation start to `start_time`; degraded
    /// readings are clamped to zero, never negative.
    pub start_offset: i64,
}

impl FieldRecord {
    pub open spec fn well_formed(self) -> bool {
        &&& self.start_time.well_formed()
        &&& self.end_time.well_formed()
        &&& self.start_time.nanos <= self.end_time.nanos
        &&& self.start_offset >= 0
    }
}

/// Where an operation stands in its lifecycle.
#[derive(Clone, Copy, Debug, PartialEq, Eq, Structural)]
pub enum Phase {
    Uninitialized,
    ExecutingOperation,
    Completed,
}

/// All records sorted ascending by `start_offset`.
pub open spec fn sorted_by_offset(s: Seq<FieldRecord>) -> bool {
    forall|i: int, j: int|
        0 <= i < j < s.len() ==> s[i].start_offset <= s[j].start_offset
}

/// Inserts `x` after every record whose offset is at most `x`'s, so a
/// record never overtakes an earlier record with an equal offset.
pub open spec fn insert_by_offset(s: Seq<FieldRecord>, x: FieldRecord) -> Seq<FieldRecord>
    decreases s.len(),
{
    if s.len() == 0 {
        seq![x]
    } else if s.last().start_offset <= x.start_offset {
        s.push(x)
    } else {
        insert_by_offset(s.drop_last(), x).push(s.last())
    }
}

/// Stable sort by `start_offset`: each record is inserted in turn, so
/// records with equal offsets keep their insertion order.
pub open spec fn sort_by_offset(s: Seq<FieldRecord>) -> Seq<FieldRecord>
    decreases s.len(),
{
    if s.len() == 0 {
        Seq::empty()
    } else {
        insert_by_offset(sort_by_offset(s.drop_last()), s.last())
    }
}

proof fn lemma_insert_sorted(s: Seq<FieldRecord>, x: FieldRecord)
    requires
        sorted_by_offset(s),
    ensures
        sorted_by_offset(insert_by_offset(s, x)),
        insert_by_offset(s, x).len() == s.len() + 1,
        insert_by_offset(s, x).to_multiset() == s.to_multiset().insert(x),
    decreases s.len(),
{
    broadcast use vstd::seq_lib::group_to_multiset_ensures;

    if s.len() == 0 {
        assert(seq![x] =~= Seq::empty().push(x));
        assert(Seq::<FieldRecord>::empty().to_multiset() =~= Multiset::empty());
    } else if s.last().start_offset <= x.start_offset {
        assert(forall|i: int| 0 <= i < s.len()
            ==> s[i].start_offset <= s.last().start_offset);
    } else {
        assert(sorted_by_offset(s.drop_last()));
        lemma_insert_sorted(s.drop_last(), x);
        let t = insert_by_offset(s.drop_last(), x);
        assert forall|i: int| 0 <= i < t.len() implies
            t[i].start_offset <= s.last().start_offset by {
            assert(t.to_multiset().count(t[i]) > 0);
            if t[i] == x {
            } else {
                assert(s.drop_last().to_multiset().count(t[i]) > 0);
                assert(s.drop_last().contains(t[i]));
            }
        }
        assert(s.drop_last().push(s.last()) =~= s);
        assert(s.drop_last().to_multiset().insert(s.last()) =~= s.to_multiset());
        assert(t.push(s.last()).to_multiset()
            =~= s.to_multiset().insert(x));
    }
}

proof fn lemma_sort_by_offset_ensures(s: Seq<FieldRecord>)
    ensures
        sorted_by_offset(sort_by_offset(s)),
        sort_by_offset(s).len() == s.len(),
        sort_by_offset(s).to_multiset() == s.to_multiset(),
    decreases s.len(),
{
    broadcast use vstd::seq_lib::group_to_multiset_ensures;

    if s.len() == 0 {
    } else {
        lemma_sort_by_offset_ensures(s.drop_last());
        lemma_insert_sorted(sort_by_offset(s.drop_last()), s.last());
        assert(s.drop_last().push(s.last()) =~= s);
        assert(s.drop_last().to_multiset().insert(s.last()) =~= s.to_multiset());
    }
}

/// Sorting emits the records ascending by `start_offset`, keeps their
/// number, and neither invents nor drops a record, whatever order the
/// resolutions completed in.
pub proof fn lemma_sort_deterministic_order(s: Seq<FieldRecord>)
    ensures
        sorted_by_offset(sort_by_offset(s)),
        sort_by_offset(s).len() == s.len(),
        sort_by_offset(s).to_multiset() == s.to_multiset(),
{
    lemma_sort_by_offset_ensures(s);
}

/// Picks the records that carry offset `k`.
pub open spec fn offset_is(k: i64) -> spec_fn(FieldRecord) -> bool {
    |r: FieldRecord| r.start_offset == k
}

proof fn lemma_insert_filter(s: Seq<FieldRecord>, x: FieldRecord, k: i64)
    ensures
        insert_by_offset(s, x).filter(offset_is(k))
            == if x.start_offset == k {
                s.filter(offset_is(k)).push(x)
            } else {
                s.filter(offset_is(k))
            },
    decreases s.len(),
{
    reveal(Seq::filter);
    let pred = offset_is(k);
    if s.len() == 0 {
        assert(seq![x].drop_last() =~= Seq::<FieldRecord>::empty());
        assert(seq![x].drop_last().filter(pred) =~= s.filter(pred));
    } else if s.last().start_offset <= x.start_offset {
        assert(s.push(x).drop_last() =~= s);
    } else {
        lemma_insert_filter(s.drop_last(), x, k);
        let t = insert_by_offset(s.drop_last(), x);
        assert(t.push(s.last()).drop_last() =~= t);
        assert(s.last().start_offset != k || x.start_offset != k);
    }
}

/// The sort never reorders records that share an offset: for every
/// offset value, the records carrying it come out exactly as they went
/// in. With sortedness and the preserved count, this pins the stable
/// tie-break completely.
pub proof fn lemma_sort_stable(s: Seq<FieldRecord>, k: i64)
    ensures
        sort_by_offset(s).filter(offset_is(k)) == s.filter(offset_is(k)),
    decreases s.len(),
{
    reveal(Seq::filter);
    let pred = offset_is(k);
    if s.len() == 0 {
        assert(sort_by_offset(s).filter(pred) =~= s.filter(pred));
    } else {
        lemma_sort_stable(s.drop_last(), k);
        lemma_insert_filter(sort_by_offset(s.drop_last()), s.last(), k);
    }
}

/// Records that all share one offset are left exactly in insertion
/// order: the tie-break is stable.
pub proof fn lemma_sort_stable_on_ties(s: Seq<FieldRecord>)
    requires
        forall|i: int, j: int| 0 <= i < s.len() && 0 <= j < s.len()
            ==> s[i].start_offset == s[j].start_offset,
    ensures
        sort_by_offset(s) == s,
    decreases s.len(),
{
    if s.len() == 0 {
        assert(sort_by_offset(s) =~= s);
    } else {
        lemma_sort_stable_on_ties(s.drop_last());
        let t = sort_by_offset(s.drop_last());
        if t.len() == 0 {
            assert(insert_by_offset(t, s.last()) =~= s);
        } else {
            assert(t.last().start_offset <= s.last().start_offset);
            assert(t.push(s.last()) =~= s);
        }
    }
}

/// No two records share a `start_offset`.
pub open spec fn distinct_offsets(s: Seq<FieldRecord>) -> bool {
    forall|i: int, j: int|
        0 <= i < j < s.len() ==> s[i].start_offset != s[j].start_offset
}

proof fn lemma_sorted_multiset_unique(a: Seq<FieldRecord>, b: Seq<FieldRecord>)
    requires
        sorted_by_offset(a),
        sorted_by_offset(b),
        distinct_offsets(a),
        a.to_multiset() == b.to_multiset(),
    ensures
        a == b,
    decreases a.len(),
{
    broadcast use vstd::seq_lib::group_to_multiset_ensures;

    assert(a.len() == a.to_multiset().len());
    assert(b.len() == b.to_multiset().len());
    if a.len() == 0 {
        assert(a =~= b);
    } else {
        assert(b.to_multiset().count(a[0]) > 0);
        assert(b.contains(a[0]));
        let k = choose|k: int| 0 <= k < b.len() && b[k] == a[0];
        assert(a.to_multiset().count(b[0]) > 0);
        assert(a.contains(b[0]));
        let m = choose|m: int| 0 <= m < a.len() && a[m] == b[0];
        assert(b[0].start_offset <= b[k].start_offset);
        assert(a[0].start_offset <= a[m].start_offset);
        assert(a[0].start_offset == a[m].start_offset);
        if m != 0 {
            assert(a[0].start_offset != a[m].start_offset);
        }
        assert(a[0] == b[0]);
        let at = a.remove(0);
        let bt = b.remove(0);
        assert(at.to_multiset() =~= a.to_multiset().remove(a[0]));
        assert(bt.to_multiset() =~= b.to_multiset().remove(b[0]));
        assert(forall|i: int, j: int| 0 <= i < j < at.len()
            ==> at[i].start_offset != at[j].start_offset);
        assert(forall|i: int, j: int| 0 <= i < j < at.len()
            ==> at[i].start_offset <= at[j].start_offset);
        assert(forall|i: int, j: int| 0 <= i < j < bt.len()
            ==> bt[i].start_offset <= bt[j].start_offset);
        lemma_sorted_multiset_unique(at, bt);
        assert(forall|i: int| 1 <= i < a.len() ==> a[i] == at[i - 1]);
        assert(forall|i: int| 1 <= i < b.len() ==> b[i] == bt[i - 1]);
        assert(a =~= b);
    }
}

proof fn lemma_two_indexes_count(s: Seq<FieldRecord>, p: int, q: int)
    requires
        0 <= p < q < s.len(),
        s[p] == s[q],
    ensures
        s.to_multiset().count(s[p]) >= 2,
{
    broadcast use vstd::seq_lib::group_to_multiset_ensures;

    let t = s.remove(p);
    assert(t.to_multiset() =~= s.to_multiset().remove(s[p]));
    assert(t[q - 1] == s[q]);
    assert(t.contains(s[p]));
    assert(t.to_multiset().count(s[p]) > 0);
}

/// Whatever order resolutions complete and are appended in, operations
/// that collected the same records — here with pairwise distinct offsets,
/// so no tie-break is involved — emit them in exactly the same order.
pub proof fn lemma_completion_order_irrelevant(s1: Seq<FieldRecord>, s2: Seq<FieldRecord>)
    requires
        s1.to_multiset() == s2.to_multiset(),
        distinct_offsets(s1),
    ensures
        sort_by_offset(s1) == sort_by_offset(s2),
{
    broadcast use vstd::seq_lib::group_to_multiset_ensures;

    lemma_sort_by_offset_ensures(s1);
    lemma_sort_by_offset_ensures(s2);
    let t = sort_by_offset(s1);
    assert forall|i: int, j: int| 0 <= i < j < t.len() implies
        t[i].start_offset != t[j].start_offset by {
        if t[i].start_offset == t[j].start_offset {
            if t[i] == t[j] {
                lemma_two_indexes_count(t, i, j);
                lemma_count_two_indexes(s1, t[i]);
                let (p, q) = choose|p: int, q: int|
                    0 <= p < q < s1.len() && s1[p] == t[i] && s1[q] == t[i];
                assert(s1[p].start_offset != s1[q].start_offset);
            } else {
                assert(s1.to_multiset().count(t[i]) > 0);
                assert(s1.to_multiset().count(t[j]) > 0);
                assert(s1.contains(t[i]));
                assert(s1.contains(t[j]));
                let p = choose|p: int| 0 <= p < s1.len() && s1[p] == t[i];
                let q = choose|q: int| 0 <= q < s1.len() && s1[q] == t[j];
                assert(p != q);
                assert(s1[p].start_offset != s1[q].start_offset);
            }
        }
    }
    lemma_sorted_multiset_unique(t, sort_by_offset(s2));
}

proof fn lemma_count_two_indexes(s: Seq<FieldRecord>, x: FieldRecord)
    requires
        s.to_multiset().count(x) >= 2,
    ensures
        exists|p: int, q: int| 0 <= p < q < s.len() && s[p] == x && s[q] == x,
    decreases s.len(),
{
    broadcast use vstd::seq_lib::group_to_multiset_ensures;

    assert(s.contains(x));
    let q = choose|q: int| 0 <= q < s.len() && s[q] == x;
    let t = s.remove(q);
    assert(t.to_multiset() =~= s.to_multiset().remove(x));
    assert(t.to_multiset().count(x) >= 1);
    assert(t.contains(x));
    let p0 = choose|p0: int| 0 <= p0 < t.len() && t[p0] == x;
    if p0 < q {
        assert(s[p0] == t[p0]);
        assert(0 <= p0 < q < s.len() && s[p0] == x && s[q] == x);
    } else {
        assert(s[p0 + 1] == t[p0]);
        assert(0 <= q < p0 + 1 < s.len() && s[q] == x && s[p0 + 1] == x);
    }
}

proof fn lemma_insert_position(s: Seq<FieldRecord>, x: FieldRecord, j: int)
    requires
        0 <= j <= s.len(),
        j > 0 ==> s[j - 1].start_offset <= x.start_offset,
        forall|k: int| j <= k < s.len() ==> s[k].start_offset > x.start_offset,
    ensures
        insert_by_offset(s, x) == s.insert(j, x),
    decreases s.len(),
{
    if j == s.len() {
        if s.len() == 0 {
            assert(seq![x] =~= s.insert(j, x));
        } else {
            assert(s.push(x) =~= s.insert(j, x));
        }
    } else {
        assert(s.last().start_offset > x.start_offset);
        lemma_insert_position(s.drop_last(), x, j);
        assert(insert_by_offset(s.drop_last(), x).push(s.last())
            =~= s.insert(j, x));
    }
}

/// Sorts the records in place, ascending by `start_offset` with a stable
/// tie-break: each record is reinserted after the run of records whose
/// offset is at most its own.
fn sort_records(records: &mut Vec<FieldRecord>)
    ensures
        final(records)@ == sort_by_offset(old(records)@),
{
    let ghost input = records@;
    let mut i: usize = 0;
    while i < records.len()
        invariant
            0 <= i <= records@.len(),
            records@.len() == input.len(),
            records@ == sort_by_offset(input.subrange(0, i as int))
                + input.subrange(i as int, input.len() as int),
        decreases records@.len() - i,
    {
        let ghost prefix = sort_by_offset(input.subrange(0, i as int));
        proof {
            lemma_sort_by_offset_ensures(input.subrange(0, i as int));
        }
        let x = records.remove(i);
        proof {
            assert(x == input[i as int]);
            assert(records@.subrange(0, i as int) =~= prefix);
        }
        let mut j: usize = i;
        while j > 0 && records[j - 1].start_offset > x.start_offset
            invariant
                0 <= j <= i,
                i <= records@.len(),
                records@.subrange(0, i as int) == prefix,
                forall|k: int| j <= k < i ==> prefix[k].start_offset > x.start_offset,
            decreases j,
        {
            j = j - 1;
        }
        records.insert(j, x);
        proof {
            lemma_insert_position(prefix, x, j as int);
            assert(input.subrange(0, i as int + 1).drop_last()
                =~= input.subrange(0, i as int));
            assert(input.subrange(0, i as int + 1).last() == input[i as int]);
            assert(records@ =~= sort_by_offset(input.subrange(0, i as int + 1))
                + input.subrange(i as int + 1, input.len() as int));
        }
        i = i + 1;
    }
    proof {
        assert(input.subrange(0, input.len() as int) =~= input);
        assert(input.subrange(input.len() as int, input.len() as int)
            =~= Seq::<FieldRecord>::empty());
        assert(records@ =~= sort_by_offset(input));
    }
}

/// The end instant an operation records for a reading taken at `now`:
/// the reading itself, unless the clock stepped backwards across the
/// operation, in which case the end clamps to the start — the trace
/// degrades to an empty interval, it is never dropped.
pub open spec fn op_end_spec(op_start: Timestamp, now: Timestamp) -> Timestamp {
    if now.nanos >= op_start.nanos {
        now
    } else {
        op_start
    }
}

/// The nanosecond offset recorded for a field that began at `field_start`
/// in an operation that began at `op_start`: the distance when it is
/// representable and non-negative, zero otherwise (lossy but non-fatal).
pub open spec fn offset_spec(op_start: Timestamp, field_start: Timestamp) -> i64 {
    match duration_nanos_spec(op_start, field_start) {
        Some(d) => if d >= 0 { d } else { 0 },
        None => 0,
    }
}

/// Per-operation trace state. One value is created per operation, shared
/// only among that operation's resolution hooks, and finalized once.
pub struct Inner {
    pub clock: Clock,
    pub phase: Phase,
    pub start_time: Timestamp,
    pub end_time: Timestamp,
    pub resolves: Vec<FieldRecord>,
}

impl Inner {
    pub open spec fn well_formed(self) -> bool {
        &&& self.start_time.well_formed()
        &&& self.end_time.well_formed()
        &&& forall|i: int| 0 <= i < self.resolves@.len()
            ==> #[trigger] self.resolves@[i].well_formed()
    }

    /// Marks the operation as executing and pins its start instant.
    /// Allowed exactly once, on a fresh instance.
    pub fn begin_execute(&mut self, now: Timestamp)
        requires
            old(self).well_formed(),
            old(self).phase == Phase::Uninitialized,
            now.well_formed(),
        ensures
            final(self).well_formed(),
            final(self).phase == Phase::ExecutingOperation,
            final(self).start_time == now,
            final(self).end_time == old(self).end_time,
            final(self).clock == old(self).clock,
            final(self).resolves@ == old(self).resolves@,
    {
        self.phase = Phase::ExecutingOperation;
        self.start_time = now;
    }

    /// The `start_offset` for a field that begins at `field_start`:
    /// nanoseconds since the operation start, clamped to zero when the
    /// distance is unrepresentable or the clock stepped backwards.
    pub fn field_start_offset(&self, field_start: Timestamp) -> (r: i64)
        requires
            self.well_formed(),
            field_start.well_formed(),
        ensures
            r == offset_spec(self.start_time, field_start),
            r >= 0,
    {
        match duration_nanos(&self.start_time, &field_start) {
            Some(d) => if d >= 0 { d } else { 0 },
            None => 0,
        }
    }

    /// Appends one completed field resolution. Appending is the only
    /// mutation concurrent resolutions perform, so the critical section a
    /// caller wraps around this call never spans a resolution itself.
    pub fn finish_resolve(&mut self, record: FieldRecord)
        requires
            old(self).well_formed(),
            old(self).phase == Phase::ExecutingOperation,
            record.well_formed(),
        ensures
            final(self).well_formed(),
            final(self).phase == Phase::ExecutingOperation,
            final(self).resolves@ == old(self).resolves@.push(record),
            final(self).start_time == old(self).start_time,
            final(self).end_time == old(self).end_time,
            final(self).clock == old(self).clock,
    {
        self.resolves.push(record);
    }

    /// Finalizes the trace: pins the end instant (clamped so it never
    /// precedes the start — degraded timing degrades the numbers, never
    /// the report), sorts the records ascending by `start_offset` with a
    /// stable tie-break, and builds the report. The instance is completed
    /// and never reused.
    pub fn finish_execute(&mut self, now: Timestamp) -> (r: TraceReport)
        requires
            old(self).well_formed(),
            old(self).phase == Phase::ExecutingOperation,
            now.well_formed(),
        ensures
            final(self).well_formed(),
            final(self).phase == Phase::Completed,
            final(self).start_time == old(self).start_time,
            final(self).end_time == op_end_spec(old(self).start_time, now),
            final(self).clock == old(self).clock,
            final(self).resolves@ == sort_by_offset(old(self).resolves@),
            sorted_by_offset(final(self).resolves@),
            final(self).resolves@.to_multiset() == old(self).resolves@.to_multiset(),
            r@ == report_v(
                old(self).clock,
                old(self).start_time,
                op_end_spec(old(self).start_time, now),
                sort_by_offset(old(self).resolves@),
            ),
    {
        self.phase = Phase::Completed;
        self.end_time = if now.nanos >= self.start_time.nanos {
            now
        } else {
            self.start_time
        };
        sort_records(&mut self.resolves);
        proof {
            broadcast use vstd::seq_lib::group_to_multiset_ensures;

            lemma_sort_by_offset_ensures(old(self).resolves@);
            let sorted = self.resolves@;
            assert forall|i: int| 0 <= i < sorted.len()
                implies #[trigger] sorted[i].well_formed() by {
                assert(sorted.to_multiset().count(sorted[i]) > 0);
                assert(old(self).resolves@.to_multiset().count(sorted[i]) > 0);
                assert(old(self).resolves@.contains(sorted[i]));
            }
        }
        build_report(&self.clock, &self.start_time, &self.end_time, &self.resolves)
    }

    /// Finalizes the trace while passing the operation outcome through
    /// unchanged: tracing is best-effort and additive, so a failed
    /// outcome propagates exactly as it arrived, never masked or altered
    /// by the report built beside it.
    pub fn finish_execute_with<R>(&mut self, now: Timestamp, outcome: R) -> (r: (R, TraceReport))
        requires
            old(self).well_formed(),
            old(self).phase == Phase::ExecutingOperation,
            now.well_formed(),
        ensures
            r.0 == outcome,
            final(self).well_formed(),
            final(self).phase == Phase::Completed,
            final(self).start_time == old(self).start_time,
            final(self).end_time == op_end_spec(old(self).start_time, now),
            final(self).clock == old(self).clock,
            final(self).resolves@ == sort_by_offset(old(self).resolves@),
            r.1@ == report_v(
                old(self).clock,
                old(self).start_time,
                op_end_spec(old(self).start_time, now),
                sort_by_offset(old(self).resolves@),
            ),
    {
        let report = self.finish_execute(now);
        (outcome, report)
    }

    /// Appends one completed field resolution while passing the
    /// resolution's own outcome through unchanged: bookkeeping first,
    /// then the outcome propagates exactly as it arrived, success or
    /// failure alike.
    pub fn finish_resolve_with<R>(&mut self, record: FieldRecord, outcome: R) -> (r: R)
        requires
            old(self).well_formed(),
            old(self).phase == Phase::ExecutingOperation,
            record.well_formed(),
        ensures
            r == outcome,
            final(self).well_formed(),
            final(self).phase == Phase::ExecutingOperation,
            final(self).resolves@ == old(self).resolves@.push(record),
            final(self).start_time == old(self).start_time,
            final(self).end_time == old(self).end_time,
            final(self).clock == old(self).clock,
    {
        self.finish_resolve(record);
        outcome
    }
}

/// Factory for the tracing extension: yields exactly one fresh, isolated
/// trace state per operation.
pub struct ApolloTracing {
    pub clock: Clock,
}

impl ApolloTracing {
    pub fn new(clock: Clock) -> (r: ApolloTracing)
        ensures
            r.clock == clock,
    {
        ApolloTracing { clock }
    }

    /// One fresh instance per operation; never reused across operations.
    /// The fresh state holds no records and no other operation can reach
    /// it, which rules out cross-operation contamination by construction.
    pub fn create(&self) -> (r: Inner)
        ensures
            r.well_formed(),
            r.phase == Phase::Uninitialized,
            r.resolves@.len() == 0,
            r.clock == self.clock,
            r.start_time == r.end_time,
    {
        let now = self.clock.now();
        Inner {
            clock: self.clock,
            phase: Phase::Uninitialized,
            start_time: now,
            end_time: now,
            resolves: Vec::new(),
        }
    }
}

/// What a hook decides about the rest of the pipeline: run it, or answer
/// with a value of its own without reaching it. The choice is visible in
/// the type rather than inferred from an omitted call.
pub enum HookOutcome<R> {
    Proceed,
    ShortCircuit(R),
}

/// Resolves a hook's decision against the value the rest of the pipeline
/// computed: a short-circuiting hook answers with its own value, any
/// other hook passes the computed value through unchanged.
pub fn resolve_outcome<R>(outcome: HookOutcome<R>, computed: R) -> (r: R)
    ensures
        match outcome {
            HookOutcome::Proceed => r == computed,
            HookOutcome::ShortCircuit(v) => r == v,
        },
{
    match outcome {
        HookOutcome::Proceed => computed,
        HookOutcome::ShortCircuit(v) => v,
    }
}

} // verus!
