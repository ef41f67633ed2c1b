//! Clock backends and duration arithmetic.
//!
//! A [`Timestamp`] models one instant as a count of nanoseconds since the
//! Unix epoch. Two interchangeable backends produce timestamps and format
//! them as RFC 3339 strings; both share this model, so duration arithmetic
//! is ordinary verified integer arithmetic.

use vstd::prelude::*;
use crate::scalars::ts_parse;

verus! {

/// Least nanosecond count a backend can produce (jiff's timestamp minimum,
/// `-9999-01-01T00:00:00Z`).
pub const TS_MIN_NANOS: i128 = -377_705_023_201_000_000_000;

/// Greatest nanosecond count a backend can produce (jiff's timestamp
/// maximum, `9999-12-31T23:59:59.999999999Z`).
pub const TS_MAX_NANOS: i128 = 253_402_207_200_999_999_999;

/// One instant, as nanoseconds since the Unix epoch.
#[derive(Clone, Copy, Debug)]
pub struct Timestamp {
    pub nanos: i128,
}

impl Timestamp {
    /// A timestamp is well formed when it lies inside the range that every
    /// backend can represent.
    pub open spec fn well_formed(self) -> bool {
        TS_MIN_NANOS as int <= self.nanos as int <= TS_MAX_NANOS as int
    }

    /// Builds a timestamp from a nanosecond count, refusing counts outside
    /// the representable range.
    pub fn from_nanos(nanos: i128) -> (r: Option<Timestamp>)
        ensures
            TS_MIN_NANOS as int <= nanos as int <= TS_MAX_NANOS as int
                ==> r == Some(Timestamp { nanos }),
            !(TS_MIN_NANOS as int <= nanos as int <= TS_MAX_NANOS as int)
                ==> r is None,
    {
        if TS_MIN_NANOS <= nanos && nanos <= TS_MAX_NANOS {
            Some(Timestamp { nanos })
        } else {
            None
        }
    }
}

/// What `duration_nanos` yields: the signed nanosecond distance from
/// `start` to `end` when it fits a 64-bit integer, absence otherwise.
pub open spec fn duration_nanos_spec(start: Timestamp, end: Timestamp) -> Option<i64> {
    let d = end.nanos as int - start.nanos as int;
    if i64::MIN as int <= d <= i64::MAX as int {
        Some(d as i64)
    } else {
        None
    }
}

/// Signed nanosecond distance from `start` to `end`, or absence when the
/// distance does not fit a 64-bit integer. Degrading to absence rather
/// than failing keeps timing loss non-fatal for callers.
pub fn duration_nanos(start: &Timestamp, end: &Timestamp) -> (r: Option<i64>)
    requires
        start.well_formed(),
        end.well_formed(),
    ensures
        r == duration_nanos_spec(*start, *end),
{
    let d: i128 = end.nanos - start.nanos;
    if i64::MIN as i128 <= d && d <= i64::MAX as i128 {
        Some(d as i64)
    } else {
        None
    }
}

/// The RFC 3339 rendering that the jiff backend gives a nanosecond count.
pub uninterp spec fn rfc3339_jiff(nanos: int) -> Seq<char>;

/// The RFC 3339 rendering that the chrono backend gives a nanosecond count.
pub uninterp spec fn rfc3339_chrono(nanos: int) -> Seq<char>;

/// Relies on jiff's fallible `Timestamp::try_from(SystemTime)` and on
/// `Timestamp::as_nanosecond`: the current instant as nanoseconds since
/// the Unix epoch, always inside jiff's documented timestamp range. A
/// system clock outside that range degrades to the epoch rather than
/// failing the caller.
#[verifier::external_body]
fn jiff_now_nanos() -> (r: i128)
    ensures
        TS_MIN_NANOS as int <= r as int <= TS_MAX_NANOS as int,
{
    match jiff::Timestamp::try_from(std::time::SystemTime::now()) {
        Ok(ts) => ts.as_nanosecond(),
        Err(_) => 0,
    }
}

/// Relies on chrono's `From<SystemTime>` for `DateTime<Utc>` (which,
/// unlike `Utc::now`, handles a pre-1970 clock without panicking) and on
/// `chrono::DateTime::timestamp_nanos_opt`: the current instant as
/// nanoseconds since the Unix epoch, absent when the instant lies
/// outside the range a 64-bit nanosecond count can hold.
#[verifier::external_body]
fn chrono_now_nanos() -> (r: Option<i64>) {
    chrono::DateTime::<chrono::Utc>::from(std::time::SystemTime::now()).timestamp_nanos_opt()
}

/// Relies on `jiff::Timestamp::from_nanosecond` (in range, it cannot
/// fail) and the `Display` of `jiff::Timestamp`, which renders RFC 3339
/// and depends on the nanosecond count alone; its output carries no
/// square-bracket annotation, and jiff's timestamp `FromStr` parses it
/// back to the same instant (the documented round trip).
#[verifier::external_body]
pub(crate) fn jiff_format_rfc3339(nanos: i128) -> (r: String)
    requires
        TS_MIN_NANOS as int <= nanos as int <= TS_MAX_NANOS as int,
    ensures
        r@ == rfc3339_jiff(nanos as int),
        ts_parse(r@) == Some(nanos as int),
        forall|i: int| 0 <= i < r@.len() ==> r@[i] != '[',
{
    match jiff::Timestamp::from_nanosecond(nanos) {
        Ok(ts) => ts.to_string(),
        Err(_) => String::new(),
    }
}

/// Relies on `chrono::DateTime::from_timestamp_nanos` (total over `i64`)
/// and `chrono::DateTime::to_rfc3339`, which depends on the nanosecond
/// count alone and emits an RFC 3339 string with a `+00:00` offset that
/// jiff's timestamp parser accepts and reads back as the same instant.
#[verifier::external_body]
fn chrono_format_rfc3339(nanos: i64) -> (r: String)
    ensures
        r@ == rfc3339_chrono(nanos as int),
        ts_parse(r@) == Some(nanos as int),
{
    chrono::DateTime::<chrono::Utc>::from_timestamp_nanos(nanos).to_rfc3339()
}

/// The nanosecond count the chrono backend formats: the count itself when
/// it fits a 64-bit integer, else the nearest count that does.
pub open spec fn clamp_to_i64(n: int) -> int {
    if n < i64::MIN as int {
        i64::MIN as int
    } else if n > i64::MAX as int {
        i64::MAX as int
    } else {
        n
    }
}

/// The string a backend renders for a timestamp's nanosecond count. The
/// backends differ only in this rendering, never in report shape.
pub open spec fn rfc3339_spec(clock: Clock, nanos: int) -> Seq<char> {
    match clock {
        Clock::Jiff => rfc3339_jiff(nanos),
        Clock::Chrono => rfc3339_chrono(clamp_to_i64(nanos)),
    }
}

/// The nanosecond count a backend's rendering actually denotes: the
/// count itself, except that the chrono backend clamps to what a 64-bit
/// count can hold. This is the backend's precision loss, and all of it.
pub open spec fn rendered_nanos_spec(clock: Clock, nanos: int) -> int {
    match clock {
        Clock::Jiff => nanos,
        Clock::Chrono => clamp_to_i64(nanos),
    }
}

/// A clock backend, selected at configuration time. Every backend yields
/// well-formed timestamps and an RFC 3339 rendering; only numeric
/// precision differs between them.
#[derive(Clone, Copy, Debug, PartialEq, Eq, Structural)]
pub enum Clock {
    Jiff,
    Chrono,
}

impl Clock {
    /// The current instant. A reading the backend cannot represent
    /// degrades to the epoch rather than failing the caller.
    pub fn now(&self) -> (r: Timestamp)
        ensures
            r.well_formed(),
    {
        match self {
            Clock::Jiff => Timestamp { nanos: jiff_now_nanos() },
            Clock::Chrono => {
                match chrono_now_nanos() {
                    Some(n) => Timestamp { nanos: n as i128 },
                    None => Timestamp { nanos: 0 },
                }
            },
        }
    }

    /// Renders a timestamp as this backend's RFC 3339 string. Equal
    /// timestamps render equally, and the string parses back to the
    /// instant it was rendered from, up to the backend's clamping.
    pub fn to_rfc3339(&self, ts: &Timestamp) -> (r: String)
        requires
            ts.well_formed(),
        ensures
            r@ == rfc3339_spec(*self, ts.nanos as int),
            crate::scalars::ts_parse(r@)
                == Some(rendered_nanos_spec(*self, ts.nanos as int)),
    {
        match self {
            Clock::Jiff => jiff_format_rfc3339(ts.nanos),
            Clock::Chrono => {
                let n: i64 = if ts.nanos < i64::MIN as i128 {
                    i64::MIN
                } else if ts.nanos > i64::MAX as i128 {
                    i64::MAX
                } else {
                    ts.nanos as i64
                };
                chrono_format_rfc3339(n)
            },
        }
    }
}

} // verus!
