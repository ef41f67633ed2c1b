//! Leaf scalar types for calendar dates, times, instants, spans and time
//! zones, parsed from and rendered to the string form the wire carries.
//!
//! Each type holds the plain values its logic reads — a date as year,
//! month and day, an instant as nanoseconds since the Unix epoch — with
//! the validity invariant the parser establishes. Parsing and rendering of
//! the textual forms is delegated to jiff behind trusted wrappers.

use vstd::prelude::*;
use crate::clock::{Timestamp, TS_MIN_NANOS, TS_MAX_NANOS, rfc3339_jiff, jiff_format_rfc3339};

verus! {

/// An input value as a scalar parser sees it: a string, or some other
/// shape a scalar cannot be parsed from.
#[derive(Debug)]
pub enum ScalarValue {
    Str(String),
    Other,
}

/// Why a scalar failed to parse: the input was not a string at all, or
/// the underlying parser rejected it with a message.
#[derive(Debug)]
pub enum ScalarError {
    ExpectedString(ScalarValue),
    Custom(String),
}

/// The proleptic Gregorian leap-year rule.
pub open spec fn is_leap_year(y: int) -> bool {
    (y % 4 == 0 && y % 100 != 0) || y % 400 == 0
}

/// Days in a month of the proleptic Gregorian calendar.
pub open spec fn days_in_month(y: int, m: int) -> int {
    if m == 2 {
        if is_leap_year(y) { 29 } else { 28 }
    } else if m == 4 || m == 6 || m == 9 || m == 11 {
        30
    } else {
        31
    }
}

/// A calendar date jiff can represent: year within four digits, month and
/// day within the calendar.
pub open spec fn valid_date(y: int, m: int, d: int) -> bool {
    &&& -9999 <= y <= 9999
    &&& 1 <= m <= 12
    &&& 1 <= d <= days_in_month(y, m)
}

/// A civil time of day with nanosecond precision.
pub open spec fn valid_time(h: int, mi: int, s: int, n: int) -> bool {
    &&& 0 <= h <= 23
    &&& 0 <= mi <= 59
    &&& 0 <= s <= 59
    &&& 0 <= n <= 999_999_999
}

/// What jiff's calendar-date parser yields for a string: the year, month
/// and day when the string is a valid ISO 8601 date, absence otherwise.
pub uninterp spec fn date_parse(s: Seq<char>) -> Option<(int, int, int)>;

/// The ISO 8601 rendering jiff gives a calendar date.
pub uninterp spec fn date_display(y: int, m: int, d: int) -> Seq<char>;

/// What jiff's time parser yields for a string: hour, minute, second and
/// nanosecond when the string is a valid ISO 8601 time, absence otherwise.
pub uninterp spec fn time_parse(s: Seq<char>) -> Option<(int, int, int, int)>;

/// The ISO 8601 rendering jiff gives a civil time.
pub uninterp spec fn time_display(h: int, mi: int, sec: int, n: int) -> Seq<char>;

/// What jiff's civil datetime parser yields: date and time components
/// when the string is a valid ISO 8601 datetime, absence otherwise.
pub uninterp spec fn datetime_parse(s: Seq<char>) -> Option<(int, int, int, int, int, int, int)>;

/// The ISO 8601 rendering jiff gives a civil datetime.
pub uninterp spec fn datetime_display(
    y: int,
    m: int,
    d: int,
    h: int,
    mi: int,
    sec: int,
    n: int,
) -> Seq<char>;

/// What jiff's timestamp parser yields: nanoseconds since the Unix epoch
/// when the string is a valid RFC 3339 instant, absence otherwise.
pub uninterp spec fn ts_parse(s: Seq<char>) -> Option<int>;

/// What parsing a span and rendering it back yields: the canonical
/// ISO 8601 duration text when the string is a valid span, absence
/// otherwise.
pub uninterp spec fn span_canon(s: Seq<char>) -> Option<Seq<char>>;

/// Relies on `jiff::civil::Date`'s `FromStr`, which depends on the string
/// alone, and on its accessors `year`, `month`, `day`, whose ranges its
/// documentation gives: every date jiff yields is a valid calendar date.
#[verifier::external_body]
fn jiff_parse_date(s: &str) -> (r: Result<(i16, i8, i8), String>)
    ensures
        match r {
            Ok(t) => {
                &&& date_parse(s@) == Some((t.0 as int, t.1 as int, t.2 as int))
                &&& valid_date(t.0 as int, t.1 as int, t.2 as int)
            },
            Err(_) => date_parse(s@) is None,
        },
{
    s.parse::<jiff::civil::Date>()
        .map(|d| (d.year(), d.month(), d.day()))
        .map_err(|e| e.to_string())
}

/// Relies on `jiff::civil::Date::new`, which cannot fail on a valid
/// calendar date, and on the `Display` of `jiff::civil::Date`, which
/// depends on the date alone and whose output jiff's `FromStr` parses
/// back to the same date (the round trip its documentation shows).
#[verifier::external_body]
fn jiff_format_date(y: i16, m: i8, d: i8) -> (r: String)
    requires
        valid_date(y as int, m as int, d as int),
    ensures
        r@ == date_display(y as int, m as int, d as int),
        date_parse(r@) == Some((y as int, m as int, d as int)),
{
    match jiff::civil::Date::new(y, m, d) {
        Ok(date) => date.to_string(),
        Err(_) => String::new(),
    }
}

/// Relies on `jiff::civil::Time`'s `FromStr`, which depends on the string
/// alone, and on its accessors `hour`, `minute`, `second`,
/// `subsec_nanosecond`, whose ranges its documentation gives.
#[verifier::external_body]
fn jiff_parse_time(s: &str) -> (r: Result<(i8, i8, i8, i32), String>)
    ensures
        match r {
            Ok(t) => {
                &&& time_parse(s@) == Some((t.0 as int, t.1 as int, t.2 as int, t.3 as int))
                &&& valid_time(t.0 as int, t.1 as int, t.2 as int, t.3 as int)
            },
            Err(_) => time_parse(s@) is None,
        },
{
    s.parse::<jiff::civil::Time>()
        .map(|t| (t.hour(), t.minute(), t.second(), t.subsec_nanosecond()))
        .map_err(|e| e.to_string())
}

/// Relies on `jiff::civil::Time::new`, which cannot fail on an in-range
/// time, and on the `Display` of `jiff::civil::Time`, which depends on
/// the time alone and whose output jiff's `FromStr` parses back to the
/// same time.
#[verifier::external_body]
fn jiff_format_time(h: i8, mi: i8, sec: i8, n: i32) -> (r: String)
    requires
        valid_time(h as int, mi as int, sec as int, n as int),
    ensures
        r@ == time_display(h as int, mi as int, sec as int, n as int),
        time_parse(r@) == Some((h as int, mi as int, sec as int, n as int)),
{
    match jiff::civil::Time::new(h, mi, sec, n) {
        Ok(time) => time.to_string(),
        Err(_) => String::new(),
    }
}

/// Relies on `jiff::civil::DateTime`'s `FromStr`, which depends on the
/// string alone, and on its `date` and `time` accessors: every datetime
/// jiff yields has a valid date and an in-range time.
#[verifier::external_body]
fn jiff_parse_datetime(s: &str) -> (r: Result<(i16, i8, i8, i8, i8, i8, i32), String>)
    ensures
        match r {
            Ok(t) => {
                &&& datetime_parse(s@) == Some((
                    t.0 as int,
                    t.1 as int,
                    t.2 as int,
                    t.3 as int,
                    t.4 as int,
                    t.5 as int,
                    t.6 as int,
                ))
                &&& valid_date(t.0 as int, t.1 as int, t.2 as int)
                &&& valid_time(t.3 as int, t.4 as int, t.5 as int, t.6 as int)
            },
            Err(_) => datetime_parse(s@) is None,
        },
{
    s.parse::<jiff::civil::DateTime>()
        .map(|dt| (
            dt.date().year(),
            dt.date().month(),
            dt.date().day(),
            dt.time().hour(),
            dt.time().minute(),
            dt.time().second(),
            dt.time().subsec_nanosecond(),
        ))
        .map_err(|e| e.to_string())
}

/// Relies on `jiff::civil::DateTime::new`, which cannot fail on a valid
/// date with an in-range time, and on the `Display` of
/// `jiff::civil::DateTime`, which depends on the datetime alone and
/// whose output jiff's `FromStr` parses back to the same datetime.
#[verifier::external_body]
fn jiff_format_datetime(y: i16, m: i8, d: i8, h: i8, mi: i8, sec: i8, n: i32) -> (r: String)
    requires
        valid_date(y as int, m as int, d as int),
        valid_time(h as int, mi as int, sec as int, n as int),
    ensures
        r@ == datetime_display(
            y as int,
            m as int,
            d as int,
            h as int,
            mi as int,
            sec as int,
            n as int,
        ),
        datetime_parse(r@) == Some((
            y as int,
            m as int,
            d as int,
            h as int,
            mi as int,
            sec as int,
            n as int,
        )),
{
    match jiff::civil::DateTime::new(y, m, d, h, mi, sec, n) {
        Ok(dt) => dt.to_string(),
        Err(_) => String::new(),
    }
}

/// Relies on `jiff::Timestamp`'s `FromStr`, which depends on the string
/// alone, and on `jiff::Timestamp::as_nanosecond`, whose result lies in
/// jiff's documented timestamp range.
#[verifier::external_body]
fn jiff_parse_timestamp(s: &str) -> (r: Result<i128, String>)
    ensures
        match r {
            Ok(n) => {
                &&& ts_parse(s@) == Some(n as int)
                &&& TS_MIN_NANOS as int <= n as int <= TS_MAX_NANOS as int
            },
            Err(_) => ts_parse(s@) is None,
        },
{
    s.parse::<jiff::Timestamp>()
        .map(|t| t.as_nanosecond())
        .map_err(|e| e.to_string())
}

/// Relies on `jiff::Zoned`'s `FromStr` — whose success may consult the
/// system's time-zone database, so nothing is assumed of when it
/// succeeds, except that it demands a time-zone annotation in square
/// brackets and so fails on every string without a `[` — and on
/// `Zoned::timestamp` and `Timestamp::as_nanosecond`, whose result lies
/// in jiff's documented timestamp range.
#[verifier::external_body]
fn jiff_parse_zoned(s: &str) -> (r: Option<i128>)
    ensures
        match r {
            Some(n) => TS_MIN_NANOS as int <= n as int <= TS_MAX_NANOS as int,
            None => true,
        },
        (forall|i: int| 0 <= i < s@.len() ==> s@[i] != '[') ==> r is None,
{
    s.parse::<jiff::Zoned>().ok().map(|z| z.timestamp().as_nanosecond())
}

/// Relies on `jiff::Span`'s `FromStr`, which depends on the string alone,
/// and on the `Display` of `jiff::Span`, which renders the parsed span as
/// canonical ISO 8601 duration text depending on the span alone. The
/// canonical text parses back to the same span (jiff's documented round
/// trip), so canonicalising it again returns it unchanged.
#[verifier::external_body]
fn jiff_span_canonical(s: &str) -> (r: Result<String, String>)
    ensures
        match r {
            Ok(c) => span_canon(s@) == Some(c@) && span_canon(c@) == Some(c@),
            Err(_) => span_canon(s@) is None,
        },
{
    s.parse::<jiff::Span>()
        .map(|sp| sp.to_string())
        .map_err(|e| e.to_string())
}

/// Relies on `jiff::tz::TimeZone::get`, which consults the system's
/// time-zone database, and on `TimeZone::iana_name`; nothing is assumed
/// of the outcome beyond its shape.
#[verifier::external_body]
fn jiff_tz_lookup(s: &str) -> (r: Result<Option<String>, String>) {
    jiff::tz::TimeZone::get(s)
        .map(|tz| tz.iana_name().map(|n| n.to_string()))
        .map_err(|e| e.to_string())
}

/// An ISO 8601 calendar date without a time zone, `YYYY-MM-DD`.
pub struct CivilDate {
    pub year: i16,
    pub month: i8,
    pub day: i8,
}

impl CivilDate {
    pub open spec fn well_formed(self) -> bool {
        valid_date(self.year as int, self.month as int, self.day as int)
    }

    /// Parses a date scalar. A non-string input is refused as such; a
    /// string is accepted exactly when jiff parses it as a calendar date.
    pub fn parse(value: ScalarValue) -> (r: Result<CivilDate, ScalarError>)
        ensures
            match value {
                ScalarValue::Str(s) => match r {
                    Ok(d) => {
                        &&& date_parse(s@)
                            == Some((d.year as int, d.month as int, d.day as int))
                        &&& d.well_formed()
                    },
                    Err(e) => date_parse(s@) is None && e is Custom,
                },
                ScalarValue::Other => r == Err::<CivilDate, ScalarError>(
                    ScalarError::ExpectedString(value),
                ),
            },
    {
        match value {
            ScalarValue::Str(s) => match jiff_parse_date(s.as_str()) {
                Ok((year, month, day)) => Ok(CivilDate { year, month, day }),
                Err(msg) => Err(ScalarError::Custom(msg)),
            },
            ScalarValue::Other => Err(ScalarError::ExpectedString(ScalarValue::Other)),
        }
    }

    /// Renders the date as its ISO 8601 string, which parses back to
    /// exactly this date.
    pub fn to_value(&self) -> (r: ScalarValue)
        requires
            self.well_formed(),
        ensures
            r matches ScalarValue::Str(s) && {
                &&& s@ == date_display(self.year as int, self.month as int, self.day as int)
                &&& date_parse(s@)
                    == Some((self.year as int, self.month as int, self.day as int))
            },
    {
        ScalarValue::Str(jiff_format_date(self.year, self.month, self.day))
    }
}

/// An ISO 8601 time of day without a time zone, with nanosecond
/// precision.
pub struct CivilTime {
    pub hour: i8,
    pub minute: i8,
    pub second: i8,
    pub subsec_nanosecond: i32,
}

impl CivilTime {
    pub open spec fn well_formed(self) -> bool {
        valid_time(
            self.hour as int,
            self.minute as int,
            self.second as int,
            self.subsec_nanosecond as int,
        )
    }

    /// Parses a time scalar. A non-string input is refused as such; a
    /// string is accepted exactly when jiff parses it as a civil time.
    pub fn parse(value: ScalarValue) -> (r: Result<CivilTime, ScalarError>)
        ensures
            match value {
                ScalarValue::Str(s) => match r {
                    Ok(t) => {
                        &&& time_parse(s@) == Some((
                            t.hour as int,
                            t.minute as int,
                            t.second as int,
                            t.subsec_nanosecond as int,
                        ))
                        &&& t.well_formed()
                    },
                    Err(e) => time_parse(s@) is None && e is Custom,
                },
                ScalarValue::Other => r == Err::<CivilTime, ScalarError>(
                    ScalarError::ExpectedString(value),
                ),
            },
    {
        match value {
            ScalarValue::Str(s) => match jiff_parse_time(s.as_str()) {
                Ok((hour, minute, second, subsec_nanosecond)) => Ok(CivilTime {
                    hour,
                    minute,
                    second,
                    subsec_nanosecond,
                }),
                Err(msg) => Err(ScalarError::Custom(msg)),
            },
            ScalarValue::Other => Err(ScalarError::ExpectedString(ScalarValue::Other)),
        }
    }

    /// Renders the time as its ISO 8601 string, which parses back to
    /// exactly this time, nanoseconds included.
    pub fn to_value(&self) -> (r: ScalarValue)
        requires
            self.well_formed(),
        ensures
            r matches ScalarValue::Str(s) && {
                &&& s@ == time_display(
                    self.hour as int,
                    self.minute as int,
                    self.second as int,
                    self.subsec_nanosecond as int,
                )
                &&& time_parse(s@) == Some((
                    self.hour as int,
                    self.minute as int,
                    self.second as int,
                    self.subsec_nanosecond as int,
                ))
            },
    {
        ScalarValue::Str(jiff_format_time(
            self.hour,
            self.minute,
            self.second,
            self.subsec_nanosecond,
        ))
    }
}

/// An ISO 8601 date and time without a time zone.
pub struct CivilDateTime {
    pub date: CivilDate,
    pub time: CivilTime,
}

impl CivilDateTime {
    pub open spec fn well_formed(self) -> bool {
        self.date.well_formed() && self.time.well_formed()
    }

    /// Parses a civil datetime scalar. A non-string input is refused as
    /// such; a string is accepted exactly when jiff parses it as a civil
    /// datetime.
    pub fn parse(value: ScalarValue) -> (r: Result<CivilDateTime, ScalarError>)
        ensures
            match value {
                ScalarValue::Str(s) => match r {
                    Ok(dt) => {
                        &&& datetime_parse(s@) == Some((
                            dt.date.year as int,
                            dt.date.month as int,
                            dt.date.day as int,
                            dt.time.hour as int,
                            dt.time.minute as int,
                            dt.time.second as int,
                            dt.time.subsec_nanosecond as int,
                        ))
                        &&& dt.well_formed()
                    },
                    Err(e) => datetime_parse(s@) is None && e is Custom,
                },
                ScalarValue::Other => r == Err::<CivilDateTime, ScalarError>(
                    ScalarError::ExpectedString(value),
                ),
            },
    {
        match value {
            ScalarValue::Str(s) => match jiff_parse_datetime(s.as_str()) {
                Ok((year, month, day, hour, minute, second, subsec_nanosecond)) => {
                    Ok(CivilDateTime {
                        date: CivilDate { year, month, day },
                        time: CivilTime { hour, minute, second, subsec_nanosecond },
                    })
                },
                Err(msg) => Err(ScalarError::Custom(msg)),
            },
            ScalarValue::Other => Err(ScalarError::ExpectedString(ScalarValue::Other)),
        }
    }

    /// Renders the datetime as its ISO 8601 string, which parses back to
    /// exactly this datetime.
    pub fn to_value(&self) -> (r: ScalarValue)
        requires
            self.well_formed(),
        ensures
            r matches ScalarValue::Str(s) && {
                &&& s@ == datetime_display(
                    self.date.year as int,
                    self.date.month as int,
                    self.date.day as int,
                    self.time.hour as int,
                    self.time.minute as int,
                    self.time.second as int,
                    self.time.subsec_nanosecond as int,
                )
                &&& datetime_parse(s@) == Some((
                    self.date.year as int,
                    self.date.month as int,
                    self.date.day as int,
                    self.time.hour as int,
                    self.time.minute as int,
                    self.time.second as int,
                    self.time.subsec_nanosecond as int,
                ))
            },
    {
        ScalarValue::Str(jiff_format_datetime(
            self.date.year,
            self.date.month,
            self.date.day,
            self.time.hour,
            self.time.minute,
            self.time.second,
            self.time.subsec_nanosecond,
        ))
    }
}

/// An instant in time with a zone, carried as the instant it denotes and
/// rendered in UTC as an RFC 3339 string.
pub struct ZonedDateTime {
    pub timestamp: Timestamp,
}

impl ZonedDateTime {
    pub open spec fn well_formed(self) -> bool {
        self.timestamp.well_formed()
    }

    /// The instant a string denotes, given what the zoned lookup answered
    /// for it: the zoned instant when the lookup found one, else exactly
    /// what jiff's timestamp parser yields for the string.
    pub fn from_zoned_lookup(s: &str, zoned: Option<i128>) -> (r: Result<
        ZonedDateTime,
        ScalarError,
    >)
        requires
            zoned matches Some(n)
                ==> TS_MIN_NANOS as int <= n as int <= TS_MAX_NANOS as int,
        ensures
            match zoned {
                Some(n) => r == Ok::<ZonedDateTime, ScalarError>(
                    ZonedDateTime { timestamp: Timestamp { nanos: n } },
                ),
                None => match r {
                    Ok(z) => {
                        &&& ts_parse(s@) == Some(z.timestamp.nanos as int)
                        &&& z.well_formed()
                    },
                    Err(e) => ts_parse(s@) is None && e is Custom,
                },
            },
    {
        match zoned {
            Some(nanos) => Ok(ZonedDateTime { timestamp: Timestamp { nanos } }),
            None => match jiff_parse_timestamp(s) {
                Ok(nanos) => Ok(ZonedDateTime { timestamp: Timestamp { nanos } }),
                Err(msg) => Err(ScalarError::Custom(msg)),
            },
        }
    }

    /// Parses an instant. A zoned form such as
    /// `2024-01-15T10:30:00[UTC]` is tried first (its success may depend
    /// on the system's time-zone database); a plain RFC 3339 instant is
    /// accepted as a fallback, so any string jiff parses as a timestamp
    /// is accepted. A string without a square-bracket annotation cannot
    /// be a zoned form, so for it the result is exactly what jiff's
    /// timestamp parser yields.
    pub fn parse(value: ScalarValue) -> (r: Result<ZonedDateTime, ScalarError>)
        ensures
            match value {
                ScalarValue::Str(s) => match r {
                    Ok(z) => z.well_formed(),
                    Err(e) => ts_parse(s@) is None && e is Custom,
                },
                ScalarValue::Other => r == Err::<ZonedDateTime, ScalarError>(
                    ScalarError::ExpectedString(value),
                ),
            },
            (value matches ScalarValue::Str(s) && ts_parse(s@) is Some) ==> r is Ok,
            match value {
                ScalarValue::Str(s) => (forall|i: int| 0 <= i < s@.len() ==> s@[i] != '[')
                    ==> match r {
                        Ok(z) => ts_parse(s@) == Some(z.timestamp.nanos as int),
                        Err(_) => ts_parse(s@) is None,
                    },
                ScalarValue::Other => true,
            },
    {
        match value {
            ScalarValue::Str(s) => Self::from_zoned_lookup(
                s.as_str(),
                jiff_parse_zoned(s.as_str()),
            ),
            ScalarValue::Other => Err(ScalarError::ExpectedString(ScalarValue::Other)),
        }
    }

    /// Renders the instant as jiff's RFC 3339 string in UTC. The string
    /// carries no annotation and parses back to the same instant, so
    /// rendering and re-parsing round-trips.
    pub fn to_value(&self) -> (r: ScalarValue)
        requires
            self.well_formed(),
        ensures
            r matches ScalarValue::Str(s) && {
                &&& s@ == rfc3339_jiff(self.timestamp.nanos as int)
                &&& ts_parse(s@) == Some(self.timestamp.nanos as int)
                &&& forall|i: int| 0 <= i < s@.len() ==> s@[i] != '['
            },
    {
        ScalarValue::Str(jiff_format_rfc3339(self.timestamp.nanos))
    }
}

/// An ISO 8601 duration, carried as the canonical text jiff renders for
/// it.
pub struct SpanValue {
    pub iso: String,
}

impl SpanValue {
    /// Parses a span scalar. A non-string input is refused as such; a
    /// string is accepted exactly when jiff parses it as a span, and the
    /// canonical rendering — already canonical, so parsing it again
    /// returns it unchanged — is fixed at parse time.
    pub fn parse(value: ScalarValue) -> (r: Result<SpanValue, ScalarError>)
        ensures
            match value {
                ScalarValue::Str(s) => match r {
                    Ok(sp) => span_canon(s@) == Some(sp.iso@)
                        && span_canon(sp.iso@) == Some(sp.iso@),
                    Err(e) => span_canon(s@) is None && e is Custom,
                },
                ScalarValue::Other => r == Err::<SpanValue, ScalarError>(
                    ScalarError::ExpectedString(value),
                ),
            },
    {
        match value {
            ScalarValue::Str(s) => match jiff_span_canonical(s.as_str()) {
                Ok(iso) => Ok(SpanValue { iso }),
                Err(msg) => Err(ScalarError::Custom(msg)),
            },
            ScalarValue::Other => Err(ScalarError::ExpectedString(ScalarValue::Other)),
        }
    }

    /// Renders the span as the canonical text fixed at parse time.
    pub fn to_value(&self) -> (r: ScalarValue)
        ensures
            r matches ScalarValue::Str(s) && s@ == self.iso@,
    {
        ScalarValue::Str(self.iso.clone())
    }
}

/// A time zone, carried as its IANA name when it has one.
pub struct TimeZoneName {
    pub iana: Option<String>,
}

impl TimeZoneName {
    /// The scalar a database lookup's answer yields: a found zone is
    /// carried under exactly the IANA name the database answered with
    /// (absent for a fixed offset), a failed lookup becomes the parser's
    /// error with the database's message.
    pub fn from_lookup(looked_up: Result<Option<String>, String>) -> (r: Result<
        TimeZoneName,
        ScalarError,
    >)
        ensures
            match looked_up {
                Ok(iana) => r matches Ok(tz) && tz.iana == iana,
                Err(msg) => r == Err::<TimeZoneName, ScalarError>(ScalarError::Custom(msg)),
            },
    {
        match looked_up {
            Ok(iana) => Ok(TimeZoneName { iana }),
            Err(msg) => Err(ScalarError::Custom(msg)),
        }
    }

    /// Parses a time-zone scalar by looking the name up in the system's
    /// time-zone database; nothing is promised of which names the
    /// database holds, and the result carries exactly the name the
    /// database answered with.
    pub fn parse(value: ScalarValue) -> (r: Result<TimeZoneName, ScalarError>)
        ensures
            match value {
                ScalarValue::Str(_) => r is Err ==> r->Err_0 is Custom,
                ScalarValue::Other => r == Err::<TimeZoneName, ScalarError>(
                    ScalarError::ExpectedString(value),
                ),
            },
    {
        match value {
            ScalarValue::Str(s) => Self::from_lookup(jiff_tz_lookup(s.as_str())),
            ScalarValue::Other => Err(ScalarError::ExpectedString(ScalarValue::Other)),
        }
    }

    /// Renders the zone as its IANA name, defaulting to UTC for a zone
    /// without one (a fixed offset).
    pub fn to_value(&self) -> (r: ScalarValue)
        ensures
            match self.iana {
                Some(n) => r matches ScalarValue::Str(s) && s@ == n@,
                None => r matches ScalarValue::Str(s) && s@ == "UTC"@,
            },
    {
        broadcast use vstd::string::to_string_from_display_ensures_for_str;

        match &self.iana {
            Some(n) => ScalarValue::Str(n.clone()),
            None => ScalarValue::Str("UTC".to_string()),
        }
    }
}

} // verus!
