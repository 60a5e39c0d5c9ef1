//! Civil dates and datetimes (proleptic Gregorian, no time zone), as the
//! `jiff` crate models them.

use vstd::prelude::*;

verus! {

/// A civil date.
#[derive(Debug, Clone, Copy, PartialEq, Eq, Structural)]
pub struct Date {
    pub year: i16,
    pub month: i8,
    pub day: i8,
}

/// A civil datetime.
#[derive(Debug, Clone, Copy, PartialEq, Eq, Structural)]
pub struct DateTime {
    pub date: Date,
    pub hour: i8,
    pub minute: i8,
    pub second: i8,
    pub subsec_nanosecond: i32,
}

pub open spec fn is_leap_year(y: int) -> bool {
    (y % 4 == 0 && y % 100 != 0) || y % 400 == 0
}

pub open spec fn days_in_month(y: int, m: int) -> int {
    if m == 2 {
        if is_leap_year(y) { 29 } else { 28 }
    } else if m == 4 || m == 6 || m == 9 || m == 11 {
        30
    } else {
        31
    }
}

/// Whether year-month-day names a date: year in `-9999..=9999`, month in
/// `1..=12`, day from 1 to the length of the month.
pub open spec fn valid_ymd(y: int, m: int, d: int) -> bool {
    -9999 <= y <= 9999 && 1 <= m <= 12 && 1 <= d <= days_in_month(y, m)
}

/// The date a year-month-day names, when it names one.
pub open spec fn ymd(y: int, m: int, d: int) -> Option<Date> {
    if valid_ymd(y, m, d) {
        Some(Date { year: y as i16, month: m as i8, day: d as i8 })
    } else {
        None
    }
}

impl Date {
    pub open spec fn wf(self) -> bool {
        valid_ymd(self.year as int, self.month as int, self.day as int)
    }

    /// Whether the date is a real one.
    pub fn is_valid(&self) -> (r: bool)
        ensures
            r == self.wf(),
    {
        let y = self.year;
        let m = self.month;
        if y < -9999 || y > 9999 || m < 1 || m > 12 || self.day < 1 {
            return false;
        }
        let leap = (y % 4 == 0 && y % 100 != 0) || y % 400 == 0;
        assert(leap == is_leap_year(y as int));
        let days: i8 = if m == 2 {
            if leap { 29 } else { 28 }
        } else if m == 4 || m == 6 || m == 9 || m == 11 {
            30
        } else {
            31
        };
        self.day <= days
    }
}

impl DateTime {
    /// A valid date and a time of day.
    pub open spec fn wf(self) -> bool {
        &&& self.date.wf()
        &&& 0 <= self.hour < 24
        &&& 0 <= self.minute < 60
        &&& 0 <= self.second < 60
        &&& 0 <= self.subsec_nanosecond < 1_000_000_000
    }
}

/// Chronological order of dates.
pub open spec fn date_lt(a: Date, b: Date) -> bool {
    a.year < b.year || (a.year == b.year && (a.month < b.month || (a.month == b.month && a.day
        < b.day)))
}

pub open spec fn date_le(a: Date, b: Date) -> bool {
    date_lt(a, b) || a == b
}

/// Whether `a` falls before `b`.
pub fn date_before(a: Date, b: Date) -> (r: bool)
    ensures
        r == date_lt(a, b),
{
    a.year < b.year || (a.year == b.year && (a.month < b.month || (a.month == b.month && a.day
        < b.day)))
}

/// Chronological order of datetimes.
pub open spec fn datetime_lt(a: DateTime, b: DateTime) -> bool {
    date_lt(a.date, b.date) || (a.date == b.date && (a.hour < b.hour || (a.hour == b.hour && (
    a.minute < b.minute || (a.minute == b.minute && (a.second < b.second || (a.second
        == b.second && a.subsec_nanosecond < b.subsec_nanosecond)))))))
}

/// The later of two datetimes.
pub open spec fn datetime_max(a: DateTime, b: DateTime) -> DateTime {
    if datetime_lt(a, b) { b } else { a }
}

/// The later of two datetimes (the first when they are equal).
pub fn later_of(a: DateTime, b: DateTime) -> (r: DateTime)
    ensures
        r == datetime_max(a, b),
{
    let lt = date_before(a.date, b.date) || (a.date == b.date && (a.hour < b.hour || (a.hour
        == b.hour && (a.minute < b.minute || (a.minute == b.minute && (a.second < b.second || (
    a.second == b.second && a.subsec_nanosecond < b.subsec_nanosecond)))))));
    if lt { b } else { a }
}

/// `jiff::civil::Date::new`: the date for year-month-day, or an error when
/// the year is outside `-9999..=9999`, the month outside `1..=12`, or the
/// day outside the month.
#[verifier::external_body]
pub(crate) fn date_new(year: i16, month: i8, day: i8) -> (r: Option<Date>)
    ensures
        r == ymd(year as int, month as int, day as int),
{
    jiff::civil::Date::new(year, month, day).ok().map(
        |d| Date { year: d.year(), month: d.month(), day: d.day() },
    )
}

/// The hours component of `now - earlier` as `jiff` spans it (days being
/// the largest unit, so the value lies in `-23..=23`).
pub uninterp spec fn span_hours_component(now: DateTime, earlier: DateTime) -> int;

/// The days component of `now - earlier` as `jiff` spans it (days being the
/// largest unit).
pub uninterp spec fn span_days_component(now: DateTime, earlier: DateTime) -> int;

/// `jiff` `DateTime - DateTime` (a span whose largest unit is days),
/// followed by `Span::get_days` and `Span::get_hours`: the days and the
/// hours components of the span between two datetimes.
#[verifier::external_body]
pub(crate) fn span_days_hours(now: DateTime, earlier: DateTime) -> (r: (i32, i32))
    requires
        now.wf(),
        earlier.wf(),
    ensures
        r.0 as int == span_days_component(now, earlier),
        r.1 as int == span_hours_component(now, earlier),
        -23 <= r.1 <= 23,
{
    let to_jiff = |d: DateTime| {
        jiff::civil::DateTime::new(
            d.date.year,
            d.date.month,
            d.date.day,
            d.hour,
            d.minute,
            d.second,
            d.subsec_nanosecond,
        ).unwrap()
    };
    let span = to_jiff(now) - to_jiff(earlier);
    (span.get_days(), span.get_hours())
}

/// `jiff::tz::Offset::from_seconds`, `TimeZone::fixed`, `Timestamp::now`,
/// `to_zoned` and `datetime`: the current civil datetime at a fixed offset
/// of `seconds` east of UTC. Nothing is stated of which datetime it is,
/// only that it is one.
#[verifier::external_body]
fn now_at_offset(seconds: i32) -> (r: DateTime)
    requires
        -93599 <= seconds <= 93599,
    ensures
        r.wf(),
{
    let tz = jiff::tz::TimeZone::fixed(jiff::tz::Offset::from_seconds(seconds).unwrap());
    let d = jiff::Timestamp::now().to_zoned(tz).datetime();
    DateTime {
        date: Date { year: d.year(), month: d.month(), day: d.day() },
        hour: d.hour(),
        minute: d.minute(),
        second: d.second(),
        subsec_nanosecond: d.subsec_nanosecond(),
    }
}

/// The current UTC civil datetime: provenance timestamps are UTC.
pub fn now_utc() -> (r: DateTime)
    ensures
        r.wf(),
{
    now_at_offset(0)
}

/// The offset of Indian Standard Time, in seconds east of UTC (5:30).
pub open spec fn ist_offset() -> int {
    19800
}

/// The current civil datetime in Indian Standard Time, the clock the
/// sync schedule and year-less dates go by.
pub fn now_ist() -> (r: DateTime)
    ensures
        r.wf(),
{
    now_at_offset(19800)
}

} // verus!
