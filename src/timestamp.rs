//! Calendar timestamps, held as plain fields and interpreted in UTC.
use vstd::prelude::*;

verus! {

/// Smallest year that the calendar backend represents.
pub const MIN_YEAR: i32 = -262143;
/// Largest year that the calendar backend represents.
pub const MAX_YEAR: i32 = 262142;

pub open spec fn is_leap_year(y: int) -> bool {
    y % 4 == 0 && (y % 100 != 0 || y % 400 == 0)
}

pub open spec fn days_in_month(y: int, m: int) -> int {
    if m == 2 {
        if is_leap_year(y) { 29 } else { 28 }
    } else if m == 4 || m == 6 || m == 9 || m == 11 {
        30
    } else {
        31
    }
}

/// A day of the proleptic Gregorian calendar within the supported years.
pub open spec fn is_calendar_date(y: int, m: int, d: int) -> bool {
    &&& MIN_YEAR <= y <= MAX_YEAR
    &&& 1 <= m <= 12
    &&& 1 <= d <= days_in_month(y, m)
}

/// A time of day without leap seconds.
pub open spec fn is_clock_time(h: int, mi: int, s: int) -> bool {
    0 <= h < 24 && 0 <= mi < 60 && 0 <= s < 60
}

/// ISO 8601 week-year and week number of a calendar date.
pub uninterp spec fn iso_week_of(year: int, month: int, day: int) -> (int, int);

/// Relies on chrono::NaiveDate::from_ymd_opt, which gives a date exactly for
/// the Gregorian days of its year range.
#[verifier::external_body]
fn calendar_date_exists(year: i32, month: u32, day: u32) -> (r: bool)
    ensures
        r == is_calendar_date(year as int, month as int, day as int),
{
    chrono::NaiveDate::from_ymd_opt(year, month, day).is_some()
}

/// Relies on chrono::NaiveTime::from_hms_opt, which gives a time exactly when
/// the hour is below 24 and the minute and second below 60.
#[verifier::external_body]
fn clock_time_exists(hour: u32, minute: u32, second: u32) -> (r: bool)
    ensures
        r == is_clock_time(hour as int, minute as int, second as int),
{
    chrono::NaiveTime::from_hms_opt(hour, minute, second).is_some()
}

/// Relies on chrono's `Datelike::iso_week` of a `NaiveDate`: the ISO
/// week-year and the week number, which lies between 1 and 53.
#[verifier::external_body]
fn iso_week(year: i32, month: u32, day: u32) -> (r: (i32, u32))
    requires
        is_calendar_date(year as int, month as int, day as int),
    ensures
        (r.0 as int, r.1 as int) == iso_week_of(year as int, month as int, day as int),
        1 <= r.1 <= 53,
{
    let date = chrono::NaiveDate::from_ymd_opt(year, month, day).unwrap();
    let week = chrono::Datelike::iso_week(&date);
    (week.year(), week.week())
}

/// A calendar instant at second resolution, in UTC.
#[derive(Clone, Copy, Debug, PartialEq, Eq, Structural, PartialOrd, Ord, Hash)]
pub struct Timestamp {
    pub year: i32,
    pub month: u32,
    pub day: u32,
    pub hour: u32,
    pub minute: u32,
    pub second: u32,
}

impl Timestamp {
    /// The fields name an existing day and time of day.
    pub open spec fn wf(self) -> bool {
        &&& is_calendar_date(self.year as int, self.month as int, self.day as int)
        &&& is_clock_time(self.hour as int, self.minute as int, self.second as int)
    }

    /// Builds a timestamp, or `None` where the day or the time of day does not exist.
    pub fn new(year: i32, month: u32, day: u32, hour: u32, minute: u32, second: u32) -> (r: Option<Timestamp>)
        ensures
            r is Some <==> is_calendar_date(year as int, month as int, day as int)
                && is_clock_time(hour as int, minute as int, second as int),
            r matches Some(t) ==> t.wf() && t == (Timestamp { year, month, day, hour, minute, second }),
    {
        if calendar_date_exists(year, month, day) && clock_time_exists(hour, minute, second) {
            Some(Timestamp { year, month, day, hour, minute, second })
        } else {
            None
        }
    }

    pub open spec fn iso_week_spec(self) -> (int, int) {
        iso_week_of(self.year as int, self.month as int, self.day as int)
    }

    /// ISO week-year and week number of the day.
    pub fn iso_week(&self) -> (r: (i32, u32))
        requires
            self.wf(),
        ensures
            (r.0 as int, r.1 as int) == self.iso_week_spec(),
            1 <= r.1 <= 53,
    {
        iso_week(self.year, self.month, self.day)
    }
}

/// `a` lies strictly before `b` in time.
pub open spec fn earlier(a: Timestamp, b: Timestamp) -> bool {
    if a.year != b.year {
        a.year < b.year
    } else if a.month != b.month {
        a.month < b.month
    } else if a.day != b.day {
        a.day < b.day
    } else if a.hour != b.hour {
        a.hour < b.hour
    } else if a.minute != b.minute {
        a.minute < b.minute
    } else {
        a.second < b.second
    }
}

/// Whether `a` lies strictly before `b` in time.
pub fn is_earlier(a: &Timestamp, b: &Timestamp) -> (r: bool)
    ensures
        r == earlier(*a, *b),
{
    if a.year != b.year {
        a.year < b.year
    } else if a.month != b.month {
        a.month < b.month
    } else if a.day != b.day {
        a.day < b.day
    } else if a.hour != b.hour {
        a.hour < b.hour
    } else if a.minute != b.minute {
        a.minute < b.minute
    } else {
        a.second < b.second
    }
}

} // verus!
