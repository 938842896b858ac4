//! The values that a pattern is rendered from: a calendar day, the fields of it
//! that patterns can ask for, and a time of day.
//!
//! Weekdays and ISO weeks are computed by `chrono`; everything else is plain
//! arithmetic on the fields.

use crate::style::Weekday;
use chrono::Datelike;
use vstd::prelude::*;

verus! {

/// The first year that a `Date` can hold.
pub const MIN_YEAR: i32 = -262143;

/// The last year that a `Date` can hold.
pub const MAX_YEAR: i32 = 262142;

/// Leap years of the proleptic Gregorian calendar, in astronomical
/// numbering (year 0 is 1 BCE, and a leap year).
pub open spec fn is_leap_year(year: int) -> bool {
    year % 4 == 0 && (year % 100 != 0 || year % 400 == 0)
}

/// The number of days of a month; 0 if there is no such month.
pub open spec fn days_in_month(year: int, month: int) -> int {
    if month == 2 {
        if is_leap_year(year) { 29 } else { 28 }
    } else if month == 4 || month == 6 || month == 9 || month == 11 {
        30
    } else if 1 <= month <= 12 {
        31
    } else {
        0
    }
}

/// Whether year, month and day name a day of the calendar that a `Date` can
/// hold.
pub open spec fn is_calendar_day(year: int, month: int, day: int) -> bool {
    &&& MIN_YEAR <= year <= MAX_YEAR
    &&& 1 <= month <= 12
    &&& 1 <= day <= days_in_month(year, month)
}

/// The number of days of the year that lie before the first of a month.
pub open spec fn days_before_month(year: int, month: int) -> int
    decreases month,
{
    if month <= 1 {
        0
    } else {
        days_before_month(year, month - 1) + days_in_month(year, month - 1)
    }
}

/// The day of the year, starting from 1.
pub open spec fn day_of_year(year: int, month: int, day: int) -> int {
    days_before_month(year, month) + day
}

/// The day of the week on which a calendar day falls, as
/// `chrono::NaiveDate::weekday` gives it.
pub uninterp spec fn weekday_on(year: i32, month: u32, day: u32) -> Weekday;

/// The ISO 8601 week in which a calendar day lies, as year and week number, as
/// `chrono::NaiveDate::iso_week` gives it.
pub uninterp spec fn iso_week_on(year: i32, month: u32, day: u32) -> (i32, u32);

/// Calls `chrono::NaiveDate::weekday` on the day built by
/// `chrono::NaiveDate::from_ymd_opt`. Claimed: the result depends on year,
/// month and day alone, and `from_ymd_opt` accepts every day of the calendar
/// between `MIN_YEAR` and `MAX_YEAR`.
#[verifier::external_body]
fn chrono_weekday(year: i32, month: u32, day: u32) -> (w: Weekday)
    requires
        is_calendar_day(year as int, month as int, day as int),
    ensures
        w == weekday_on(year, month, day),
{
    match chrono::NaiveDate::from_ymd_opt(year, month, day).unwrap().weekday() {
        chrono::Weekday::Mon => Weekday::Mon,
        chrono::Weekday::Tue => Weekday::Tue,
        chrono::Weekday::Wed => Weekday::Wed,
        chrono::Weekday::Thu => Weekday::Thu,
        chrono::Weekday::Fri => Weekday::Fri,
        chrono::Weekday::Sat => Weekday::Sat,
        chrono::Weekday::Sun => Weekday::Sun,
    }
}

/// Calls `chrono::NaiveDate::iso_week` on the day built by
/// `chrono::NaiveDate::from_ymd_opt`, and reads the week's year and number.
/// Claimed: the result depends on year, month and day alone, and
/// `from_ymd_opt` accepts every day of the calendar between `MIN_YEAR` and
/// `MAX_YEAR`.
#[verifier::external_body]
fn chrono_iso_week(year: i32, month: u32, day: u32) -> (w: (i32, u32))
    requires
        is_calendar_day(year as int, month as int, day as int),
    ensures
        w == iso_week_on(year, month, day),
{
    let week = chrono::NaiveDate::from_ymd_opt(year, month, day).unwrap().iso_week();
    (week.year(), week.week())
}

/// Whether `year` is a leap year.
pub fn leap_year(year: i32) -> (b: bool)
    ensures
        b == is_leap_year(year as int),
{
    year % 4 == 0 && (year % 100 != 0 || year % 400 == 0)
}

/// The number of days of a month; 0 if there is no such month.
pub fn month_length(year: i32, month: u32) -> (n: u32)
    ensures
        n == days_in_month(year as int, month as int),
{
    if month == 2 {
        if leap_year(year) { 29 } else { 28 }
    } else if month == 4 || month == 6 || month == 9 || month == 11 {
        30
    } else if 1 <= month && month <= 12 {
        31
    } else {
        0
    }
}

/// A day of the proleptic Gregorian calendar.
#[derive(Copy, Clone, Debug, PartialEq, Eq, Structural, Hash)]
pub struct Date {
    /// The year in astronomical numbering: 0 is 1 BCE.
    pub year: i32,
    /// The month, January being 1.
    pub month: u32,
    /// The day of the month, starting from 1.
    pub day: u32,
}

/// What a pattern can ask of a date.
#[derive(Copy, Clone, Debug, PartialEq, Eq, Structural, Hash)]
pub struct DateFields {
    /// The year in astronomical numbering: 0 is 1 BCE.
    pub year: i32,
    /// The month, January being 1.
    pub month: u32,
    /// The day of the month, starting from 1.
    pub day: u32,
    /// The day of the year, starting from 1.
    pub ordinal: u32,
    /// The day of the week.
    pub weekday: Weekday,
    /// The year to which the ISO 8601 week belongs.
    pub iso_year: i32,
    /// The number of the ISO 8601 week, starting from 1.
    pub iso_week: u32,
}

/// The fields of a calendar day.
pub open spec fn date_fields(date: Date) -> DateFields {
    DateFields {
        year: date.year,
        month: date.month,
        day: date.day,
        ordinal: day_of_year(date.year as int, date.month as int, date.day as int) as u32,
        weekday: weekday_on(date.year, date.month, date.day),
        iso_year: iso_week_on(date.year, date.month, date.day).0,
        iso_week: iso_week_on(date.year, date.month, date.day).1,
    }
}

impl Date {
    /// Whether this is a day of the calendar.
    pub open spec fn is_valid(&self) -> bool {
        is_calendar_day(self.year as int, self.month as int, self.day as int)
    }

    /// The date of a year, month and day, if there is such a day.
    pub fn from_ymd(year: i32, month: u32, day: u32) -> (r: Option<Date>)
        ensures
            r == if is_calendar_day(year as int, month as int, day as int) {
                Some(Date { year, month, day })
            } else {
                None
            },
    {
        if MIN_YEAR <= year && year <= MAX_YEAR && 1 <= month && month <= 12 && 1 <= day && day
            <= month_length(year, month) {
            Some(Date { year, month, day })
        } else {
            None
        }
    }

    /// The day of the year, starting from 1.
    pub fn ordinal(&self) -> (n: u32)
        requires
            self.is_valid(),
        ensures
            n == day_of_year(self.year as int, self.month as int, self.day as int),
    {
        let mut before: u32 = 0;
        let mut m: u32 = 1;
        while m < self.month
            invariant
                1 <= m <= self.month <= 12,
                before == days_before_month(self.year as int, m as int),
                before <= 31 * (m - 1),
            decreases self.month - m,
        {
            before = before + month_length(self.year, m);
            m = m + 1;
        }
        before + self.day
    }

    /// The fields of this day that a pattern can ask for.
    pub fn fields(&self) -> (f: DateFields)
        requires
            self.is_valid(),
        ensures
            f == date_fields(*self),
    {
        let week = chrono_iso_week(self.year, self.month, self.day);
        DateFields {
            year: self.year,
            month: self.month,
            day: self.day,
            ordinal: self.ordinal(),
            weekday: chrono_weekday(self.year, self.month, self.day),
            iso_year: week.0,
            iso_week: week.1,
        }
    }
}

/// A time of day. A leap second is written as second 59 with a nanosecond of
/// 1,000,000,000 or more.
#[derive(Copy, Clone, Debug, PartialEq, Eq, Structural, Hash)]
pub struct TimeOfDay {
    /// The hour, 0 to 23.
    pub hour: u32,
    /// The minute, 0 to 59.
    pub minute: u32,
    /// The second, 0 to 59.
    pub second: u32,
    /// The nanosecond since the whole second, below 2,000,000,000.
    pub nanosecond: u32,
}

/// Whether the four numbers are a time of day.
pub open spec fn is_time_of_day(hour: int, minute: int, second: int, nanosecond: int) -> bool {
    &&& 0 <= hour < 24
    &&& 0 <= minute < 60
    &&& 0 <= second < 60
    &&& 0 <= nanosecond < 2_000_000_000
}

impl TimeOfDay {
    /// Whether this is a time of day: at most the last nanosecond of a day
    /// that ends in a leap second.
    pub open spec fn is_valid(&self) -> bool {
        is_time_of_day(
            self.hour as int,
            self.minute as int,
            self.second as int,
            self.nanosecond as int,
        )
    }

    /// The time of an hour, minute and second, if there is such a time.
    pub fn from_hms(hour: u32, minute: u32, second: u32) -> (r: Option<TimeOfDay>)
        ensures
            r == TimeOfDay::from_hms_nano_spec(hour, minute, second, 0),
    {
        TimeOfDay::from_hms_nano(hour, minute, second, 0)
    }

    /// What `from_hms_nano` returns.
    pub open spec fn from_hms_nano_spec(
        hour: u32,
        minute: u32,
        second: u32,
        nanosecond: u32,
    ) -> Option<TimeOfDay> {
        if is_time_of_day(hour as int, minute as int, second as int, nanosecond as int) {
            Some(TimeOfDay { hour, minute, second, nanosecond })
        } else {
            None
        }
    }

    /// The time of an hour, minute, second and nanosecond, if there is such a
    /// time.
    pub fn from_hms_nano(hour: u32, minute: u32, second: u32, nanosecond: u32) -> (r: Option<
        TimeOfDay,
    >)
        ensures
            r == TimeOfDay::from_hms_nano_spec(hour, minute, second, nanosecond),
    {
        if hour < 24 && minute < 60 && second < 60 && nanosecond < 2_000_000_000 {
            Some(TimeOfDay { hour, minute, second, nanosecond })
        } else {
            None
        }
    }
}

} // verus!
