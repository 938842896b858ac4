//! The closed vocabulary shared by the grammar, the dispatcher and the facets:
//! calendars, name widths, day periods, weekdays and zone descriptors.

use vstd::prelude::*;

verus! {

/// Calendar type.
///
/// Only the proleptic Gregorian calendar is populated. More calendars may be
/// added, so do not rely on the enum being complete.
#[derive(Copy, Clone, Debug, PartialEq, Eq, Structural, Hash, PartialOrd, Ord)]
pub enum Calendar {
    /// Gregorian proleptic calendar: dates are read as if the Gregorian
    /// calendar had been in force from the dawn of time.
    Gregorian,
    /// Extension placeholder; do not match!
    __MoreCalendars,
}

/// Format style and width of a name.
///
/// Format variants are in the case appropriate inside a complete date;
/// stand-alone variants are in the nominative, as for a calendar column
/// header. Each comes wide (the full name), abbreviated, short (a shorter
/// abbreviation, used for weekdays) and narrow (a single, not necessarily
/// unique, letter).
#[derive(Copy, Clone, Debug, PartialEq, Eq, Structural, Hash, PartialOrd, Ord)]
pub enum FormatWidth {
    FormatAbbr,
    FormatWide,
    FormatNarrow,
    FormatShort,
    StandAloneAbbr,
    StandAloneWide,
    StandAloneNarrow,
    StandAloneShort,
}

/// Classification of an instant of the day for period names.
#[derive(Copy, Clone, Debug, PartialEq, Eq, Structural, Hash, PartialOrd, Ord)]
pub enum DayPeriod {
    AM,
    PM,
    Midnight,
    Noon,
}

/// Day of the week.
#[derive(Copy, Clone, Debug, PartialEq, Eq, Structural, Hash)]
pub enum Weekday {
    Mon,
    Tue,
    Wed,
    Thu,
    Fri,
    Sat,
    Sun,
}

impl Weekday {
    /// Days since the last Sunday: Sunday is 0, Saturday is 6.
    pub open spec fn days_from_sunday(self) -> nat {
        match self {
            Weekday::Sun => 0,
            Weekday::Mon => 1,
            Weekday::Tue => 2,
            Weekday::Wed => 3,
            Weekday::Thu => 4,
            Weekday::Fri => 5,
            Weekday::Sat => 6,
        }
    }

    /// Days since the last Sunday: Sunday is 0, Saturday is 6.
    pub fn num_days_from_sunday(&self) -> (n: u32)
        ensures
            n == self.days_from_sunday(),
    {
        match self {
            Weekday::Sun => 0,
            Weekday::Mon => 1,
            Weekday::Tue => 2,
            Weekday::Wed => 3,
            Weekday::Thu => 4,
            Weekday::Fri => 5,
            Weekday::Sat => 6,
        }
    }
}

/// A CLDR meta-zone: a group of time zones that share their displayed names.
/// The number is the caller's key into its own zone data.
#[derive(Copy, Clone, Debug, PartialEq, Eq, Structural, Hash)]
pub struct MetaZone {
    pub id: u32,
}

/// `chrono::FixedOffset`, a fixed offset from UTC, carried through as it is:
/// nothing is read from it and nothing is claimed of it.
#[verifier::external_type_specification]
#[verifier::external_body]
pub struct ExFixedOffset(chrono::FixedOffset);

/// `chrono_tz::TzOffset`, the offset of a named zone at an instant, carried
/// through as it is: nothing is read from it and nothing is claimed of it.
#[verifier::external_type_specification]
#[verifier::external_body]
pub struct ExTzOffset(chrono_tz::TzOffset);

/// The zone context of a render call. With `Absent` no zone field may be
/// requested.
#[derive(Copy, Clone, Debug, PartialEq, Eq)]
pub enum TimeZoneInfo {
    /// No zone was supplied.
    Absent,
    /// The offset of a named zone at the instant rendered.
    Zone(chrono_tz::TzOffset),
    /// A fixed numeric offset from UTC.
    Offset(chrono::FixedOffset),
}

impl TimeZoneInfo {
    /// Whether a zone was supplied.
    pub fn is_some(&self) -> (b: bool)
        ensures
            b == !(*self is Absent),
    {
        match self {
            TimeZoneInfo::Absent => false,
            _ => true,
        }
    }
}

/// Which meta-zone name, if any, is to be preferred over a raw offset.
#[derive(Copy, Clone, Debug, PartialEq, Eq, Structural, Hash)]
pub enum MetaZoneInfo {
    /// No meta-zone name is preferred.
    Absent,
    Generic(MetaZone),
    Standard(MetaZone),
    Daylight(MetaZone),
}

} // verus!
