//! The field dispatcher: from a field of a pattern and the values at hand to
//! the one call on the locale facet that renders it.
//!
//! The choice of the call is a function of plain values (`date_call`,
//! `time_call`); `call_facet` then makes it.

use crate::calendar::{DateFields, TimeOfDay};
use crate::error::FormatError;
use crate::facet::{wrote, Time};
use crate::number::{lemma_pow10_positive, lemma_pow10_split, pow10};
use crate::style::{Calendar, DayPeriod, FormatWidth, MetaZoneInfo, TimeZoneInfo, Weekday};
use crate::symbol::{date_symbol, is_zone_symbol, time_symbol, zone_symbol};
use vstd::arithmetic::div_mod::{
    lemma_div_multiples_vanish, lemma_div_multiples_vanish_quotient,
};
use vstd::prelude::*;
use vstd::string::*;

verus! {

/// One call on a locale facet, with its arguments. The calendar handed over
/// is always the Gregorian one.
#[derive(Copy, Clone, Debug, PartialEq, Eq, Structural, Hash)]
pub enum FacetCall {
    /// `fmt_number`.
    Number { value: i64, digits: usize },
    /// `fmt_month`.
    Month { width: FormatWidth, month: u32 },
    /// `fmt_day`.
    Day { width: FormatWidth, day: Weekday },
    /// `fmt_quarter`.
    Quarter { width: FormatWidth, quarter: u32 },
    /// `fmt_period`.
    Period { width: FormatWidth, period: DayPeriod },
    /// `fmt_era`.
    Era { width: FormatWidth, era: u8 },
}

/// The longest fractional second that can be asked for: the nine digits of a
/// nanosecond and nine zeros are the most that a number handed to a facet
/// holds.
pub const MAX_FRACTION_DIGITS: usize = 18;

/// The width of a name that a field of `count` letters asks for: one to
/// three letters the abbreviated name, four the wide one, five the narrow
/// one.
pub open spec fn name_width(count: usize, stand_alone: bool) -> Option<FormatWidth> {
    if 1 <= count <= 3 {
        Some(if stand_alone { FormatWidth::StandAloneAbbr } else { FormatWidth::FormatAbbr })
    } else if count == 4 {
        Some(if stand_alone { FormatWidth::StandAloneWide } else { FormatWidth::FormatWide })
    } else if count == 5 {
        Some(if stand_alone { FormatWidth::StandAloneNarrow } else { FormatWidth::FormatNarrow })
    } else {
        None
    }
}

/// The width of the name of a weekday: as `name_width`, and six letters ask
/// for the short name.
pub open spec fn day_name_width(count: usize, stand_alone: bool) -> Option<FormatWidth> {
    if count == 6 {
        Some(if stand_alone { FormatWidth::StandAloneShort } else { FormatWidth::FormatShort })
    } else {
        name_width(count, stand_alone)
    }
}

/// The era of a year: 1 (CE) from year 1 on, 0 (BCE) before.
pub open spec fn era_of(year: int) -> int {
    if year >= 1 { 1 } else { 0 }
}

/// The year counted within its era: year 0 is 1 BCE, year -1 is 2 BCE.
pub open spec fn year_of_era(year: int) -> int {
    if year >= 1 { year } else { 1 - year }
}

/// The last two digits of a year, with the sign of the year.
pub open spec fn last_two_digits(year: int) -> int {
    if year >= 0 { year % 100 } else { -((-year) % 100) }
}

/// A year as a field of `count` letters shows it: two letters ask for its
/// last two digits, any other number for the whole year.
pub open spec fn shown_year(year: int, count: usize) -> int {
    if count == 2 { last_two_digits(year) } else { year }
}

/// The quarter of a month: 1 for January to March, 4 for October to
/// December.
pub open spec fn quarter_of(month: int) -> int {
    (month - 1) / 3 + 1
}

/// The place of a day in a week that starts on `week_start`: 1 for the first
/// day of the week, 7 for the last.
pub open spec fn day_in_week(day: Weekday, week_start: Weekday) -> int {
    (day.days_from_sunday() + 7 - week_start.days_from_sunday()) % 7 + 1
}

/// The half of the day in which an hour lies.
pub open spec fn half_of_day(hour: int) -> DayPeriod {
    if hour < 12 { DayPeriod::AM } else { DayPeriod::PM }
}

/// The period of a time of day: midnight and noon on the second, else the
/// half of the day.
pub open spec fn period_of(time: TimeOfDay) -> DayPeriod {
    if time.hour == 0 && time.minute == 0 && time.second == 0 {
        DayPeriod::Midnight
    } else if time.hour == 12 && time.minute == 0 && time.second == 0 {
        DayPeriod::Noon
    } else {
        half_of_day(time.hour as int)
    }
}

/// The hour on a clock of 1 to 12.
pub open spec fn hour_1_to_12(hour: int) -> int {
    if hour % 12 == 0 { 12 } else { hour % 12 }
}

/// The hour on a clock of 1 to 24, on which midnight is 24.
pub open spec fn hour_1_to_24(hour: int) -> int {
    if hour == 0 { 24 } else { hour }
}

/// The second that a clock shows: a leap second, kept as second 59 with a
/// nanosecond of 1,000,000,000 or more, is second 60.
pub open spec fn shown_second(time: TimeOfDay) -> int {
    time.second + if time.nanosecond >= 1_000_000_000 { 1int } else { 0int }
}

/// The fraction of the second in `digits` digits: the nanoseconds since the
/// second shown, cut to their first `digits` digits where that is less than
/// nine, and followed by zeros where it is more.
pub open spec fn fraction_of(nanosecond: int, digits: nat) -> int {
    (nanosecond % 1_000_000_000) * pow10(digits) / 1_000_000_000
}

/// The call that a numeric field makes.
pub open spec fn number_call(value: int, count: usize) -> Result<FacetCall, FormatError> {
    Ok(FacetCall::Number { value: value as i64, digits: count })
}

/// The call that renders a field of a date: `count` letters `symbol`.
pub open spec fn date_call(symbol: char, count: usize, date: DateFields, week_start: Weekday)
    -> Result<FacetCall, FormatError> {
    if symbol == 'G' {
        match name_width(count, false) {
            Some(width) => Ok(FacetCall::Era { width, era: era_of(date.year as int) as u8 }),
            None => Err(FormatError::UnsupportedFieldForWidth),
        }
    } else if symbol == 'y' {
        number_call(shown_year(year_of_era(date.year as int), count), count)
    } else if symbol == 'Y' {
        number_call(shown_year(date.iso_year as int, count), count)
    } else if symbol == 'u' {
        number_call(date.year as int, count)
    } else if symbol == 'q' || symbol == 'Q' {
        if count <= 2 {
            number_call(quarter_of(date.month as int), count)
        } else {
            match name_width(count, symbol == 'q') {
                Some(width) => Ok(
                    FacetCall::Quarter { width, quarter: quarter_of(date.month as int) as u32 },
                ),
                None => Err(FormatError::UnsupportedFieldForWidth),
            }
        }
    } else if symbol == 'M' || symbol == 'L' {
        if count <= 2 {
            number_call(date.month as int, count)
        } else {
            match name_width(count, symbol == 'L') {
                Some(width) => Ok(FacetCall::Month { width, month: date.month }),
                None => Err(FormatError::UnsupportedFieldForWidth),
            }
        }
    } else if symbol == 'w' {
        number_call(date.iso_week as int, count)
    } else if symbol == 'd' {
        number_call(date.day as int, count)
    } else if symbol == 'D' {
        number_call(date.ordinal as int, count)
    } else if symbol == 'E' || symbol == 'e' || symbol == 'c' {
        if symbol != 'E' && 1 <= count <= 2 {
            number_call(day_in_week(date.weekday, week_start), count)
        } else {
            match day_name_width(count, symbol == 'c') {
                Some(width) => Ok(FacetCall::Day { width, day: date.weekday }),
                None => Err(FormatError::UnsupportedFieldForWidth),
            }
        }
    } else {
        Err(FormatError::UnknownFieldSymbol)
    }
}

/// The call that renders a field of a time of day: `count` letters `symbol`.
pub open spec fn time_call(symbol: char, count: usize, time: TimeOfDay) -> Result<
    FacetCall,
    FormatError,
> {
    if symbol == 'a' || symbol == 'b' {
        match name_width(count, false) {
            Some(width) => Ok(
                FacetCall::Period {
                    width,
                    period: if symbol == 'a' {
                        half_of_day(time.hour as int)
                    } else {
                        period_of(time)
                    },
                },
            ),
            None => Err(FormatError::UnsupportedFieldForWidth),
        }
    } else if symbol == 'h' {
        number_call(hour_1_to_12(time.hour as int), count)
    } else if symbol == 'H' {
        number_call(time.hour as int, count)
    } else if symbol == 'K' {
        number_call(time.hour as int % 12, count)
    } else if symbol == 'k' {
        number_call(hour_1_to_24(time.hour as int), count)
    } else if symbol == 'm' {
        number_call(time.minute as int, count)
    } else if symbol == 's' {
        number_call(shown_second(time), count)
    } else if symbol == 'S' {
        if count <= MAX_FRACTION_DIGITS {
            number_call(fraction_of(time.nanosecond as int, count as nat), count)
        } else {
            Err(FormatError::UnsupportedFieldForWidth)
        }
    } else {
        Err(FormatError::UnknownFieldSymbol)
    }
}

/// What a field of a zone renders to. No zone field has a rendering yet:
/// each is refused, whatever zone is at hand.
pub open spec fn zone_text(
    symbol: char,
    count: usize,
    tzinfo: TimeZoneInfo,
    mzinfo: MetaZoneInfo,
) -> Result<Seq<char>, FormatError> {
    if zone_symbol(symbol) {
        Err(FormatError::UnsupportedFieldForWidth)
    } else {
        Err(FormatError::UnknownFieldSymbol)
    }
}

/// What the facet writes when `call` is made on it.
pub open spec fn call_text<F: Time + ?Sized>(facet: &F, call: FacetCall) -> Result<
    Seq<char>,
    FormatError,
> {
    match call {
        FacetCall::Number { value, digits } => facet.number_text(value, digits),
        FacetCall::Month { width, month } => facet.month_text(width, Calendar::Gregorian, month),
        FacetCall::Day { width, day } => facet.day_text(width, Calendar::Gregorian, day),
        FacetCall::Quarter { width, quarter } => facet.quarter_text(
            width,
            Calendar::Gregorian,
            quarter,
        ),
        FacetCall::Period { width, period } => facet.period_text(
            width,
            Calendar::Gregorian,
            period,
        ),
        FacetCall::Era { width, era } => facet.era_text(width, Calendar::Gregorian, era),
    }
}

/// What a chosen call renders to, or the error of the choice.
pub open spec fn chosen_text<F: Time + ?Sized>(
    facet: &F,
    choice: Result<FacetCall, FormatError>,
) -> Result<Seq<char>, FormatError> {
    match choice {
        Ok(call) => call_text(facet, call),
        Err(e) => Err(e),
    }
}

/// What a field of a date renders to under a facet.
pub open spec fn date_text<F: Time + ?Sized>(
    facet: &F,
    symbol: char,
    count: usize,
    date: DateFields,
) -> Result<Seq<char>, FormatError> {
    chosen_text(facet, date_call(symbol, count, date, facet.week_start()))
}

/// What a field of a time of day renders to under a facet.
pub open spec fn time_text<F: Time + ?Sized>(
    facet: &F,
    symbol: char,
    count: usize,
    time: TimeOfDay,
) -> Result<Seq<char>, FormatError> {
    chosen_text(facet, time_call(symbol, count, time))
}

/// What a field renders to, given what the caller supplied. A field whose
/// date, time or zone is missing is refused.
pub open spec fn field_text<F: Time + ?Sized>(
    facet: &F,
    symbol: char,
    count: usize,
    date: Option<DateFields>,
    time: Option<TimeOfDay>,
    tzinfo: TimeZoneInfo,
    mzinfo: MetaZoneInfo,
) -> Result<Seq<char>, FormatError> {
    if date_symbol(symbol) {
        match date {
            Some(d) => date_text(facet, symbol, count, d),
            None => Err(FormatError::MissingRequiredInput),
        }
    } else if time_symbol(symbol) {
        match time {
            Some(t) => time_text(facet, symbol, count, t),
            None => Err(FormatError::MissingRequiredInput),
        }
    } else if zone_symbol(symbol) {
        if tzinfo is Absent {
            Err(FormatError::MissingRequiredInput)
        } else {
            zone_text(symbol, count, tzinfo, mzinfo)
        }
    } else {
        Err(FormatError::UnknownFieldSymbol)
    }
}

fn name_width_of(count: usize, stand_alone: bool) -> (w: Option<FormatWidth>)
    ensures
        w == name_width(count, stand_alone),
{
    if 1 <= count && count <= 3 {
        Some(if stand_alone { FormatWidth::StandAloneAbbr } else { FormatWidth::FormatAbbr })
    } else if count == 4 {
        Some(if stand_alone { FormatWidth::StandAloneWide } else { FormatWidth::FormatWide })
    } else if count == 5 {
        Some(if stand_alone { FormatWidth::StandAloneNarrow } else { FormatWidth::FormatNarrow })
    } else {
        None
    }
}

fn day_name_width_of(count: usize, stand_alone: bool) -> (w: Option<FormatWidth>)
    ensures
        w == day_name_width(count, stand_alone),
{
    if count == 6 {
        Some(if stand_alone { FormatWidth::StandAloneShort } else { FormatWidth::FormatShort })
    } else {
        name_width_of(count, stand_alone)
    }
}

fn year_shown(year: i64, count: usize) -> (shown: i64)
    requires
        i32::MIN <= year <= -(i32::MIN as int) + 1,
    ensures
        shown == shown_year(year as int, count),
{
    if count != 2 {
        year
    } else if year >= 0 {
        year % 100
    } else {
        -((-year) % 100)
    }
}

fn number(value: i64, count: usize) -> (r: Result<FacetCall, FormatError>)
    ensures
        r == number_call(value as int, count),
{
    Ok(FacetCall::Number { value, digits: count })
}

/// Ten to the power of `e`.
fn power_of_ten(e: usize) -> (p: i64)
    requires
        e <= 9,
    ensures
        p == pow10(e as nat),
        1 <= p <= 1_000_000_000,
{
    proof {
        reveal_with_fuel(pow10, 10);
    }
    if e == 0 {
        1
    } else if e == 1 {
        10
    } else if e == 2 {
        100
    } else if e == 3 {
        1_000
    } else if e == 4 {
        10_000
    } else if e == 5 {
        100_000
    } else if e == 6 {
        1_000_000
    } else if e == 7 {
        10_000_000
    } else if e == 8 {
        100_000_000
    } else {
        1_000_000_000
    }
}

fn fraction(nanosecond: u32, count: usize) -> (value: i64)
    requires
        count <= MAX_FRACTION_DIGITS,
    ensures
        value == fraction_of(nanosecond as int, count as nat),
{
    let rest: i64 = (nanosecond % 1_000_000_000) as i64;
    proof {
        reveal_with_fuel(pow10, 10);
        assert(pow10(9) == 1_000_000_000);
    }
    if count <= 9 {
        let cut = power_of_ten(9 - count);
        proof {
            let kept = pow10(count as nat) as int;
            lemma_pow10_split(9, count as nat);
            lemma_pow10_positive(count as nat);
            lemma_div_multiples_vanish_quotient(kept, rest as int, cut as int);
            assert(rest * kept == kept * rest) by (nonlinear_arith);
        }
        rest / cut
    } else {
        let zeros = power_of_ten(count - 9);
        proof {
            lemma_pow10_split(count as nat, 9);
            let billion = 1_000_000_000int;
            assert(rest * (billion * zeros) == billion * (rest * zeros)) by (nonlinear_arith);
            lemma_div_multiples_vanish(rest * zeros, billion);
            assert(rest * zeros < 1_000_000_000 * 1_000_000_000) by (nonlinear_arith)
                requires
                    0 <= rest < 1_000_000_000,
                    1 <= zeros <= 1_000_000_000,
            ;
            assert(0 <= rest * zeros) by (nonlinear_arith)
                requires
                    0 <= rest,
                    1 <= zeros,
            ;
        }
        rest * zeros
    }
}

/// Chooses the call that renders a field of a date.
pub fn date_field_call(symbol: char, count: usize, date: &DateFields, week_start: Weekday) -> (r:
    Result<FacetCall, FormatError>)
    ensures
        r == date_call(symbol, count, *date, week_start),
{
    let year: i64 = date.year as i64;
    if symbol == 'G' {
        match name_width_of(count, false) {
            Some(width) => Ok(FacetCall::Era { width, era: if year >= 1 { 1 } else { 0 } }),
            None => Err(FormatError::UnsupportedFieldForWidth),
        }
    } else if symbol == 'y' {
        number(year_shown(if year >= 1 { year } else { 1 - year }, count), count)
    } else if symbol == 'Y' {
        number(year_shown(date.iso_year as i64, count), count)
    } else if symbol == 'u' {
        number(year, count)
    } else if symbol == 'q' || symbol == 'Q' {
        let quarter: u32 = ((date.month as u64 + 2) / 3) as u32;
        if count <= 2 {
            number(quarter as i64, count)
        } else {
            match name_width_of(count, symbol == 'q') {
                Some(width) => Ok(FacetCall::Quarter { width, quarter }),
                None => Err(FormatError::UnsupportedFieldForWidth),
            }
        }
    } else if symbol == 'M' || symbol == 'L' {
        if count <= 2 {
            number(date.month as i64, count)
        } else {
            match name_width_of(count, symbol == 'L') {
                Some(width) => Ok(FacetCall::Month { width, month: date.month }),
                None => Err(FormatError::UnsupportedFieldForWidth),
            }
        }
    } else if symbol == 'w' {
        number(date.iso_week as i64, count)
    } else if symbol == 'd' {
        number(date.day as i64, count)
    } else if symbol == 'D' {
        number(date.ordinal as i64, count)
    } else if symbol == 'E' || symbol == 'e' || symbol == 'c' {
        if symbol != 'E' && 1 <= count && count <= 2 {
            let place: u32 = (date.weekday.num_days_from_sunday() + 7
                - week_start.num_days_from_sunday()) % 7 + 1;
            number(place as i64, count)
        } else {
            match day_name_width_of(count, symbol == 'c') {
                Some(width) => Ok(FacetCall::Day { width, day: date.weekday }),
                None => Err(FormatError::UnsupportedFieldForWidth),
            }
        }
    } else {
        Err(FormatError::UnknownFieldSymbol)
    }
}

/// Chooses the call that renders a field of a time of day.
pub fn time_field_call(symbol: char, count: usize, time: &TimeOfDay) -> (r: Result<
    FacetCall,
    FormatError,
>)
    ensures
        r == time_call(symbol, count, *time),
{
    if symbol == 'a' || symbol == 'b' {
        let half = if time.hour < 12 { DayPeriod::AM } else { DayPeriod::PM };
        let on_the_second = time.minute == 0 && time.second == 0;
        let period = if symbol == 'a' {
            half
        } else if time.hour == 0 && on_the_second {
            DayPeriod::Midnight
        } else if time.hour == 12 && on_the_second {
            DayPeriod::Noon
        } else {
            half
        };
        match name_width_of(count, false) {
            Some(width) => Ok(FacetCall::Period { width, period }),
            None => Err(FormatError::UnsupportedFieldForWidth),
        }
    } else if symbol == 'h' {
        let hour: u32 = time.hour % 12;
        number(if hour == 0 { 12 } else { hour as i64 }, count)
    } else if symbol == 'H' {
        number(time.hour as i64, count)
    } else if symbol == 'K' {
        number((time.hour % 12) as i64, count)
    } else if symbol == 'k' {
        number(if time.hour == 0 { 24 } else { time.hour as i64 }, count)
    } else if symbol == 'm' {
        number(time.minute as i64, count)
    } else if symbol == 's' {
        let carry: i64 = if time.nanosecond >= 1_000_000_000 { 1 } else { 0 };
        number(time.second as i64 + carry, count)
    } else if symbol == 'S' {
        if count <= MAX_FRACTION_DIGITS {
            number(fraction(time.nanosecond, count), count)
        } else {
            Err(FormatError::UnsupportedFieldForWidth)
        }
    } else {
        Err(FormatError::UnknownFieldSymbol)
    }
}

/// Makes a call on the facet.
pub fn call_facet<F: Time + ?Sized>(facet: &F, call: FacetCall, out: &mut String) -> (r: Result<
    (),
    FormatError,
>)
    ensures
        wrote(call_text(facet, call), old(out)@, final(out)@, r),
{
    match call {
        FacetCall::Number { value, digits } => facet.fmt_number(value, digits, out),
        FacetCall::Month { width, month } => facet.fmt_month(
            width,
            Calendar::Gregorian,
            month,
            out,
        ),
        FacetCall::Day { width, day } => facet.fmt_day(width, Calendar::Gregorian, day, out),
        FacetCall::Quarter { width, quarter } => facet.fmt_quarter(
            width,
            Calendar::Gregorian,
            quarter,
            out,
        ),
        FacetCall::Period { width, period } => facet.fmt_period(
            width,
            Calendar::Gregorian,
            period,
            out,
        ),
        FacetCall::Era { width, era } => facet.fmt_era(width, Calendar::Gregorian, era, out),
    }
}

/// Renders a field of a date: `count` letters `symbol`.
pub fn do_format_date<F: Time + ?Sized>(
    facet: &F,
    date: &DateFields,
    symbol: char,
    count: usize,
    out: &mut String,
) -> (r: Result<(), FormatError>)
    ensures
        wrote(date_text(facet, symbol, count, *date), old(out)@, final(out)@, r),
{
    match date_field_call(symbol, count, date, facet.get_week_start()) {
        Ok(call) => call_facet(facet, call, out),
        Err(e) => Err(e),
    }
}

/// Renders a field of a time of day: `count` letters `symbol`.
pub fn do_format_time<F: Time + ?Sized>(
    facet: &F,
    time: &TimeOfDay,
    symbol: char,
    count: usize,
    out: &mut String,
) -> (r: Result<(), FormatError>)
    ensures
        wrote(time_text(facet, symbol, count, *time), old(out)@, final(out)@, r),
{
    match time_field_call(symbol, count, time) {
        Ok(call) => call_facet(facet, call, out),
        Err(e) => Err(e),
    }
}

/// Renders a field of a zone: `count` letters `symbol`. No zone field has a
/// rendering yet, so this refuses each and writes nothing.
pub fn do_format_zone<F: Time + ?Sized>(
    facet: &F,
    tzinfo: &TimeZoneInfo,
    mzinfo: &MetaZoneInfo,
    symbol: char,
    count: usize,
    out: &mut String,
) -> (r: Result<(), FormatError>)
    ensures
        wrote(zone_text(symbol, count, *tzinfo, *mzinfo), old(out)@, final(out)@, r),
{
    if is_zone_symbol(symbol) {
        Err(FormatError::UnsupportedFieldForWidth)
    } else {
        Err(FormatError::UnknownFieldSymbol)
    }
}

/// Writes literal text as it stands.
pub fn do_format_other(text: &str, out: &mut String) -> (r: Result<(), FormatError>)
    ensures
        r is Ok,
        final(out)@ == old(out)@ + text@,
{
    out.append(text);
    Ok(())
}

} // verus!
