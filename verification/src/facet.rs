//! The locale facet: what a locale answers when the dispatcher asks it for a
//! name or a number, and the answers of the invariant locale.

use crate::error::FormatError;
use crate::number::{decimal, padded_number, push_decimal, push_number};
use crate::style::{Calendar, DayPeriod, FormatWidth, Weekday};
use vstd::prelude::*;
use vstd::string::*;

verus! {

/// What a facet method has done that had `text` to write: on `Ok` the sink
/// holds the text after what it held before, on `Err` the method returns
/// that error and the sink is as it was.
pub open spec fn wrote(
    text: Result<Seq<char>, FormatError>,
    before: Seq<char>,
    after: Seq<char>,
    r: Result<(), FormatError>,
) -> bool {
    match text {
        Ok(t) => r is Ok && after =~= before + t,
        Err(e) => r == Err::<(), FormatError>(e) && after == before,
    }
}

/// What a pattern lookup has returned that had `pattern` to return.
pub open spec fn resolved(
    pattern: Result<Seq<char>, FormatError>,
    r: Result<&str, FormatError>,
) -> bool {
    match pattern {
        Ok(p) => r matches Ok(s) && s@ == p,
        Err(e) => r matches Err(f) && f == e,
    }
}

/// Interface for formatting dates and times.
///
/// A facet is a read-only view of a locale's data: beside each method stands
/// a spec function that says what the method returns or writes, as a
/// function of its arguments alone. Unless a facet redefines them, the spec
/// functions give the answers of the invariant locale, which `InvariantTime`
/// makes; a facet that has nothing of its own to say to a call hands it on to
/// an `InvariantTime`. Currently only the Gregorian calendar is supported.
pub trait Time: Send + Sync {
    /// The pattern that `get_date_format` resolves `fmt` to. Unless redefined,
    /// `fmt` itself.
    open spec fn date_pattern(&self, fmt: Seq<char>) -> Result<Seq<char>, FormatError> {
        Ok(fmt)
    }

    /// The pattern that `get_time_format` resolves `fmt` to. Unless redefined,
    /// `fmt` itself.
    open spec fn time_pattern(&self, fmt: Seq<char>) -> Result<Seq<char>, FormatError> {
        Ok(fmt)
    }

    /// The pattern that `get_datetime_format` resolves `fmt` to. Unless
    /// redefined, `fmt` itself.
    open spec fn datetime_pattern(&self, fmt: Seq<char>) -> Result<Seq<char>, FormatError> {
        Ok(fmt)
    }

    /// The day on which this locale's weeks start. Unless redefined, Monday,
    /// as in ISO 8601.
    open spec fn week_start(&self) -> Weekday {
        Weekday::Mon
    }

    /// What `fmt_month` writes. Unless redefined, the English name of a month
    /// of the Gregorian calendar.
    open spec fn month_text(&self, w: FormatWidth, c: Calendar, n: u32) -> Result<
        Seq<char>,
        FormatError,
    > {
        if c == Calendar::Gregorian && 1 <= n <= 12 {
            Ok(in_width(english_month(n as int), w))
        } else {
            Err(FormatError::UnsupportedFieldForWidth)
        }
    }

    /// What `fmt_day` writes. Unless redefined, the English name of a day of
    /// the week, for the Gregorian calendar.
    open spec fn day_text(&self, w: FormatWidth, c: Calendar, d: Weekday) -> Result<
        Seq<char>,
        FormatError,
    > {
        if c == Calendar::Gregorian {
            Ok(in_width(english_day(d), w))
        } else {
            Err(FormatError::UnsupportedFieldForWidth)
        }
    }

    /// What `fmt_quarter` writes. Unless redefined, Q and the number.
    open spec fn quarter_text(&self, w: FormatWidth, c: Calendar, n: u32) -> Result<
        Seq<char>,
        FormatError,
    > {
        Ok(seq!['Q'] + decimal(n as nat))
    }

    /// What `fmt_period` writes. Unless redefined, AM or PM.
    open spec fn period_text(&self, w: FormatWidth, c: Calendar, p: DayPeriod) -> Result<
        Seq<char>,
        FormatError,
    > {
        match p {
            DayPeriod::AM | DayPeriod::Midnight => Ok("AM"@),
            DayPeriod::PM | DayPeriod::Noon => Ok("PM"@),
        }
    }

    /// What `fmt_era` writes. Unless redefined, BCE or CE, for the Gregorian
    /// calendar.
    open spec fn era_text(&self, w: FormatWidth, c: Calendar, n: u8) -> Result<
        Seq<char>,
        FormatError,
    > {
        if c == Calendar::Gregorian && n == 0 {
            Ok("BCE"@)
        } else if c == Calendar::Gregorian && n == 1 {
            Ok("CE"@)
        } else {
            Err(FormatError::UnsupportedFieldForWidth)
        }
    }

    /// What `fmt_number` writes. Unless redefined, the number in ASCII digits,
    /// zero-padded.
    open spec fn number_text(&self, n: i64, digits: usize) -> Result<Seq<char>, FormatError> {
        Ok(padded_number(n as int, digits as nat))
    }

    /// Get date format: the pattern of date fields that `fmt` stands for.
    ///
    /// # Errors
    ///
    /// Fails on a format that the locale does not know.
    fn get_date_format<'a>(&'a self, fmt: &'a str) -> (r: Result<&'a str, FormatError>)
        ensures
            resolved(self.date_pattern(fmt@), r),
    ;

    /// Get time format: the pattern of time fields that `fmt` stands for.
    ///
    /// # Errors
    ///
    /// Fails on a format that the locale does not know.
    fn get_time_format<'a>(&'a self, fmt: &'a str) -> (r: Result<&'a str, FormatError>)
        ensures
            resolved(self.time_pattern(fmt@), r),
    ;

    /// Get date+time format: the pattern of date and time fields that `fmt`
    /// stands for.
    ///
    /// # Errors
    ///
    /// Fails on a format that the locale does not know.
    fn get_datetime_format<'a>(&'a self, fmt: &'a str) -> (r: Result<&'a str, FormatError>)
        ensures
            resolved(self.datetime_pattern(fmt@), r),
    ;

    /// Get the day on which weeks start.
    fn get_week_start(&self) -> (d: Weekday)
        ensures
            d == self.week_start(),
    ;

    /// Print month name.
    ///
    ///  - `w`: Format variant and width.
    ///  - `c`: Calendar.
    ///  - `n`: The month number. January = 1.
    fn fmt_month(&self, w: FormatWidth, c: Calendar, n: u32, out: &mut String) -> (r: Result<
        (),
        FormatError,
    >)
        ensures
            wrote(self.month_text(w, c, n), old(out)@, final(out)@, r),
    ;

    /// Print day of week name.
    ///
    ///  - `w`: Format variant and width.
    ///  - `c`: Calendar.
    ///  - `d`: The day of the week.
    fn fmt_day(&self, w: FormatWidth, c: Calendar, d: Weekday, out: &mut String) -> (r: Result<
        (),
        FormatError,
    >)
        ensures
            wrote(self.day_text(w, c, d), old(out)@, final(out)@, r),
    ;

    /// Print quarter name.
    ///
    ///  - `w`: Format variant and width.
    ///  - `c`: Calendar.
    ///  - `n`: The quarter number. 1 to 4.
    fn fmt_quarter(&self, w: FormatWidth, c: Calendar, n: u32, out: &mut String) -> (r: Result<
        (),
        FormatError,
    >)
        ensures
            wrote(self.quarter_text(w, c, n), old(out)@, final(out)@, r),
    ;

    /// Print day period name.
    ///
    ///  - `w`: Format variant and width.
    ///  - `c`: Calendar.
    ///  - `p`: The day period.
    fn fmt_period(&self, w: FormatWidth, c: Calendar, p: DayPeriod, out: &mut String) -> (r:
        Result<(), FormatError>)
        ensures
            wrote(self.period_text(w, c, p), old(out)@, final(out)@, r),
    ;

    /// Print era name.
    ///
    ///  - `w`: Format variant and width.
    ///  - `c`: Calendar.
    ///  - `n`: The era. 0 = BCE, 1 = CE.
    fn fmt_era(&self, w: FormatWidth, c: Calendar, n: u8, out: &mut String) -> (r: Result<
        (),
        FormatError,
    >)
        ensures
            wrote(self.era_text(w, c, n), old(out)@, final(out)@, r),
    ;

    /// Print a number.
    ///
    ///  - `n`: The number to format.
    ///  - `digits`: The number of digits to pad it to.
    fn fmt_number(&self, n: i64, digits: usize, out: &mut String) -> (r: Result<(), FormatError>)
        ensures
            wrote(self.number_text(n, digits), old(out)@, final(out)@, r),
    ;
}

/// The English name of a month of the Gregorian calendar; empty if there is
/// no such month.
pub open spec fn english_month(n: int) -> Seq<char> {
    if n == 1 {
        "January"@
    } else if n == 2 {
        "February"@
    } else if n == 3 {
        "March"@
    } else if n == 4 {
        "April"@
    } else if n == 5 {
        "May"@
    } else if n == 6 {
        "June"@
    } else if n == 7 {
        "July"@
    } else if n == 8 {
        "August"@
    } else if n == 9 {
        "September"@
    } else if n == 10 {
        "October"@
    } else if n == 11 {
        "November"@
    } else if n == 12 {
        "December"@
    } else {
        Seq::empty()
    }
}

/// The English name of a day of the week.
pub open spec fn english_day(d: Weekday) -> Seq<char> {
    match d {
        Weekday::Sun => "Sunday"@,
        Weekday::Mon => "Monday"@,
        Weekday::Tue => "Tuesday"@,
        Weekday::Wed => "Wednesday"@,
        Weekday::Thu => "Thursday"@,
        Weekday::Fri => "Friday"@,
        Weekday::Sat => "Saturday"@,
    }
}

/// A name in a width: whole when wide, its first three characters when
/// abbreviated or short, its first character when narrow.
pub open spec fn in_width(name: Seq<char>, w: FormatWidth) -> Seq<char> {
    match w {
        FormatWidth::FormatWide | FormatWidth::StandAloneWide => name,
        FormatWidth::FormatAbbr
        | FormatWidth::StandAloneAbbr
        | FormatWidth::FormatShort
        | FormatWidth::StandAloneShort => name.take(3),
        FormatWidth::FormatNarrow | FormatWidth::StandAloneNarrow => name.take(1),
    }
}

fn month_name(n: u32) -> (name: &'static str)
    requires
        1 <= n <= 12,
    ensures
        name@ == english_month(n as int),
        name@.len() >= 3,
{
    proof {
        reveal_strlit("January");
        reveal_strlit("February");
        reveal_strlit("March");
        reveal_strlit("April");
        reveal_strlit("May");
        reveal_strlit("June");
        reveal_strlit("July");
        reveal_strlit("August");
        reveal_strlit("September");
        reveal_strlit("October");
        reveal_strlit("November");
        reveal_strlit("December");
    }
    if n == 1 {
        "January"
    } else if n == 2 {
        "February"
    } else if n == 3 {
        "March"
    } else if n == 4 {
        "April"
    } else if n == 5 {
        "May"
    } else if n == 6 {
        "June"
    } else if n == 7 {
        "July"
    } else if n == 8 {
        "August"
    } else if n == 9 {
        "September"
    } else if n == 10 {
        "October"
    } else if n == 11 {
        "November"
    } else {
        "December"
    }
}

fn day_name(d: Weekday) -> (name: &'static str)
    ensures
        name@ == english_day(d),
        name@.len() >= 3,
{
    proof {
        reveal_strlit("Sunday");
        reveal_strlit("Monday");
        reveal_strlit("Tuesday");
        reveal_strlit("Wednesday");
        reveal_strlit("Thursday");
        reveal_strlit("Friday");
        reveal_strlit("Saturday");
    }
    match d {
        Weekday::Sun => "Sunday",
        Weekday::Mon => "Monday",
        Weekday::Tue => "Tuesday",
        Weekday::Wed => "Wednesday",
        Weekday::Thu => "Thursday",
        Weekday::Fri => "Friday",
        Weekday::Sat => "Saturday",
    }
}

fn push_in_width(name: &str, w: FormatWidth, out: &mut String)
    requires
        name@.len() >= 3,
    ensures
        final(out)@ == old(out)@ + in_width(name@, w),
{
    match w {
        FormatWidth::FormatWide | FormatWidth::StandAloneWide => {
            out.append(name);
        },
        FormatWidth::FormatAbbr
        | FormatWidth::StandAloneAbbr
        | FormatWidth::FormatShort
        | FormatWidth::StandAloneShort => {
            out.append(name.substring_char(0, 3));
        },
        FormatWidth::FormatNarrow | FormatWidth::StandAloneNarrow => {
            out.append(name.substring_char(0, 1));
        },
    }
}

/// The facet of the invariant locale: English names of the Gregorian
/// calendar, weeks that start on Monday, plain ASCII digits, and every format
/// taken as the pattern itself.
#[derive(Copy, Clone, Debug, PartialEq, Eq, Structural, Hash)]
pub struct InvariantTime {}

impl Default for InvariantTime {
    fn default() -> (facet: InvariantTime)
        ensures
            facet == (InvariantTime {  }),
    {
        InvariantTime {  }
    }
}

impl Time for InvariantTime {
    fn get_date_format<'a>(&'a self, fmt: &'a str) -> (r: Result<&'a str, FormatError>) {
        Ok(fmt)
    }

    fn get_time_format<'a>(&'a self, fmt: &'a str) -> (r: Result<&'a str, FormatError>) {
        Ok(fmt)
    }

    fn get_datetime_format<'a>(&'a self, fmt: &'a str) -> (r: Result<&'a str, FormatError>) {
        Ok(fmt)
    }

    fn get_week_start(&self) -> (d: Weekday) {
        Weekday::Mon
    }

    fn fmt_month(&self, w: FormatWidth, c: Calendar, n: u32, out: &mut String) -> (r: Result<
        (),
        FormatError,
    >) {
        if c != Calendar::Gregorian || n < 1 || n > 12 {
            return Err(FormatError::UnsupportedFieldForWidth);
        }
        push_in_width(month_name(n), w, out);
        Ok(())
    }

    fn fmt_day(&self, w: FormatWidth, c: Calendar, d: Weekday, out: &mut String) -> (r: Result<
        (),
        FormatError,
    >) {
        if c != Calendar::Gregorian {
            return Err(FormatError::UnsupportedFieldForWidth);
        }
        push_in_width(day_name(d), w, out);
        Ok(())
    }

    fn fmt_quarter(&self, w: FormatWidth, c: Calendar, n: u32, out: &mut String) -> (r: Result<
        (),
        FormatError,
    >) {
        out.push('Q');
        push_decimal(n as u64, out);
        assert(out@ =~= old(out)@ + (seq!['Q'] + decimal(n as nat)));
        Ok(())
    }

    fn fmt_period(&self, w: FormatWidth, c: Calendar, p: DayPeriod, out: &mut String) -> (r:
        Result<(), FormatError>) {
        match p {
            DayPeriod::AM | DayPeriod::Midnight => out.append("AM"),
            DayPeriod::PM | DayPeriod::Noon => out.append("PM"),
        }
        Ok(())
    }

    fn fmt_era(&self, w: FormatWidth, c: Calendar, n: u8, out: &mut String) -> (r: Result<
        (),
        FormatError,
    >) {
        if c != Calendar::Gregorian {
            return Err(FormatError::UnsupportedFieldForWidth);
        }
        if n == 0 {
            out.append("BCE");
            Ok(())
        } else if n == 1 {
            out.append("CE");
            Ok(())
        } else {
            Err(FormatError::UnsupportedFieldForWidth)
        }
    }

    fn fmt_number(&self, n: i64, digits: usize, out: &mut String) -> (r: Result<
        (),
        FormatError,
    >) {
        push_number(n, digits, out);
        Ok(())
    }
}

} // verus!
