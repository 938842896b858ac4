use chrono::{Offset, TimeZone};
use locale::calendar::{Date, TimeOfDay};
use locale::facet::InvariantTime;
use locale::format::{format_datetime_to, format_directives, format_fields_to};
use locale::pattern::parse_pattern;
use locale::written::to_pattern;
use locale::{FormatError, MetaZone, MetaZoneInfo, TimeZoneInfo};

type Outcome = (String, Result<(), FormatError>);

fn render(date: Option<Date>, time: Option<TimeOfDay>, pattern: &str) -> Outcome {
    let mut out = String::new();
    let r = format_datetime_to(
        &InvariantTime {},
        date.as_ref(),
        time.as_ref(),
        &TimeZoneInfo::Absent,
        &MetaZoneInfo::Absent,
        pattern,
        &mut out,
    );
    (out, r)
}

fn day(year: i32, month: u32, day: u32) -> Option<Date> {
    Some(Date::from_ymd(year, month, day).unwrap())
}

fn clock(hour: u32, minute: u32, second: u32, nanosecond: u32) -> Option<TimeOfDay> {
    Some(TimeOfDay::from_hms_nano(hour, minute, second, nanosecond).unwrap())
}

fn ok(text: &str) -> Outcome {
    (text.to_string(), Ok(()))
}

fn fails(written: &str, e: FormatError) -> Outcome {
    (written.to_string(), Err(e))
}

#[test]
fn format_datetime() {
    let t = InvariantTime {};
    let mut out = String::new();
    let r = format_datetime_to(
        &t,
        Some(&Date::from_ymd(2017, 8, 9).unwrap()),
        Some(&TimeOfDay::from_hms(2, 3, 4).unwrap()),
        &TimeZoneInfo::Absent,
        &MetaZoneInfo::Absent,
        "yyyy-MM-dd'T'HH:mm:ss",
        &mut out,
    );
    assert_eq!(Ok(()), r);
    assert_eq!("2017-08-09T02:03:04", out);
}

#[test]
fn output_is_appended_to_the_sink() {
    let mut out = String::from("at ");
    let r = format_datetime_to(
        &InvariantTime {},
        None,
        Some(&TimeOfDay::from_hms(2, 3, 4).unwrap()),
        &TimeZoneInfo::Absent,
        &MetaZoneInfo::Absent,
        "HH:mm",
        &mut out,
    );
    assert_eq!(Ok(()), r);
    assert_eq!("at 02:03", out);
}

#[test]
fn literal_text_is_reproduced() {
    assert_eq!(ok("12:30 - 5/6, [x]"), render(day(2017, 8, 9), None, "12:30 - 5/6, ['x']"));
    assert_eq!(ok("12:30 - 5/6, []"), render(day(2017, 8, 9), None, "12:30 - 5/6, []"));
    assert_eq!(ok(""), render(day(2017, 8, 9), None, ""));
    assert_eq!(ok("\u{e9}\u{4e2d}"), render(None, clock(1, 2, 3, 0), "\u{e9}\u{4e2d}"));
}

#[test]
fn doubled_quote_is_one_quote() {
    assert_eq!(ok("'"), render(day(2017, 8, 9), None, "''"));
    assert_eq!(ok("''"), render(day(2017, 8, 9), None, "''''"));
    assert_eq!(ok("5 o'9"), render(day(2017, 8, 9), None, "5 'o''9'"));
    assert_eq!(ok("1'2"), render(day(2017, 8, 9), None, "1''2"));
}

#[test]
fn quoted_text_is_literal() {
    assert_eq!(ok("yyyy"), render(day(2017, 8, 9), None, "'yyyy'"));
    assert_eq!(ok("it's 2017"), render(day(2017, 8, 9), None, "'it''s' yyyy"));
    assert_eq!(ok("a'"), render(day(2017, 8, 9), None, "'a'''"));
    assert_eq!(ok("'p"), render(day(2017, 8, 9), None, "'''p'"));
}

#[test]
fn unterminated_quote_fails() {
    assert_eq!(fails("", FormatError::UnterminatedQuote), render(day(2017, 8, 9), None, "'abc"));
    assert_eq!(fails("", FormatError::UnterminatedQuote), render(day(2017, 8, 9), None, "'"));
    assert_eq!(fails("", FormatError::UnterminatedQuote), render(day(2017, 8, 9), None, "'ab''"));
    assert_eq!(
        fails("2017 ", FormatError::UnterminatedQuote),
        render(day(2017, 8, 9), None, "yyyy 'at")
    );
}

#[test]
fn unknown_letter_fails() {
    assert_eq!(fails("", FormatError::UnknownFieldSymbol), render(day(2017, 8, 9), None, "p"));
    assert_eq!(
        fails("2017-", FormatError::UnknownFieldSymbol),
        render(day(2017, 8, 9), None, "yyyy-pp-dd")
    );
    for letter in "ABCFIJNPRTUWfgijlnoprt".chars() {
        let pattern = letter.to_string();
        assert_eq!(
            fails("", FormatError::UnknownFieldSymbol),
            render(day(2017, 8, 9), clock(1, 2, 3, 0), &pattern)
        );
    }
}

#[test]
fn missing_date_fails() {
    for letter in "GyYuqQMLwdDEec".chars() {
        let pattern = format!("<{}", letter);
        assert_eq!(
            fails("<", FormatError::MissingRequiredInput),
            render(None, clock(1, 2, 3, 0), &pattern)
        );
    }
    assert_eq!(
        fails("01:", FormatError::MissingRequiredInput),
        render(None, clock(1, 2, 3, 0), "HH:yyyy")
    );
}

#[test]
fn missing_time_fails() {
    for letter in "abhHKkmsS".chars() {
        let pattern = format!("<{}", letter);
        assert_eq!(
            fails("<", FormatError::MissingRequiredInput),
            render(day(2017, 8, 9), None, &pattern)
        );
    }
}

#[test]
fn neither_date_nor_time_fails() {
    assert_eq!(fails("", FormatError::MissingRequiredInput), render(None, None, "yyyy"));
    assert_eq!(fails("", FormatError::MissingRequiredInput), render(None, None, "'text'"));
    assert_eq!(fails("", FormatError::MissingRequiredInput), render(None, None, ""));
}

#[test]
fn first_failure_is_surfaced() {
    assert_eq!(
        fails("", FormatError::UnsupportedFieldForWidth),
        render(day(2017, 8, 9), None, "GGGGGG p")
    );
    assert_eq!(
        fails("", FormatError::UnknownFieldSymbol),
        render(day(2017, 8, 9), None, "p GGGGGG")
    );
    assert_eq!(
        fails("", FormatError::MissingRequiredInput),
        render(day(2017, 8, 9), None, "H 'open")
    );
    assert_eq!(
        fails("09.", FormatError::UnsupportedFieldForWidth),
        render(day(2017, 8, 9), None, "dd.MMMMMM.yyyy")
    );
}

#[test]
fn zone_fields_are_refused() {
    for letter in "zZOvVXx".chars() {
        let pattern = letter.to_string();
        assert_eq!(
            fails("", FormatError::MissingRequiredInput),
            render(day(2017, 8, 9), clock(1, 2, 3, 0), &pattern)
        );
        let mut out = String::new();
        let r = format_datetime_to(
            &InvariantTime {},
            Some(&Date::from_ymd(2017, 8, 9).unwrap()),
            None,
            &TimeZoneInfo::Offset(chrono::FixedOffset::east_opt(3600).unwrap()),
            &MetaZoneInfo::Standard(MetaZone { id: 7 }),
            &pattern,
            &mut out,
        );
        assert_eq!(Err(FormatError::UnsupportedFieldForWidth), r);
        assert_eq!("", out);
    }
}

#[test]
fn date_fields_render_with_a_zone_at_hand() {
    let instant = chrono::NaiveDate::from_ymd_opt(2017, 8, 9).unwrap().and_hms_opt(2, 3, 4).unwrap();
    let offset = chrono_tz::Europe::Prague.offset_from_utc_datetime(&instant);
    assert_eq!(7200, offset.fix().local_minus_utc());
    let mut out = String::new();
    let r = format_datetime_to(
        &InvariantTime {},
        Some(&Date::from_ymd(2017, 8, 9).unwrap()),
        None,
        &TimeZoneInfo::Zone(offset),
        &MetaZoneInfo::Daylight(MetaZone { id: 1 }),
        "d. M. yyyy",
        &mut out,
    );
    assert_eq!(Ok(()), r);
    assert_eq!("9. 8. 2017", out);
}

#[test]
fn numbers_are_padded_to_the_count() {
    assert_eq!(ok("3"), render(day(2017, 3, 9), None, "M"));
    assert_eq!(ok("03"), render(day(2017, 3, 9), None, "MM"));
    assert_eq!(ok("3"), render(day(2017, 3, 9), None, "L"));
    assert_eq!(ok("03"), render(day(2017, 3, 9), None, "LL"));
    assert_eq!(ok("12"), render(day(2017, 12, 9), None, "M"));
    assert_eq!(ok("9"), render(day(2017, 3, 9), None, "d"));
    assert_eq!(ok("09"), render(day(2017, 3, 9), None, "dd"));
    assert_eq!(ok("0009"), render(day(2017, 3, 9), None, "dddd"));
    assert_eq!(ok("7|07|007"), render(None, clock(7, 8, 9, 0), "H|HH|HHH"));
    assert_eq!(ok("8|08"), render(None, clock(7, 8, 9, 0), "m|mm"));
    assert_eq!(ok("9|09"), render(None, clock(7, 8, 9, 0), "s|ss"));
}

#[test]
fn year_fields() {
    assert_eq!(ok("17"), render(day(2017, 8, 9), None, "yy"));
    assert_eq!(ok("2017"), render(day(2017, 8, 9), None, "yyyy"));
    assert_eq!(ok("2017"), render(day(2017, 8, 9), None, "y"));
    assert_eq!(ok("2017"), render(day(2017, 8, 9), None, "yyy"));
    assert_eq!(ok("02017"), render(day(2017, 8, 9), None, "yyyyy"));
    assert_eq!(ok("05"), render(day(2005, 8, 9), None, "yy"));
    assert_eq!(ok("1"), render(day(0, 8, 9), None, "y"));
    assert_eq!(ok("45"), render(day(-44, 3, 15), None, "y"));
    assert_eq!(ok("0"), render(day(0, 8, 9), None, "u"));
    assert_eq!(ok("-044"), render(day(-44, 3, 15), None, "uuuu"));
    assert_eq!(ok("2017"), render(day(2017, 8, 9), None, "uu"));
}

#[test]
fn week_year_fields() {
    assert_eq!(ok("2015"), render(day(2014, 12, 29), None, "Y"));
    assert_eq!(ok("15"), render(day(2014, 12, 29), None, "YY"));
    assert_eq!(ok("1"), render(day(2014, 12, 29), None, "w"));
    assert_eq!(ok("01"), render(day(2014, 12, 29), None, "ww"));
    assert_eq!(ok("2017-W32"), render(day(2017, 8, 9), None, "YYYY-'W'ww"));
    assert_eq!(ok("2015-53"), render(day(2016, 1, 3), None, "Y-w"));
    assert_eq!(ok("-1"), render(day(-1, 6, 15), None, "Y"));
    assert_eq!(ok("-1"), render(day(-1, 6, 15), None, "YY"));
    assert_eq!(ok("-7"), render(day(-107, 6, 15), None, "YY"));
}

#[test]
fn era_field() {
    assert_eq!(ok("CE|CE|CE|CE|CE"), render(day(2017, 8, 9), None, "G|GG|GGG|GGGG|GGGGG"));
    assert_eq!(ok("BCE"), render(day(0, 8, 9), None, "G"));
    assert_eq!(ok("CE"), render(day(1, 1, 1), None, "G"));
    assert_eq!(
        fails("", FormatError::UnsupportedFieldForWidth),
        render(day(2017, 8, 9), None, "GGGGGG")
    );
}

#[test]
fn quarter_fields() {
    assert_eq!(ok("3|03|Q3|Q3|Q3"), render(day(2017, 8, 9), None, "Q|QQ|QQQ|QQQQ|QQQQQ"));
    assert_eq!(ok("3|03|Q3|Q3|Q3"), render(day(2017, 8, 9), None, "q|qq|qqq|qqqq|qqqqq"));
    let quarters: Vec<String> =
        (1..=12).map(|month| render(day(2017, month, 1), None, "Q").0).collect();
    assert_eq!(vec!["1", "1", "1", "2", "2", "2", "3", "3", "3", "4", "4", "4"], quarters);
    assert_eq!(
        fails("", FormatError::UnsupportedFieldForWidth),
        render(day(2017, 8, 9), None, "QQQQQQ")
    );
    assert_eq!(
        fails("", FormatError::UnsupportedFieldForWidth),
        render(day(2017, 8, 9), None, "qqqqqq")
    );
}

#[test]
fn month_fields() {
    assert_eq!(ok("8|08|Aug|August|A"), render(day(2017, 8, 9), None, "M|MM|MMM|MMMM|MMMMM"));
    assert_eq!(ok("8|08|Aug|August|A"), render(day(2017, 8, 9), None, "L|LL|LLL|LLLL|LLLLL"));
    assert_eq!(ok("May May M"), render(day(2017, 5, 9), None, "MMM MMMM MMMMM"));
    assert_eq!(
        fails("", FormatError::UnsupportedFieldForWidth),
        render(day(2017, 8, 9), None, "MMMMMM")
    );
    assert_eq!(
        fails("", FormatError::UnsupportedFieldForWidth),
        render(day(2017, 8, 9), None, "LLLLLL")
    );
}

#[test]
fn day_fields() {
    assert_eq!(ok("221"), render(day(2017, 8, 9), None, "D"));
    assert_eq!(ok("005"), render(day(2017, 1, 5), None, "DDD"));
    assert_eq!(ok("366"), render(day(2016, 12, 31), None, "D"));
    assert_eq!(ok("60"), render(day(2017, 3, 1), None, "D"));
    assert_eq!(ok("61"), render(day(2016, 3, 1), None, "D"));
}

#[test]
fn weekday_fields() {
    assert_eq!(
        ok("Wed|Wed|Wed|Wednesday|W|Wed"),
        render(day(2017, 8, 9), None, "E|EE|EEE|EEEE|EEEEE|EEEEEE")
    );
    assert_eq!(
        ok("3|03|Wed|Wednesday|W|Wed"),
        render(day(2017, 8, 9), None, "e|ee|eee|eeee|eeeee|eeeeee")
    );
    assert_eq!(
        ok("3|03|Wed|Wednesday|W|Wed"),
        render(day(2017, 8, 9), None, "c|cc|ccc|cccc|ccccc|cccccc")
    );
    assert_eq!(ok("1 Mon"), render(day(2017, 8, 7), None, "e E"));
    assert_eq!(ok("7 Sun"), render(day(2017, 8, 13), None, "e E"));
    for pattern in ["EEEEEEE", "eeeeeee", "ccccccc"] {
        assert_eq!(
            fails("", FormatError::UnsupportedFieldForWidth),
            render(day(2017, 8, 9), None, pattern)
        );
    }
}

#[test]
fn period_fields() {
    assert_eq!(ok("AM|AM|AM|AM|AM"), render(None, clock(2, 3, 4, 0), "a|aa|aaa|aaaa|aaaaa"));
    assert_eq!(ok("PM|PM|PM|PM|PM"), render(None, clock(14, 3, 4, 0), "b|bb|bbb|bbbb|bbbbb"));
    assert_eq!(ok("AM AM"), render(None, clock(0, 0, 0, 0), "a b"));
    assert_eq!(ok("PM PM"), render(None, clock(12, 0, 0, 0), "a b"));
    assert_eq!(ok("AM"), render(None, clock(11, 59, 59, 0), "a"));
    for pattern in ["aaaaaa", "bbbbbb"] {
        assert_eq!(
            fails("", FormatError::UnsupportedFieldForWidth),
            render(None, clock(2, 3, 4, 0), pattern)
        );
    }
}

#[test]
fn hour_fields() {
    assert_eq!(ok("12 0 0 24"), render(None, clock(0, 0, 0, 0), "h H K k"));
    assert_eq!(ok("1 1 1 1"), render(None, clock(1, 0, 0, 0), "h H K k"));
    assert_eq!(ok("11 11 11 11"), render(None, clock(11, 0, 0, 0), "h H K k"));
    assert_eq!(ok("12 12 0 12"), render(None, clock(12, 0, 0, 0), "h H K k"));
    assert_eq!(ok("1 13 1 13"), render(None, clock(13, 0, 0, 0), "h H K k"));
    assert_eq!(ok("11 23 11 23"), render(None, clock(23, 0, 0, 0), "h H K k"));
    assert_eq!(ok("02 14 02 14"), render(None, clock(14, 0, 0, 0), "hh HH KK kk"));
}

#[test]
fn leap_second_is_second_sixty() {
    assert_eq!(ok("60"), render(None, clock(23, 59, 59, 1_000_000_000), "s"));
    assert_eq!(ok("23:59:60"), render(None, clock(23, 59, 59, 1_999_999_999), "HH:mm:ss"));
    assert_eq!(ok("59"), render(None, clock(23, 59, 59, 999_999_999), "s"));
    assert_eq!(ok("60.500"), render(None, clock(23, 59, 59, 1_500_000_000), "s.SSS"));
}

#[test]
fn fractional_seconds() {
    let t = clock(2, 3, 4, 123_456_789);
    assert_eq!(ok("1"), render(None, t, "S"));
    assert_eq!(ok("12"), render(None, t, "SS"));
    assert_eq!(ok("123"), render(None, t, "SSS"));
    assert_eq!(ok("123456"), render(None, t, "SSSSSS"));
    assert_eq!(ok("12345678"), render(None, t, "SSSSSSSS"));
    assert_eq!(ok("123456789"), render(None, t, "SSSSSSSSS"));
    assert_eq!(ok("1234567890"), render(None, t, "SSSSSSSSSS"));
    assert_eq!(ok("123456789000000000"), render(None, t, "SSSSSSSSSSSSSSSSSS"));
    assert_eq!(
        fails("", FormatError::UnsupportedFieldForWidth),
        render(None, t, "SSSSSSSSSSSSSSSSSSS")
    );
    assert_eq!(ok("005"), render(None, clock(2, 3, 4, 5_000_000), "SSS"));
    assert_eq!(ok("000"), render(None, clock(2, 3, 4, 999_999), "SSS"));
    assert_eq!(ok("123456000"), render(None, clock(2, 3, 4, 123_456_000), "SSSSSSSSS"));
}

#[test]
fn fields_of_a_date_can_be_supplied() {
    let fields = Date::from_ymd(2017, 8, 9).unwrap().fields();
    let time = TimeOfDay::from_hms(2, 3, 4).unwrap();
    let mut out = String::new();
    let r = format_fields_to(
        &InvariantTime {},
        Some(&fields),
        Some(&time),
        &TimeZoneInfo::Absent,
        &MetaZoneInfo::Absent,
        "EEEE, d MMMM yyyy 'at' h:mm a",
        &mut out,
    );
    assert_eq!(Ok(()), r);
    assert_eq!("Wednesday, 9 August 2017 at 2:03 AM", out);
}

#[test]
fn parsed_directives_render_as_the_pattern() {
    let date = Date::from_ymd(2017, 8, 9).unwrap();
    let fields = date.fields();
    let time = TimeOfDay::from_hms(2, 3, 4).unwrap();
    for pattern in ["yyyy-MM-dd'T'HH:mm:ss", "''h 'o''clock' a", "12'34'", "", "QQQQQQ 'x'"] {
        let directives = parse_pattern(pattern).unwrap();
        let mut parsed = String::new();
        let r = format_directives(
            &InvariantTime {},
            &directives,
            Some(&fields),
            Some(&time),
            &TimeZoneInfo::Absent,
            &MetaZoneInfo::Absent,
            &mut parsed,
        );
        assert_eq!(render(Some(date), Some(time), pattern), (parsed, r));
    }
}

#[test]
fn written_pattern_renders_as_the_first() {
    let date = day(2017, 8, 9);
    let time = clock(14, 3, 4, 5);
    for pattern in [
        "yyyy-MM-dd'T'HH:mm:ss",
        "''h 'o''clock' a",
        "12'34'56",
        "EEEE, d. MMMM y 'at' h:mm:ss.SSS a",
        "'it''s' ''yy",
        "''''",
        "",
        "qQ",
    ] {
        let again = to_pattern(&parse_pattern(pattern).unwrap());
        assert_eq!(render(date, time, pattern), render(date, time, &again));
        assert!(render(date, time, &again).1.is_ok());
    }
}
