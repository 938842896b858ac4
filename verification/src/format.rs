//! The entry point: a pattern is read directive by directive, and each
//! directive is rendered into the sink before the next one is read.

use crate::calendar::{date_fields, Date, DateFields, TimeOfDay};
use crate::dispatch::{
    do_format_date, do_format_other, do_format_time, do_format_zone, field_text,
};
use crate::error::FormatError;
use crate::facet::{wrote, Time};
use crate::pattern::{
    first_token, next_directive, pattern_chars, scan, tokens_of, Directive, Step, Token,
};
use crate::style::{MetaZoneInfo, TimeZoneInfo};
use crate::symbol::{is_date_symbol, is_time_symbol, is_zone_symbol};
use vstd::prelude::*;

verus! {

/// The value behind an optional reference.
pub open spec fn owned<T>(value: Option<&T>) -> Option<T> {
    match value {
        Some(v) => Some(*v),
        None => None,
    }
}

/// The fields of an optional date.
pub open spec fn fields_of(date: Option<&Date>) -> Option<DateFields> {
    match date {
        Some(d) => Some(date_fields(*d)),
        None => None,
    }
}

/// What a token renders to: literal text to itself, a field to what the
/// dispatcher makes of it.
pub open spec fn token_text<F: Time + ?Sized>(
    facet: &F,
    token: Token,
    date: Option<DateFields>,
    time: Option<TimeOfDay>,
    tzinfo: TimeZoneInfo,
    mzinfo: MetaZoneInfo,
) -> Result<Seq<char>, FormatError> {
    match token {
        Token::Literal(text) => Ok(text),
        Token::Field(symbol, count) => field_text(
            facet,
            symbol,
            count as usize,
            date,
            time,
            tzinfo,
            mzinfo,
        ),
    }
}

/// What rendering a sequence of tokens writes, and how it ends: the texts of
/// the tokens from left to right, up to the first one that is refused, and
/// that refusal.
pub open spec fn tokens_text<F: Time + ?Sized>(
    facet: &F,
    tokens: Seq<Token>,
    date: Option<DateFields>,
    time: Option<TimeOfDay>,
    tzinfo: TimeZoneInfo,
    mzinfo: MetaZoneInfo,
) -> (Seq<char>, Result<(), FormatError>)
    decreases tokens.len(),
{
    if tokens.len() == 0 {
        (Seq::empty(), Ok(()))
    } else {
        match token_text(facet, tokens[0], date, time, tzinfo, mzinfo) {
            Err(e) => (Seq::empty(), Err(e)),
            Ok(text) => {
                let rest = tokens_text(facet, tokens.skip(1), date, time, tzinfo, mzinfo);
                (text + rest.0, rest.1)
            },
        }
    }
}

/// What rendering a pattern writes, and how it ends: the tokens that the
/// grammar reads are rendered from left to right; the first refusal, of a
/// token or of the grammar after the tokens that it read, ends it.
pub open spec fn rendered<F: Time + ?Sized>(
    facet: &F,
    pattern: Seq<char>,
    date: Option<DateFields>,
    time: Option<TimeOfDay>,
    tzinfo: TimeZoneInfo,
    mzinfo: MetaZoneInfo,
) -> (Seq<char>, Result<(), FormatError>) {
    let read = scan(pattern);
    let done = tokens_text(facet, read.0, date, time, tzinfo, mzinfo);
    (
        done.0,
        match read.1 {
            Some(e) if done.1 is Ok => Err(e),
            _ => done.1,
        },
    )
}

/// Rendering goes token by token: the text of the first token, then what
/// the rest of the pattern renders to.
pub proof fn lemma_rendered_step<F: Time + ?Sized>(
    facet: &F,
    pattern: Seq<char>,
    date: Option<DateFields>,
    time: Option<TimeOfDay>,
    tzinfo: TimeZoneInfo,
    mzinfo: MetaZoneInfo,
)
    ensures
        rendered(facet, pattern, date, time, tzinfo, mzinfo) == match first_token(pattern) {
            Step::End => (Seq::<char>::empty(), Ok::<(), FormatError>(())),
            Step::Fail(e) => (Seq::<char>::empty(), Err::<(), FormatError>(e)),
            Step::Next(token, n) => match token_text(facet, token, date, time, tzinfo, mzinfo) {
                Err(e) => (Seq::<char>::empty(), Err::<(), FormatError>(e)),
                Ok(text) => {
                    let rest = rendered(facet, pattern.skip(n as int), date, time, tzinfo, mzinfo);
                    (text + rest.0, rest.1)
                },
            },
        },
{
    if let Step::Next(token, n) = first_token(pattern) {
        let rest = scan(pattern.skip(n as int));
        assert((seq![token] + rest.0).skip(1) =~= rest.0);
    }
}

/// The pattern that a format stands for: looked up as a pattern of date and
/// time, of date or of time, by what the caller supplied. With neither there
/// is nothing to look up.
pub open spec fn chosen_pattern<F: Time + ?Sized>(
    facet: &F,
    has_date: bool,
    has_time: bool,
    fmt: Seq<char>,
) -> Result<Seq<char>, FormatError> {
    if has_date && has_time {
        facet.datetime_pattern(fmt)
    } else if has_date {
        facet.date_pattern(fmt)
    } else if has_time {
        facet.time_pattern(fmt)
    } else {
        Err(FormatError::MissingRequiredInput)
    }
}

/// What formatting writes, and how it ends: nothing and the error of the
/// lookup where the format is not known, else what the pattern renders to.
pub open spec fn formatted<F: Time + ?Sized>(
    facet: &F,
    date: Option<DateFields>,
    time: Option<TimeOfDay>,
    tzinfo: TimeZoneInfo,
    mzinfo: MetaZoneInfo,
    fmt: Seq<char>,
) -> (Seq<char>, Result<(), FormatError>) {
    match chosen_pattern(facet, date is Some, time is Some, fmt) {
        Ok(pattern) => rendered(facet, pattern, date, time, tzinfo, mzinfo),
        Err(e) => (Seq::empty(), Err(e)),
    }
}

/// Renders one directive into the sink.
///
/// # Errors
///
/// `MissingRequiredInput` for a field whose date, time or zone was not
/// supplied; else what the dispatcher or the facet refuses. On an error the
/// sink is as it was.
pub fn format_directive<F: Time + ?Sized>(
    facet: &F,
    directive: &Directive,
    date: Option<&DateFields>,
    time: Option<&TimeOfDay>,
    tzinfo: &TimeZoneInfo,
    mzinfo: &MetaZoneInfo,
    out: &mut String,
) -> (r: Result<(), FormatError>)
    requires
        time matches Some(t) ==> t.is_valid(),
    ensures
        wrote(
            token_text(facet, directive@, owned(date), owned(time), *tzinfo, *mzinfo),
            old(out)@,
            final(out)@,
            r,
        ),
{
    match directive {
        Directive::Literal(text) => do_format_other(text.as_str(), out),
        Directive::Field(symbol, count) => {
            if is_date_symbol(*symbol) {
                match date {
                    Some(d) => do_format_date(facet, d, *symbol, *count, out),
                    None => Err(FormatError::MissingRequiredInput),
                }
            } else if is_time_symbol(*symbol) {
                match time {
                    Some(t) => do_format_time(facet, t, *symbol, *count, out),
                    None => Err(FormatError::MissingRequiredInput),
                }
            } else if is_zone_symbol(*symbol) {
                if tzinfo.is_some() {
                    do_format_zone(facet, tzinfo, mzinfo, *symbol, *count, out)
                } else {
                    Err(FormatError::MissingRequiredInput)
                }
            } else {
                Err(FormatError::UnknownFieldSymbol)
            }
        },
    }
}

/// Renders directives, from left to right, from the fields of a date and a
/// time of day.
///
/// # Errors
///
/// The first failure of a directive. What was written before it stays in the
/// sink.
pub fn format_directives<F: Time + ?Sized>(
    facet: &F,
    directives: &[Directive],
    date: Option<&DateFields>,
    time: Option<&TimeOfDay>,
    tzinfo: &TimeZoneInfo,
    mzinfo: &MetaZoneInfo,
    out: &mut String,
) -> (r: Result<(), FormatError>)
    requires
        time matches Some(t) ==> t.is_valid(),
    ensures
        final(out)@ == old(out)@ + tokens_text(
            facet,
            tokens_of(directives@),
            owned(date),
            owned(time),
            *tzinfo,
            *mzinfo,
        ).0,
        r == tokens_text(
            facet,
            tokens_of(directives@),
            owned(date),
            owned(time),
            *tzinfo,
            *mzinfo,
        ).1,
{
    let ghost all = tokens_of(directives@);
    let ghost whole = tokens_text(facet, all, owned(date), owned(time), *tzinfo, *mzinfo);
    let ghost mut done: Seq<char> = Seq::empty();
    let mut i: usize = 0;
    proof {
        assert(all.skip(0) =~= all);
        assert(done + whole.0 =~= whole.0);
        assert(out@ + done =~= out@);
    }
    while i < directives.len()
        invariant
            i <= directives@.len(),
            all == tokens_of(directives@),
            time matches Some(t) ==> t.is_valid(),
            out@ == old(out)@ + done,
            whole == tokens_text(facet, all, owned(date), owned(time), *tzinfo, *mzinfo),
            whole.0 == done + tokens_text(
                facet,
                all.skip(i as int),
                owned(date),
                owned(time),
                *tzinfo,
                *mzinfo,
            ).0,
            whole.1 == tokens_text(
                facet,
                all.skip(i as int),
                owned(date),
                owned(time),
                *tzinfo,
                *mzinfo,
            ).1,
        decreases directives@.len() - i,
    {
        let ghost before = out@;
        match format_directive(facet, &directives[i], date, time, tzinfo, mzinfo, out) {
            Err(e) => {
                assert(done + Seq::<char>::empty() =~= done);
                return Err(e);
            },
            Ok(()) => {
                proof {
                    let text = token_text(
                        facet,
                        all[i as int],
                        owned(date),
                        owned(time),
                        *tzinfo,
                        *mzinfo,
                    )->Ok_0;
                    let rest = tokens_text(
                        facet,
                        all.skip(i as int).skip(1),
                        owned(date),
                        owned(time),
                        *tzinfo,
                        *mzinfo,
                    );
                    assert(all.skip(i as int).skip(1) =~= all.skip(i + 1));
                    assert(done + (text + rest.0) =~= (done + text) + rest.0);
                    assert(old(out)@ + (done + text) =~= before + text);
                    done = done + text;
                }
                i = i + 1;
            },
        }
    }
    proof {
        assert(done + Seq::<char>::empty() =~= done);
    }
    Ok(())
}

/// Renders a pattern from the fields of a date and a time of day.
///
/// The pattern is read from left to right, and each directive is written
/// before the next is read.
///
/// # Errors
///
/// The first failure from left to right, of the grammar or of a field. What
/// was written before it stays in the sink.
pub fn format_fields_to<F: Time + ?Sized>(
    facet: &F,
    date: Option<&DateFields>,
    time: Option<&TimeOfDay>,
    tzinfo: &TimeZoneInfo,
    mzinfo: &MetaZoneInfo,
    pattern: &str,
    out: &mut String,
) -> (r: Result<(), FormatError>)
    requires
        time matches Some(t) ==> t.is_valid(),
    ensures
        final(out)@ == old(out)@ + rendered(
            facet,
            pattern@,
            owned(date),
            owned(time),
            *tzinfo,
            *mzinfo,
        ).0,
        r == rendered(facet, pattern@, owned(date), owned(time), *tzinfo, *mzinfo).1,
{
    let chars = pattern_chars(pattern);
    let mut pos: usize = 0;
    let ghost whole = rendered(facet, pattern@, owned(date), owned(time), *tzinfo, *mzinfo);
    let ghost mut done: Seq<char> = Seq::empty();
    proof {
        assert(chars@.skip(0) =~= pattern@);
        assert(done + whole.0 =~= whole.0);
        assert(out@ + done =~= out@);
    }
    loop
        invariant
            chars@ == pattern@,
            pos <= chars@.len(),
            time matches Some(t) ==> t.is_valid(),
            out@ == old(out)@ + done,
            whole == rendered(facet, pattern@, owned(date), owned(time), *tzinfo, *mzinfo),
            whole.0 == done + rendered(
                facet,
                chars@.skip(pos as int),
                owned(date),
                owned(time),
                *tzinfo,
                *mzinfo,
            ).0,
            whole.1 == rendered(
                facet,
                chars@.skip(pos as int),
                owned(date),
                owned(time),
                *tzinfo,
                *mzinfo,
            ).1,
        decreases chars@.len() - pos,
    {
        let ghost here = chars@.skip(pos as int);
        let ghost before = out@;
        proof {
            lemma_rendered_step(facet, here, owned(date), owned(time), *tzinfo, *mzinfo);
        }
        match next_directive(chars.as_slice(), pos) {
            Err(e) => {
                assert(done + Seq::<char>::empty() =~= done);
                return Err(e);
            },
            Ok(None) => {
                assert(done + Seq::<char>::empty() =~= done);
                return Ok(());
            },
            Ok(Some((directive, next))) => {
                match format_directive(facet, &directive, date, time, tzinfo, mzinfo, out) {
                    Err(e) => {
                        assert(done + Seq::<char>::empty() =~= done);
                        return Err(e);
                    },
                    Ok(()) => {
                        proof {
                            let text = token_text(
                                facet,
                                directive@,
                                owned(date),
                                owned(time),
                                *tzinfo,
                                *mzinfo,
                            )->Ok_0;
                            let rest = rendered(
                                facet,
                                here.skip(next - pos),
                                owned(date),
                                owned(time),
                                *tzinfo,
                                *mzinfo,
                            );
                            assert(here.skip(next - pos) =~= chars@.skip(next as int));
                            assert(done + (text + rest.0) =~= (done + text) + rest.0);
                            assert(old(out)@ + (done + text) =~= before + text);
                            done = done + text;
                        }
                        pos = next;
                    },
                }
            },
        }
    }
}

/// Format datetime.
///
/// The pattern that `fmt` stands for is looked up in the facet, as a
/// pattern of date and time, of date or of time by what is supplied, and
/// rendered into `out`.
///
///  - `date`: The date to format.
///  - `time`: The time to format.
///  - `tzinfo`: The zone to be displayed.
///  - `mzinfo`: The meta-zone name to prefer.
///  - `fmt`: Format specification.
///  - `out`: Output sink.
///
/// # Errors
///
/// `MissingRequiredInput` if neither date nor time is supplied; what the
/// lookup of the format fails with; else the first failure from left to
/// right, of the grammar or of a field. What was written before it stays in
/// the sink.
pub fn format_datetime_to<F: Time + ?Sized>(
    facet: &F,
    date: Option<&Date>,
    time: Option<&TimeOfDay>,
    tzinfo: &TimeZoneInfo,
    mzinfo: &MetaZoneInfo,
    fmt: &str,
    out: &mut String,
) -> (r: Result<(), FormatError>)
    requires
        date matches Some(d) ==> d.is_valid(),
        time matches Some(t) ==> t.is_valid(),
    ensures
        final(out)@ == old(out)@ + formatted(
            facet,
            fields_of(date),
            owned(time),
            *tzinfo,
            *mzinfo,
            fmt@,
        ).0,
        r == formatted(facet, fields_of(date), owned(time), *tzinfo, *mzinfo, fmt@).1,
{
    let lookup = match (date, time) {
        (Some(_), Some(_)) => facet.get_datetime_format(fmt),
        (Some(_), None) => facet.get_date_format(fmt),
        (None, Some(_)) => facet.get_time_format(fmt),
        (None, None) => Err(FormatError::MissingRequiredInput),
    };
    match lookup {
        Err(e) => {
            assert(out@ + Seq::<char>::empty() =~= out@);
            Err(e)
        },
        Ok(pattern) => {
            match date {
                Some(d) => {
                    let fields = d.fields();
                    format_fields_to(facet, Some(&fields), time, tzinfo, mzinfo, pattern, out)
                },
                None => format_fields_to(facet, None, time, tzinfo, mzinfo, pattern, out),
            }
        },
    }
}

} // verus!
