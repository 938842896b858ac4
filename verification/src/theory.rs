//! What holds of the grammar and of rendering for every pattern.

use crate::calendar::{DateFields, TimeOfDay};
use crate::dispatch::{date_call, date_text, field_text, time_call, time_text, FacetCall};
use crate::error::FormatError;
use crate::facet::{InvariantTime, Time};
use crate::format::{lemma_rendered_step, rendered, token_text, tokens_text};
use crate::number::{all_digits, digits_value, lemma_zero_padded, pow10};
use crate::pattern::{
    first_token, lemma_first_token_bound, lemma_plain_length_bound, plain, plain_length, quoted,
    run_length, scan, tokens, Step, Token,
};
use crate::style::{MetaZoneInfo, TimeZoneInfo};
use crate::symbol::{ascii_letter, date_symbol, field_symbol};
use crate::written::{
    atoms_of, lemma_read_is_sayable, lemma_run_is_read_whole, lemma_written_is_read_back,
    repeated, sayable, text_atoms, written, Atom,
};
use vstd::prelude::*;

verus! {

/// Maximal munch. A run of `count` field letters is one field of that
/// count, never several shorter ones: whatever follows the run, if it does
/// not go on with the same letter.
pub proof fn lemma_field_run_is_one_token(c: char, count: nat, rest: Seq<char>)
    requires
        field_symbol(c),
        count >= 1,
        rest.len() == 0 || rest[0] != c,
    ensures
        first_token(repeated(c, count) + rest) == Step::Next(Token::Field(c, count), count),
        tokens(repeated(c, count)) == Ok::<Seq<Token>, FormatError>(seq![Token::Field(c, count)]),
{
    lemma_run_is_read_whole(c, count, rest);
    lemma_run_is_read_whole(c, count, Seq::empty());
    let alone = repeated(c, count);
    assert(alone + Seq::<char>::empty() =~= alone);
    assert(alone.skip(count as int) =~= Seq::<char>::empty());
    assert(first_token(alone) == Step::Next(Token::Field(c, count), count));
    assert(scan(Seq::<char>::empty()) == (Seq::<Token>::empty(), None::<FormatError>));
    assert(scan(alone).0 =~= seq![Token::Field(c, count)]);
}

/// A pattern of literal text alone: plain characters, and quotes that come
/// in pairs.
pub open spec fn literal_pattern(s: Seq<char>) -> bool
    decreases s.len(),
{
    if s.len() == 0 {
        true
    } else if s[0] == '\'' {
        s.len() >= 2 && s[1] == '\'' && literal_pattern(s.skip(2))
    } else {
        plain(s[0]) && literal_pattern(s.skip(1))
    }
}

/// A pattern of literal text with its quoting removed: one quote for each
/// pair of quotes.
pub open spec fn unquoted(s: Seq<char>) -> Seq<char>
    decreases s.len(),
{
    if s.len() == 0 {
        Seq::empty()
    } else if s[0] == '\'' && s.len() >= 2 {
        seq!['\''] + unquoted(s.skip(2))
    } else {
        seq![s[0]] + unquoted(s.skip(1))
    }
}

/// The plain characters at the head of a pattern of literal text stand for
/// themselves, and what follows them is a pattern of literal text.
proof fn lemma_plain_head(s: Seq<char>)
    requires
        literal_pattern(s),
    ensures
        literal_pattern(s.skip(plain_length(s) as int)),
        unquoted(s) == s.take(plain_length(s) as int) + unquoted(s.skip(plain_length(s) as int)),
    decreases s.len(),
{
    if s.len() > 0 && plain(s[0]) {
        let tail = s.skip(1);
        let k = plain_length(tail) as int;
        lemma_plain_head(tail);
        lemma_plain_length_bound(tail);
        assert(tail.skip(k) =~= s.skip(k + 1));
        assert(seq![s[0]] + (tail.take(k) + unquoted(tail.skip(k))) =~= s.take(k + 1)
            + unquoted(s.skip(k + 1)));
    } else {
        assert(s.skip(0) =~= s);
        assert(s.take(0) + unquoted(s) =~= unquoted(s));
    }
}

/// A pattern of literal text renders to itself with the quoting removed,
/// whatever the facet and whatever date, time and zone are supplied.
pub proof fn lemma_literal_pattern_renders_verbatim<F: Time + ?Sized>(
    facet: &F,
    pattern: Seq<char>,
    date: Option<DateFields>,
    time: Option<TimeOfDay>,
    tzinfo: TimeZoneInfo,
    mzinfo: MetaZoneInfo,
)
    requires
        literal_pattern(pattern),
    ensures
        rendered(facet, pattern, date, time, tzinfo, mzinfo) == (
            unquoted(pattern),
            Ok::<(), FormatError>(()),
        ),
    decreases pattern.len(),
{
    lemma_rendered_step(facet, pattern, date, time, tzinfo, mzinfo);
    if pattern.len() == 0 {
    } else if pattern[0] == '\'' {
        lemma_literal_pattern_renders_verbatim(facet, pattern.skip(2), date, time, tzinfo, mzinfo);
    } else {
        lemma_plain_head(pattern);
        lemma_first_token_bound(pattern);
        lemma_literal_pattern_renders_verbatim(
            facet,
            pattern.skip(plain_length(pattern) as int),
            date,
            time,
            tzinfo,
            mzinfo,
        );
    }
}

/// Whether every token is literal text.
pub open spec fn all_literal(tokens: Seq<Token>) -> bool {
    forall|i: int| 0 <= i < tokens.len() ==> #[trigger] tokens[i] is Literal
}

/// The literal text of tokens, from left to right; a field adds nothing.
pub open spec fn literal_text(tokens: Seq<Token>) -> Seq<char>
    decreases tokens.len(),
{
    if tokens.len() == 0 {
        Seq::empty()
    } else {
        (match tokens[0] {
            Token::Literal(text) => text,
            Token::Field(_, _) => Seq::empty(),
        }) + literal_text(tokens.skip(1))
    }
}

/// Tokens that are all literal render to their text.
proof fn lemma_literal_tokens_render<F: Time + ?Sized>(
    facet: &F,
    tokens: Seq<Token>,
    date: Option<DateFields>,
    time: Option<TimeOfDay>,
    tzinfo: TimeZoneInfo,
    mzinfo: MetaZoneInfo,
)
    requires
        all_literal(tokens),
    ensures
        tokens_text(facet, tokens, date, time, tzinfo, mzinfo) == (
            literal_text(tokens),
            Ok::<(), FormatError>(()),
        ),
    decreases tokens.len(),
{
    if tokens.len() > 0 {
        let tail = tokens.skip(1);
        assert(tokens[0] is Literal);
        assert forall|i: int| 0 <= i < tail.len() implies #[trigger] tail[i] is Literal by {
            assert(tail[i] == tokens[i + 1]);
        }
        lemma_literal_tokens_render(facet, tail, date, time, tzinfo, mzinfo);
    }
}

/// A pattern without fields renders to its literal text, quoted or not,
/// whatever the facet and whatever date, time and zone are supplied.
pub proof fn lemma_pattern_without_fields_renders_its_text<F: Time + ?Sized>(
    facet: &F,
    pattern: Seq<char>,
    date: Option<DateFields>,
    time: Option<TimeOfDay>,
    tzinfo: TimeZoneInfo,
    mzinfo: MetaZoneInfo,
)
    requires
        tokens(pattern) is Ok,
        all_literal(scan(pattern).0),
    ensures
        rendered(facet, pattern, date, time, tzinfo, mzinfo) == (
            literal_text(scan(pattern).0),
            Ok::<(), FormatError>(()),
        ),
{
    lemma_literal_tokens_render(facet, scan(pattern).0, date, time, tzinfo, mzinfo);
}

/// The letter of a field; `None` for literal text.
pub open spec fn field_letter(token: Token) -> Option<char> {
    match token {
        Token::Field(symbol, _) => Some(symbol),
        Token::Literal(_) => None,
    }
}

/// No token is a field of the letter `c`.
pub open spec fn no_field_of(tokens: Seq<Token>, c: char) -> bool {
    forall|i: int| 0 <= i < tokens.len() ==> field_letter(#[trigger] tokens[i]) != Some(c)
}

/// What follows a run does not change it, unless it goes on with the run's
/// letter.
proof fn lemma_run_extends(s: Seq<char>, rest: Seq<char>, c: char)
    requires
        rest.len() == 0 || rest[0] != c,
    ensures
        run_length(s + rest, c) == run_length(s, c),
    decreases s.len(),
{
    if s.len() == 0 {
        assert(s + rest =~= rest);
    } else if s[0] == c {
        assert((s + rest).skip(1) =~= s.skip(1) + rest);
        lemma_run_extends(s.skip(1), rest, c);
    }
}

/// What follows plain text does not change it, unless it goes on with a
/// plain character.
proof fn lemma_plain_extends(s: Seq<char>, rest: Seq<char>)
    requires
        rest.len() == 0 || !plain(rest[0]),
    ensures
        plain_length(s + rest) == plain_length(s),
    decreases s.len(),
{
    if s.len() == 0 {
        assert(s + rest =~= rest);
    } else if plain(s[0]) {
        assert((s + rest).skip(1) =~= s.skip(1) + rest);
        lemma_plain_extends(s.skip(1), rest);
    }
}

/// What follows a closed quotation does not change it, unless it starts
/// with a quote.
proof fn lemma_quoted_extends(s: Seq<char>, rest: Seq<char>)
    requires
        quoted(s) is Some,
        rest.len() == 0 || rest[0] != '\'',
    ensures
        quoted(s + rest) == quoted(s),
    decreases s.len(),
{
    if s.len() == 0 {
    } else if s[0] != '\'' {
        assert((s + rest).skip(1) =~= s.skip(1) + rest);
        lemma_quoted_extends(s.skip(1), rest);
    } else if s.len() >= 2 && s[1] == '\'' {
        assert((s + rest).skip(2) =~= s.skip(2) + rest);
        lemma_quoted_extends(s.skip(2), rest);
    }
}

/// The first token of a pattern stays what it is when more follows the
/// pattern, if what follows starts with an ASCII letter other than the
/// letter of that token.
proof fn lemma_first_token_extends(s: Seq<char>, rest: Seq<char>)
    requires
        first_token(s) matches Step::Next(token, n) && (rest.len() == 0 || field_letter(token)
            != Some(rest[0])),
        rest.len() == 0 || ascii_letter(rest[0]),
    ensures
        first_token(s + rest) == first_token(s),
{
    lemma_first_token_bound(s);
    let whole = s + rest;
    if s[0] == '\'' {
        if s.len() >= 2 && s[1] == '\'' {
        } else {
            assert(whole.skip(1) =~= s.skip(1) + rest);
            lemma_quoted_extends(s.skip(1), rest);
            if s.len() == 1 {
                assert(s.skip(1).len() == 0);
            }
        }
    } else if ascii_letter(s[0]) {
        lemma_run_extends(s, rest, s[0]);
    } else {
        lemma_plain_extends(s, rest);
        lemma_plain_length_bound(s);
        assert(whole.take(plain_length(s) as int) =~= s.take(plain_length(s) as int));
    }
}

/// A pattern that the grammar reads to its end is read the same when an
/// ASCII letter follows it that is the letter of none of its fields; the
/// grammar then goes on with what follows.
pub proof fn lemma_scan_before_letter(before: Seq<char>, rest: Seq<char>)
    requires
        scan(before).1 is None,
        rest.len() > 0,
        ascii_letter(rest[0]),
        no_field_of(scan(before).0, rest[0]),
    ensures
        scan(before + rest) == (scan(before).0 + scan(rest).0, scan(rest).1),
    decreases before.len(),
{
    if before.len() == 0 {
        assert(before + rest =~= rest);
        assert(scan(before).0 + scan(rest).0 =~= scan(rest).0);
    } else {
        lemma_first_token_bound(before);
        match first_token(before) {
            Step::Next(token, n) => {
                let tail = before.skip(n as int);
                assert(scan(before).0[0] == token);
                lemma_first_token_extends(before, rest);
                assert((before + rest).skip(n as int) =~= tail + rest);
                assert forall|i: int| 0 <= i < scan(tail).0.len() implies field_letter(
                    #[trigger] scan(tail).0[i],
                ) != Some(rest[0]) by {
                    assert(scan(tail).0[i] == scan(before).0[i + 1]);
                }
                lemma_scan_before_letter(tail, rest);
                assert(seq![token] + (scan(tail).0 + scan(rest).0) =~= (seq![token] + scan(tail).0)
                    + scan(rest).0);
            },
            _ => {},
        }
    }
}

/// Every field that the grammar reads has a field symbol for its letter.
pub proof fn lemma_scan_reads_field_symbols(s: Seq<char>)
    ensures
        forall|i: int|
            0 <= i < scan(s).0.len() ==> (field_letter(#[trigger] scan(s).0[i]) matches Some(c)
                ==> field_symbol(c)),
    decreases s.len(),
{
    lemma_first_token_bound(s);
    if let Step::Next(token, n) = first_token(s) {
        let tail = s.skip(n as int);
        lemma_scan_reads_field_symbols(tail);
        assert forall|i: int| 0 <= i < scan(s).0.len() implies (field_letter(
            #[trigger] scan(s).0[i],
        ) matches Some(c) ==> field_symbol(c)) by {
            if i > 0 {
                assert(scan(s).0[i] == scan(tail).0[i - 1]);
            }
        }
    }
}

/// An unquoted ASCII letter that is no field symbol is refused. Where the
/// grammar reads `before` to its end, and `letter` follows it, the pattern
/// fails with `UnknownFieldSymbol`, whatever comes after.
pub proof fn lemma_unknown_letter_is_refused(before: Seq<char>, letter: char, after: Seq<char>)
    requires
        tokens(before) is Ok,
        ascii_letter(letter),
        !field_symbol(letter),
    ensures
        tokens(before + seq![letter] + after) == Err::<Seq<Token>, FormatError>(
            FormatError::UnknownFieldSymbol,
        ),
        scan(before + seq![letter] + after).0 == scan(before).0,
{
    let rest = seq![letter] + after;
    lemma_scan_reads_field_symbols(before);
    lemma_scan_before_letter(before, rest);
    assert(before + seq![letter] + after =~= before + rest);
    assert(scan(before).0 + scan(rest).0 =~= scan(before).0);
}

/// Where every token renders, each token renders.
proof fn lemma_each_token_renders<F: Time + ?Sized>(
    facet: &F,
    tokens: Seq<Token>,
    date: Option<DateFields>,
    time: Option<TimeOfDay>,
    tzinfo: TimeZoneInfo,
    mzinfo: MetaZoneInfo,
)
    requires
        tokens_text(facet, tokens, date, time, tzinfo, mzinfo).1 is Ok,
    ensures
        forall|i: int|
            0 <= i < tokens.len() ==> token_text(
                facet,
                #[trigger] tokens[i],
                date,
                time,
                tzinfo,
                mzinfo,
            ) is Ok,
    decreases tokens.len(),
{
    if tokens.len() > 0 {
        let tail = tokens.skip(1);
        lemma_each_token_renders(facet, tail, date, time, tzinfo, mzinfo);
        assert forall|i: int| 0 <= i < tokens.len() implies token_text(
            facet,
            #[trigger] tokens[i],
            date,
            time,
            tzinfo,
            mzinfo,
        ) is Ok by {
            if i > 0 {
                assert(tokens[i] == tail[i - 1]);
            }
        }
    }
}

/// Tokens that all render, followed by more tokens, render to their text
/// followed by what the further tokens render to.
pub proof fn lemma_tokens_text_of_both<F: Time + ?Sized>(
    facet: &F,
    first: Seq<Token>,
    second: Seq<Token>,
    date: Option<DateFields>,
    time: Option<TimeOfDay>,
    tzinfo: TimeZoneInfo,
    mzinfo: MetaZoneInfo,
)
    requires
        tokens_text(facet, first, date, time, tzinfo, mzinfo).1 is Ok,
    ensures
        tokens_text(facet, first + second, date, time, tzinfo, mzinfo) == (
            tokens_text(facet, first, date, time, tzinfo, mzinfo).0 + tokens_text(
                facet,
                second,
                date,
                time,
                tzinfo,
                mzinfo,
            ).0,
            tokens_text(facet, second, date, time, tzinfo, mzinfo).1,
        ),
    decreases first.len(),
{
    let after = tokens_text(facet, second, date, time, tzinfo, mzinfo);
    if first.len() == 0 {
        assert(first + second =~= second);
        assert(Seq::<char>::empty() + after.0 =~= after.0);
    } else {
        let tail = first.skip(1);
        let text = token_text(facet, first[0], date, time, tzinfo, mzinfo)->Ok_0;
        let more = tokens_text(facet, tail, date, time, tzinfo, mzinfo);
        assert((first + second).skip(1) =~= tail + second);
        lemma_tokens_text_of_both(facet, tail, second, date, time, tzinfo, mzinfo);
        assert(text + (more.0 + after.0) =~= (text + more.0) + after.0);
    }
}

/// A pattern that renders to its end renders the same when an ASCII letter
/// follows it that is the letter of none of its fields; what follows is
/// rendered after it.
pub proof fn lemma_rendered_before_letter<F: Time + ?Sized>(
    facet: &F,
    before: Seq<char>,
    rest: Seq<char>,
    date: Option<DateFields>,
    time: Option<TimeOfDay>,
    tzinfo: TimeZoneInfo,
    mzinfo: MetaZoneInfo,
)
    requires
        rendered(facet, before, date, time, tzinfo, mzinfo).1 is Ok,
        rest.len() > 0,
        ascii_letter(rest[0]),
        no_field_of(scan(before).0, rest[0]),
    ensures
        rendered(facet, before + rest, date, time, tzinfo, mzinfo) == (
            rendered(facet, before, date, time, tzinfo, mzinfo).0 + rendered(
                facet,
                rest,
                date,
                time,
                tzinfo,
                mzinfo,
            ).0,
            rendered(facet, rest, date, time, tzinfo, mzinfo).1,
        ),
{
    lemma_scan_before_letter(before, rest);
    lemma_tokens_text_of_both(facet, scan(before).0, scan(rest).0, date, time, tzinfo, mzinfo);
}

/// A field of a date is refused where no date is supplied. Where `before`
/// renders to its end without a date, and a field of the date letter
/// `symbol` follows it, rendering writes what `before` renders to and fails
/// with `MissingRequiredInput`, whatever comes after.
pub proof fn lemma_date_field_needs_a_date<F: Time + ?Sized>(
    facet: &F,
    before: Seq<char>,
    symbol: char,
    after: Seq<char>,
    time: Option<TimeOfDay>,
    tzinfo: TimeZoneInfo,
    mzinfo: MetaZoneInfo,
)
    requires
        date_symbol(symbol),
        rendered(facet, before, None, time, tzinfo, mzinfo).1 is Ok,
    ensures
        rendered(facet, before + seq![symbol] + after, None, time, tzinfo, mzinfo) == (
            rendered(facet, before, None, time, tzinfo, mzinfo).0,
            Err::<(), FormatError>(FormatError::MissingRequiredInput),
        ),
{
    let rest = seq![symbol] + after;
    let none = None::<DateFields>;
    lemma_each_token_renders(facet, scan(before).0, none, time, tzinfo, mzinfo);
    lemma_rendered_before_letter(facet, before, rest, none, time, tzinfo, mzinfo);
    lemma_rendered_step(facet, rest, none, time, tzinfo, mzinfo);
    lemma_first_token_bound(rest);
    assert(before + seq![symbol] + after =~= before + rest);
    let written = rendered(facet, before, none, time, tzinfo, mzinfo).0;
    assert(written + Seq::<char>::empty() =~= written);
}

/// An unquoted ASCII letter that is no field symbol ends rendering. Where
/// `before` renders to its end, and `letter` follows it, rendering writes
/// what `before` renders to and fails with `UnknownFieldSymbol`, whatever
/// comes after.
pub proof fn lemma_unknown_letter_ends_rendering<F: Time + ?Sized>(
    facet: &F,
    before: Seq<char>,
    letter: char,
    after: Seq<char>,
    date: Option<DateFields>,
    time: Option<TimeOfDay>,
    tzinfo: TimeZoneInfo,
    mzinfo: MetaZoneInfo,
)
    requires
        ascii_letter(letter),
        !field_symbol(letter),
        rendered(facet, before, date, time, tzinfo, mzinfo).1 is Ok,
    ensures
        rendered(facet, before + seq![letter] + after, date, time, tzinfo, mzinfo) == (
            rendered(facet, before, date, time, tzinfo, mzinfo).0,
            Err::<(), FormatError>(FormatError::UnknownFieldSymbol),
        ),
{
    let rest = seq![letter] + after;
    lemma_scan_reads_field_symbols(before);
    lemma_rendered_before_letter(facet, before, rest, date, time, tzinfo, mzinfo);
    lemma_rendered_step(facet, rest, date, time, tzinfo, mzinfo);
    assert(before + seq![letter] + after =~= before + rest);
    let written = rendered(facet, before, date, time, tzinfo, mzinfo).0;
    assert(written + Seq::<char>::empty() =~= written);
}

/// Numeric fields are zero-padded to their count. A field of `count`
/// letters that renders as a number asks the facet for `count` digits; and
/// under the invariant locale a number that is not negative and has no more
/// than `count` digits is written in exactly `count` digits, which denote
/// it.
pub proof fn lemma_numeric_fields_are_zero_padded(
    symbol: char,
    count: usize,
    date: DateFields,
    time: TimeOfDay,
)
    ensures
        date_call(symbol, count, date, (InvariantTime {  }).week_start()) matches Ok(
            FacetCall::Number { value, digits },
        ) ==> digits == count && (count >= 1 && 0 <= value < pow10(count as nat) ==> (date_text(
            &(InvariantTime {  }),
            symbol,
            count,
            date,
        ) matches Ok(text) && text.len() == count && all_digits(text) && digits_value(text)
            == value)),
        time_call(symbol, count, time) matches Ok(FacetCall::Number { value, digits }) ==> digits
            == count && (count >= 1 && 0 <= value < pow10(count as nat) ==> (time_text(
            &(InvariantTime {  }),
            symbol,
            count,
            time,
        ) matches Ok(text) && text.len() == count && all_digits(text) && digits_value(text)
            == value)),
{
    let facet = InvariantTime {  };
    if let Ok(FacetCall::Number { value, digits }) = date_call(
        symbol,
        count,
        date,
        facet.week_start(),
    ) {
        if value >= 0 {
            lemma_zero_padded(value as nat, count as nat);
        }
    }
    if let Ok(FacetCall::Number { value, digits }) = time_call(symbol, count, time) {
        if value >= 0 {
            lemma_zero_padded(value as nat, count as nat);
        }
    }
}

/// What rendering atoms writes, and how it ends: each character as it
/// stands and each field as the dispatcher renders it, up to the first
/// field that is refused.
spec fn atoms_text<F: Time + ?Sized>(
    facet: &F,
    atoms: Seq<Atom>,
    date: Option<DateFields>,
    time: Option<TimeOfDay>,
    tzinfo: TimeZoneInfo,
    mzinfo: MetaZoneInfo,
) -> (Seq<char>, Result<(), FormatError>)
    decreases atoms.len(),
{
    if atoms.len() == 0 {
        (Seq::empty(), Ok(()))
    } else {
        let rest = atoms_text(facet, atoms.skip(1), date, time, tzinfo, mzinfo);
        match atoms[0] {
            Atom::Char(c) => (seq![c] + rest.0, rest.1),
            Atom::Field(symbol, count) => match field_text(
                facet,
                symbol,
                count as usize,
                date,
                time,
                tzinfo,
                mzinfo,
            ) {
                Err(e) => (Seq::empty(), Err(e)),
                Ok(text) => (text + rest.0, rest.1),
            },
        }
    }
}

/// The atoms of literal text render to the text.
proof fn lemma_text_atoms_render<F: Time + ?Sized>(
    facet: &F,
    text: Seq<char>,
    after: Seq<Atom>,
    date: Option<DateFields>,
    time: Option<TimeOfDay>,
    tzinfo: TimeZoneInfo,
    mzinfo: MetaZoneInfo,
)
    ensures
        atoms_text(facet, text_atoms(text) + after, date, time, tzinfo, mzinfo) == (
            text + atoms_text(facet, after, date, time, tzinfo, mzinfo).0,
            atoms_text(facet, after, date, time, tzinfo, mzinfo).1,
        ),
    decreases text.len(),
{
    let atoms = text_atoms(text) + after;
    let rest = atoms_text(facet, after, date, time, tzinfo, mzinfo);
    if text.len() == 0 {
        assert(atoms =~= after);
        assert(text + rest.0 =~= rest.0);
    } else {
        lemma_text_atoms_render(facet, text.skip(1), after, date, time, tzinfo, mzinfo);
        assert(atoms.skip(1) =~= text_atoms(text.skip(1)) + after);
        assert(seq![text[0]] + (text.skip(1) + rest.0) =~= text + rest.0);
    }
}

/// Tokens render as their atoms do: the bounds between one piece of literal
/// text and the next do not show.
proof fn lemma_tokens_render_as_atoms<F: Time + ?Sized>(
    facet: &F,
    tokens: Seq<Token>,
    date: Option<DateFields>,
    time: Option<TimeOfDay>,
    tzinfo: TimeZoneInfo,
    mzinfo: MetaZoneInfo,
)
    ensures
        tokens_text(facet, tokens, date, time, tzinfo, mzinfo) == atoms_text(
            facet,
            atoms_of(tokens),
            date,
            time,
            tzinfo,
            mzinfo,
        ),
    decreases tokens.len(),
{
    if tokens.len() > 0 {
        let rest = atoms_of(tokens.skip(1));
        lemma_tokens_render_as_atoms(facet, tokens.skip(1), date, time, tzinfo, mzinfo);
        match tokens[0] {
            Token::Literal(text) => {
                lemma_text_atoms_render(facet, text, rest, date, time, tzinfo, mzinfo);
            },
            Token::Field(symbol, count) => {
                assert((seq![Atom::Field(symbol, count)] + rest).skip(1) =~= rest);
            },
        }
    }
}

/// Writing and reading back. The pattern written for tokens whose atoms are
/// sayable is read by the grammar to its end, and renders as the tokens
/// do, whatever the facet and whatever date, time and zone are supplied.
pub proof fn lemma_written_tokens_render_alike<F: Time + ?Sized>(
    facet: &F,
    tokens: Seq<Token>,
    date: Option<DateFields>,
    time: Option<TimeOfDay>,
    tzinfo: TimeZoneInfo,
    mzinfo: MetaZoneInfo,
)
    requires
        sayable(atoms_of(tokens)),
    ensures
        crate::pattern::tokens(written(tokens)) is Ok,
        rendered(facet, written(tokens), date, time, tzinfo, mzinfo) == tokens_text(
            facet,
            tokens,
            date,
            time,
            tzinfo,
            mzinfo,
        ),
{
    let again = scan(written(tokens)).0;
    lemma_written_is_read_back(atoms_of(tokens));
    lemma_tokens_render_as_atoms(facet, tokens, date, time, tzinfo, mzinfo);
    lemma_tokens_render_as_atoms(facet, again, date, time, tzinfo, mzinfo);
}

/// Round trip. The tokens of a pattern that the grammar reads to its end,
/// written as a pattern again, give a pattern that the grammar reads to its
/// end and that renders as the first one does, whatever the facet and
/// whatever date, time and zone are supplied.
pub proof fn lemma_round_trip_renders_alike<F: Time + ?Sized>(
    facet: &F,
    pattern: Seq<char>,
    date: Option<DateFields>,
    time: Option<TimeOfDay>,
    tzinfo: TimeZoneInfo,
    mzinfo: MetaZoneInfo,
)
    requires
        tokens(pattern) is Ok,
    ensures
        tokens(written(tokens(pattern)->Ok_0)) is Ok,
        rendered(facet, written(tokens(pattern)->Ok_0), date, time, tzinfo, mzinfo) == rendered(
            facet,
            pattern,
            date,
            time,
            tzinfo,
            mzinfo,
        ),
{
    lemma_read_is_sayable(pattern);
    lemma_written_tokens_render_alike(facet, scan(pattern).0, date, time, tzinfo, mzinfo);
}

} // verus!
