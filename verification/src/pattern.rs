//! The pattern grammar: a pattern is cut, from left to right, into literal
//! text and fields.
//!
//! Outside quotes a run of one ASCII letter is a field, taken as long as it
//! goes; any other run of characters up to the next letter or quote is
//! literal text. Two quotes stand for one quote. A single quote opens quoted
//! text, which runs to the next single quote that is not doubled.

use crate::error::FormatError;
use crate::symbol::{ascii_letter, field_symbol, is_ascii_letter, is_field_symbol};
use vstd::prelude::*;
use vstd::std_specs::iter::IteratorSpec;
use vstd::string::*;

verus! {

/// One directive of a pattern.
#[derive(Clone, Debug, PartialEq, Eq, Hash)]
pub enum Directive {
    /// Text to be written as it stands.
    Literal(String),
    /// A field: its letter, and how many times the letter stood in the
    /// pattern.
    Field(char, usize),
}

/// What a directive says, as a mathematical value.
pub enum Token {
    /// Text to be written as it stands.
    Literal(Seq<char>),
    /// A field: its letter, and how many times the letter stood in the
    /// pattern.
    Field(char, nat),
}

impl View for Directive {
    type V = Token;

    open spec fn view(&self) -> Token {
        match self {
            Directive::Literal(text) => Token::Literal(text@),
            Directive::Field(symbol, count) => Token::Field(*symbol, *count as nat),
        }
    }
}

/// The tokens that a sequence of directives says.
pub open spec fn tokens_of(directives: Seq<Directive>) -> Seq<Token> {
    directives.map_values(|d: Directive| d@)
}

/// A character that is literal outside quotes: neither an ASCII letter nor a
/// quote.
pub open spec fn plain(c: char) -> bool {
    !ascii_letter(c) && c != '\''
}

/// How many times `c` stands at the head of `s`.
pub open spec fn run_length(s: Seq<char>, c: char) -> nat
    decreases s.len(),
{
    if s.len() > 0 && s[0] == c {
        1 + run_length(s.skip(1), c)
    } else {
        0
    }
}

/// How many plain characters stand at the head of `s`.
pub open spec fn plain_length(s: Seq<char>) -> nat
    decreases s.len(),
{
    if s.len() > 0 && plain(s[0]) {
        1 + plain_length(s.skip(1))
    } else {
        0
    }
}

/// The text of a quotation whose opening quote stood just before `s`, and
/// the number of characters of `s` up to and with the closing quote; `None`
/// if `s` does not close the quotation. Inside, two quotes stand for one.
pub open spec fn quoted(s: Seq<char>) -> Option<(Seq<char>, nat)>
    decreases s.len(),
{
    if s.len() == 0 {
        None
    } else if s[0] != '\'' {
        match quoted(s.skip(1)) {
            Some((text, n)) => Some((seq![s[0]] + text, n + 1)),
            None => None,
        }
    } else if s.len() >= 2 && s[1] == '\'' {
        match quoted(s.skip(2)) {
            Some((text, n)) => Some((seq!['\''] + text, n + 2)),
            None => None,
        }
    } else {
        Some((Seq::empty(), 1))
    }
}

/// What stands at the head of a pattern.
pub enum Step {
    /// The pattern is at its end.
    End,
    /// A token, and the number of characters that it takes.
    Next(Token, nat),
    /// Nothing that the grammar knows.
    Fail(FormatError),
}

/// The token at the head of `s`.
pub open spec fn first_token(s: Seq<char>) -> Step {
    if s.len() == 0 {
        Step::End
    } else if s[0] == '\'' {
        if s.len() >= 2 && s[1] == '\'' {
            Step::Next(Token::Literal(seq!['\'']), 2)
        } else {
            match quoted(s.skip(1)) {
                Some((text, n)) => Step::Next(Token::Literal(text), n + 1),
                None => Step::Fail(FormatError::UnterminatedQuote),
            }
        }
    } else if ascii_letter(s[0]) {
        if field_symbol(s[0]) {
            Step::Next(Token::Field(s[0], run_length(s, s[0])), run_length(s, s[0]))
        } else {
            Step::Fail(FormatError::UnknownFieldSymbol)
        }
    } else {
        Step::Next(Token::Literal(s.take(plain_length(s) as int)), plain_length(s))
    }
}

/// The tokens of a pattern from left to right, as far as the grammar reads
/// it, and the failure at which it stops, if it does.
pub open spec fn scan(s: Seq<char>) -> (Seq<Token>, Option<FormatError>)
    decreases s.len(),
    via scan_terminates
{
    match first_token(s) {
        Step::End => (Seq::empty(), None),
        Step::Fail(e) => (Seq::empty(), Some(e)),
        Step::Next(token, n) => {
            let rest = scan(s.skip(n as int));
            (seq![token] + rest.0, rest.1)
        },
    }
}

#[via_fn]
proof fn scan_terminates(s: Seq<char>) {
    lemma_first_token_bound(s);
}

/// The tokens of a pattern, or the first failure of the grammar on it.
pub open spec fn tokens(s: Seq<char>) -> Result<Seq<Token>, FormatError> {
    match scan(s).1 {
        None => Ok(scan(s).0),
        Some(e) => Err(e),
    }
}

/// A run at the head of `s` ends where `s` ends or goes on with another
/// character.
pub proof fn lemma_run_is_maximal(s: Seq<char>, c: char)
    ensures
        run_length(s, c) <= s.len(),
        run_length(s, c) < s.len() ==> s[run_length(s, c) as int] != c,
    decreases s.len(),
{
    if s.len() > 0 && s[0] == c {
        lemma_run_is_maximal(s.skip(1), c);
    }
}

/// The plain characters at the head of `s` end within `s`.
pub proof fn lemma_plain_length_bound(s: Seq<char>)
    ensures
        plain_length(s) <= s.len(),
    decreases s.len(),
{
    if s.len() > 0 && plain(s[0]) {
        lemma_plain_length_bound(s.skip(1));
    }
}

/// A quotation that closes, closes within `s`, after at least its quote.
pub proof fn lemma_quoted_bound(s: Seq<char>)
    ensures
        quoted(s) matches Some((text, n)) ==> 1 <= n <= s.len(),
    decreases s.len(),
{
    if s.len() == 0 {
    } else if s[0] != '\'' {
        lemma_quoted_bound(s.skip(1));
    } else if s.len() >= 2 && s[1] == '\'' {
        lemma_quoted_bound(s.skip(2));
    }
}

/// A token takes at least one character and ends within the pattern.
pub proof fn lemma_first_token_bound(s: Seq<char>)
    ensures
        first_token(s) matches Step::Next(token, n) ==> 1 <= n <= s.len(),
{
    if s.len() > 0 {
        if s[0] == '\'' {
            lemma_quoted_bound(s.skip(1));
        } else if ascii_letter(s[0]) {
            lemma_run_is_maximal(s, s[0]);
        } else {
            lemma_plain_length_bound(s);
        }
    }
}

/// The characters of a string.
pub fn pattern_chars(pattern: &str) -> (chars: Vec<char>)
    ensures
        chars@ == pattern@,
{
    broadcast use vstd::string::group_string_axioms;

    let mut chars: Vec<char> = Vec::new();
    let mut rest = pattern.chars();
    loop
        invariant
            rest.obeys_prophetic_iter_laws(),
            rest.decrease() is Some,
            chars@ + rest.remaining() == pattern@,
        ensures
            chars@ =~= pattern@,
        decreases rest.decrease()->0,
    {
        match rest.next() {
            Some(c) => {
                chars.push(c);
            },
            None => {
                break ;
            },
        }
    }
    chars
}

fn scan_run(pattern: &[char], start: usize) -> (end: usize)
    requires
        start < pattern@.len(),
    ensures
        end == start + run_length(pattern@.skip(start as int), pattern@[start as int]),
        start < end <= pattern@.len(),
{
    let symbol = pattern[start];
    let mut end: usize = start;
    while end < pattern.len() && pattern[end] == symbol
        invariant
            start <= end <= pattern@.len(),
            symbol == pattern@[start as int],
            run_length(pattern@.skip(start as int), symbol) == (end - start) + run_length(
                pattern@.skip(end as int),
                symbol,
            ),
        decreases pattern@.len() - end,
    {
        assert(pattern@.skip(end as int).skip(1) =~= pattern@.skip(end + 1));
        end = end + 1;
    }
    end
}

fn scan_plain(pattern: &[char], start: usize) -> (r: (String, usize))
    requires
        start < pattern@.len(),
        plain(pattern@[start as int]),
    ensures
        r.1 == start + plain_length(pattern@.skip(start as int)),
        start < r.1 <= pattern@.len(),
        r.0@ == pattern@.skip(start as int).take(plain_length(pattern@.skip(start as int)) as int),
{
    let mut text = String::new();
    let mut end: usize = start;
    while end < pattern.len() && !is_ascii_letter(pattern[end]) && pattern[end] != '\''
        invariant
            start <= end <= pattern@.len(),
            plain_length(pattern@.skip(start as int)) == (end - start) + plain_length(
                pattern@.skip(end as int),
            ),
            text@ == pattern@.subrange(start as int, end as int),
        decreases pattern@.len() - end,
    {
        assert(pattern@.skip(end as int).skip(1) =~= pattern@.skip(end + 1));
        text.push(pattern[end]);
        end = end + 1;
        assert(text@ =~= pattern@.subrange(start as int, end as int));
    }
    assert(text@ =~= pattern@.skip(start as int).take((end - start) as int));
    (text, end)
}

fn scan_quoted(pattern: &[char], start: usize) -> (r: Option<(String, usize)>)
    requires
        start <= pattern@.len(),
    ensures
        match quoted(pattern@.skip(start as int)) {
            Some((text, n)) => r matches Some((t, end)) && t@ == text && end == start + n && end
                <= pattern@.len(),
            None => r is None,
        },
{
    let ghost whole = quoted(pattern@.skip(start as int));
    let mut text = String::new();
    let mut at: usize = start;
    while at < pattern.len()
        invariant
            start <= at <= pattern@.len(),
            whole == quoted(pattern@.skip(start as int)),
            whole == match quoted(pattern@.skip(at as int)) {
                Some((rest, n)) => Some((text@ + rest, (n + (at - start)) as nat)),
                None => None,
            },
        decreases pattern@.len() - at,
    {
        let ghost here = pattern@.skip(at as int);
        if pattern[at] != '\'' {
            assert(here.skip(1) =~= pattern@.skip(at + 1));
            proof {
                if let Some((rest, n)) = quoted(here.skip(1)) {
                    assert(text@.push(pattern@[at as int]) + rest =~= text@ + (seq![here[0]]
                        + rest));
                }
            }
            text.push(pattern[at]);
            at = at + 1;
        } else if at + 1 < pattern.len() && pattern[at + 1] == '\'' {
            assert(here.skip(2) =~= pattern@.skip(at + 2));
            proof {
                if let Some((rest, n)) = quoted(here.skip(2)) {
                    assert(text@.push('\'') + rest =~= text@ + (seq!['\''] + rest));
                }
            }
            text.push('\'');
            at = at + 2;
        } else {
            assert(text@ + Seq::<char>::empty() =~= text@);
            return Some((text, at + 1));
        }
    }
    None
}

/// Reads the directive that starts at `pos`: `None` at the end of the
/// pattern, else the directive and the place where the next one starts.
///
/// # Errors
///
/// `UnterminatedQuote` where a quote is opened at `pos` and not closed,
/// `UnknownFieldSymbol` where an ASCII letter stands at `pos` that is no
/// field.
pub fn next_directive(pattern: &[char], pos: usize) -> (r: Result<
    Option<(Directive, usize)>,
    FormatError,
>)
    requires
        pos <= pattern@.len(),
    ensures
        match first_token(pattern@.skip(pos as int)) {
            Step::End => r matches Ok(None),
            Step::Fail(e) => r matches Err(f) && f == e,
            Step::Next(token, n) => r matches Ok(Some((directive, next))) && directive@ == token
                && next == pos + n && pos < next <= pattern@.len(),
        },
{
    let ghost here = pattern@.skip(pos as int);
    if pos >= pattern.len() {
        return Ok(None);
    }
    let c = pattern[pos];
    if c == '\'' {
        if pos + 1 < pattern.len() && pattern[pos + 1] == '\'' {
            let mut text = String::new();
            text.push('\'');
            assert(text@ =~= seq!['\'']);
            Ok(Some((Directive::Literal(text), pos + 2)))
        } else {
            assert(here.skip(1) =~= pattern@.skip(pos + 1));
            match scan_quoted(pattern, pos + 1) {
                Some((text, next)) => Ok(Some((Directive::Literal(text), next))),
                None => Err(FormatError::UnterminatedQuote),
            }
        }
    } else if is_ascii_letter(c) {
        if is_field_symbol(c) {
            let next = scan_run(pattern, pos);
            Ok(Some((Directive::Field(c, next - pos), next)))
        } else {
            Err(FormatError::UnknownFieldSymbol)
        }
    } else {
        let (text, next) = scan_plain(pattern, pos);
        Ok(Some((Directive::Literal(text), next)))
    }
}

/// Cuts a whole pattern into its directives.
///
/// # Errors
///
/// The first failure of the grammar, from left to right: `UnterminatedQuote`
/// or `UnknownFieldSymbol`.
pub fn parse_pattern(pattern: &str) -> (r: Result<Vec<Directive>, FormatError>)
    ensures
        match tokens(pattern@) {
            Ok(ts) => r matches Ok(directives) && tokens_of(directives@) == ts,
            Err(e) => r matches Err(f) && f == e,
        },
{
    let chars = pattern_chars(pattern);
    let mut directives: Vec<Directive> = Vec::new();
    let mut pos: usize = 0;
    proof {
        assert(chars@.skip(0) =~= pattern@);
        assert(tokens_of(directives@) + scan(pattern@).0 =~= scan(pattern@).0);
    }
    loop
        invariant
            chars@ == pattern@,
            pos <= chars@.len(),
            scan(pattern@).0 == tokens_of(directives@) + scan(chars@.skip(pos as int)).0,
            scan(pattern@).1 == scan(chars@.skip(pos as int)).1,
        decreases chars@.len() - pos,
    {
        let ghost here = chars@.skip(pos as int);
        match next_directive(chars.as_slice(), pos) {
            Err(e) => {
                return Err(e);
            },
            Ok(None) => {
                assert(tokens_of(directives@) + Seq::<Token>::empty() =~= tokens_of(directives@));
                return Ok(directives);
            },
            Ok(Some((directive, next))) => {
                proof {
                    let rest = scan(chars@.skip(next as int)).0;
                    assert(here.skip(next - pos) =~= chars@.skip(next as int));
                    assert(tokens_of(directives@.push(directive)) + rest =~= tokens_of(
                        directives@,
                    ) + (seq![directive@] + rest));
                }
                directives.push(directive);
                pos = next;
            },
        }
    }
}

} // verus!
