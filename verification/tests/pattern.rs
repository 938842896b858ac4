use locale::pattern::{next_directive, parse_pattern, pattern_chars, Directive};
use locale::symbol::{is_ascii_letter, is_date_symbol, is_field_symbol, is_time_symbol, is_zone_symbol};
use locale::written::to_pattern;
use locale::FormatError;

fn literal(text: &str) -> Directive {
    Directive::Literal(text.to_string())
}

#[test]
fn run_of_one_letter_is_one_field() {
    assert_eq!(Ok(vec![Directive::Field('M', 3)]), parse_pattern("MMM"));
    assert_eq!(Ok(vec![Directive::Field('y', 1)]), parse_pattern("y"));
    assert_eq!(Ok(vec![Directive::Field('S', 12)]), parse_pattern("SSSSSSSSSSSS"));
}

#[test]
fn runs_of_different_letters_are_different_fields() {
    assert_eq!(
        Ok(vec![Directive::Field('q', 1), Directive::Field('Q', 1)]),
        parse_pattern("qQ")
    );
    assert_eq!(
        Ok(vec![
            Directive::Field('M', 2),
            Directive::Field('L', 1),
            Directive::Field('M', 1)
        ]),
        parse_pattern("MMLM")
    );
}

#[test]
fn pattern_is_cut_into_directives() {
    assert_eq!(
        Ok(vec![
            Directive::Field('y', 4),
            literal("-"),
            Directive::Field('M', 2),
            literal("-"),
            Directive::Field('d', 2),
            literal("T"),
            Directive::Field('H', 2),
            literal(":"),
            Directive::Field('m', 2),
            literal(":"),
            Directive::Field('s', 2),
        ]),
        parse_pattern("yyyy-MM-dd'T'HH:mm:ss")
    );
    assert_eq!(Ok(vec![]), parse_pattern(""));
}

#[test]
fn literal_runs_end_at_letters_and_quotes() {
    assert_eq!(
        Ok(vec![literal("12, "), Directive::Field('d', 1), literal(" .")]),
        parse_pattern("12, d .")
    );
    assert_eq!(Ok(vec![literal("12"), literal("34"), literal("56")]), parse_pattern("12'34'56"));
    assert_eq!(Ok(vec![literal("1"), literal("'"), literal("2")]), parse_pattern("1''2"));
}

#[test]
fn quotes_are_collapsed() {
    assert_eq!(Ok(vec![literal("'")]), parse_pattern("''"));
    assert_eq!(Ok(vec![literal("'"), literal("'")]), parse_pattern("''''"));
    assert_eq!(Ok(vec![literal("o'clock")]), parse_pattern("'o''clock'"));
    assert_eq!(Ok(vec![literal("a'")]), parse_pattern("'a'''"));
    assert_eq!(Ok(vec![literal("'"), literal("a")]), parse_pattern("'''a'"));
    assert_eq!(Ok(vec![literal("a'b'c")]), parse_pattern("'a''b''c'"));
}

#[test]
fn grammar_failures() {
    assert_eq!(Err(FormatError::UnterminatedQuote), parse_pattern("'"));
    assert_eq!(Err(FormatError::UnterminatedQuote), parse_pattern("yyyy 'abc"));
    assert_eq!(Err(FormatError::UnterminatedQuote), parse_pattern("'abc''"));
    assert_eq!(Err(FormatError::UnterminatedQuote), parse_pattern("'''"));
    assert_eq!(Err(FormatError::UnknownFieldSymbol), parse_pattern("p"));
    assert_eq!(Err(FormatError::UnknownFieldSymbol), parse_pattern("yyyy-MM-ddTHH"));
    assert_eq!(Err(FormatError::UnknownFieldSymbol), parse_pattern("B 'abc"));
    assert_eq!(Err(FormatError::UnterminatedQuote), parse_pattern("'abc B"));
}

#[test]
fn every_field_symbol_is_read() {
    for letter in "GyYuqQMLwdDEecabhHKkmsSzZOvVXx".chars() {
        let pattern: String = std::iter::repeat(letter).take(4).collect();
        assert_eq!(Ok(vec![Directive::Field(letter, 4)]), parse_pattern(&pattern));
    }
}

#[test]
fn letters_are_classified() {
    let date = "GyYuqQMLwdDEec";
    let time = "abhHKkmsS";
    let zone = "zZOvVXx";
    for code in 0u8..128 {
        let c = code as char;
        assert_eq!(c.is_ascii_alphabetic(), is_ascii_letter(c));
        assert_eq!(date.contains(c), is_date_symbol(c));
        assert_eq!(time.contains(c), is_time_symbol(c));
        assert_eq!(zone.contains(c), is_zone_symbol(c));
        assert_eq!(date.contains(c) || time.contains(c) || zone.contains(c), is_field_symbol(c));
    }
    assert!(!is_ascii_letter('\u{e9}'));
    assert!(!is_field_symbol('\u{e9}'));
}

#[test]
fn directives_are_read_one_by_one() {
    let chars = pattern_chars("dd'p'");
    assert_eq!(vec!['d', 'd', '\'', 'p', '\''], chars);
    assert_eq!(Ok(Some((Directive::Field('d', 2), 2))), next_directive(&chars, 0));
    assert_eq!(Ok(Some((Directive::Field('d', 1), 2))), next_directive(&chars, 1));
    assert_eq!(Ok(Some((literal("p"), 5))), next_directive(&chars, 2));
    assert_eq!(Err(FormatError::UnknownFieldSymbol), next_directive(&chars, 3));
    assert_eq!(Err(FormatError::UnterminatedQuote), next_directive(&chars, 4));
    assert_eq!(Ok(None), next_directive(&chars, 5));
}

#[test]
fn characters_beyond_ascii_are_literal() {
    let chars = pattern_chars("\u{e9}\u{4e2d}d");
    assert_eq!(3, chars.len());
    assert_eq!(Ok(Some((literal("\u{e9}\u{4e2d}"), 2))), next_directive(&chars, 0));
    assert_eq!(
        Ok(vec![literal("\u{e9}\u{4e2d}"), Directive::Field('d', 1)]),
        parse_pattern("\u{e9}\u{4e2d}d")
    );
}

#[test]
fn directives_are_written_as_a_pattern() {
    assert_eq!("", to_pattern(&[]));
    assert_eq!("MMM", to_pattern(&[Directive::Field('M', 3)]));
    assert_eq!("''", to_pattern(&[literal("'")]));
    assert_eq!("'it''s'", to_pattern(&[literal("it's")]));
    assert_eq!("'''a'", to_pattern(&[literal("'a")]));
    assert_eq!("'a'''", to_pattern(&[literal("a'")]));
    assert_eq!("'ab'", to_pattern(&[literal("a"), literal("b")]));
    assert_eq!("'-'dd", to_pattern(&[literal("-"), Directive::Field('d', 2)]));
    assert_eq!(
        "yyyy'-'MM'-'dd'T'HH':'mm':'ss",
        to_pattern(&parse_pattern("yyyy-MM-dd'T'HH:mm:ss").unwrap())
    );
    assert_eq!("''h' o''clock'", to_pattern(&parse_pattern("''h 'o''clock'").unwrap()));
}

#[test]
fn written_pattern_says_the_same() {
    fn said(directives: &[Directive]) -> Vec<Result<char, (char, usize)>> {
        let mut atoms = Vec::new();
        for directive in directives {
            match directive {
                Directive::Literal(text) => atoms.extend(text.chars().map(Ok)),
                Directive::Field(symbol, count) => atoms.push(Err((*symbol, *count))),
            }
        }
        atoms
    }
    for pattern in ["12'34'56", "''''yy''", "'a''b'cc'd'", "d 'x'' '''", "yyyyMMdd", "'\u{e9}'"] {
        let first = parse_pattern(pattern).unwrap();
        let again = parse_pattern(&to_pattern(&first)).unwrap();
        assert_eq!(said(&first), said(&again));
    }
}
