//! From directives back to a pattern.
//!
//! The pattern written for a sequence of directives quotes all literal
//! text: a quotation is opened before the first literal character that is
//! not a quote, and closed before the next field or at the end; a quote is
//! written as two quotes, inside a quotation and outside.

use crate::pattern::{
    first_token, lemma_first_token_bound, lemma_plain_length_bound, lemma_run_is_maximal,
    pattern_chars, quoted, run_length, scan, tokens_of, Directive, Step, Token,
};
use crate::symbol::field_symbol;
use vstd::prelude::*;

verus! {

/// What a pattern says, one literal character or one field at a time.
pub enum Atom {
    /// A character to be written as it stands.
    Char(char),
    /// A field: its letter and its count.
    Field(char, nat),
}

/// The first character of text.
pub open spec fn head(text: Seq<char>) -> char {
    text[0]
}

/// The atoms of literal text: its characters.
pub open spec fn text_atoms(text: Seq<char>) -> Seq<Atom>
    decreases text.len(),
{
    if text.len() == 0 {
        Seq::empty()
    } else {
        seq![Atom::Char(head(text))] + text_atoms(text.skip(1))
    }
}

/// The atoms of one token.
pub open spec fn token_atoms(token: Token) -> Seq<Atom> {
    match token {
        Token::Literal(text) => text_atoms(text),
        Token::Field(symbol, count) => seq![Atom::Field(symbol, count)],
    }
}

/// The atoms of a sequence of tokens: what it says, without the bounds
/// between one piece of literal text and the next.
pub open spec fn atoms_of(tokens: Seq<Token>) -> Seq<Atom>
    decreases tokens.len(),
{
    if tokens.len() == 0 {
        Seq::empty()
    } else {
        token_atoms(tokens[0]) + atoms_of(tokens.skip(1))
    }
}

/// `count` times the character `c`.
pub open spec fn repeated(c: char, count: nat) -> Seq<char> {
    Seq::new(count, |i: int| c)
}

/// A quote if `open`, else nothing.
pub open spec fn quote_if(open: bool) -> Seq<char> {
    if open {
        seq!['\'']
    } else {
        Seq::empty()
    }
}

/// The pattern written for atoms, after text that left a quotation open or
/// not.
pub open spec fn written_atoms(atoms: Seq<Atom>, open: bool) -> Seq<char>
    decreases atoms.len(),
{
    if atoms.len() == 0 {
        quote_if(open)
    } else {
        match atoms[0] {
            Atom::Field(symbol, count) => quote_if(open) + repeated(symbol, count) + written_atoms(
                atoms.skip(1),
                false,
            ),
            Atom::Char(c) => if c == '\'' {
                seq!['\'', '\''] + written_atoms(atoms.skip(1), open)
            } else {
                quote_if(!open) + seq![c] + written_atoms(atoms.skip(1), true)
            },
        }
    }
}

/// The pattern written for a sequence of tokens.
pub open spec fn written(tokens: Seq<Token>) -> Seq<char> {
    written_atoms(atoms_of(tokens), false)
}

/// The atoms of tokens, from the `i`-th on, are the atoms of that token and
/// those of the tokens after it.
proof fn lemma_atoms_from(tokens: Seq<Token>, i: int)
    requires
        0 <= i < tokens.len(),
    ensures
        atoms_of(tokens.skip(i)) == token_atoms(tokens[i]) + atoms_of(tokens.skip(i + 1)),
{
    assert(tokens.skip(i).skip(1) =~= tokens.skip(i + 1));
}

/// Writes the pattern for a field after what `out` holds.
fn write_field(symbol: char, count: usize, open: bool, out: &mut String, Ghost(after): Ghost<
    Seq<Atom>,
>)
    ensures
        final(out)@ + written_atoms(after, false) == old(out)@ + written_atoms(
            seq![Atom::Field(symbol, count as nat)] + after,
            open,
        ),
{
    let ghost atoms = seq![Atom::Field(symbol, count as nat)] + after;
    assert(atoms.skip(1) =~= after);
    if open {
        out.push('\'');
    }
    let ghost start = out@;
    assert(start =~= old(out)@ + quote_if(open));
    let mut i: usize = 0;
    while i < count
        invariant
            i <= count,
            out@ == start + repeated(symbol, i as nat),
        decreases count - i,
    {
        out.push(symbol);
        i = i + 1;
        assert(out@ =~= start + repeated(symbol, i as nat));
    }
    assert(out@ + written_atoms(after, false) =~= old(out)@ + (quote_if(open) + repeated(
        symbol,
        count as nat,
    ) + written_atoms(after, false)));
}

/// Writes the pattern for literal text after what `out` holds, and says
/// whether it leaves a quotation open.
fn write_text(text: &str, open: bool, out: &mut String, Ghost(after): Ghost<Seq<Atom>>) -> (left:
    bool)
    ensures
        final(out)@ + written_atoms(after, left) == old(out)@ + written_atoms(
            text_atoms(text@) + after,
            open,
        ),
{
    let chars = pattern_chars(text);
    let mut quoting = open;
    let mut i: usize = 0;
    assert(chars@.skip(0) =~= text@);
    while i < chars.len()
        invariant
            i <= chars@.len(),
            chars@ == text@,
            out@ + written_atoms(text_atoms(chars@.skip(i as int)) + after, quoting) == old(out)@
                + written_atoms(text_atoms(text@) + after, open),
        decreases chars@.len() - i,
    {
        let c = chars[i];
        let ghost atoms = text_atoms(chars@.skip(i as int)) + after;
        let ghost before = out@;
        proof {
            let here = chars@.skip(i as int);
            assert(here.skip(1) =~= chars@.skip(i + 1));
            assert(text_atoms(here) == seq![Atom::Char(c)] + text_atoms(here.skip(1)));
            assert(atoms[0] == Atom::Char(c));
            assert(atoms.skip(1) =~= text_atoms(chars@.skip(i + 1)) + after);
        }
        if c == '\'' {
            out.push('\'');
            out.push('\'');
            assert(out@ + written_atoms(atoms.skip(1), quoting) =~= before + (seq!['\'', '\'']
                + written_atoms(atoms.skip(1), quoting)));
        } else {
            if !quoting {
                out.push('\'');
            }
            out.push(c);
            assert(out@ + written_atoms(atoms.skip(1), true) =~= before + (quote_if(!quoting)
                + seq![c] + written_atoms(atoms.skip(1), true)));
            quoting = true;
        }
        i = i + 1;
    }
    assert(text_atoms(chars@.skip(i as int)) + after =~= after);
    quoting
}

/// Writes the pattern for a sequence of directives.
pub fn to_pattern(directives: &[Directive]) -> (pattern: String)
    ensures
        pattern@ == written(tokens_of(directives@)),
{
    let ghost all = tokens_of(directives@);
    let mut out = String::new();
    let mut open = false;
    let mut i: usize = 0;
    proof {
        assert(all.skip(0) =~= all);
        assert(out@ + written(all) =~= written(all));
    }
    while i < directives.len()
        invariant
            i <= directives@.len(),
            all == tokens_of(directives@),
            out@ + written_atoms(atoms_of(all.skip(i as int)), open) == written(all),
        decreases directives@.len() - i,
    {
        let ghost after = atoms_of(all.skip(i + 1));
        proof {
            lemma_atoms_from(all, i as int);
        }
        match &directives[i] {
            Directive::Field(symbol, count) => {
                write_field(*symbol, *count, open, &mut out, Ghost(after));
                open = false;
            },
            Directive::Literal(text) => {
                open = write_text(text.as_str(), open, &mut out, Ghost(after));
            },
        }
        i = i + 1;
    }
    assert(all.skip(i as int) =~= Seq::<Token>::empty());
    if open {
        out.push('\'');
    }
    assert(out@ =~= written(all));
    out
}

/// Atoms that a pattern can say: each field has a field symbol for its
/// letter and a count of at least one, and no field follows a field of the
/// same letter.
pub open spec fn sayable(atoms: Seq<Atom>) -> bool
    decreases atoms.len(),
{
    if atoms.len() == 0 {
        true
    } else {
        sayable(atoms.skip(1)) && match atoms[0] {
            Atom::Char(_) => true,
            Atom::Field(symbol, count) => field_symbol(symbol) && count >= 1 && (atoms.len() > 1
                ==> field_of(atoms[1]) != Some(symbol)),
        }
    }
}

/// The letter of a field; `None` for a character.
pub open spec fn field_of(atom: Atom) -> Option<char> {
    match atom {
        Atom::Field(symbol, _) => Some(symbol),
        Atom::Char(_) => None,
    }
}

/// The number of characters at the head of atoms.
pub open spec fn lead_count(atoms: Seq<Atom>) -> nat
    decreases atoms.len(),
{
    if atoms.len() > 0 && atoms[0] is Char {
        1 + lead_count(atoms.skip(1))
    } else {
        0
    }
}

/// The characters at the head of atoms.
pub open spec fn lead_text(atoms: Seq<Atom>) -> Seq<char>
    decreases atoms.len(),
{
    if atoms.len() > 0 {
        match atoms[0] {
            Atom::Char(c) => seq![c] + lead_text(atoms.skip(1)),
            Atom::Field(_, _) => Seq::empty(),
        }
    } else {
        Seq::empty()
    }
}

/// The length of what is written for the characters at the head of atoms
/// inside a quotation, with the closing quote.
pub open spec fn lead_length(atoms: Seq<Atom>) -> nat
    decreases atoms.len(),
{
    if atoms.len() > 0 {
        match atoms[0] {
            Atom::Char(c) => (if c == '\'' { 2nat } else { 1nat }) + lead_length(atoms.skip(1)),
            Atom::Field(_, _) => 1,
        }
    } else {
        1
    }
}

/// The atoms after the characters at the head are sayable if all are, and
/// are none or start with a field.
proof fn lemma_after_lead(atoms: Seq<Atom>)
    requires
        sayable(atoms),
    ensures
        lead_count(atoms) <= atoms.len(),
        sayable(atoms.skip(lead_count(atoms) as int)),
        atoms.take(lead_count(atoms) as int) == text_atoms(lead_text(atoms)),
        lead_text(atoms).len() == lead_count(atoms),
    decreases atoms.len(),
{
    if atoms.len() > 0 {
        match atoms[0] {
            Atom::Char(c) => {
                let tail = atoms.skip(1);
                let k = lead_count(tail) as int;
                lemma_after_lead(tail);
                assert(tail.skip(k) =~= atoms.skip(k + 1));
                let text = lead_text(atoms);
                assert(text.skip(1) =~= lead_text(tail));
                assert(head(text) == c);
                assert(atoms.take(k + 1) =~= seq![Atom::Char(c)] + tail.take(k));
            },
            Atom::Field(_, _) => {
                assert(atoms.skip(0) =~= atoms);
                assert(atoms.take(0) =~= Seq::<Atom>::empty());
            },
        }
    } else {
        assert(atoms.skip(0) =~= atoms);
        assert(atoms.take(0) =~= Seq::<Atom>::empty());
    }
}

/// What is written for sayable atoms outside a quotation starts with a
/// quote where the atoms start with a character, and with the letter of the
/// field where they start with a field.
proof fn lemma_written_head(atoms: Seq<Atom>)
    requires
        sayable(atoms),
    ensures
        atoms.len() == 0 ==> written_atoms(atoms, false).len() == 0,
        atoms.len() > 0 ==> written_atoms(atoms, false).len() > 0 && written_atoms(atoms, false)[0]
            == match atoms[0] {
            Atom::Char(_) => '\'',
            Atom::Field(symbol, _) => symbol,
        },
{
}

/// Read inside a quotation, what is written for sayable atoms gives back
/// the characters at their head, and closes the quotation before what is
/// written for the atoms after them.
proof fn lemma_quoted_written(atoms: Seq<Atom>)
    requires
        sayable(atoms),
    ensures
        quoted(written_atoms(atoms, true)) == Some((lead_text(atoms), lead_length(atoms))),
        lead_length(atoms) <= written_atoms(atoms, true).len(),
        written_atoms(atoms, true).skip(lead_length(atoms) as int) == written_atoms(
            atoms.skip(lead_count(atoms) as int),
            false,
        ),
    decreases atoms.len(),
{
    let w = written_atoms(atoms, true);
    if atoms.len() == 0 {
        assert(w.skip(1) =~= Seq::<char>::empty());
        assert(atoms.skip(0) =~= atoms);
    } else {
        let tail = atoms.skip(1);
        match atoms[0] {
            Atom::Field(symbol, count) => {
                let after = repeated(symbol, count) + written_atoms(tail, false);
                assert(w =~= seq!['\''] + after);
                assert(w[1] == symbol);
                assert(w.skip(1) =~= after);
                assert(atoms.skip(0) =~= atoms);
                assert(after =~= written_atoms(atoms, false));
            },
            Atom::Char(c) => {
                lemma_quoted_written(tail);
                lemma_after_lead(tail);
                let k = lead_count(tail) as int;
                let m = lead_length(tail) as int;
                assert(tail.skip(k) =~= atoms.skip(k + 1));
                if c == '\'' {
                    assert(w.skip(2) =~= written_atoms(tail, true));
                    assert(w.skip(m + 2) =~= written_atoms(tail, true).skip(m));
                } else {
                    assert(w =~= seq![c] + written_atoms(tail, true));
                    assert(w.skip(1) =~= written_atoms(tail, true));
                    assert(w.skip(m + 1) =~= written_atoms(tail, true).skip(m));
                }
            },
        }
    }
}

/// A run of one letter is read to its end: where `count` letters `c` stand,
/// and no further `c` after them, the run is `count` long.
pub proof fn lemma_run_is_read_whole(c: char, count: nat, rest: Seq<char>)
    requires
        rest.len() == 0 || rest[0] != c,
    ensures
        run_length(repeated(c, count) + rest, c) == count,
    decreases count,
{
    let s = repeated(c, count) + rest;
    if count == 0 {
        assert(s =~= rest);
    } else {
        assert(s.skip(1) =~= repeated(c, (count - 1) as nat) + rest);
        lemma_run_is_read_whole(c, (count - 1) as nat, rest);
    }
}

/// The atoms of tokens after a first token.
proof fn lemma_atoms_of_first(token: Token, rest: Seq<Token>)
    ensures
        atoms_of(seq![token] + rest) == token_atoms(token) + atoms_of(rest),
{
    assert((seq![token] + rest).skip(1) =~= rest);
}

/// Reading back. The pattern written for sayable atoms is read by the
/// grammar to its end, and its tokens say those atoms.
pub proof fn lemma_written_is_read_back(atoms: Seq<Atom>)
    requires
        sayable(atoms),
    ensures
        scan(written_atoms(atoms, false)).1 is None,
        atoms_of(scan(written_atoms(atoms, false)).0) == atoms,
    decreases atoms.len(),
{
    let w = written_atoms(atoms, false);
    if atoms.len() == 0 {
        assert(atoms_of(Seq::<Token>::empty()) =~= atoms);
    } else {
        let tail = atoms.skip(1);
        match atoms[0] {
            Atom::Field(symbol, count) => {
                let after = written_atoms(tail, false);
                lemma_written_head(tail);
                lemma_run_is_read_whole(symbol, count, after);
                assert(w =~= repeated(symbol, count) + after);
                assert(w.skip(count as int) =~= after);
                lemma_written_is_read_back(tail);
                lemma_atoms_of_first(Token::Field(symbol, count), scan(after).0);
                assert(token_atoms(Token::Field(symbol, count)) + tail =~= atoms);
            },
            Atom::Char(c) => {
                if c == '\'' {
                    let after = written_atoms(tail, false);
                    assert(w.skip(2) =~= after);
                    lemma_written_is_read_back(tail);
                    let token = Token::Literal(seq!['\'']);
                    lemma_atoms_of_first(token, scan(after).0);
                    assert(seq!['\''].skip(1) =~= Seq::<char>::empty());
                    assert(text_atoms(Seq::<char>::empty()) =~= Seq::<Atom>::empty());
                    assert(text_atoms(seq!['\'']) =~= seq![Atom::Char('\'')]);
                    assert(token_atoms(token) + tail =~= atoms);
                } else {
                    let inside = written_atoms(atoms, true);
                    let k = lead_count(atoms) as int;
                    let m = lead_length(atoms) as int;
                    let left = atoms.skip(k);
                    assert(w =~= seq!['\''] + inside);
                    assert(w[1] == c);
                    assert(w.skip(1) =~= inside);
                    lemma_quoted_written(atoms);
                    lemma_after_lead(atoms);
                    assert(w.skip(m + 1) =~= inside.skip(m));
                    lemma_written_is_read_back(left);
                    let token = Token::Literal(lead_text(atoms));
                    lemma_atoms_of_first(token, scan(written_atoms(left, false)).0);
                    assert(atoms.take(k) + left =~= atoms);
                }
            },
        }
    }
}

/// The atoms of characters followed by sayable atoms are sayable.
proof fn lemma_text_then_sayable(text: Seq<char>, after: Seq<Atom>)
    requires
        sayable(after),
    ensures
        sayable(text_atoms(text) + after),
    decreases text.len(),
{
    let atoms = text_atoms(text) + after;
    if text.len() == 0 {
        assert(atoms =~= after);
    } else {
        lemma_text_then_sayable(text.skip(1), after);
        assert(atoms.skip(1) =~= text_atoms(text.skip(1)) + after);
    }
}

/// Where the tokens that the grammar reads start with a field, the pattern
/// starts with the letter of that field.
proof fn lemma_read_head(s: Seq<char>)
    ensures
        ({
            let atoms = atoms_of(scan(s).0);
            atoms.len() > 0 ==> (field_of(atoms[0]) matches Some(symbol) ==> s.len() > 0 && s[0]
                == symbol)
        }),
{
    lemma_first_token_bound(s);
    if let Step::Next(token, n) = first_token(s) {
        let rest = scan(s.skip(n as int)).0;
        lemma_atoms_of_first(token, rest);
        if let Token::Literal(text) = token {
            lemma_plain_length_bound(s);
            assert(text.len() > 0);
        }
    } else {
        assert(atoms_of(scan(s).0) =~= Seq::<Atom>::empty());
    }
}

/// What the grammar reads is sayable.
pub proof fn lemma_read_is_sayable(s: Seq<char>)
    ensures
        sayable(atoms_of(scan(s).0)),
    decreases s.len(),
{
    lemma_first_token_bound(s);
    if let Step::Next(token, n) = first_token(s) {
        let left = s.skip(n as int);
        let rest = atoms_of(scan(left).0);
        lemma_read_is_sayable(left);
        lemma_atoms_of_first(token, scan(left).0);
        match token {
            Token::Literal(text) => {
                lemma_text_then_sayable(text, rest);
            },
            Token::Field(symbol, count) => {
                let atoms = seq![Atom::Field(symbol, count)] + rest;
                lemma_run_is_maximal(s, symbol);
                lemma_read_head(left);
                assert(atoms.skip(1) =~= rest);
            },
        }
    } else {
        assert(atoms_of(scan(s).0) =~= Seq::<Atom>::empty());
    }
}

} // verus!
