//! The alphabet of patterns: which letters are fields, and of what.

use vstd::prelude::*;

verus! {

/// An ASCII letter. Outside quotes every one of them is reserved for fields.
pub open spec fn ascii_letter(c: char) -> bool {
    ('a' <= c && c <= 'z') || ('A' <= c && c <= 'Z')
}

/// The letters of the fields of a date: `G y Y u q Q M L w d D E e c`.
pub open spec fn date_symbol(c: char) -> bool {
    c == 'G' || c == 'y' || c == 'Y' || c == 'u' || c == 'q' || c == 'Q' || c == 'M' || c == 'L'
        || c == 'w' || c == 'd' || c == 'D' || c == 'E' || c == 'e' || c == 'c'
}

/// The letters of the fields of a time of day: `a b h H K k m s S`.
pub open spec fn time_symbol(c: char) -> bool {
    c == 'a' || c == 'b' || c == 'h' || c == 'H' || c == 'K' || c == 'k' || c == 'm' || c == 's'
        || c == 'S'
}

/// The letters of the fields of a zone: `z Z O v V X x`.
pub open spec fn zone_symbol(c: char) -> bool {
    c == 'z' || c == 'Z' || c == 'O' || c == 'v' || c == 'V' || c == 'X' || c == 'x'
}

/// The letters that the grammar takes as fields.
pub open spec fn field_symbol(c: char) -> bool {
    date_symbol(c) || time_symbol(c) || zone_symbol(c)
}

/// Whether `c` is an ASCII letter.
pub fn is_ascii_letter(c: char) -> (b: bool)
    ensures
        b == ascii_letter(c),
{
    ('a' <= c && c <= 'z') || ('A' <= c && c <= 'Z')
}

/// Whether `c` is the letter of a date field.
pub fn is_date_symbol(c: char) -> (b: bool)
    ensures
        b == date_symbol(c),
{
    c == 'G' || c == 'y' || c == 'Y' || c == 'u' || c == 'q' || c == 'Q' || c == 'M' || c == 'L'
        || c == 'w' || c == 'd' || c == 'D' || c == 'E' || c == 'e' || c == 'c'
}

/// Whether `c` is the letter of a time field.
pub fn is_time_symbol(c: char) -> (b: bool)
    ensures
        b == time_symbol(c),
{
    c == 'a' || c == 'b' || c == 'h' || c == 'H' || c == 'K' || c == 'k' || c == 'm' || c == 's'
        || c == 'S'
}

/// Whether `c` is the letter of a zone field.
pub fn is_zone_symbol(c: char) -> (b: bool)
    ensures
        b == zone_symbol(c),
{
    c == 'z' || c == 'Z' || c == 'O' || c == 'v' || c == 'V' || c == 'X' || c == 'x'
}

/// Whether the grammar takes `c` as a field.
pub fn is_field_symbol(c: char) -> (b: bool)
    ensures
        b == field_symbol(c),
{
    is_date_symbol(c) || is_time_symbol(c) || is_zone_symbol(c)
}

} // verus!
