//! The sink: rendered text is appended to a `String`.

use vstd::prelude::*;

verus! {

/// `String::push` of `std`, which vstd leaves without a specification. Its
/// documentation says that it appends the given character to the end of the
/// string.
pub assume_specification[ String::push ](s: &mut String, c: char)
    ensures
        final(s)@ == old(s)@.push(c),
;

} // verus!
