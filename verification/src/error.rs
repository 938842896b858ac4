//! The ways in which rendering a pattern can fail.

use vstd::prelude::*;

verus! {

/// Why a pattern could not be rendered.
#[derive(Copy, Clone, Debug, PartialEq, Eq, Structural, Hash)]
pub enum FormatError {
    /// A quote was opened and the pattern ended before it was closed.
    UnterminatedQuote,
    /// An unquoted ASCII letter that is not a field symbol.
    UnknownFieldSymbol,
    /// A field asks for a date, a time or a zone that the caller did not supply.
    MissingRequiredInput,
    /// The field, at this width or for this calendar, has no rendering.
    UnsupportedFieldForWidth,
    /// The output sink refused the text.
    SinkWriteFailure,
}

} // verus!
