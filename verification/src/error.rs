//! Error taxonomy of the decoder.
//!
//! Any failure inside a section decoder aborts the decode of the whole
//! document; the top-level decoders attach the index of the offending logical
//! line so that a caller can report where a hand-edited file went wrong.

use vstd::prelude::*;

verus! {

/// What went wrong on a single line or token.
#[derive(Clone, Copy, Debug, PartialEq, Eq, Structural)]
pub enum ParseErrorKind {
    /// A token that is present fails to parse as its required type.
    MalformedField,
    /// A mandatory positional token is absent.
    MissingRequiredField,
    /// A bracketed header is not one of the recognized sections.
    UnknownSection,
    /// A command line starts with a letter code outside the recognized set.
    UnknownCommandCode,
}

/// A decode failure, carrying the index of the logical (sanitized) line on
/// which decoding stopped.
#[derive(Clone, Copy, Debug, PartialEq, Eq, Structural)]
pub struct DecodeError {
    pub kind: ParseErrorKind,
    pub line: usize,
}

} // verus!

verus! {

/// A `Result` with its success value abstracted to the value's view; how
/// contracts over view-bearing records are stated.
pub open spec fn view_result<T: View, E>(r: Result<T, E>) -> Result<T::V, E> {
    match r {
        Ok(t) => Ok(t@),
        Err(e) => Err(e),
    }
}

} // verus!
