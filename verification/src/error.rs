//! How a parse can fail: either no production matched, reported as the
//! most interesting (greatest) failure offset, or the document is
//! semantically unusable even though the grammar matched.

use vstd::prelude::*;

verus! {

/// The error of a failed parse.
///
/// `Failure` is the ordinary case: the offset is the furthest position any
/// abandoned alternative reached.  The remaining variants are fatal semantic
/// errors: the input matched the grammar but cannot be turned into a tree.
#[derive(Clone, Copy, Debug, PartialEq, Eq, Structural)]
pub enum ParseError {
    /// No production matched; the offset of the most interesting failure.
    Failure { offset: usize },
    /// A closing tag did not name the element it closes.
    MismatchedElementEndTag,
    /// A processing instruction used the reserved target `xml`.
    ReservedProcessingInstructionTarget,
    /// An entity reference named none of the five predefined entities.
    UnknownEntity,
    /// A numeric character reference denoted no valid code point.
    InvalidCharacterReference,
    /// A name used a namespace prefix that no enclosing element declares.
    UnknownNamespacePrefix,
}

} // verus!
