//! The failures that the decoding pipeline reports.

use vstd::prelude::*;

verus! {

/// Why a trigram, an eye or a message could not be decoded.
#[derive(Clone, Copy, PartialEq, Eq, Structural, Debug)]
pub enum DecodeError {
    /// A trigram string does not hold exactly three symbols.
    WrongTrigramLength,
    /// A trigram string holds a character that names no direction.
    UnknownDirectionSymbol,
    /// A code's triangle signature is missing from the list of unique signatures.
    UnmatchedTriangleSignature,
    /// An eye lies left of the message's padding or above its top edge.
    EyeOutsideMessage,
}

} // verus!
