//! The error taxonomy shared by all decoding steps.

use vstd::prelude::*;

verus! {

/// Why a decode attempt failed. Every error is terminal for the attempt:
/// no partial record is ever returned.
#[derive(Clone, Copy, Debug, PartialEq, Eq, Structural)]
pub enum DecodeError {
    /// The tag-number continuation sequence has no terminating octet within
    /// the supported budget, or the buffer ends inside the identifier field.
    MalformedIdentifier,
    /// The length field declares more octets than the decoder's supported
    /// integer width, or the buffer ends before or inside the length field.
    LengthOverflow,
    /// Fewer content bytes remain in the buffer than the declared length
    /// requires.
    ContentTruncated,
    /// A caller's read of the input source failed. The decoder itself never
    /// produces this variant; it exists so that callers that gather the input
    /// can report through the same taxonomy.
    IoFailure,
}

} // verus!
