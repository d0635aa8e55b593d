use vstd::prelude::*;

verus! {

/// Why a text token could not be turned into a value, or a value into text.
#[derive(Clone, Copy, Debug, PartialEq, Eq)]
pub enum CodecError {
    /// The text is not valid base-64 (a symbol outside the alphabet, or bad padding).
    InvalidEncoding,
    /// The text is not the base-58 form of a key or signature of the required size.
    InvalidFormat,
    /// The text is not a number of the expected grammar.
    InvalidNumber,
    /// The text is a well-formed number too large for the target type.
    NumberOverflow,
    /// The bytes do not form a transaction record, or the record cannot be written.
    InvalidRecord,
}

} // verus!
