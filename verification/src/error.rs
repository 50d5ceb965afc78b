//! The error taxonomy shared by the decoders.

use vstd::prelude::*;

verus! {

/// A decoding failure. Every decoder in this crate reports exactly one of
/// these; no operation aborts the process on bad input.
#[derive(Debug, Clone, Copy, PartialEq, Eq, Structural)]
pub enum CodecError {
    /// The input does not match the expected structural shape
    /// (wrong token count).
    FormatError,
    /// The input is numerically outside the representable range of the
    /// target value.
    RangeError,
}

impl CodecError {
    /// A human-readable description of the failure.
    pub fn message(&self) -> (m: &'static str)
        ensures
            *self == CodecError::FormatError ==> m@ == "Expecting first and last name"@,
            *self == CodecError::RangeError ==> m@ == "timestamp out of range"@,
    {
        match self {
            CodecError::FormatError => "Expecting first and last name",
            CodecError::RangeError => "timestamp out of range",
        }
    }
}

} // verus!
