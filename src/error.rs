use vstd::prelude::*;

verus! {

/// The ways in which building or reading a record can fail.
#[derive(Debug, Clone, Copy, PartialEq, Eq, Structural)]
pub enum PngError {
    /// A type byte is not an ASCII letter.
    InvalidTypeCode,
    /// A textual type code is not exactly four characters long.
    InvalidLength,
    /// The buffer is shorter than the twelve bytes of framing.
    TooShort,
    /// The declared payload length disagrees with the buffer size.
    LengthMismatch,
    /// The stored checksum differs from the recomputed one.
    CrcMismatch,
    /// The payload is not valid UTF-8.
    Utf8DecodeError,
}

} // verus!
