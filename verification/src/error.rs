//! The ways in which building or reading a record can fail.

use vstd::prelude::*;

verus! {

/// Why a type code or a chunk could not be produced.
#[derive(Debug, Clone, Copy, PartialEq, Eq, Structural)]
pub enum Error {
    /// A type code was requested from text that is not four bytes long.
    InvalidLength,
    /// A type code was requested from text holding a byte that is not an
    /// ASCII letter.
    InvalidCharacter,
    /// Bytes that were to be shown as text are not valid UTF-8.
    EncodingError,
    /// A buffer is shorter than the smallest possible frame.
    TooShort,
    /// The length field of a frame disagrees with the size of the buffer.
    LengthMismatch,
    /// The checksum stored in a frame is not the checksum of its content.
    ChecksumMismatch,
}

} // verus!
