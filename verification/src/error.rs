use vstd::prelude::*;

verus! {

/// Everything that can go wrong while building a chunk type or decoding a
/// chunk from its wire form.
#[derive(Debug, Clone, Copy, PartialEq, Eq, Structural)]
pub enum ChunkError {
    /// A byte destined for a chunk type is not ASCII alphabetic.
    InvalidTypeByte,
    /// A chunk-type string is not exactly four characters.
    WrongLength,
    /// A chunk-type string contains non-ASCII characters.
    NonAscii,
    /// The parsed length field exceeds the format cap of 2^31 - 1.
    LengthTooLarge,
    /// The input buffer is shorter than the declared chunk size.
    Truncated,
    /// The stored CRC does not match the CRC computed over type and payload.
    ChecksumMismatch { expected: u32, found: u32 },
    /// The payload is not valid UTF-8.
    InvalidUtf8,
}

} // verus!
