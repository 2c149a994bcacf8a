//! The ways in which decoding a RIFF/WAVE container can fail.

use vstd::prelude::*;

verus! {

/// What was found in place of valid format data.
#[derive(Clone, Copy, Debug, PartialEq, Eq)]
pub enum FormatFault {
    /// A chunk identifier other than the expected one. Where the input ends
    /// inside the identifier, the missing bytes of `found` are zero.
    ChunkId { expected: [u8; 4], found: [u8; 4] },
    /// A format tag that is none of the recognised codes.
    FormatTag { code: u16 },
}

/// Why a decode stopped. Every failure is terminal for the decode in
/// progress; no partial result accompanies it.
#[derive(Clone, Copy, Debug, PartialEq, Eq)]
pub enum WaveError {
    /// Fewer bytes were left in the stream than a fixed-width read needs.
    TruncatedInput,
    /// A chunk identifier differs from the expected literal, or the format
    /// tag is not one of the recognised codes.
    InvalidFormat(FormatFault),
    /// The sample width is neither 8 nor 16 bits.
    UnsupportedBitDepth,
    /// The sample payload does not consist of whole frames.
    IncompleteData,
}

} // verus!
