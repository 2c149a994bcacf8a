//! The format chunk: the tag that names the sample encoding, and the
//! parameters that follow it.

use crate::error::FormatFault;
use crate::error::WaveError;
use crate::stream::after_read;
use crate::stream::load_u16_le;
use crate::stream::load_u32_le;
use crate::stream::u16_at;
use crate::stream::u32_at;
use crate::stream::ByteStream;
use vstd::prelude::*;

verus! {

/// Format code of linear PCM.
pub const PCM: u16 = 0x0001;

/// Format code of IEEE floating point.
pub const IEEE_FLOAT: u16 = 0x0003;

/// Format code of 8-bit ITU-T G.711 A-law.
pub const A_LAW: u16 = 0x0006;

/// Format code of 8-bit ITU-T G.711 mu-law.
pub const MU_LAW: u16 = 0x0007;

/// Format code that defers to an extension of the format chunk.
pub const EXTENSIBLE: u16 = 0xFFFE;

/// The sample encoding that a format chunk declares. Only the five
/// recognised codes have a tag; no other 16-bit value can be held.
#[derive(Clone, Copy, Debug, PartialEq, Eq, Structural)]
pub enum FormatTag {
    Pcm,
    IeeeFloat,
    ALaw,
    MuLaw,
    Extensible,
}

impl FormatTag {
    /// The 16-bit code that stands for this tag in a file.
    pub open spec fn spec_code(self) -> u16 {
        match self {
            FormatTag::Pcm => PCM,
            FormatTag::IeeeFloat => IEEE_FLOAT,
            FormatTag::ALaw => A_LAW,
            FormatTag::MuLaw => MU_LAW,
            FormatTag::Extensible => EXTENSIBLE,
        }
    }

    /// The tag that `code` stands for, if it is one of the five recognised
    /// codes.
    pub open spec fn spec_from_code(code: u16) -> Option<FormatTag> {
        if code == PCM {
            Some(FormatTag::Pcm)
        } else if code == IEEE_FLOAT {
            Some(FormatTag::IeeeFloat)
        } else if code == A_LAW {
            Some(FormatTag::ALaw)
        } else if code == MU_LAW {
            Some(FormatTag::MuLaw)
        } else if code == EXTENSIBLE {
            Some(FormatTag::Extensible)
        } else {
            None
        }
    }

    /// The 16-bit code that stands for this tag in a file.
    #[verifier::when_used_as_spec(spec_code)]
    pub fn code(self) -> (code: u16)
        ensures
            code == self.spec_code(),
    {
        match self {
            FormatTag::Pcm => PCM,
            FormatTag::IeeeFloat => IEEE_FLOAT,
            FormatTag::ALaw => A_LAW,
            FormatTag::MuLaw => MU_LAW,
            FormatTag::Extensible => EXTENSIBLE,
        }
    }

    /// The tag that `code` stands for; `None` for every value other than
    /// the five recognised codes.
    #[verifier::when_used_as_spec(spec_from_code)]
    pub fn from_code(code: u16) -> (tag: Option<FormatTag>)
        ensures
            tag == FormatTag::spec_from_code(code),
    {
        if code == PCM {
            Some(FormatTag::Pcm)
        } else if code == IEEE_FLOAT {
            Some(FormatTag::IeeeFloat)
        } else if code == A_LAW {
            Some(FormatTag::ALaw)
        } else if code == MU_LAW {
            Some(FormatTag::MuLaw)
        } else if code == EXTENSIBLE {
            Some(FormatTag::Extensible)
        } else {
            None
        }
    }

    /// A tag's code stands for that tag, and a code that stands for a tag
    /// is the code of that tag: tags and recognised codes correspond one
    /// to one.
    pub proof fn lemma_code_round_trip(tag: FormatTag, code: u16)
        ensures
            FormatTag::spec_from_code(tag.spec_code()) == Some(tag),
            FormatTag::spec_from_code(code) == Some(tag) <==> code == tag.spec_code(),
    {
    }
}

/// The fields of a format chunk, in the order in which the file holds
/// them. No range is imposed on the numbers here.
#[derive(Clone, Copy, Debug, PartialEq, Eq, Structural)]
pub struct FormatChunk {
    pub tag: FormatTag,
    pub num_chans: u16,
    pub samples_per_sec: u32,
    pub avg_bytes_per_sec: u32,
    pub block_align: u16,
    pub bits_per_sample: u16,
}

/// The number of bytes that the fields of a format chunk take up.
pub const FORMAT_CHUNK_BYTES: usize = 16;

/// What reading a format tag from the unread bytes `s` gives.
pub open spec fn format_tag_of(s: Seq<u8>) -> Result<FormatTag, WaveError> {
    if s.len() < 2 {
        Err(WaveError::TruncatedInput)
    } else {
        match FormatTag::spec_from_code(u16_at(s, 0)) {
            Some(tag) => Ok(tag),
            None => Err(WaveError::InvalidFormat(FormatFault::FormatTag { code: u16_at(s, 0) })),
        }
    }
}

/// What reading a format chunk from the unread bytes `s` gives: the tag
/// is examined as soon as it is read, before the fields behind it.
pub open spec fn format_chunk_of(s: Seq<u8>) -> Result<FormatChunk, WaveError> {
    match format_tag_of(s) {
        Err(e) => Err(e),
        Ok(tag) => if s.len() < FORMAT_CHUNK_BYTES {
            Err(WaveError::TruncatedInput)
        } else {
            Ok(
                FormatChunk {
                    tag,
                    num_chans: u16_at(s, 2),
                    samples_per_sec: u32_at(s, 4),
                    avg_bytes_per_sec: u32_at(s, 8),
                    block_align: u16_at(s, 12),
                    bits_per_sample: u16_at(s, 14),
                },
            )
        },
    }
}

/// How many bytes reading a format chunk from `s` asks for: all fields,
/// or the tag alone where the tag is refused.
pub open spec fn format_chunk_reach(s: Seq<u8>) -> nat {
    if format_tag_of(s) matches Err(WaveError::InvalidFormat(_)) {
        2
    } else {
        FORMAT_CHUNK_BYTES as nat
    }
}

/// Reads the 16-bit format tag and checks that it is a recognised code.
///
/// The two bytes are consumed in either case. An unrecognised code fails
/// with `InvalidFormat`, which holds the code; a stream with fewer than two
/// bytes left fails with `TruncatedInput`.
pub fn load_wave_format(stream: &mut ByteStream) -> (r: Result<FormatTag, WaveError>)
    ensures
        final(stream)@ == after_read(old(stream)@, 2),
        r == format_tag_of(old(stream)@),
{
    let code = load_u16_le(stream)?;
    match FormatTag::from_code(code) {
        Some(tag) => Ok(tag),
        None => Err(WaveError::InvalidFormat(FormatFault::FormatTag { code })),
    }
}

/// Reads the fields of a format chunk: tag, channel count, sample rate,
/// average byte rate, block alignment and bits per sample.
///
/// The first read that fails ends the parse with its error. The numbers
/// are taken as they stand: a channel count of zero passes here.
pub fn load_format_chunk(stream: &mut ByteStream) -> (r: Result<FormatChunk, WaveError>)
    ensures
        final(stream)@ == after_read(old(stream)@, format_chunk_reach(old(stream)@)),
        r == format_chunk_of(old(stream)@),
{
    let tag = load_wave_format(stream)?;
    let num_chans = load_u16_le(stream)?;
    let samples_per_sec = load_u32_le(stream)?;
    let avg_bytes_per_sec = load_u32_le(stream)?;
    let block_align = load_u16_le(stream)?;
    let bits_per_sample = load_u16_le(stream)?;
    Ok(FormatChunk { tag, num_chans, samples_per_sec, avg_bytes_per_sec, block_align, bits_per_sample })
}

} // verus!
