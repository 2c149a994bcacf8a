//! The decoder: walks a RIFF/WAVE container from its first byte to its
//! last and builds the decoded file.
//!
//! The container is read in one fixed order, with no padding between the
//! fields:
//!
//! | offset | size | field                                      |
//! |--------|------|--------------------------------------------|
//! | 0      | 4    | `RIFF`                                     |
//! | 4      | 4    | declared container size (read, not used)   |
//! | 8      | 4    | `WAVE`                                     |
//! | 12     | 4    | `fmt ` (with the trailing space)           |
//! | 16     | 4    | declared format-chunk size (read, not used)|
//! | 20     | 16   | the fields of the format chunk             |
//! | 36     | 4    | `data`                                     |
//! | 40     | rest | interleaved sample payload                 |

use crate::error::WaveError;
use crate::format::format_chunk_of;
use crate::format::format_chunk_reach;
use crate::format::load_format_chunk;
use crate::format::FormatTag;
use crate::samples::deinterleaved;
use crate::samples::load_wave_samples;
use crate::samples::WaveData;
use crate::samples::WaveDataView;
use crate::stream::after_read;
use crate::stream::id_at;
use crate::stream::id_found;
use crate::stream::wrong_id;
use crate::stream::load_4byte_id;
use crate::stream::load_u32_le;
use crate::stream::ByteStream;
use vstd::prelude::*;

verus! {

/// The identifier that opens the container: `RIFF`.
pub const RIFF_ID: [u8; 4] = [0x52, 0x49, 0x46, 0x46];

/// The identifier of the container's form: `WAVE`.
pub const WAVE_ID: [u8; 4] = [0x57, 0x41, 0x56, 0x45];

/// The identifier of the format chunk: `fmt` and a space.
pub const FMT_ID: [u8; 4] = [0x66, 0x6D, 0x74, 0x20];

/// The identifier of the data chunk: `data`.
pub const DATA_ID: [u8; 4] = [0x64, 0x61, 0x74, 0x61];

/// A decoded file: the format parameters and the samples of each channel.
/// The sample width is told by the shape of `samples`.
#[derive(Debug, PartialEq, Eq)]
pub struct Wave {
    pub tag: FormatTag,
    pub num_chans: u16,
    pub samples_per_sec: u32,
    pub avg_bytes_per_sec: u32,
    pub block_align: u16,
    pub samples: WaveData,
}

/// What a [`Wave`] holds, with the samples as mathematical sequences.
pub struct WaveView {
    pub tag: FormatTag,
    pub num_chans: u16,
    pub samples_per_sec: u32,
    pub avg_bytes_per_sec: u32,
    pub block_align: u16,
    pub samples: WaveDataView,
}

impl View for Wave {
    type V = WaveView;

    open spec fn view(&self) -> WaveView {
        WaveView {
            tag: self.tag,
            num_chans: self.num_chans,
            samples_per_sec: self.samples_per_sec,
            avg_bytes_per_sec: self.avg_bytes_per_sec,
            block_align: self.block_align,
            samples: self.samples@,
        }
    }
}

/// What decoding the container `s` gives: the file, or the first fault
/// met on the way from the first byte to the last.
pub open spec fn wave_of(s: Seq<u8>) -> Result<WaveView, WaveError> {
    if !id_at(s, 0, RIFF_ID@) {
        Err(wrong_id(s, 0, RIFF_ID))
    } else if s.len() < 8 {
        Err(WaveError::TruncatedInput)
    } else if !id_at(s, 8, WAVE_ID@) {
        Err(wrong_id(s, 8, WAVE_ID))
    } else if !id_at(s, 12, FMT_ID@) {
        Err(wrong_id(s, 12, FMT_ID))
    } else if s.len() < 20 {
        Err(WaveError::TruncatedInput)
    } else {
        match format_chunk_of(s.skip(20)) {
            Err(e) => Err(e),
            Ok(format) => if !id_at(s, 36, DATA_ID@) {
                Err(wrong_id(s, 36, DATA_ID))
            } else {
                match deinterleaved(s.skip(40), format.num_chans, format.bits_per_sample) {
                    Err(e) => Err(e),
                    Ok(samples) => Ok(
                        WaveView {
                            tag: format.tag,
                            num_chans: format.num_chans,
                            samples_per_sec: format.samples_per_sec,
                            avg_bytes_per_sec: format.avg_bytes_per_sec,
                            block_align: format.block_align,
                            samples,
                        },
                    ),
                }
            },
        }
    }
}

/// How far into the container `s` a decode reads: up to the end of the
/// field at which it stops, or to the end of the input once the payload is
/// taken up.
pub open spec fn wave_reach(s: Seq<u8>) -> nat {
    if !id_at(s, 0, RIFF_ID@) {
        4
    } else if s.len() < 8 {
        8
    } else if !id_at(s, 8, WAVE_ID@) {
        12
    } else if !id_at(s, 12, FMT_ID@) {
        16
    } else if s.len() < 20 {
        20
    } else {
        match format_chunk_of(s.skip(20)) {
            Err(_) => 20 + format_chunk_reach(s.skip(20)),
            Ok(format) => if !id_at(s, 36, DATA_ID@) {
                40
            } else if format.bits_per_sample != 8 && format.bits_per_sample != 16 {
                40
            } else {
                s.len()
            },
        }
    }
}

/// Whether a decode of `s` gets as far as the field at offset `at`: every
/// field in front of it is there in full and passes its check.
pub open spec fn reaches(s: Seq<u8>, at: int) -> bool {
    &&& at > 0 ==> id_at(s, 0, RIFF_ID@)
    &&& at > 4 ==> s.len() >= 8
    &&& at > 8 ==> id_at(s, 8, WAVE_ID@)
    &&& at > 12 ==> id_at(s, 12, FMT_ID@)
    &&& at > 16 ==> s.len() >= 20
    &&& at > 20 ==> format_chunk_of(s.skip(20)) is Ok
    &&& at > 36 ==> id_at(s, 36, DATA_ID@)
}

/// Decodes a whole container from `stream`.
///
/// The steps run in the order of the layout, and the first one that fails
/// ends the decode with its error: nothing behind the failing field is
/// read, and no partial file is returned. The two declared sizes are read
/// and not held against anything; the payload runs to the end of the
/// input.
pub fn load_wave(stream: &mut ByteStream) -> (r: Result<Wave, WaveError>)
    ensures
        match r {
            Ok(wave) => wave_of(old(stream)@) == Ok::<WaveView, WaveError>(wave@),
            Err(e) => wave_of(old(stream)@) == Err::<WaveView, WaveError>(e),
        },
        final(stream)@ == after_read(old(stream)@, wave_reach(old(stream)@)),
        // A decoded file has at least one channel, and one sample sequence
        // for each, all of one length.
        r matches Ok(wave) ==> wave.num_chans > 0 && wave.samples@.num_chans() == wave.num_chans
            && wave.samples@.balanced(),
        // Anything but the expected identifier, at any of the four places
        // where one is due, ends the decode with `InvalidFormat` right
        // behind that place.
        !id_at(old(stream)@, 0, RIFF_ID@) ==> r == Err::<Wave, WaveError>(
            wrong_id(old(stream)@, 0, RIFF_ID),
        ) && final(stream)@ == after_read(old(stream)@, 4),
        reaches(old(stream)@, 8) && !id_at(old(stream)@, 8, WAVE_ID@) ==> r == Err::<
            Wave,
            WaveError,
        >(wrong_id(old(stream)@, 8, WAVE_ID)) && final(stream)@ == after_read(old(stream)@, 12),
        reaches(old(stream)@, 12) && !id_at(old(stream)@, 12, FMT_ID@) ==> r == Err::<
            Wave,
            WaveError,
        >(wrong_id(old(stream)@, 12, FMT_ID)) && final(stream)@ == after_read(old(stream)@, 16),
        reaches(old(stream)@, 36) && !id_at(old(stream)@, 36, DATA_ID@) ==> r == Err::<
            Wave,
            WaveError,
        >(wrong_id(old(stream)@, 36, DATA_ID)) && final(stream)@ == after_read(old(stream)@, 40),
{
    let ghost s = stream@;
    proof {
        lemma_id_at(s, 0, RIFF_ID@);
    }
    load_4byte_id(stream, &RIFF_ID)?;
    proof {
        lemma_read_at(s, 4, 4);
    }
    load_u32_le(stream)?;
    proof {
        lemma_id_at(s, 8, WAVE_ID@);
    }
    load_4byte_id(stream, &WAVE_ID)?;
    proof {
        lemma_id_at(s, 12, FMT_ID@);
    }
    load_4byte_id(stream, &FMT_ID)?;
    proof {
        lemma_read_at(s, 16, 4);
    }
    load_u32_le(stream)?;
    proof {
        lemma_read_at(s, 20, format_chunk_reach(s.skip(20)));
    }
    let format = load_format_chunk(stream)?;
    proof {
        lemma_id_at(s, 36, DATA_ID@);
    }
    load_4byte_id(stream, &DATA_ID)?;
    proof {
        lemma_read_at(s, 40, 0);
    }
    let samples = load_wave_samples(stream, format.num_chans, format.bits_per_sample)?;
    Ok(
        Wave {
            tag: format.tag,
            num_chans: format.num_chans,
            samples_per_sec: format.samples_per_sec,
            avg_bytes_per_sec: format.avg_bytes_per_sec,
            block_align: format.block_align,
            samples,
        },
    )
}

/// A read of `n` bytes from what is left behind offset `at` ends where a
/// read of `at + n` bytes from the start ends.
proof fn lemma_read_at(s: Seq<u8>, at: nat, n: nat)
    requires
        at <= s.len(),
    ensures
        after_read(s.skip(at as int), n) == after_read(s, at + n),
{
}

/// An identifier is found at the head of what is left behind offset `at`
/// exactly when it is found at `at`, the same four bytes are seen in its
/// place either way, and reading it ends four bytes behind `at`.
proof fn lemma_id_at(s: Seq<u8>, at: nat, id: Seq<u8>)
    requires
        at <= s.len(),
    ensures
        id_at(s.skip(at as int), 0, id) == id_at(s, at as int, id),
        id_found(s.skip(at as int), 0) == id_found(s, at as int),
        after_read(s.skip(at as int), 4) == after_read(s, at + 4),
{
    assert(id_found(s.skip(at as int), 0) =~= id_found(s, at as int));
    if at + 4 <= s.len() {
        assert(s.skip(at as int).subrange(0, 4) == s.subrange(at as int, at + 4 as int));
    }
}

} // verus!
