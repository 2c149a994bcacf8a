//! Per-channel sample sequences, and the deinterleaver that rebuilds them
//! from an interleaved payload.
//!
//! A payload is a run of frames. A frame holds one sample for each channel,
//! channels in ascending order; a sample is one byte (8-bit) or two bytes,
//! low byte first (16-bit).

use crate::error::WaveError;
use crate::stream::u16_at;
use crate::stream::u16_from_le;
use crate::stream::ByteStream;
use vstd::arithmetic::div_mod::lemma_fundamental_div_mod_converse;
use vstd::arithmetic::div_mod::lemma_mod_self_0;
use vstd::arithmetic::div_mod::lemma_small_mod;
use vstd::prelude::*;

verus! {

/// The samples of a decoded file, one sequence per channel.
#[derive(Debug, PartialEq, Eq)]
pub enum WaveData {
    /// 8-bit audio: each sample is one signed byte.
    BytePerSample(Vec<Vec<i8>>),
    /// 16-bit audio: each sample is one unsigned 16-bit word.
    WordPerSample(Vec<Vec<u16>>),
}

/// What a [`WaveData`] holds, as mathematical sequences.
pub enum WaveDataView {
    BytePerSample(Seq<Seq<i8>>),
    WordPerSample(Seq<Seq<u16>>),
}

impl WaveDataView {
    /// The number of channels.
    pub open spec fn num_chans(self) -> nat {
        match self {
            WaveDataView::BytePerSample(chans) => chans.len(),
            WaveDataView::WordPerSample(chans) => chans.len(),
        }
    }

    /// The number of samples in channel `chan`.
    pub open spec fn channel_len(self, chan: int) -> nat
        recommends
            0 <= chan < self.num_chans(),
    {
        match self {
            WaveDataView::BytePerSample(chans) => chans[chan].len(),
            WaveDataView::WordPerSample(chans) => chans[chan].len(),
        }
    }

    /// No channel is longer than another.
    pub open spec fn balanced(self) -> bool {
        forall|a: int, b: int|
            0 <= a < self.num_chans() && 0 <= b < self.num_chans() ==> self.channel_len(a)
                == self.channel_len(b)
    }

    /// The first channel, if there is one, cut down to its first `limit`
    /// samples; other channels are left out.
    pub open spec fn preview(self, limit: nat) -> WaveDataView {
        match self {
            WaveDataView::BytePerSample(chans) => WaveDataView::BytePerSample(
                head_of_first(chans, limit),
            ),
            WaveDataView::WordPerSample(chans) => WaveDataView::WordPerSample(
                head_of_first(chans, limit),
            ),
        }
    }
}

/// The views of the channels in `chans`, in order.
pub open spec fn channel_views<T>(chans: Seq<Vec<T>>) -> Seq<Seq<T>> {
    Seq::new(chans.len(), |c: int| chans[c]@)
}

/// At most the first `limit` items of the first sequence in `chans`, as a
/// list of one sequence; the empty list if `chans` is empty.
pub open spec fn head_of_first<T>(chans: Seq<Seq<T>>, limit: nat) -> Seq<Seq<T>> {
    if chans.len() == 0 {
        Seq::empty()
    } else if limit <= chans[0].len() {
        seq![chans[0].take(limit as int)]
    } else {
        seq![chans[0]]
    }
}

impl View for WaveData {
    type V = WaveDataView;

    open spec fn view(&self) -> WaveDataView {
        match self {
            WaveData::BytePerSample(chans) => WaveDataView::BytePerSample(channel_views(chans@)),
            WaveData::WordPerSample(chans) => WaveDataView::WordPerSample(channel_views(chans@)),
        }
    }
}

/// Copies at most the first `limit` samples of the first channel.
fn copy_head_of_first<T: Copy>(chans: &Vec<Vec<T>>, limit: usize) -> (head: Vec<Vec<T>>)
    ensures
        channel_views(head@) == head_of_first(channel_views(chans@), limit as nat),
{
    let mut head: Vec<Vec<T>> = Vec::new();
    if chans.len() > 0 {
        let first = &chans[0];
        let count: usize = if limit <= first.len() {
            limit
        } else {
            first.len()
        };
        let mut taken: Vec<T> = Vec::new();
        let mut at: usize = 0;
        while at < count
            invariant
                at <= count <= first.len(),
                taken@ == first@.take(at as int),
            decreases count - at,
        {
            taken.push(first[at]);
            at = at + 1;
        }
        assert(first@.take(first@.len() as int) == first@);
        head.push(taken);
    }
    assert(channel_views(head@) =~= head_of_first(channel_views(chans@), limit as nat));
    head
}

impl WaveData {
    /// A short extract for display: the first channel, if there is one,
    /// cut down to its first `limit` samples.
    pub fn preview(&self, limit: usize) -> (head: WaveData)
        ensures
            head@ == self@.preview(limit as nat),
    {
        match self {
            WaveData::BytePerSample(chans) => WaveData::BytePerSample(
                copy_head_of_first(chans, limit),
            ),
            WaveData::WordPerSample(chans) => WaveData::WordPerSample(
                copy_head_of_first(chans, limit),
            ),
        }
    }
}

/// A payload byte read as a signed 8-bit sample (two's complement).
pub open spec fn signed_sample(b: u8) -> i8 {
    if b < 0x80 {
        b as i8
    } else {
        (b - 0x100) as i8
    }
}

/// The number of payload bytes in one frame.
pub open spec fn frame_bytes(num_chans: u16, bits_per_sample: u16) -> nat {
    (num_chans * (bits_per_sample / 8)) as nat
}

/// Whether `len` bytes make up a whole number of frames of `frame` bytes
/// each. No payload, not even the empty one, consists of frames of no
/// bytes: a file without channels holds no audio.
pub open spec fn whole_frames(len: nat, frame: nat) -> bool {
    frame > 0 && len % frame == 0
}

/// The 8-bit sample of channel `chan` in frame `frame`.
pub open spec fn byte_sample(payload: Seq<u8>, num_chans: nat, frame: int, chan: int) -> i8 {
    signed_sample(payload[frame * num_chans + chan])
}

/// The 16-bit sample of channel `chan` in frame `frame`.
pub open spec fn word_sample(payload: Seq<u8>, num_chans: nat, frame: int, chan: int) -> u16 {
    u16_at(payload, 2 * (frame * num_chans + chan))
}

/// The channels of an 8-bit payload that holds `frames` whole frames.
pub open spec fn byte_channels(payload: Seq<u8>, num_chans: nat, frames: nat) -> Seq<Seq<i8>> {
    Seq::new(
        num_chans,
        |chan: int| Seq::new(frames, |frame: int| byte_sample(payload, num_chans, frame, chan)),
    )
}

/// The channels of a 16-bit payload that holds `frames` whole frames.
pub open spec fn word_channels(payload: Seq<u8>, num_chans: nat, frames: nat) -> Seq<Seq<u16>> {
    Seq::new(
        num_chans,
        |chan: int| Seq::new(frames, |frame: int| word_sample(payload, num_chans, frame, chan)),
    )
}

/// What deinterleaving `payload` gives: the channels, or the reason why
/// there are none.
pub open spec fn deinterleaved(payload: Seq<u8>, num_chans: u16, bits_per_sample: u16) -> Result<
    WaveDataView,
    WaveError,
> {
    let frame = frame_bytes(num_chans, bits_per_sample);
    if bits_per_sample != 8 && bits_per_sample != 16 {
        Err(WaveError::UnsupportedBitDepth)
    } else if !whole_frames(payload.len(), frame) {
        Err(WaveError::IncompleteData)
    } else if bits_per_sample == 8 {
        Ok(
            WaveDataView::BytePerSample(
                byte_channels(payload, num_chans as nat, payload.len() / frame),
            ),
        )
    } else {
        Ok(
            WaveDataView::WordPerSample(
                word_channels(payload, num_chans as nat, payload.len() / frame),
            ),
        )
    }
}

/// `count` channels with no samples in them yet.
fn empty_channels<T>(count: usize) -> (chans: Vec<Vec<T>>)
    ensures
        chans.len() == count,
        forall|c: int| 0 <= c < count ==> (#[trigger] chans[c])@.len() == 0,
{
    let mut chans: Vec<Vec<T>> = Vec::new();
    let mut made: usize = 0;
    while made < count
        invariant
            made <= count,
            chans.len() == made,
            forall|c: int| 0 <= c < made ==> (#[trigger] chans[c])@.len() == 0,
        decreases count - made,
    {
        chans.push(Vec::new());
        made = made + 1;
    }
    chans
}

/// The channel that takes the next sample: the one after `chan`, or the
/// first again once a frame is full.
fn next_channel(chan: usize, num_chans: usize) -> (next: usize)
    requires
        chan < num_chans,
    ensures
        next == (if chan + 1 < num_chans {
            chan + 1
        } else {
            0
        }),
{
    proof {
        if chan + 1 < num_chans {
            lemma_small_mod((chan + 1) as nat, num_chans as nat);
        } else {
            lemma_mod_self_0(num_chans as int);
        }
    }
    (chan + 1) % num_chans
}

/// Reading a byte as `i8` gives its two's-complement value.
proof fn lemma_byte_as_signed(b: u8)
    ensures
        b as i8 == signed_sample(b),
{
    assert(b < 0x80 ==> b as i8 == b) by (bit_vector);
    assert(b >= 0x80 ==> b as i8 == b - 0x100) by (bit_vector);
}

/// Splits an 8-bit payload into its channels.
fn split_bytes(payload: &[u8], num_chans: u16) -> (r: Result<Vec<Vec<i8>>, WaveError>)
    ensures
        r is Ok <==> whole_frames(payload@.len(), num_chans as nat),
        r matches Ok(chans) ==> channel_views(chans@) == byte_channels(
            payload@,
            num_chans as nat,
            payload@.len() / (num_chans as nat),
        ),
        r matches Err(e) ==> e == WaveError::IncompleteData,
{
    let n: usize = num_chans as usize;
    if n == 0 {
        return Err(WaveError::IncompleteData);
    }
    let mut output: Vec<Vec<i8>> = empty_channels(n);
    let mut chan_cursor: usize = 0;
    let ghost mut frames: nat = 0;
    let mut at: usize = 0;
    while at < payload.len()
        invariant
            n == num_chans,
            at <= payload.len(),
            output.len() == n,
            chan_cursor < n,
            at == frames * n + chan_cursor,
            forall|c: int|
                0 <= c < n ==> (#[trigger] output[c])@.len() == frames + (if c < chan_cursor {
                    1nat
                } else {
                    0nat
                }),
            forall|c: int, f: int|
                0 <= c < n && 0 <= f < output[c]@.len() ==> #[trigger] output[c]@[f]
                    == byte_sample(payload@, n as nat, f, c),
        decreases payload.len() - at,
    {
        let byte: u8 = payload[at];
        proof {
            lemma_byte_as_signed(byte);
        }
        output[chan_cursor].push(#[verifier::truncate] (byte as i8));
        let next: usize = next_channel(chan_cursor, n);
        proof {
            if next == 0 {
                assert((frames + 1) * n == frames * n + n) by (nonlinear_arith);
                frames = frames + 1;
            }
        }
        chan_cursor = next;
        at = at + 1;
    }
    proof {
        lemma_fundamental_div_mod_converse(
            payload@.len() as int,
            n as int,
            frames as int,
            chan_cursor as int,
        );
    }
    if chan_cursor == 0 {
        proof {
            let expected = byte_channels(
                payload@,
                num_chans as nat,
                payload@.len() / (num_chans as nat),
            );
            assert forall|c: int| 0 <= c < n implies #[trigger] channel_views(output@)[c]
                == expected[c] by {
                assert(output[c]@ =~= expected[c]);
            }
            assert(channel_views(output@) =~= expected);
        }
        Ok(output)
    } else {
        Err(WaveError::IncompleteData)
    }
}

/// Splits a 16-bit payload into its channels.
fn split_words(payload: &[u8], num_chans: u16) -> (r: Result<Vec<Vec<u16>>, WaveError>)
    ensures
        r is Ok <==> whole_frames(payload@.len(), 2 * (num_chans as nat)),
        r matches Ok(chans) ==> channel_views(chans@) == word_channels(
            payload@,
            num_chans as nat,
            payload@.len() / (2 * (num_chans as nat)),
        ),
        r matches Err(e) ==> e == WaveError::IncompleteData,
{
    let n: usize = num_chans as usize;
    if n == 0 {
        return Err(WaveError::IncompleteData);
    }
    let mut output: Vec<Vec<u16>> = empty_channels(n);
    let mut chan_cursor: usize = 0;
    let mut low: Option<u8> = None;
    let ghost mut frames: nat = 0;
    let mut at: usize = 0;
    while at < payload.len()
        invariant
            n == num_chans,
            at <= payload.len(),
            output.len() == n,
            chan_cursor < n,
            at == 2 * (frames * n + chan_cursor) + (if low is Some {
                1int
            } else {
                0int
            }),
            low matches Some(b) ==> at >= 1 && b == payload@[at - 1],
            forall|c: int|
                0 <= c < n ==> (#[trigger] output[c])@.len() == frames + (if c < chan_cursor {
                    1nat
                } else {
                    0nat
                }),
            forall|c: int, f: int|
                0 <= c < n && 0 <= f < output[c]@.len() ==> #[trigger] output[c]@[f]
                    == word_sample(payload@, n as nat, f, c),
        decreases payload.len() - at,
    {
        let byte: u8 = payload[at];
        match low {
            None => {
                low = Some(byte);
            },
            Some(first) => {
                output[chan_cursor].push(u16_from_le(first, byte));
                let next: usize = next_channel(chan_cursor, n);
                proof {
                    if next == 0 {
                        assert((frames + 1) * n == frames * n + n) by (nonlinear_arith);
                        frames = frames + 1;
                    }
                }
                chan_cursor = next;
                low = None;
            },
        }
        at = at + 1;
    }
    proof {
        let part: int = 2 * chan_cursor + (if low is Some {
            1int
        } else {
            0int
        });
        assert(2 * (frames * n + chan_cursor) == frames * (2 * n) + 2 * chan_cursor)
            by (nonlinear_arith);
        lemma_fundamental_div_mod_converse(
            payload@.len() as int,
            2 * n as int,
            frames as int,
            part,
        );
    }
    if chan_cursor == 0 && low.is_none() {
        proof {
            let expected = word_channels(
                payload@,
                num_chans as nat,
                payload@.len() / (2 * (num_chans as nat)),
            );
            assert forall|c: int| 0 <= c < n implies #[trigger] channel_views(output@)[c]
                == expected[c] by {
                assert(output[c]@ =~= expected[c]);
            }
            assert(channel_views(output@) =~= expected);
        }
        Ok(output)
    } else {
        Err(WaveError::IncompleteData)
    }
}

/// A frame holds one byte for each channel at 8 bits, two at 16 bits.
proof fn lemma_frame_bytes(num_chans: u16)
    ensures
        frame_bytes(num_chans, 8) == num_chans as nat,
        frame_bytes(num_chans, 16) == 2 * (num_chans as nat),
{
    assert(8u16 / 8 == 1);
    assert(16u16 / 8 == 2);
    assert(num_chans * 1 == num_chans as nat) by (nonlinear_arith);
    assert(num_chans * 2 == 2 * (num_chans as nat)) by (nonlinear_arith);
}

/// Reads the rest of the stream as the sample payload and splits it into
/// one sequence per channel.
///
/// A width other than 8 or 16 bits is refused before anything is read.
/// Otherwise the whole payload is consumed, and the split succeeds exactly
/// when the payload consists of whole frames.
pub fn load_wave_samples(stream: &mut ByteStream, num_chans: u16, bits_per_sample: u16) -> (r:
    Result<WaveData, WaveError>)
    ensures
        match r {
            Ok(data) => deinterleaved(old(stream)@, num_chans, bits_per_sample) == Ok::<
                WaveDataView,
                WaveError,
            >(data@),
            Err(e) => deinterleaved(old(stream)@, num_chans, bits_per_sample) == Err::<
                WaveDataView,
                WaveError,
            >(e),
        },
        final(stream)@ == (if bits_per_sample == 8 || bits_per_sample == 16 {
            Seq::<u8>::empty()
        } else {
            old(stream)@
        }),
        r matches Ok(data) ==> data@.num_chans() == num_chans && num_chans > 0
            && data@.balanced(),
        // Whole frames always decode, and every channel gets one sample
        // per frame.
        (bits_per_sample == 8 || bits_per_sample == 16) && num_chans >= 1 && old(stream)@.len()
            % frame_bytes(num_chans, bits_per_sample) == 0 ==> (r matches Ok(data)
            && data@.num_chans() == num_chans && forall|c: int|
            0 <= c < num_chans ==> data@.channel_len(c) == old(stream)@.len() / frame_bytes(
                num_chans,
                bits_per_sample,
            )),
        // A payload that ends inside a frame never decodes.
        (bits_per_sample == 8 || bits_per_sample == 16) && num_chans >= 1 && old(stream)@.len()
            % frame_bytes(num_chans, bits_per_sample) != 0 ==> r == Err::<WaveData, WaveError>(
            WaveError::IncompleteData,
        ),
        // Other widths are refused whatever the payload holds.
        bits_per_sample != 8 && bits_per_sample != 16 ==> r == Err::<WaveData, WaveError>(
            WaveError::UnsupportedBitDepth,
        ),
{
    match bits_per_sample {
        8 => {
            let raw = stream.read_to_end();
            proof {
                lemma_frame_bytes(num_chans);
            }
            match split_bytes(raw.as_slice(), num_chans) {
                Ok(chans) => Ok(WaveData::BytePerSample(chans)),
                Err(e) => Err(e),
            }
        },
        16 => {
            let raw = stream.read_to_end();
            proof {
                lemma_frame_bytes(num_chans);
            }
            match split_words(raw.as_slice(), num_chans) {
                Ok(chans) => Ok(WaveData::WordPerSample(chans)),
                Err(e) => Err(e),
            }
        },
        _ => Err(WaveError::UnsupportedBitDepth),
    }
}

} // verus!
