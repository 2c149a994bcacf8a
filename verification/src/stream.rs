//! A forward-only cursor over the bytes of a container, and the primitive
//! reads built on it: little-endian integers and four-byte chunk
//! identifiers.

use crate::error::FormatFault;
use crate::error::WaveError;
use vstd::prelude::*;
use vstd::slice::slice_subrange;
use vstd::slice::slice_to_vec;

verus! {

/// A byte stream with a read cursor that only moves forward.
///
/// Its view is the sequence of bytes not yet read. Every read removes a
/// prefix of that sequence; nothing ever puts bytes back.
pub struct ByteStream {
    bytes: Vec<u8>,
    pos: usize,
}

/// The unread bytes that a read of `n` bytes leaves behind. A read that
/// asks for more than is left takes what there is and leaves nothing.
pub open spec fn after_read(unread: Seq<u8>, n: nat) -> Seq<u8> {
    if n <= unread.len() {
        unread.skip(n as int)
    } else {
        Seq::empty()
    }
}

/// The value of two bytes read least-significant byte first.
pub open spec fn le_u16(b0: u8, b1: u8) -> u16 {
    (b0 + 0x100 * b1) as u16
}

/// The value of four bytes read least-significant byte first.
pub open spec fn le_u32(b0: u8, b1: u8, b2: u8, b3: u8) -> u32 {
    (b0 + 0x100 * b1 + 0x1_0000 * b2 + 0x100_0000 * b3) as u32
}

/// The 16-bit little-endian value that starts `at` bytes into `s`.
pub open spec fn u16_at(s: Seq<u8>, at: int) -> u16
    recommends
        0 <= at,
        at + 2 <= s.len(),
{
    le_u16(s[at], s[at + 1])
}

/// The 32-bit little-endian value that starts `at` bytes into `s`.
pub open spec fn u32_at(s: Seq<u8>, at: int) -> u32
    recommends
        0 <= at,
        at + 4 <= s.len(),
{
    le_u32(s[at], s[at + 1], s[at + 2], s[at + 3])
}

/// Whether the four bytes that start `at` bytes into `s` are all there and
/// spell `id`.
pub open spec fn id_at(s: Seq<u8>, at: int, id: Seq<u8>) -> bool
    recommends
        0 <= at,
        id.len() == 4,
{
    at + 4 <= s.len() && s.subrange(at, at + 4) == id
}

/// The byte `at` bytes into `s`, or zero past the end of `s`.
pub open spec fn byte_or_zero(s: Seq<u8>, at: int) -> u8 {
    if 0 <= at < s.len() {
        s[at]
    } else {
        0
    }
}

/// The four bytes that a read of an identifier `at` bytes into `s` finds;
/// bytes past the end of `s` count as zero.
pub open spec fn id_found(s: Seq<u8>, at: int) -> [u8; 4] {
    [byte_or_zero(s, at), byte_or_zero(s, at + 1), byte_or_zero(s, at + 2), byte_or_zero(s, at + 3)]
}

/// The fault of not finding the identifier `id` at `at` bytes into `s`.
pub open spec fn wrong_id(s: Seq<u8>, at: int, id: [u8; 4]) -> WaveError {
    WaveError::InvalidFormat(FormatFault::ChunkId { expected: id, found: id_found(s, at) })
}

impl ByteStream {
    #[verifier::type_invariant]
    spec fn cursor_in_bounds(self) -> bool {
        self.pos <= self.bytes.len()
    }

    /// The bytes not yet read, in reading order.
    pub closed spec fn view(&self) -> Seq<u8> {
        self.bytes@.skip(self.pos as int)
    }

    /// A stream over `bytes` with the cursor at the first byte.
    pub fn new(bytes: Vec<u8>) -> (stream: Self)
        ensures
            stream@ == bytes@,
    {
        ByteStream { bytes, pos: 0 }
    }

    /// How many bytes are left to read.
    pub fn remaining(&self) -> (n: usize)
        ensures
            n == self@.len(),
    {
        proof {
            use_type_invariant(self);
        }
        self.bytes.len() - self.pos
    }

    /// Reads one byte, or `None` at the end of the input.
    pub fn next_byte(&mut self) -> (b: Option<u8>)
        ensures
            final(self)@ == after_read(old(self)@, 1),
            b == (if old(self)@.len() > 0 {
                Some(old(self)@[0])
            } else {
                None
            }),
    {
        proof {
            use_type_invariant(&*self);
        }
        if self.pos < self.bytes.len() {
            let b = self.bytes[self.pos];
            self.pos = self.pos + 1;
            assert(self@ == old(self)@.skip(1));
            Some(b)
        } else {
            assert(self@ == Seq::<u8>::empty());
            None
        }
    }

    /// Reads everything that is left and returns it; the stream is at its
    /// end afterwards.
    pub fn read_to_end(&mut self) -> (rest: Vec<u8>)
        ensures
            rest@ == old(self)@,
            final(self)@ == Seq::<u8>::empty(),
    {
        proof {
            use_type_invariant(&*self);
        }
        let end = self.bytes.len();
        let rest = slice_to_vec(slice_subrange(self.bytes.as_slice(), self.pos, end));
        self.pos = end;
        assert(self@ == Seq::<u8>::empty());
        rest
    }
}

/// Puts two bytes together, least-significant byte first.
pub(crate) fn u16_from_le(b0: u8, b1: u8) -> (v: u16)
    ensures
        v == le_u16(b0, b1),
{
    assert((b1 as u16) << 8 == 0x100 * b1) by (bit_vector);
    b0 as u16 + ((b1 as u16) << 8)
}

/// Puts four bytes together, least-significant byte first.
pub(crate) fn u32_from_le(b0: u8, b1: u8, b2: u8, b3: u8) -> (v: u32)
    ensures
        v == le_u32(b0, b1, b2, b3),
{
    assert((b1 as u32) << 8 == 0x100 * b1) by (bit_vector);
    assert((b2 as u32) << 16 == 0x1_0000 * b2) by (bit_vector);
    assert((b3 as u32) << 24 == 0x100_0000 * b3) by (bit_vector);
    b0 as u32 + ((b1 as u32) << 8) + ((b2 as u32) << 16) + ((b3 as u32) << 24)
}

/// Reads a 16-bit unsigned integer, least-significant byte first.
///
/// With fewer than two bytes left the read fails with `TruncatedInput` and
/// the stream is at its end.
pub fn load_u16_le(stream: &mut ByteStream) -> (r: Result<u16, WaveError>)
    ensures
        final(stream)@ == after_read(old(stream)@, 2),
        r == (if old(stream)@.len() >= 2 {
            Ok(u16_at(old(stream)@, 0))
        } else {
            Err(WaveError::TruncatedInput)
        }),
{
    let b0 = stream.next_byte();
    let b1 = stream.next_byte();
    match (b0, b1) {
        (Some(b0), Some(b1)) => Ok(u16_from_le(b0, b1)),
        _ => Err(WaveError::TruncatedInput),
    }
}

/// Reads a 32-bit unsigned integer, least-significant byte first.
///
/// With fewer than four bytes left the read fails with `TruncatedInput`
/// and the stream is at its end.
pub fn load_u32_le(stream: &mut ByteStream) -> (r: Result<u32, WaveError>)
    ensures
        final(stream)@ == after_read(old(stream)@, 4),
        r == (if old(stream)@.len() >= 4 {
            Ok(u32_at(old(stream)@, 0))
        } else {
            Err(WaveError::TruncatedInput)
        }),
{
    let b0 = stream.next_byte();
    let b1 = stream.next_byte();
    let b2 = stream.next_byte();
    let b3 = stream.next_byte();
    match (b0, b1, b2, b3) {
        (Some(b0), Some(b1), Some(b2), Some(b3)) => Ok(u32_from_le(b0, b1, b2, b3)),
        _ => Err(WaveError::TruncatedInput),
    }
}

/// The byte that was read, or zero where the input had ended.
fn byte_or(b: Option<u8>) -> (v: u8)
    ensures
        v == (match b {
            Some(x) => x,
            None => 0u8,
        }),
{
    match b {
        Some(x) => x,
        None => 0,
    }
}

/// Reads a four-byte chunk identifier and compares it with `id`.
///
/// The identifier is consumed whether or not it matches. A stream that
/// ends inside the identifier does not match, and is at its end afterwards.
/// The error tells which identifier was expected and what stood in its
/// place.
pub fn load_4byte_id(stream: &mut ByteStream, id: &[u8; 4]) -> (r: Result<(), WaveError>)
    ensures
        final(stream)@ == after_read(old(stream)@, 4),
        r == (if id_at(old(stream)@, 0, id@) {
            Ok(())
        } else {
            Err(wrong_id(old(stream)@, 0, *id))
        }),
{
    let b0 = stream.next_byte();
    let b1 = stream.next_byte();
    let b2 = stream.next_byte();
    let b3 = stream.next_byte();
    let same = b0 == Some(id[0]) && b1 == Some(id[1]) && b2 == Some(id[2]) && b3 == Some(id[3]);
    if same {
        assert(old(stream)@.subrange(0, 4) == id@);
        Ok(())
    } else {
        let found: [u8; 4] = [byte_or(b0), byte_or(b1), byte_or(b2), byte_or(b3)];
        assert(found == id_found(old(stream)@, 0));
        Err(WaveError::InvalidFormat(FormatFault::ChunkId { expected: *id, found }))
    }
}

} // verus!
