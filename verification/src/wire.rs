//! Little-endian integers, flag bits and strings as they lie in a buffer, and
//! a cursor that reads them in sequence.

use crate::error::FormatError;
use byteorder::{ByteOrder, LittleEndian};
use vstd::prelude::*;
use vstd::slice::{slice_subrange, slice_to_vec};
use vstd::utf8::{decode_utf8, encode_utf8, encode_utf8_decode_utf8, valid_utf8};

verus! {

/// `n` bytes lie in `bytes` from index `at` on.
pub open spec fn fits(bytes: Seq<u8>, at: int, n: int) -> bool {
    0 <= at && 0 <= n && at + n <= bytes.len()
}

/// The unsigned 16-bit integer whose little-endian bytes start at `at`.
pub open spec fn le_u16(bytes: Seq<u8>, at: int) -> u16 {
    (bytes[at] as int + 0x100 * (bytes[at + 1] as int)) as u16
}

/// The unsigned 32-bit integer whose little-endian bytes start at `at`.
pub open spec fn le_u32(bytes: Seq<u8>, at: int) -> u32 {
    (bytes[at] as int + 0x100 * (bytes[at + 1] as int) + 0x1_0000 * (bytes[at + 2] as int)
        + 0x100_0000 * (bytes[at + 3] as int)) as u32
}

/// The byte `b` read as a two's-complement 8-bit integer.
pub open spec fn as_i8(b: u8) -> i8 {
    if b < 0x80 {
        b as i8
    } else {
        (b - 0x100) as i8
    }
}

/// The 16-bit pattern `u` read as a two's-complement integer.
pub open spec fn as_i16(u: u16) -> i16 {
    if u < 0x8000 {
        u as i16
    } else {
        (u - 0x1_0000) as i16
    }
}

/// The 32-bit pattern `u` read as a two's-complement integer.
pub open spec fn as_i32(u: u32) -> i32 {
    if u < 0x8000_0000 {
        u as i32
    } else {
        (u - 0x1_0000_0000) as i32
    }
}

/// The signed 16-bit integer whose little-endian bytes start at `at`.
pub open spec fn le_i16(bytes: Seq<u8>, at: int) -> i16 {
    as_i16(le_u16(bytes, at))
}

/// The signed 32-bit integer whose little-endian bytes start at `at`.
pub open spec fn le_i32(bytes: Seq<u8>, at: int) -> i32 {
    as_i32(le_u32(bytes, at))
}

/// Bit `bit` of `flags` is set.
pub open spec fn bit_set(flags: u16, bit: u8) -> bool {
    flags & (1u16 << bit) != 0
}

/// The index of the first zero byte of `buf` at or after `from`, or the
/// length of `buf` where there is none.
pub open spec fn terminator(buf: Seq<u8>, from: int) -> int
    decreases buf.len() - from,
{
    if from >= buf.len() {
        buf.len() as int
    } else if from >= 0 && buf[from] == 0 {
        from
    } else {
        terminator(buf, from + 1)
    }
}

/// The bytes of the string that starts at `offset` in `buf`: up to the first
/// zero byte, or to the end of `buf`.
pub open spec fn text_span(buf: Seq<u8>, offset: int) -> Seq<u8> {
    buf.subrange(offset, terminator(buf, offset))
}

/// The string that starts at `offset` in `buf`. An offset past the end of the
/// buffer is a truncation; a span that is not UTF-8 is an invalid string.
pub open spec fn text_at(buf: Seq<u8>, offset: int) -> Result<Seq<char>, FormatError> {
    if offset < 0 || offset > buf.len() {
        Err(FormatError::Truncated)
    } else if !valid_utf8(text_span(buf, offset)) {
        Err(FormatError::InvalidString)
    } else {
        Ok(decode_utf8(text_span(buf, offset)))
    }
}

/// The terminator lies between the start and the end of the buffer, no zero
/// byte precedes it, and it is a zero byte unless it is the end.
pub proof fn lemma_terminator(buf: Seq<u8>, from: int)
    requires
        0 <= from <= buf.len(),
    ensures
        from <= terminator(buf, from) <= buf.len(),
        forall|k: int| from <= k < terminator(buf, from) ==> buf[k] != 0,
        terminator(buf, from) < buf.len() ==> buf[terminator(buf, from)] == 0,
    decreases buf.len() - from,
{
    if from < buf.len() && buf[from] != 0 {
        lemma_terminator(buf, from + 1);
    }
}

/// Seen from `offset`, the terminator of a suffix is the terminator of the
/// whole buffer.
pub proof fn lemma_terminator_suffix(buf: Seq<u8>, offset: int, k: int)
    requires
        0 <= offset <= buf.len(),
        0 <= k <= buf.len() - offset,
    ensures
        terminator(buf.subrange(offset, buf.len() as int), k) + offset == terminator(
            buf,
            offset + k,
        ),
    decreases buf.len() - offset - k,
{
    if k < buf.len() - offset && buf[offset + k] != 0 {
        lemma_terminator_suffix(buf, offset, k + 1);
    }
}

/// The string at `offset` is the string at the front of the suffix that
/// starts at `offset`.
pub proof fn lemma_text_at_suffix(buf: Seq<u8>, offset: int)
    requires
        0 <= offset <= buf.len(),
    ensures
        text_at(buf.subrange(offset, buf.len() as int), 0) == text_at(buf, offset),
{
    let suffix = buf.subrange(offset, buf.len() as int);
    lemma_terminator_suffix(buf, offset, 0);
    lemma_terminator(buf, offset);
    assert(text_span(suffix, 0) =~= text_span(buf, offset));
}

/// `byteorder::LittleEndian::read_u16`: the first two bytes of `buf`, the
/// low byte first, as one unsigned integer. It panics on a shorter buffer.
#[verifier::external_body]
fn le_read_u16(buf: &[u8]) -> (v: u16)
    requires
        buf@.len() >= 2,
    ensures
        v == le_u16(buf@, 0),
{
    LittleEndian::read_u16(buf)
}

/// `byteorder::LittleEndian::read_u32`: the first four bytes of `buf`, the
/// low byte first, as one unsigned integer. It panics on a shorter buffer.
#[verifier::external_body]
fn le_read_u32(buf: &[u8]) -> (v: u32)
    requires
        buf@.len() >= 4,
    ensures
        v == le_u32(buf@, 0),
{
    LittleEndian::read_u32(buf)
}

/// `byteorder::LittleEndian::read_i16`: what `read_u16` gives, read as a
/// two's-complement integer. It panics on a buffer shorter than two bytes.
#[verifier::external_body]
fn le_read_i16(buf: &[u8]) -> (v: i16)
    requires
        buf@.len() >= 2,
    ensures
        v == le_i16(buf@, 0),
{
    LittleEndian::read_i16(buf)
}

/// `byteorder::LittleEndian::read_i32`: what `read_u32` gives, read as a
/// two's-complement integer. It panics on a buffer shorter than four bytes.
#[verifier::external_body]
fn le_read_i32(buf: &[u8]) -> (v: i32)
    requires
        buf@.len() >= 4,
    ensures
        v == le_i32(buf@, 0),
{
    LittleEndian::read_i32(buf)
}

/// `String::from_utf8`: a string exactly where the bytes are valid UTF-8, and
/// then the string that those bytes encode.
#[verifier::external_body]
fn string_from_utf8(bytes: Vec<u8>) -> (r: Option<String>)
    ensures
        r is Some <==> valid_utf8(bytes@),
        r matches Some(s) ==> encode_utf8(s@) == bytes@,
{
    String::from_utf8(bytes).ok()
}

/// Tells whether bit `bit` of `flags` is set.
pub fn is_bit_set(flags: u16, bit: u8) -> (r: bool)
    requires
        bit < 16,
    ensures
        r == bit_set(flags, bit),
{
    flags & (1u16 << bit) != 0
}

/// Decodes the string that starts at the front of `buf`: the bytes up to the
/// first zero byte, or all of `buf` where it holds none.
pub fn read_text(buf: &[u8]) -> (r: Result<String, FormatError>)
    ensures
        match r {
            Ok(s) => text_at(buf@, 0) == Ok::<Seq<char>, FormatError>(s@),
            Err(e) => text_at(buf@, 0) == Err::<Seq<char>, FormatError>(e),
        },
{
    let mut end: usize = 0;
    while end < buf.len() && buf[end] != 0
        invariant
            end <= buf@.len(),
            terminator(buf@, 0) == terminator(buf@, end as int),
        decreases buf@.len() - end,
    {
        end += 1;
    }
    let span = slice_subrange(buf, 0, end);
    let owned = slice_to_vec(span);
    match string_from_utf8(owned) {
        Some(s) => {
            proof {
                encode_utf8_decode_utf8(s@);
            }
            Ok(s)
        },
        None => Err(FormatError::InvalidString),
    }
}

/// A cursor over a byte buffer.
pub struct Reader<'a> {
    pub bytes: &'a [u8],
    pub pos: usize,
}

impl<'a> Reader<'a> {
    /// The cursor lies within its buffer.
    pub open spec fn wf(&self) -> bool {
        self.pos <= self.bytes@.len()
    }

    /// `r` is this cursor moved on by `n` bytes.
    pub open spec fn advanced(&self, n: int, r: &Reader<'a>) -> bool {
        r.bytes@ == self.bytes@ && r.pos == self.pos + n
    }

    /// A cursor at the start of `bytes`.
    pub fn new(bytes: &'a [u8]) -> (r: Self)
        ensures
            r.bytes@ == bytes@,
            r.pos == 0,
            r.wf(),
    {
        Reader { bytes, pos: 0 }
    }

    /// The number of bytes not yet read.
    pub fn remaining(&self) -> (n: usize)
        requires
            self.wf(),
        ensures
            n == self.bytes@.len() - self.pos,
    {
        self.bytes.len() - self.pos
    }

    /// Hands out the next `n` bytes and moves past them.
    pub fn take(&mut self, n: usize) -> (r: Result<&'a [u8], FormatError>)
        requires
            old(self).wf(),
        ensures
            final(self).wf(),
            final(self).bytes@ == old(self).bytes@,
            match r {
                Ok(part) => fits(old(self).bytes@, old(self).pos as int, n as int)
                    && old(self).advanced(n as int, final(self))
                    && part@ == old(self).bytes@.subrange(
                    old(self).pos as int,
                    old(self).pos + n,
                ),
                Err(e) => e == FormatError::Truncated && !fits(
                    old(self).bytes@,
                    old(self).pos as int,
                    n as int,
                ) && final(self).pos == old(self).pos,
            },
    {
        if self.bytes.len() - self.pos < n {
            return Err(FormatError::Truncated);
        }
        let part = slice_subrange(self.bytes, self.pos, self.pos + n);
        self.pos = self.pos + n;
        Ok(part)
    }

    /// Hands out all bytes not yet read and moves to the end.
    pub fn rest(&mut self) -> (part: &'a [u8])
        requires
            old(self).wf(),
        ensures
            final(self).wf(),
            final(self).bytes@ == old(self).bytes@,
            final(self).pos == old(self).bytes@.len(),
            part@ == old(self).bytes@.subrange(
                old(self).pos as int,
                old(self).bytes@.len() as int,
            ),
    {
        let part = slice_subrange(self.bytes, self.pos, self.bytes.len());
        self.pos = self.bytes.len();
        part
    }

    /// Moves past `n` bytes.
    pub fn skip(&mut self, n: usize) -> (r: Result<(), FormatError>)
        requires
            old(self).wf(),
        ensures
            final(self).wf(),
            final(self).bytes@ == old(self).bytes@,
            match r {
                Ok(()) => fits(old(self).bytes@, old(self).pos as int, n as int)
                    && old(self).advanced(n as int, final(self)),
                Err(e) => e == FormatError::Truncated && !fits(
                    old(self).bytes@,
                    old(self).pos as int,
                    n as int,
                ) && final(self).pos == old(self).pos,
            },
    {
        match self.take(n) {
            Ok(_) => Ok(()),
            Err(e) => Err(e),
        }
    }

    /// Reads one byte.
    pub fn read_u8(&mut self) -> (r: Result<u8, FormatError>)
        requires
            old(self).wf(),
        ensures
            final(self).wf(),
            final(self).bytes@ == old(self).bytes@,
            match r {
                Ok(v) => fits(old(self).bytes@, old(self).pos as int, 1)
                    && old(self).advanced(1, final(self))
                    && v == old(self).bytes@[old(self).pos as int],
                Err(e) => e == FormatError::Truncated && !fits(
                    old(self).bytes@,
                    old(self).pos as int,
                    1,
                ) && final(self).pos == old(self).pos,
            },
    {
        match self.take(1) {
            Ok(part) => Ok(part[0]),
            Err(e) => Err(e),
        }
    }

    /// Reads one byte as a signed integer.
    pub fn read_i8(&mut self) -> (r: Result<i8, FormatError>)
        requires
            old(self).wf(),
        ensures
            final(self).wf(),
            final(self).bytes@ == old(self).bytes@,
            match r {
                Ok(v) => fits(old(self).bytes@, old(self).pos as int, 1)
                    && old(self).advanced(1, final(self))
                    && v == as_i8(old(self).bytes@[old(self).pos as int]),
                Err(e) => e == FormatError::Truncated && !fits(
                    old(self).bytes@,
                    old(self).pos as int,
                    1,
                ) && final(self).pos == old(self).pos,
            },
    {
        match self.take(1) {
            Ok(part) => {
                let b: u8 = part[0];
                if b < 0x80 {
                    Ok(b as i8)
                } else {
                    Ok((b as i16 - 0x100) as i8)
                }
            },
            Err(e) => Err(e),
        }
    }

    /// Reads a little-endian unsigned 16-bit integer.
    pub fn read_u16(&mut self) -> (r: Result<u16, FormatError>)
        requires
            old(self).wf(),
        ensures
            final(self).wf(),
            final(self).bytes@ == old(self).bytes@,
            match r {
                Ok(v) => fits(old(self).bytes@, old(self).pos as int, 2)
                    && old(self).advanced(2, final(self))
                    && v == le_u16(old(self).bytes@, old(self).pos as int),
                Err(e) => e == FormatError::Truncated && !fits(
                    old(self).bytes@,
                    old(self).pos as int,
                    2,
                ) && final(self).pos == old(self).pos,
            },
    {
        match self.take(2) {
            Ok(part) => Ok(le_read_u16(part)),
            Err(e) => Err(e),
        }
    }

    /// Reads a little-endian signed 16-bit integer.
    pub fn read_i16(&mut self) -> (r: Result<i16, FormatError>)
        requires
            old(self).wf(),
        ensures
            final(self).wf(),
            final(self).bytes@ == old(self).bytes@,
            match r {
                Ok(v) => fits(old(self).bytes@, old(self).pos as int, 2)
                    && old(self).advanced(2, final(self))
                    && v == le_i16(old(self).bytes@, old(self).pos as int),
                Err(e) => e == FormatError::Truncated && !fits(
                    old(self).bytes@,
                    old(self).pos as int,
                    2,
                ) && final(self).pos == old(self).pos,
            },
    {
        match self.take(2) {
            Ok(part) => Ok(le_read_i16(part)),
            Err(e) => Err(e),
        }
    }

    /// Reads a little-endian unsigned 32-bit integer.
    pub fn read_u32(&mut self) -> (r: Result<u32, FormatError>)
        requires
            old(self).wf(),
        ensures
            final(self).wf(),
            final(self).bytes@ == old(self).bytes@,
            match r {
                Ok(v) => fits(old(self).bytes@, old(self).pos as int, 4)
                    && old(self).advanced(4, final(self))
                    && v == le_u32(old(self).bytes@, old(self).pos as int),
                Err(e) => e == FormatError::Truncated && !fits(
                    old(self).bytes@,
                    old(self).pos as int,
                    4,
                ) && final(self).pos == old(self).pos,
            },
    {
        match self.take(4) {
            Ok(part) => Ok(le_read_u32(part)),
            Err(e) => Err(e),
        }
    }

    /// Reads a little-endian signed 32-bit integer.
    pub fn read_i32(&mut self) -> (r: Result<i32, FormatError>)
        requires
            old(self).wf(),
        ensures
            final(self).wf(),
            final(self).bytes@ == old(self).bytes@,
            match r {
                Ok(v) => fits(old(self).bytes@, old(self).pos as int, 4)
                    && old(self).advanced(4, final(self))
                    && v == le_i32(old(self).bytes@, old(self).pos as int),
                Err(e) => e == FormatError::Truncated && !fits(
                    old(self).bytes@,
                    old(self).pos as int,
                    4,
                ) && final(self).pos == old(self).pos,
            },
    {
        match self.take(4) {
            Ok(part) => Ok(le_read_i32(part)),
            Err(e) => Err(e),
        }
    }
}

} // verus!
