//! Little-endian scalars: what a run of bytes means as a number, and the
//! calls that compute it.

use byteorder::{ByteOrder, LittleEndian};
use vstd::prelude::*;

verus! {

/// A 32-bit IEEE-754 number, kept as its bit pattern.
///
/// The decoder never does arithmetic on these values; it only carries them
/// from the archive to the caller, who turns the bits into a number.
#[derive(Clone, Copy, Debug, PartialEq, Eq, Structural)]
pub struct F32 {
    pub bits: u32,
}

impl F32 {
    /// The bit pattern of `0.0`.
    pub open spec fn zero() -> F32 {
        F32 { bits: 0 }
    }

    /// The bit pattern of `1.0`.
    pub open spec fn one() -> F32 {
        F32 { bits: 0x3F80_0000 }
    }
}

/// A byte read as a signed number in two's complement.
pub open spec fn i8_of(b: u8) -> i8 {
    if b < 0x80 {
        b as i8
    } else {
        (b - 0x100) as i8
    }
}

/// A 16-bit pattern read as a signed number in two's complement.
pub open spec fn i16_of(v: u16) -> i16 {
    if v < 0x8000 {
        v as i16
    } else {
        (v - 0x1_0000) as i16
    }
}

/// A 32-bit pattern read as a signed number in two's complement.
pub open spec fn i32_of(v: u32) -> i32 {
    if v < 0x8000_0000 {
        v as i32
    } else {
        (v - 0x1_0000_0000) as i32
    }
}

/// The byte at `p`.
pub open spec fn u8_at(s: Seq<u8>, p: int) -> u8 {
    s[p]
}

/// The signed byte at `p`.
pub open spec fn i8_at(s: Seq<u8>, p: int) -> i8 {
    i8_of(s[p])
}

/// The unsigned 16-bit number whose little-endian encoding starts at `p`.
pub open spec fn u16_at(s: Seq<u8>, p: int) -> u16 {
    (s[p] as int + 0x100 * (s[p + 1] as int)) as u16
}

/// The signed 16-bit number whose little-endian encoding starts at `p`.
pub open spec fn i16_at(s: Seq<u8>, p: int) -> i16 {
    i16_of(u16_at(s, p))
}

/// The unsigned 32-bit number whose little-endian encoding starts at `p`.
pub open spec fn u32_at(s: Seq<u8>, p: int) -> u32 {
    (s[p] as int + 0x100 * (s[p + 1] as int) + 0x1_0000 * (s[p + 2] as int) + 0x100_0000 * (s[p
        + 3] as int)) as u32
}

/// The signed 32-bit number whose little-endian encoding starts at `p`.
pub open spec fn i32_at(s: Seq<u8>, p: int) -> i32 {
    i32_of(u32_at(s, p))
}

/// The 32-bit IEEE-754 number whose little-endian encoding starts at `p`.
pub open spec fn f32_at(s: Seq<u8>, p: int) -> F32 {
    F32 { bits: u32_at(s, p) }
}

/// The unsigned pattern that stands for `x` in two's complement.
pub open spec fn u8_of(x: i8) -> u8 {
    if x >= 0 {
        x as u8
    } else {
        (x + 0x100) as u8
    }
}

/// The unsigned pattern that stands for `x` in two's complement.
pub open spec fn u16_of(x: i16) -> u16 {
    if x >= 0 {
        x as u16
    } else {
        (x + 0x1_0000) as u16
    }
}

/// The unsigned pattern that stands for `x` in two's complement.
pub open spec fn u32_of(x: i32) -> u32 {
    if x >= 0 {
        x as u32
    } else {
        (x + 0x1_0000_0000) as u32
    }
}

/// The little-endian encoding of `x`.
pub open spec fn encode_u16(x: u16) -> Seq<u8> {
    seq![(x % 0x100) as u8, (x / 0x100) as u8]
}

/// The little-endian encoding of `x`.
pub open spec fn encode_u32(x: u32) -> Seq<u8> {
    seq![
        (x % 0x100) as u8,
        (x / 0x100 % 0x100) as u8,
        (x / 0x1_0000 % 0x100) as u8,
        (x / 0x100_0000) as u8,
    ]
}

/// The encoding of `x` as one byte.
pub open spec fn encode_i8(x: i8) -> Seq<u8> {
    seq![u8_of(x)]
}

/// The little-endian encoding of `x`.
pub open spec fn encode_i16(x: i16) -> Seq<u8> {
    encode_u16(u16_of(x))
}

/// The little-endian encoding of `x`.
pub open spec fn encode_i32(x: i32) -> Seq<u8> {
    encode_u32(u32_of(x))
}

/// The little-endian encoding of `x`.
pub open spec fn encode_f32(x: F32) -> Seq<u8> {
    encode_u32(x.bits)
}

/// `encoding` occurs in `s` at `p`.
pub open spec fn holds_at(s: Seq<u8>, p: int, encoding: Seq<u8>) -> bool {
    0 <= p && p + encoding.len() <= s.len() && s.subrange(p, p + encoding.len()) == encoding
}

/// Decoding undoes encoding: wherever the encoding of a number stands in a
/// buffer, the number read there is that number.
pub proof fn lemma_round_trip_unsigned(s: Seq<u8>, p: int, a: u8, b: u16, c: u32)
    ensures
        holds_at(s, p, seq![a]) ==> u8_at(s, p) == a,
        holds_at(s, p, encode_u16(b)) ==> u16_at(s, p) == b,
        holds_at(s, p, encode_u32(c)) ==> u32_at(s, p) == c,
{
    if holds_at(s, p, seq![a]) {
        assert(s[p] == s.subrange(p, p + 1)[0]);
    }
    if holds_at(s, p, encode_u16(b)) {
        let e = s.subrange(p, p + 2);
        assert(s[p] == e[0] && s[p + 1] == e[1]);
    }
    if holds_at(s, p, encode_u32(c)) {
        let e = s.subrange(p, p + 4);
        assert(s[p] == e[0] && s[p + 1] == e[1] && s[p + 2] == e[2] && s[p + 3] == e[3]);
    }
}

/// Decoding undoes encoding for the signed widths and for the 32-bit
/// IEEE-754 numbers as well.
pub proof fn lemma_round_trip_signed(s: Seq<u8>, p: int, a: i8, b: i16, c: i32, x: F32)
    ensures
        holds_at(s, p, encode_i8(a)) ==> i8_at(s, p) == a,
        holds_at(s, p, encode_i16(b)) ==> i16_at(s, p) == b,
        holds_at(s, p, encode_i32(c)) ==> i32_at(s, p) == c,
        holds_at(s, p, encode_f32(x)) ==> f32_at(s, p) == x,
{
    lemma_round_trip_unsigned(s, p, u8_of(a), u16_of(b), u32_of(c));
    lemma_round_trip_unsigned(s, p, 0, 0, x.bits);
}

/// The two's-complement reading of a byte, computed.
pub fn signed_byte(b: u8) -> (r: i8)
    ensures
        r == i8_of(b),
{
    if b < 0x80 {
        b as i8
    } else {
        (b as i16 - 0x100) as i8
    }
}

/// Calls `byteorder::LittleEndian::read_u16`, which builds a `u16` from the
/// first two bytes of the slice, lowest byte first, and panics on a shorter
/// slice.
#[verifier::external_body]
pub(crate) fn read_u16(buf: &[u8]) -> (r: u16)
    requires
        buf@.len() >= 2,
    ensures
        r == u16_at(buf@, 0),
{
    LittleEndian::read_u16(buf)
}

/// Calls `byteorder::LittleEndian::read_i16`, which reads the first two bytes
/// as `read_u16` does and reinterprets the pattern in two's complement.
#[verifier::external_body]
pub(crate) fn read_i16(buf: &[u8]) -> (r: i16)
    requires
        buf@.len() >= 2,
    ensures
        r == i16_at(buf@, 0),
{
    LittleEndian::read_i16(buf)
}

/// Calls `byteorder::LittleEndian::read_u32`, which builds a `u32` from the
/// first four bytes of the slice, lowest byte first, and panics on a shorter
/// slice.
#[verifier::external_body]
pub(crate) fn read_u32(buf: &[u8]) -> (r: u32)
    requires
        buf@.len() >= 4,
    ensures
        r == u32_at(buf@, 0),
{
    LittleEndian::read_u32(buf)
}

/// Calls `byteorder::LittleEndian::read_i32`, which reads the first four bytes
/// as `read_u32` does and reinterprets the pattern in two's complement.
#[verifier::external_body]
pub(crate) fn read_i32(buf: &[u8]) -> (r: i32)
    requires
        buf@.len() >= 4,
    ensures
        r == i32_at(buf@, 0),
{
    LittleEndian::read_i32(buf)
}

} // verus!
