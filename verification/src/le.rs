//! Little-endian integer encodings, as used throughout the PDB and CodeView formats.

use vstd::prelude::*;

verus! {

/// The value of the first two bytes of `s`, read as a little-endian unsigned integer.
pub open spec fn le_u16(s: Seq<u8>) -> int {
    s[0] + s[1] * 0x100
}

/// The value of the first four bytes of `s`, read as a little-endian unsigned integer.
pub open spec fn le_u32(s: Seq<u8>) -> int {
    s[0] + s[1] * 0x100 + s[2] * 0x1_0000 + s[3] * 0x100_0000
}

/// The value of the first eight bytes of `s`, read as a little-endian unsigned integer.
pub open spec fn le_u64(s: Seq<u8>) -> int {
    le_u32(s) + le_u32(s.subrange(4, 8)) * 0x1_0000_0000
}

/// The value of the first sixteen bytes of `s`, read as a little-endian unsigned integer.
pub open spec fn le_u128(s: Seq<u8>) -> int {
    le_u64(s) + le_u64(s.subrange(8, 16)) * 0x1_0000_0000_0000_0000int
}

/// Reinterprets an unsigned value of width `bound` (a power of two) as a two's complement value.
pub open spec fn to_signed(v: int, bound: int) -> int {
    if v < bound / 2 {
        v
    } else {
        v - bound
    }
}

pub fn u8_to_i8(v: u8) -> (r: i8)
    ensures
        r == to_signed(v as int, 0x100),
{
    if v < 0x80 {
        v as i8
    } else {
        ((v - 0x80) as i8) - 0x7f - 1
    }
}

pub fn u16_to_i16(v: u16) -> (r: i16)
    ensures
        r == to_signed(v as int, 0x1_0000),
{
    if v < 0x8000 {
        v as i16
    } else {
        ((v - 0x8000) as i16) - 0x7fff - 1
    }
}

pub fn u32_to_i32(v: u32) -> (r: i32)
    ensures
        r == to_signed(v as int, 0x1_0000_0000),
{
    if v < 0x8000_0000 {
        v as i32
    } else {
        ((v - 0x8000_0000) as i32) - 0x7fff_ffff - 1
    }
}

pub fn u64_to_i64(v: u64) -> (r: i64)
    ensures
        r == to_signed(v as int, 0x1_0000_0000_0000_0000int),
{
    if v < 0x8000_0000_0000_0000 {
        v as i64
    } else {
        ((v - 0x8000_0000_0000_0000) as i64) - 0x7fff_ffff_ffff_ffff - 1
    }
}

pub fn u128_to_i128(v: u128) -> (r: i128)
    ensures
        r == to_signed(v as int, 0x1_0000_0000_0000_0000_0000_0000_0000_0000int),
{
    if v < 0x8000_0000_0000_0000_0000_0000_0000_0000 {
        v as i128
    } else {
        ((v - 0x8000_0000_0000_0000_0000_0000_0000_0000) as i128) - 0x7fff_ffff_ffff_ffff_ffff_ffff_ffff_ffff - 1
    }
}

/// The little-endian encoding of a 16-bit value.
pub open spec fn le_bytes_u16(x: u16) -> Seq<u8> {
    seq![(x % 0x100) as u8, (x / 0x100) as u8]
}

/// The little-endian encoding of a 32-bit value.
pub open spec fn le_bytes_u32(x: u32) -> Seq<u8> {
    seq![
        (x % 0x100) as u8,
        ((x / 0x100) % 0x100) as u8,
        ((x / 0x1_0000) % 0x100) as u8,
        (x / 0x100_0000) as u8,
    ]
}

pub fn decode_u16(b: &[u8]) -> (v: u16)
    requires
        b@.len() >= 2,
    ensures
        v == le_u16(b@),
{
    (b[0] as u16) + (b[1] as u16) * 0x100
}

pub fn decode_u32(b: &[u8]) -> (v: u32)
    requires
        b@.len() >= 4,
    ensures
        v == le_u32(b@),
{
    (b[0] as u32) + (b[1] as u32) * 0x100 + (b[2] as u32) * 0x1_0000 + (b[3] as u32) * 0x100_0000
}

pub fn decode_u64(b: &[u8]) -> (v: u64)
    requires
        b@.len() >= 8,
    ensures
        v == le_u64(b@),
{
    let lo = decode_u32(b) as u64;
    let hi_bytes = vstd::slice::slice_subrange(b, 4, 8);
    let hi = decode_u32(hi_bytes) as u64;
    lo + hi * 0x1_0000_0000
}

pub fn decode_u128(b: &[u8]) -> (v: u128)
    requires
        b@.len() >= 16,
    ensures
        v == le_u128(b@),
{
    let lo = decode_u64(b) as u128;
    let hi_bytes = vstd::slice::slice_subrange(b, 8, 16);
    let hi = decode_u64(hi_bytes) as u128;
    lo + hi * 0x1_0000_0000_0000_0000
}

pub fn encode_u16(x: u16) -> (b: [u8; 2])
    ensures
        b@ == le_bytes_u16(x),
{
    [(x % 0x100) as u8, (x / 0x100) as u8]
}

pub fn encode_u32(x: u32) -> (b: [u8; 4])
    ensures
        b@ == le_bytes_u32(x),
{
    [(x % 0x100) as u8, ((x / 0x100) % 0x100) as u8, ((x / 0x1_0000) % 0x100) as u8, (x / 0x100_0000) as u8]
}

/// Decoding the encoding of a 16-bit value gives the value back.
pub proof fn lemma_u16_roundtrip(x: u16)
    ensures
        le_u16(le_bytes_u16(x)) == x,
{
}

/// Decoding the encoding of a 32-bit value gives the value back.
pub proof fn lemma_u32_roundtrip(x: u32)
    ensures
        le_u32(le_bytes_u32(x)) == x,
{
}


/// Reads the little-endian 16-bit value at `off` within `b`.
pub fn read_u16_at(b: &[u8], off: usize) -> (v: u16)
    requires
        off + 2 <= b@.len(),
    ensures
        v == le_u16(b@.skip(off as int)),
{
    (b[off] as u16) + (b[off + 1] as u16) * 0x100
}

/// Reads the little-endian 32-bit value at `off` within `b`.
pub fn read_u32_at(b: &[u8], off: usize) -> (v: u32)
    requires
        off + 4 <= b@.len(),
    ensures
        v == le_u32(b@.skip(off as int)),
{
    (b[off] as u32) + (b[off + 1] as u32) * 0x100 + (b[off + 2] as u32) * 0x1_0000 + (b[off + 3] as u32)
        * 0x100_0000
}

/// `s` with the four bytes at `off` replaced by the little-endian encoding of `v`.
pub open spec fn put_le_u32(s: Seq<u8>, off: int, v: u32) -> Seq<u8> {
    s.take(off) + le_bytes_u32(v) + s.skip(off + 4)
}

/// Writes the little-endian encoding of `v` to the four bytes at `off` within `b`.
pub fn write_u32_at(b: &mut [u8], off: usize, v: u32)
    requires
        off + 4 <= old(b)@.len(),
    ensures
        final(b)@ == put_le_u32(old(b)@, off as int, v),
{
    let e = encode_u32(v);
    b[off] = e[0];
    b[off + 1] = e[1];
    b[off + 2] = e[2];
    b[off + 3] = e[3];
    assert(b@ =~= put_le_u32(old(b)@, off as int, v));
}

} // verus!
