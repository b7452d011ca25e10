//! The string hash used by the name tables of the PDB (the GSI and PSI hash tables).
//!
//! The bytes are taken as little-endian `u32` words, which are XOR-ed together; a trailing
//! `u16` and a trailing byte are XOR-ed in as well. The result is folded so that upper and lower
//! case ASCII letters hash alike, and reduced modulo the number of buckets.

use vstd::prelude::*;
use crate::le::{decode_u16, decode_u32, le_u16, le_u32};

verus! {

/// The XOR of the little-endian `u32` words that make up the whole-word prefix of `s`.
pub open spec fn xor_words(s: Seq<u8>) -> u32
    decreases s.len(),
{
    if s.len() < 4 {
        0
    } else {
        (le_u32(s) as u32) ^ xor_words(s.skip(4))
    }
}

/// The contribution of the last `s.len() % 4` bytes: a `u16` if there are two or three of them,
/// and the last byte if their number is odd.
pub open spec fn xor_tail(s: Seq<u8>) -> u32 {
    let t = s.skip(4 * (s.len() as int / 4));
    let a: u32 = if t.len() >= 2 {
        le_u16(t) as u32
    } else {
        0
    };
    let b: u32 = if t.len() % 2 == 1 {
        t[t.len() - 1] as u32
    } else {
        0
    };
    a ^ b
}

/// The final mixing step: case folding for ASCII, then folding the high bits down.
pub open spec fn mix(x: u32) -> u32 {
    let h = x | 0x20202020u32;
    let h = h ^ (h >> 11u32);
    h ^ (h >> 16u32)
}

/// The hash of `s`, before it is reduced modulo the number of buckets.
pub open spec fn spec_hash(s: Seq<u8>) -> u32 {
    mix(xor_words(s) ^ xor_tail(s))
}

/// Hashes a byte string and reduces the hash modulo `m`.
pub fn hash_mod_u32(pb: &[u8], m: u32) -> (r: u32)
    requires
        m > 0,
    ensures
        r == spec_hash(pb@) % m,
        r < m,
{
    let n = pb.len();
    let whole = n - n % 4;
    let mut h: u32 = 0;
    let mut i: usize = 0;
    assert(pb@.skip(0) =~= pb@);
    proof {
        let x0 = xor_words(pb@);
        assert(0u32 ^ x0 == x0) by (bit_vector);
    }
    while i < whole
        invariant
            whole == n - n % 4,
            n == pb@.len(),
            i <= whole,
            i % 4 == 0,
            xor_words(pb@) == h ^ xor_words(pb@.skip(i as int)),
        decreases whole - i,
    {
        let w = decode_u32(vstd::slice::slice_subrange(pb, i, i + 4));
        proof {
            let rest = pb@.skip(i as int);
            assert(pb@.subrange(i as int, i + 4) =~= rest.take(4));
            assert(rest.skip(4) =~= pb@.skip(i + 4));
            let x = xor_words(pb@.skip(i + 4));
            assert(xor_words(rest) == (le_u32(rest) as u32) ^ x);
            assert(h ^ ((w as u32) ^ x) == (h ^ w) ^ x) by (bit_vector);
        }
        h = h ^ w;
        i = i + 4;
    }
    proof {
        assert(xor_words(pb@.skip(i as int)) == 0);
        assert(h ^ 0u32 == h) by (bit_vector);
    }
    let t = vstd::slice::slice_subrange(pb, whole, n);
    assert(t@ =~= pb@.skip(4 * (pb@.len() as int / 4)));
    let mut tail: u32 = 0;
    if t.len() >= 2 {
        tail = decode_u16(t) as u32;
    }
    if t.len() % 2 == 1 {
        tail = tail ^ (t[t.len() - 1] as u32);
    } else {
        assert(tail ^ 0u32 == tail) by (bit_vector);
    }
    if t.len() < 2 {
        assert(0u32 ^ tail == tail) by (bit_vector);
    }
    let x = h ^ tail;
    let h1 = x | 0x20202020u32;
    let h2 = h1 ^ (h1 >> 11u32);
    let h3 = h2 ^ (h2 >> 16u32);
    h3 % m
}

/// The little-endian word made of four bytes: `b0` in the low bits, `b3` in the high bits.
pub open spec fn word_of_bytes(b0: u8, b1: u8, b2: u8, b3: u8) -> u32 {
    (b0 as u32) | ((b1 as u32) << 8u32) | ((b2 as u32) << 16u32) | ((b3 as u32) << 24u32)
}

/// The XOR of the 4-byte words of `s`, byte by byte.
pub open spec fn pdb_words_xor(s: Seq<u8>) -> u32
    decreases s.len(),
{
    if s.len() < 4 {
        0
    } else {
        word_of_bytes(s[0], s[1], s[2], s[3]) ^ pdb_words_xor(s.skip(4))
    }
}

/// The name hash of the PDB format (the hash with which the GSI and PSI tables of PDB files are
/// written): the 4-byte little-endian words of the name are XOR-ed together; of the remaining
/// bytes, a pair is XOR-ed in as a little-endian 16-bit value and a last odd byte as it is; the
/// result is OR-ed with `0x20202020` (so that ASCII letters hash alike whatever their case), then
/// XOR-ed with itself shifted right by 11 bits, then with itself shifted right by 16 bits.
pub open spec fn pdb_name_hash(s: Seq<u8>) -> u32 {
    let t = s.len() - s.len() % 4;
    let x0 = pdb_words_xor(s);
    let x1 = if s.len() - t >= 2 {
        x0 ^ ((s[t] as u32) | ((s[t + 1] as u32) << 8u32))
    } else {
        x0
    };
    let x2 = if (s.len() - t) % 2 == 1 {
        x1 ^ (s[s.len() - 1] as u32)
    } else {
        x1
    };
    let h0 = x2 | 0x20202020u32;
    let h1 = h0 ^ (h0 >> 11u32);
    h1 ^ (h1 >> 16u32)
}

/// Four bytes read as a little-endian number are the word with those bytes.
proof fn lemma_le_u32_word(s: Seq<u8>)
    requires
        s.len() >= 4,
    ensures
        le_u32(s) as u32 == word_of_bytes(s[0], s[1], s[2], s[3]),
{
    let b0 = s[0];
    let b1 = s[1];
    let b2 = s[2];
    let b3 = s[3];
    assert(((b0 + b1 * 0x100 + b2 * 0x1_0000 + b3 * 0x100_0000) as u32) == ((b0 as u32) | ((b1 as u32)
        << 8u32) | ((b2 as u32) << 16u32) | ((b3 as u32) << 24u32))) by (bit_vector);
}

/// The words of `s` XOR-ed together, either way.
proof fn lemma_words_xor(s: Seq<u8>)
    ensures
        xor_words(s) == pdb_words_xor(s),
    decreases s.len(),
{
    if s.len() >= 4 {
        lemma_words_xor(s.skip(4));
        lemma_le_u32_word(s);
    }
}

/// The hash that `hash_mod_u32` reduces is the name hash of the PDB format.
pub proof fn lemma_spec_hash_is_pdb_name_hash(s: Seq<u8>)
    ensures
        spec_hash(s) == pdb_name_hash(s),
{
    lemma_words_xor(s);
    let t = s.len() - s.len() % 4;
    assert(4 * (s.len() as int / 4) == t);
    let tail = s.skip(t);
    if tail.len() >= 2 {
        let c0 = tail[0];
        let c1 = tail[1];
        assert(((c0 + c1 * 0x100) as u32) == ((c0 as u32) | ((c1 as u32) << 8u32))) by (bit_vector);
        assert(le_u16(tail) as u32 == ((s[t] as u32) | ((s[t + 1] as u32) << 8u32)));
    }
    let a: u32 = if tail.len() >= 2 { le_u16(tail) as u32 } else { 0 };
    let b: u32 = if tail.len() % 2 == 1 { tail[tail.len() - 1] as u32 } else { 0 };
    let w = pdb_words_xor(s);
    assert(w ^ (a ^ b) == (w ^ a) ^ b) by (bit_vector);
    assert(w ^ 0u32 == w) by (bit_vector);
    assert(a ^ 0u32 == a) by (bit_vector);
    assert(0u32 ^ b == b) by (bit_vector);
}

/// The names `main` and `printf` fall in buckets 549 and 1894 of a table of 4096 buckets, as
/// in PDB files.
pub proof fn lemma_pdb_name_hash_examples()
    ensures
        pdb_name_hash(seq![0x6du8, 0x61, 0x69, 0x6e]) % 4096 == 549,
        pdb_name_hash(seq![0x70u8, 0x72, 0x69, 0x6e, 0x74, 0x66]) % 4096 == 1894,
{
    let m = seq![0x6du8, 0x61, 0x69, 0x6e];
    assert(m.skip(4).len() == 0);
    assert(pdb_words_xor(m) == word_of_bytes(0x6d, 0x61, 0x69, 0x6e) ^ pdb_words_xor(m.skip(4)));
    let x: u32 = word_of_bytes(0x6d, 0x61, 0x69, 0x6e) ^ 0u32;
    assert(x == 0x6e69616du32) by (bit_vector)
        requires x == word_of_bytes(0x6d, 0x61, 0x69, 0x6e) ^ 0u32;
    let h0 = x | 0x20202020u32;
    let h1 = h0 ^ (h0 >> 11u32);
    assert((h1 ^ (h1 >> 16u32)) % 4096 == 549) by (bit_vector)
        requires x == 0x6e69616du32, h0 == x | 0x20202020u32, h1 == h0 ^ (h0 >> 11u32);
    let p = seq![0x70u8, 0x72, 0x69, 0x6e, 0x74, 0x66];
    assert(p.skip(4).len() == 2);
    assert(pdb_words_xor(p) == word_of_bytes(0x70, 0x72, 0x69, 0x6e) ^ pdb_words_xor(p.skip(4)));
    let y: u32 = (word_of_bytes(0x70, 0x72, 0x69, 0x6e) ^ 0u32) ^ ((0x74u8 as u32) | ((0x66u8 as u32) << 8u32));
    assert(y == 0x6e697270u32 ^ 0x6674u32) by (bit_vector)
        requires y == (word_of_bytes(0x70, 0x72, 0x69, 0x6e) ^ 0u32) ^ ((0x74u8 as u32) | ((0x66u8 as u32) << 8u32));
    let g0 = y | 0x20202020u32;
    let g1 = g0 ^ (g0 >> 11u32);
    assert((g1 ^ (g1 >> 16u32)) % 4096 == 1894) by (bit_vector)
        requires y == 0x6e697270u32 ^ 0x6674u32, g0 == y | 0x20202020u32, g1 == g0 ^ (g0 >> 11u32);
}

} // verus!
