//! Numeric leaves: the variable-length encoding of numbers within CodeView records.
//!
//! A number starts with a `u16`. Below `LF_NUMERIC` (0x8000) that `u16` is the value itself.
//! Otherwise it is a leaf kind that says how many bytes of payload follow.

use vstd::prelude::*;
use crate::le::{decode_u16, le_u16};
use crate::parser::{nul_terminated_len, Parser, ParserMut, ParserError};
use crate::types::kind::{
    LF_CHAR, LF_SHORT, LF_USHORT, LF_LONG, LF_ULONG, LF_REAL32, LF_REAL64, LF_REAL80, LF_REAL128,
    LF_QUADWORD, LF_UQUADWORD, LF_REAL48, LF_COMPLEX32, LF_COMPLEX64, LF_COMPLEX80, LF_COMPLEX128,
    LF_VARSTRING, LF_OCTWORD, LF_UOCTWORD, LF_DECIMAL, LF_DATE, LF_UTF8STRING, LF_REAL16,
};

verus! {

/// The size of the payload that follows a numeric leaf of fixed size, or `None` when the leaf
/// does not have a fixed-size payload.
pub open spec fn fixed_numeric_payload(leaf: u16) -> Option<int> {
    if leaf < 0x8000 {
        Some(0)
    } else if leaf == LF_CHAR {
        Some(1)
    } else if leaf == LF_SHORT || leaf == LF_USHORT || leaf == LF_REAL16 {
        Some(2)
    } else if leaf == LF_LONG || leaf == LF_ULONG || leaf == LF_REAL32 {
        Some(4)
    } else if leaf == LF_REAL48 {
        Some(6)
    } else if leaf == LF_REAL64 || leaf == LF_QUADWORD || leaf == LF_UQUADWORD || leaf
        == LF_COMPLEX32 || leaf == LF_DATE {
        Some(8)
    } else if leaf == LF_REAL80 {
        Some(10)
    } else if leaf == LF_REAL128 || leaf == LF_COMPLEX64 || leaf == LF_OCTWORD || leaf
        == LF_UOCTWORD || leaf == LF_DECIMAL {
        Some(16)
    } else if leaf == LF_COMPLEX80 {
        Some(20)
    } else if leaf == LF_COMPLEX128 {
        Some(32)
    } else {
        None
    }
}

/// The encoded length of the number at the start of `s`, or `None` when `s` does not start with
/// a complete, known numeric leaf.
pub open spec fn number_len(s: Seq<u8>) -> Option<int> {
    if s.len() < 2 {
        None
    } else {
        let leaf = le_u16(s) as u16;
        match fixed_numeric_payload(leaf) {
            Some(n) => if 2 + n <= s.len() {
                Some(2 + n)
            } else {
                None
            },
            None => if leaf == LF_VARSTRING {
                if 4 <= s.len() && 4 + le_u16(s.skip(2)) <= s.len() {
                    Some(4 + le_u16(s.skip(2)))
                } else {
                    None
                }
            } else if leaf == LF_UTF8STRING {
                if exists|n: int| nul_terminated_len(s.skip(2), n) {
                    Some(2 + (choose|n: int| nul_terminated_len(s.skip(2), n)) + 1)
                } else {
                    None
                }
            } else {
                None
            },
        }
    }
}

/// A numeric leaf, as its encoded bytes (the leading `u16` and the payload).
#[derive(Clone, Copy)]
pub struct Number<'a> {
    /// The encoded bytes of the number.
    pub bytes: &'a [u8],
}

/// The payload size of a fixed-size numeric leaf.
fn fixed_payload(leaf: u16) -> (r: Option<usize>)
    ensures
        r matches Some(n) ==> fixed_numeric_payload(leaf) == Some(n as int),
        r is None ==> fixed_numeric_payload(leaf) is None,
{
    if leaf < 0x8000 {
        Some(0)
    } else if leaf == LF_CHAR {
        Some(1)
    } else if leaf == LF_SHORT || leaf == LF_USHORT || leaf == LF_REAL16 {
        Some(2)
    } else if leaf == LF_LONG || leaf == LF_ULONG || leaf == LF_REAL32 {
        Some(4)
    } else if leaf == LF_REAL48 {
        Some(6)
    } else if leaf == LF_REAL64 || leaf == LF_QUADWORD || leaf == LF_UQUADWORD || leaf
        == LF_COMPLEX32 || leaf == LF_DATE {
        Some(8)
    } else if leaf == LF_REAL80 {
        Some(10)
    } else if leaf == LF_REAL128 || leaf == LF_COMPLEX64 || leaf == LF_OCTWORD || leaf
        == LF_UOCTWORD || leaf == LF_DECIMAL {
        Some(16)
    } else if leaf == LF_COMPLEX80 {
        Some(20)
    } else if leaf == LF_COMPLEX128 {
        Some(32)
    } else {
        None
    }
}

/// The offset of the first NUL byte in `s` at or after `start`.
fn find_nul(s: &[u8], start: usize) -> (r: Option<usize>)
    requires
        start <= s@.len(),
    ensures
        r matches Some(n) ==> nul_terminated_len(s@.skip(start as int), n - start) && start <= n,
        r is None ==> !exists|n: int| nul_terminated_len(s@.skip(start as int), n),
{
    let mut i = start;
    while i < s.len()
        invariant
            start <= i <= s@.len(),
            forall|j: int| start <= j < i ==> s@[j] != 0,
        decreases s@.len() - i,
    {
        if s[i] == 0 {
            assert(nul_terminated_len(s@.skip(start as int), i - start));
            return Some(i);
        }
        i = i + 1;
    }
    proof {
        assert forall|n: int| !nul_terminated_len(s@.skip(start as int), n) by {
            if nul_terminated_len(s@.skip(start as int), n) {
                assert(s@[start + n] == 0);
            }
        }
    }
    None
}

/// Computes the encoded length of the number at the start of `s`.
pub fn measure_number(s: &[u8]) -> (r: Option<usize>)
    ensures
        r matches Some(n) ==> number_len(s@) == Some(n as int),
        r is None ==> number_len(s@) is None,
{
    if s.len() < 2 {
        return None;
    }
    let leaf = decode_u16(s);
    match fixed_payload(leaf) {
        Some(n) => {
            if n <= s.len() - 2 {
                Some(2 + n)
            } else {
                None
            }
        },
        None => {
            if leaf == LF_VARSTRING {
                if s.len() < 4 {
                    return None;
                }
                let tail = vstd::slice::slice_subrange(s, 2, s.len());
                let len = decode_u16(tail) as usize;
                if len <= s.len() - 4 {
                    Some(4 + len)
                } else {
                    None
                }
            } else if leaf == LF_UTF8STRING {
                match find_nul(s, 2) {
                    Some(i) => {
                        proof {
                            let k = choose|n: int| nul_terminated_len(s@.skip(2), n);
                            if k < i - 2 {
                                assert(s@.skip(2)[k] == 0);
                            } else if k > i - 2 {
                                assert(s@.skip(2)[i - 2] == 0);
                            }
                        }
                        Some(i + 1)
                    },
                    None => None,
                }
            } else {
                None
            }
        },
    }
}

impl<'a> Parser<'a> {
    /// Parses a numeric leaf (an immediate value, or a leaf kind and its payload).
    pub fn number(&mut self) -> (r: Result<Number<'a>, ParserError>)
        ensures
            r is Ok <==> number_len(old(self)@) is Some,
            r matches Ok(n) ==> n.bytes@ == old(self)@.take(number_len(old(self)@)->0)
                && final(self)@ == old(self)@.skip(number_len(old(self)@)->0),
            r is Err ==> final(self)@ == old(self)@,
    {
        match measure_number(self.bytes) {
            Some(n) => {
                let bytes = self.bytes(n)?;
                Ok(Number { bytes })
            },
            None => Err(ParserError::new()),
        }
    }
}

impl<'a> ParserMut<'a> {
    /// Skips over a numeric leaf.
    pub fn skip_number(&mut self) -> (r: Result<(), ParserError>)
        ensures
            r is Ok <==> number_len(old(self)@) is Some,
            r is Ok ==> final(self)@ == old(self)@.skip(number_len(old(self)@)->0),
            r is Err ==> final(self)@ == old(self)@,
            r is Ok ==> final(old(self).bytes)@ == old(self)@.take(number_len(old(self)@)->0)
                + final(final(self).bytes)@,
            r is Err ==> final(final(self).bytes)@ == final(old(self).bytes)@,
    {
        match measure_number(self.peek_rest()) {
            Some(n) => self.skip(n),
            None => Err(ParserError::new()),
        }
    }
}

/// `Some(n)` when `s` holds at least `n` bytes: the length of a leaf of `n` bytes, if it is all
/// there.
pub open spec fn leaf_of_len(s: Seq<u8>, n: int) -> Option<int> {
    if n <= s.len() {
        Some(n)
    } else {
        None
    }
}

/// A numeric leaf of a fixed-size kind is the 2-byte leaf kind followed by the value, so its
/// length is 2 plus the width of the value: a kind below `0x8000` is itself the value (no
/// payload); `LF_CHAR` holds an `i8`; `LF_SHORT`, `LF_USHORT` and `LF_REAL16` 2 bytes; `LF_LONG`,
/// `LF_ULONG` and `LF_REAL32` 4 bytes; `LF_REAL48` 6; `LF_REAL64`, `LF_QUADWORD`, `LF_UQUADWORD`,
/// `LF_COMPLEX32` and `LF_DATE` 8; `LF_REAL80` 10; `LF_REAL128`, `LF_COMPLEX64`, `LF_OCTWORD`,
/// `LF_UOCTWORD` and `LF_DECIMAL` 16; `LF_COMPLEX80` 20; `LF_COMPLEX128` 32. When the value is
/// not all there, there is no number, and a kind that is not a numeric leaf is not a number.
pub proof fn lemma_fixed_numeric_leaf_len(s: Seq<u8>)
    requires
        s.len() >= 2,
    ensures
        le_u16(s) < 0x8000 ==> number_len(s) == Some(2int),
        le_u16(s) == 0x8000 ==> number_len(s) == leaf_of_len(s, 3),
        le_u16(s) == 0x8001 || le_u16(s) == 0x8002 || le_u16(s) == 0x801c ==> number_len(s)
            == leaf_of_len(s, 4),
        le_u16(s) == 0x8003 || le_u16(s) == 0x8004 || le_u16(s) == 0x8005 ==> number_len(s)
            == leaf_of_len(s, 6),
        le_u16(s) == 0x800b ==> number_len(s) == leaf_of_len(s, 8),
        le_u16(s) == 0x8006 || le_u16(s) == 0x8009 || le_u16(s) == 0x800a || le_u16(s) == 0x800c
            || le_u16(s) == 0x801a ==> number_len(s) == leaf_of_len(s, 10),
        le_u16(s) == 0x8007 ==> number_len(s) == leaf_of_len(s, 12),
        le_u16(s) == 0x8008 || le_u16(s) == 0x800d || le_u16(s) == 0x8017 || le_u16(s) == 0x8018
            || le_u16(s) == 0x8019 ==> number_len(s) == leaf_of_len(s, 18),
        le_u16(s) == 0x800e ==> number_len(s) == leaf_of_len(s, 22),
        le_u16(s) == 0x800f ==> number_len(s) == leaf_of_len(s, 34),
        (0x8011 <= le_u16(s) <= 0x8016) || le_u16(s) >= 0x801d ==> number_len(s) is None,
{
}

/// A numeric leaf that holds a string: `LF_VARSTRING` is followed by a 16-bit length and that
/// many bytes.
pub proof fn lemma_varstring_leaf_len(s: Seq<u8>)
    requires
        s.len() >= 4,
        le_u16(s) == 0x8010,
    ensures
        number_len(s) == leaf_of_len(s, 4 + le_u16(s.skip(2))),
{
}

/// `LF_UTF8STRING` is followed by a NUL-terminated string: the leaf runs to the first NUL byte
/// after the kind, which it includes; without a NUL byte there is no number.
pub proof fn lemma_utf8string_leaf_len(s: Seq<u8>)
    requires
        s.len() >= 2,
        le_u16(s) == 0x801b,
    ensures
        forall|n: int|
            2 <= n < s.len() && s[n] == 0 && (forall|j: int| 2 <= j < n ==> s[j] != 0) ==> number_len(s)
                == Some(n + 1),
        (forall|j: int| 2 <= j < s.len() ==> s[j] != 0) ==> number_len(s) is None,
{
    assert forall|n: int|
        2 <= n < s.len() && s[n] == 0 && (forall|j: int| 2 <= j < n ==> s[j] != 0) implies number_len(s)
            == Some(n + 1) by {
        let t = s.skip(2);
        assert(nul_terminated_len(t, n - 2));
        let c = choose|m: int| nul_terminated_len(t, m);
        if c < n - 2 {
            assert(t[c] == 0);
            assert(s[c + 2] == 0);
        } else if c > n - 2 {
            assert(t[n - 2] != 0);
        }
    }
    if forall|j: int| 2 <= j < s.len() ==> s[j] != 0 {
        let t = s.skip(2);
        if exists|m: int| nul_terminated_len(t, m) {
            let m = choose|m: int| nul_terminated_len(t, m);
            assert(s[m + 2] == 0);
        }
    }
}

} // verus!
