//! Byte-oriented parsing of CodeView and PDB data structures.
//!
//! A `Parser` holds the bytes that have not been parsed yet. Every successful read consumes a
//! prefix of those bytes; every failed read leaves them untouched.

use vstd::prelude::*;
use vstd::utf8::valid_utf8;
#[allow(unused_imports)]
use vstd::string::StringSliceAdditionalSpecFns;
use crate::le::{decode_u16, decode_u32, decode_u64, decode_u128, le_u16, le_u32, le_u64, le_u128, to_signed, u8_to_i8, u16_to_i16, u32_to_i32, u64_to_i64, u128_to_i128};
use crate::types::TypeIndex;

verus! {

/// Zero-sized type for representing parsing errors.
#[derive(Copy, Clone, Debug, PartialEq, Eq, Structural)]
pub struct ParserError;

impl ParserError {
    /// Creates a parsing error.
    pub fn new() -> (e: Self)
        ensures
            e == ParserError,
    {
        ParserError
    }

    /// The text that describes a parsing error.
    pub fn to_string(&self) -> (s: &'static str)
        ensures
            s@ == "Parsing error"@,
    {
        "Parsing error"
    }
}

/// Checks a byte slice for UTF-8 and views it as a `str` when it is valid.
///
/// Calls `core::str::from_utf8`. Trusted: the result is `Some` exactly when the bytes are valid
/// UTF-8 (as vstd defines it), and the returned `str` consists of the same bytes.
#[verifier::external_body]
fn str_from_utf8<'b>(v: &'b [u8]) -> (r: Option<&'b str>)
    ensures
        r is Some <==> valid_utf8(v@),
        r matches Some(s) ==> s.spec_bytes() == v@,
{
    core::str::from_utf8(v).ok()
}

/// The offset of the first NUL byte in `s`, if there is one.
pub open spec fn nul_terminated_len(s: Seq<u8>, n: int) -> bool {
    &&& 0 <= n < s.len()
    &&& s[n] == 0
    &&& forall|j: int| 0 <= j < n ==> s[j] != 0
}

/// A byte-oriented parser, for use in decoding CodeView records.
#[derive(Clone)]
pub struct Parser<'a> {
    /// The bytes that have not yet been parsed.
    pub bytes: &'a [u8],
}

impl<'a> View for Parser<'a> {
    type V = Seq<u8>;

    open spec fn view(&self) -> Seq<u8> {
        self.bytes@
    }
}

/// Defines types that can parse from a byte stream.
pub trait Parse<'a> where Self: Sized {
    /// Parses an instance of `Self` from a `Parser`.
    fn from_parser(p: &mut Parser<'a>) -> Result<Self, ParserError>;

    /// Parses an instance of `Self` from a byte slice.
    fn parse(bytes: &'a [u8]) -> Result<Self, ParserError> {
        let mut p = Parser::new(bytes);
        Self::from_parser(&mut p)
    }
}

impl<'a> Parser<'a> {
    /// Starts a new parser.
    pub fn new(bytes: &'a [u8]) -> (p: Self)
        ensures
            p@ == bytes@,
    {
        Self { bytes }
    }

    /// Gets the rest of the unparsed bytes; the parser keeps them.
    pub fn peek_rest(&self) -> (r: &'a [u8])
        ensures
            r@ == self@,
    {
        self.bytes
    }

    /// Takes the rest of the unparsed bytes, leaving the parser empty.
    pub fn take_rest(&mut self) -> (r: &'a [u8])
        ensures
            r@ == old(self)@,
            final(self)@ == Seq::<u8>::empty(),
    {
        let (lo, hi) = self.bytes.split_at(self.bytes.len());
        self.bytes = hi;
        lo
    }

    /// Consumes this `Parser` and returns the unparsed bytes within it.
    pub fn into_rest(self) -> (r: &'a [u8])
        ensures
            r@ == self@,
    {
        self.bytes
    }

    /// Indicates whether there are any bytes left to parse.
    pub fn is_empty(&self) -> (b: bool)
        ensures
            b <==> self@.len() == 0,
    {
        self.bytes.len() == 0
    }

    /// Returns the number of unparsed bytes in the parser.
    pub fn len(&self) -> (n: usize)
        ensures
            n == self@.len(),
    {
        self.bytes.len()
    }

    /// Checks that the buffer has at least `n` bytes.
    pub fn needs(&self, n: usize) -> (r: Result<(), ParserError>)
        ensures
            r is Ok <==> n <= self@.len(),
    {
        if n <= self.bytes.len() {
            Ok(())
        } else {
            Err(ParserError::new())
        }
    }

    /// Takes the next `n` bytes of input and returns a slice to it. The parser is advanced by `n`.
    pub fn bytes(&mut self, n: usize) -> (r: Result<&'a [u8], ParserError>)
        ensures
            r is Ok <==> n <= old(self)@.len(),
            r matches Ok(b) ==> b@ == old(self)@.take(n as int) && final(self)@ == old(self)@.skip(
                n as int,
            ),
            r is Err ==> final(self)@ == old(self)@,
    {
        if self.bytes.len() < n {
            return Err(ParserError::new());
        }
        let (lo, hi) = self.bytes.split_at(n);
        self.bytes = hi;
        Ok(lo)
    }

    /// Skips `n` bytes.
    pub fn skip(&mut self, n: usize) -> (r: Result<(), ParserError>)
        ensures
            r is Ok <==> n <= old(self)@.len(),
            r is Ok ==> final(self)@ == old(self)@.skip(n as int),
            r is Err ==> final(self)@ == old(self)@,
    {
        if self.bytes.len() < n {
            return Err(ParserError::new());
        }
        self.bytes = vstd::slice::slice_subrange(self.bytes, n, self.bytes.len());
        Ok(())
    }

    /// Parses a `T` from the input, if `T` knows how to read from a `Parser`.
    pub fn parse<T: Parse<'a>>(&mut self) -> Result<T, ParserError> {
        T::from_parser(self)
    }

    /// Parses a structure from the front of the input. When the structure cannot be parsed, the
    /// parser is left where it was.
    pub fn get<T: Parse<'a>>(&mut self) -> (r: Result<T, ParserError>)
        ensures
            r is Err ==> final(self)@ == old(self)@,
    {
        let saved = self.bytes;
        match T::from_parser(self) {
            Ok(v) => Ok(v),
            Err(e) => {
                self.bytes = saved;
                Err(e)
            },
        }
    }

    /// Reads one byte and advances.
    pub fn u8(&mut self) -> (r: Result<u8, ParserError>)
        ensures
            r is Ok <==> 1 <= old(self)@.len(),
            r matches Ok(v) ==> v == old(self)@[0] && final(self)@ == old(self)@.skip(1),
            r is Err ==> final(self)@ == old(self)@,
    {
        let b = self.bytes(1)?;
        Ok(b[0])
    }

    /// Reads one signed byte and advances.
    pub fn i8(&mut self) -> (r: Result<i8, ParserError>)
        ensures
            r is Ok <==> 1 <= old(self)@.len(),
            r matches Ok(v) ==> v == to_signed(old(self)@[0] as int, 0x100) && final(self)@
                == old(self)@.skip(1),
            r is Err ==> final(self)@ == old(self)@,
    {
        let b = self.bytes(1)?;
        Ok(u8_to_i8(b[0]))
    }

    /// Reads a `u16` (in little-endian order) and advances.
    pub fn u16(&mut self) -> (r: Result<u16, ParserError>)
        ensures
            r is Ok <==> 2 <= old(self)@.len(),
            r matches Ok(v) ==> v == le_u16(old(self)@) && final(self)@ == old(self)@.skip(2),
            r is Err ==> final(self)@ == old(self)@,
    {
        let b = self.bytes(2)?;
        Ok(decode_u16(b))
    }

    /// Reads a `u32` (in little-endian order) and advances.
    pub fn u32(&mut self) -> (r: Result<u32, ParserError>)
        ensures
            r is Ok <==> 4 <= old(self)@.len(),
            r matches Ok(v) ==> v == le_u32(old(self)@) && final(self)@ == old(self)@.skip(4),
            r is Err ==> final(self)@ == old(self)@,
    {
        let b = self.bytes(4)?;
        Ok(decode_u32(b))
    }

    /// Reads a `u64` (in little-endian order) and advances.
    pub fn u64(&mut self) -> (r: Result<u64, ParserError>)
        ensures
            r is Ok <==> 8 <= old(self)@.len(),
            r matches Ok(v) ==> v == le_u64(old(self)@) && final(self)@ == old(self)@.skip(8),
            r is Err ==> final(self)@ == old(self)@,
    {
        let b = self.bytes(8)?;
        proof {
            assert(b@.subrange(4, 8) == old(self)@.subrange(4, 8));
        }
        Ok(decode_u64(b))
    }

    /// Reads a `u128` (in little-endian order) and advances.
    pub fn u128(&mut self) -> (r: Result<u128, ParserError>)
        ensures
            r is Ok <==> 16 <= old(self)@.len(),
            r matches Ok(v) ==> v == le_u128(old(self)@) && final(self)@ == old(self)@.skip(16),
            r is Err ==> final(self)@ == old(self)@,
    {
        let b = self.bytes(16)?;
        proof {
            assert(b@.subrange(4, 8) == old(self)@.subrange(4, 8));
            assert(b@.subrange(8, 16) == old(self)@.subrange(8, 16));
            assert(b@.subrange(8, 16).subrange(4, 8) == old(self)@.subrange(8, 16).subrange(4, 8));
        }
        Ok(decode_u128(b))
    }

    /// Reads an `i16` (in little-endian order) and advances.
    pub fn i16(&mut self) -> (r: Result<i16, ParserError>)
        ensures
            r is Ok <==> 2 <= old(self)@.len(),
            r matches Ok(v) ==> v == to_signed(le_u16(old(self)@), 0x1_0000) && final(self)@
                == old(self)@.skip(2),
            r is Err ==> final(self)@ == old(self)@,
    {
        let v = self.u16()?;
        Ok(u16_to_i16(v))
    }

    /// Reads an `i32` (in little-endian order) and advances.
    pub fn i32(&mut self) -> (r: Result<i32, ParserError>)
        ensures
            r is Ok <==> 4 <= old(self)@.len(),
            r matches Ok(v) ==> v == to_signed(le_u32(old(self)@), 0x1_0000_0000) && final(self)@
                == old(self)@.skip(4),
            r is Err ==> final(self)@ == old(self)@,
    {
        let v = self.u32()?;
        Ok(u32_to_i32(v))
    }

    /// Reads an `i64` (in little-endian order) and advances.
    pub fn i64(&mut self) -> (r: Result<i64, ParserError>)
        ensures
            r is Ok <==> 8 <= old(self)@.len(),
            r matches Ok(v) ==> v == to_signed(le_u64(old(self)@), 0x1_0000_0000_0000_0000int)
                && final(self)@ == old(self)@.skip(8),
            r is Err ==> final(self)@ == old(self)@,
    {
        let v = self.u64()?;
        Ok(u64_to_i64(v))
    }

    /// Reads an `i128` (in little-endian order) and advances.
    pub fn i128(&mut self) -> (r: Result<i128, ParserError>)
        ensures
            r is Ok <==> 16 <= old(self)@.len(),
            r matches Ok(v) ==> v == to_signed(
                le_u128(old(self)@),
                0x1_0000_0000_0000_0000_0000_0000_0000_0000int,
            ) && final(self)@ == old(self)@.skip(16),
            r is Err ==> final(self)@ == old(self)@,
    {
        let v = self.u128()?;
        Ok(u128_to_i128(v))
    }

    /// Skips over a NUL-terminated string.
    pub fn skip_strz(&mut self) -> (r: Result<(), ParserError>)
        ensures
            r is Ok <==> exists|n: int| nul_terminated_len(old(self)@, n),
            forall|n: int|
                nul_terminated_len(old(self)@, n) ==> final(self)@ == old(self)@.skip(n + 1),
            r is Err ==> final(self)@ == old(self)@,
    {
        let r = self.strz();
        match r {
            Ok(_) => Ok(()),
            Err(e) => Err(e),
        }
    }

    /// Reads a NUL-terminated string, without checking that it is UTF-8 encoded.
    ///
    /// The returned bytes do not include the NUL terminator; the parser advances past it.
    pub fn strz(&mut self) -> (r: Result<&'a [u8], ParserError>)
        ensures
            r is Ok <==> exists|n: int| nul_terminated_len(old(self)@, n),
            r matches Ok(s) ==> nul_terminated_len(old(self)@, s@.len() as int) && s@ == old(
                self,
            )@.take(s@.len() as int),
            forall|n: int|
                nul_terminated_len(old(self)@, n) ==> final(self)@ == old(self)@.skip(n + 1),
            r is Err ==> final(self)@ == old(self)@,
    {
        let len = self.bytes.len();
        let mut i: usize = 0;
        while i < len
            invariant
                len == self.bytes@.len(),
                i <= len,
                self@ == old(self)@,
                forall|j: int| 0 <= j < i ==> self@[j] != 0,
            decreases len - i,
        {
            if self.bytes[i] == 0 {
                let str_bytes = vstd::slice::slice_subrange(self.bytes, 0, i);
                self.bytes = vstd::slice::slice_subrange(self.bytes, i + 1, len);
                proof {
                    assert(nul_terminated_len(old(self)@, i as int));
                    assert forall|n: int| nul_terminated_len(old(self)@, n) implies n == i by {
                        if n < i {
                        } else if n > i {
                            assert(old(self)@[i as int] != 0);
                        }
                    }
                }
                return Ok(str_bytes);
            }
            i = i + 1;
        }
        Err(ParserError::new())
    }

    /// Reads a length-prefixed string, without checking that it is UTF-8 encoded.
    pub fn strt_raw(&mut self) -> (r: Result<&'a [u8], ParserError>)
        ensures
            r is Ok <==> 1 <= old(self)@.len() && 1 + old(self)@[0] <= old(self)@.len(),
            r matches Ok(s) ==> s@ == old(self)@.subrange(1, 1 + old(self)@[0]) && final(self)@
                == old(self)@.skip(1 + old(self)@[0]),
            r is Err ==> final(self)@ == old(self)@,
    {
        let saved = self.bytes;
        let len = self.u8()?;
        match self.bytes(len as usize) {
            Ok(b) => Ok(b),
            Err(e) => {
                self.bytes = saved;
                Err(e)
            },
        }
    }

    /// Reads a length-prefixed string, and checks that it is UTF-8 encoded.
    pub fn strt(&mut self) -> (r: Result<&'a str, ParserError>)
        ensures
            r is Ok <==> 1 <= old(self)@.len() && 1 + old(self)@[0] <= old(self)@.len()
                && valid_utf8(old(self)@.subrange(1, 1 + old(self)@[0])),
            r matches Ok(s) ==> s.spec_bytes() == old(self)@.subrange(1, 1 + old(self)@[0])
                && final(self)@ == old(self)@.skip(1 + old(self)@[0]),
    {
        let bytes = self.strt_raw()?;
        match str_from_utf8(bytes) {
            Some(s) => Ok(s),
            None => Err(ParserError::new()),
        }
    }

    /// Parses a 32-bit `TypeIndex`.
    pub fn type_index(&mut self) -> (r: Result<TypeIndex, ParserError>)
        ensures
            r is Ok <==> 4 <= old(self)@.len(),
            r matches Ok(t) ==> t.0 == le_u32(old(self)@) && final(self)@ == old(self)@.skip(4),
            r is Err ==> final(self)@ == old(self)@,
    {
        let v = self.u32()?;
        Ok(TypeIndex(v))
    }

    /// The `n` little-endian `u32` values at the front of `s`.
    pub open spec fn u32_list(s: Seq<u8>, n: int) -> Seq<u32> {
        Seq::new(n as nat, |i: int| le_u32(s.skip(4 * i)) as u32)
    }

    /// The `n` little-endian `u16` values at the front of `s`.
    pub open spec fn u16_list(s: Seq<u8>, n: int) -> Seq<u16> {
        Seq::new(n as nat, |i: int| le_u16(s.skip(2 * i)) as u16)
    }

    /// Reads an array of `n` little-endian `u32` values. When there are not enough bytes, the
    /// parser is left where it was.
    pub fn u32_array(&mut self, n: usize) -> (r: Result<Vec<u32>, ParserError>)
        ensures
            r is Ok <==> 4 * n <= old(self)@.len(),
            r matches Ok(v) ==> v@ == Self::u32_list(old(self)@, n as int) && final(self)@ == old(
                self,
            )@.skip(4 * n),
            r is Err ==> final(self)@ == old(self)@,
    {
        if self.bytes.len() / 4 < n {
            return Err(ParserError::new());
        }
        let mut v: Vec<u32> = Vec::new();
        let mut i: usize = 0;
        while i < n
            invariant
                i <= n,
                4 * n <= old(self)@.len(),
                v@.len() == i,
                self@ == old(self)@.skip(4 * i),
                forall|j: int| 0 <= j < i ==> #[trigger] v@[j] == le_u32(old(self)@.skip(4 * j)),
            decreases n - i,
        {
            let x = match self.u32() {
                Ok(x) => x,
                Err(e) => {
                    return Err(e);
                },
            };
            proof {
                assert(old(self)@.skip(4 * i).skip(4) =~= old(self)@.skip(4 * (i + 1)));
            }
            v.push(x);
            i = i + 1;
        }
        assert(v@ =~= Self::u32_list(old(self)@, n as int));
        Ok(v)
    }

    /// Reads an array of `n` little-endian `u16` values. When there are not enough bytes, the
    /// parser is left where it was.
    pub fn u16_array(&mut self, n: usize) -> (r: Result<Vec<u16>, ParserError>)
        ensures
            r is Ok <==> 2 * n <= old(self)@.len(),
            r matches Ok(v) ==> v@ == Self::u16_list(old(self)@, n as int) && final(self)@ == old(
                self,
            )@.skip(2 * n),
            r is Err ==> final(self)@ == old(self)@,
    {
        if self.bytes.len() / 2 < n {
            return Err(ParserError::new());
        }
        let mut v: Vec<u16> = Vec::new();
        let mut i: usize = 0;
        while i < n
            invariant
                i <= n,
                2 * n <= old(self)@.len(),
                v@.len() == i,
                self@ == old(self)@.skip(2 * i),
                forall|j: int| 0 <= j < i ==> #[trigger] v@[j] == le_u16(old(self)@.skip(2 * j)),
            decreases n - i,
        {
            let x = match self.u16() {
                Ok(x) => x,
                Err(e) => {
                    return Err(e);
                },
            };
            proof {
                assert(old(self)@.skip(2 * i).skip(2) =~= old(self)@.skip(2 * (i + 1)));
            }
            v.push(x);
            i = i + 1;
        }
        assert(v@ =~= Self::u16_list(old(self)@, n as int));
        Ok(v)
    }
}

/// A parser that can return mutable references to the data that it parses.
///
/// Most of the methods defined on `ParserMut` are equivalent to the same methods on `Parser`.
pub struct ParserMut<'a> {
    /// The remaining, unparsed data.
    pub bytes: &'a mut [u8],
}

impl<'a> View for ParserMut<'a> {
    type V = Seq<u8>;

    open spec fn view(&self) -> Seq<u8> {
        self.bytes@
    }
}

impl<'a> ParserMut<'a> {
    /// Starts a new parser. Writes through the parser, and through the slices that it hands
    /// out, reach `bytes`; what the parser skips or reads is left as it was.
    pub fn new(bytes: &'a mut [u8]) -> (p: Self)
        ensures
            p@ == old(bytes)@,
            final(bytes)@ == final(p.bytes)@,
    {
        Self { bytes }
    }

    /// The unparsed bytes.
    pub fn peek_rest(&self) -> (r: &[u8])
        ensures
            r@ == self@,
    {
        self.bytes
    }

    /// The unparsed bytes, with mutable access. Writes through them reach the parser's bytes.
    pub fn peek_rest_mut(&mut self) -> (r: &mut [u8])
        ensures
            r@ == old(self)@,
            final(self)@ == final(r)@,
    {
        &mut *self.bytes
    }

    /// Consumes this parser and returns the unparsed bytes.
    pub fn into_rest(self) -> (r: &'a mut [u8])
        ensures
            r@ == self@,
            final(r)@ == final(self.bytes)@,
    {
        self.bytes
    }

    /// Indicates whether there are any bytes left to parse.
    pub fn is_empty(&self) -> (b: bool)
        ensures
            b <==> self@.len() == 0,
    {
        self.bytes.len() == 0
    }

    /// Returns the number of unparsed bytes in the parser.
    pub fn len(&self) -> (n: usize)
        ensures
            n == self@.len(),
    {
        self.bytes.len()
    }

    /// Skips `n` bytes.
    pub fn skip(&mut self, n: usize) -> (r: Result<(), ParserError>)
        ensures
            r is Ok <==> n <= old(self)@.len(),
            r is Ok ==> final(self)@ == old(self)@.skip(n as int),
            r is Err ==> final(self)@ == old(self)@,
            r is Ok ==> final(old(self).bytes)@ == old(self)@.take(n as int) + final(final(self).bytes)@,
            r is Err ==> final(final(self).bytes)@ == final(old(self).bytes)@,
    {
        match self.bytes_mut(n) {
            Ok(_) => Ok(()),
            Err(e) => Err(e),
        }
    }

    /// Takes the next `n` bytes, with mutable access. The parser is advanced by `n`.
    pub fn bytes_mut(&mut self, n: usize) -> (r: Result<&'a mut [u8], ParserError>)
        ensures
            r is Ok <==> n <= old(self)@.len(),
            r matches Ok(b) ==> b@ == old(self)@.take(n as int) && final(self)@ == old(self)@.skip(
                n as int,
            ),
            r is Err ==> final(self)@ == old(self)@,
            r matches Ok(b) ==> final(old(self).bytes)@ == final(b)@ + final(final(self).bytes)@,
            r is Err ==> final(final(self).bytes)@ == final(old(self).bytes)@,
    {
        if self.bytes.len() < n {
            return Err(ParserError::new());
        }
        let mut tmp: &'a mut [u8] = &mut [];
        core::mem::swap(&mut tmp, &mut self.bytes);
        let (lo, hi) = tmp.split_at_mut(n);
        self.bytes = hi;
        Ok(lo)
    }

    /// Takes the next `n` bytes. The parser is advanced by `n`.
    pub fn bytes(&mut self, n: usize) -> (r: Result<&'a [u8], ParserError>)
        ensures
            r is Ok <==> n <= old(self)@.len(),
            r matches Ok(b) ==> b@ == old(self)@.take(n as int) && final(self)@ == old(self)@.skip(
                n as int,
            ),
            r is Err ==> final(self)@ == old(self)@,
            r is Ok ==> final(old(self).bytes)@ == old(self)@.take(n as int) + final(final(self).bytes)@,
            r is Err ==> final(final(self).bytes)@ == final(old(self).bytes)@,
    {
        match self.bytes_mut(n) {
            Ok(b) => Ok(&*b),
            Err(e) => Err(e),
        }
    }

    /// Reads one byte and advances.
    pub fn u8(&mut self) -> (r: Result<u8, ParserError>)
        ensures
            r is Ok <==> 1 <= old(self)@.len(),
            r matches Ok(v) ==> v == old(self)@[0] && final(self)@ == old(self)@.skip(1),
            r is Err ==> final(self)@ == old(self)@,
            r is Ok ==> final(old(self).bytes)@ == old(self)@.take(1) + final(final(self).bytes)@,
            r is Err ==> final(final(self).bytes)@ == final(old(self).bytes)@,
    {
        let b = self.bytes(1)?;
        Ok(b[0])
    }

    /// Reads one signed byte and advances.
    pub fn i8(&mut self) -> (r: Result<i8, ParserError>)
        ensures
            r is Ok <==> 1 <= old(self)@.len(),
            r matches Ok(v) ==> v == to_signed(old(self)@[0] as int, 0x100) && final(self)@
                == old(self)@.skip(1),
            r is Err ==> final(self)@ == old(self)@,
            r is Ok ==> final(old(self).bytes)@ == old(self)@.take(1) + final(final(self).bytes)@,
            r is Err ==> final(final(self).bytes)@ == final(old(self).bytes)@,
    {
        let b = self.bytes(1)?;
        Ok(u8_to_i8(b[0]))
    }

    /// Reads a `u16` (in little-endian order) and advances.
    pub fn u16(&mut self) -> (r: Result<u16, ParserError>)
        ensures
            r is Ok <==> 2 <= old(self)@.len(),
            r matches Ok(v) ==> v == le_u16(old(self)@) && final(self)@ == old(self)@.skip(2),
            r is Err ==> final(self)@ == old(self)@,
            r is Ok ==> final(old(self).bytes)@ == old(self)@.take(2) + final(final(self).bytes)@,
            r is Err ==> final(final(self).bytes)@ == final(old(self).bytes)@,
    {
        let b = self.bytes(2)?;
        Ok(decode_u16(b))
    }

    /// Reads a `u32` (in little-endian order) and advances.
    pub fn u32(&mut self) -> (r: Result<u32, ParserError>)
        ensures
            r is Ok <==> 4 <= old(self)@.len(),
            r matches Ok(v) ==> v == le_u32(old(self)@) && final(self)@ == old(self)@.skip(4),
            r is Err ==> final(self)@ == old(self)@,
            r is Ok ==> final(old(self).bytes)@ == old(self)@.take(4) + final(final(self).bytes)@,
            r is Err ==> final(final(self).bytes)@ == final(old(self).bytes)@,
    {
        let b = self.bytes(4)?;
        Ok(decode_u32(b))
    }

    /// Reads a `u64` (in little-endian order) and advances.
    pub fn u64(&mut self) -> (r: Result<u64, ParserError>)
        ensures
            r is Ok <==> 8 <= old(self)@.len(),
            r matches Ok(v) ==> v == le_u64(old(self)@) && final(self)@ == old(self)@.skip(8),
            r is Err ==> final(self)@ == old(self)@,
            r is Ok ==> final(old(self).bytes)@ == old(self)@.take(8) + final(final(self).bytes)@,
            r is Err ==> final(final(self).bytes)@ == final(old(self).bytes)@,
    {
        let b = self.bytes(8)?;
        proof {
            assert(b@.subrange(4, 8) == old(self)@.subrange(4, 8));
        }
        Ok(decode_u64(b))
    }

    /// Reads an `i16` (in little-endian order) and advances.
    pub fn i16(&mut self) -> (r: Result<i16, ParserError>)
        ensures
            r is Ok <==> 2 <= old(self)@.len(),
            r matches Ok(v) ==> v == to_signed(le_u16(old(self)@), 0x1_0000) && final(self)@
                == old(self)@.skip(2),
            r is Err ==> final(self)@ == old(self)@,
            r is Ok ==> final(old(self).bytes)@ == old(self)@.take(2) + final(final(self).bytes)@,
            r is Err ==> final(final(self).bytes)@ == final(old(self).bytes)@,
    {
        let v = self.u16()?;
        Ok(u16_to_i16(v))
    }

    /// Reads an `i32` (in little-endian order) and advances.
    pub fn i32(&mut self) -> (r: Result<i32, ParserError>)
        ensures
            r is Ok <==> 4 <= old(self)@.len(),
            r matches Ok(v) ==> v == to_signed(le_u32(old(self)@), 0x1_0000_0000) && final(self)@
                == old(self)@.skip(4),
            r is Err ==> final(self)@ == old(self)@,
            r is Ok ==> final(old(self).bytes)@ == old(self)@.take(4) + final(final(self).bytes)@,
            r is Err ==> final(final(self).bytes)@ == final(old(self).bytes)@,
    {
        let v = self.u32()?;
        Ok(u32_to_i32(v))
    }

    /// Reads an `i64` (in little-endian order) and advances.
    pub fn i64(&mut self) -> (r: Result<i64, ParserError>)
        ensures
            r is Ok <==> 8 <= old(self)@.len(),
            r matches Ok(v) ==> v == to_signed(le_u64(old(self)@), 0x1_0000_0000_0000_0000int)
                && final(self)@ == old(self)@.skip(8),
            r is Err ==> final(self)@ == old(self)@,
            r is Ok ==> final(old(self).bytes)@ == old(self)@.take(8) + final(final(self).bytes)@,
            r is Err ==> final(final(self).bytes)@ == final(old(self).bytes)@,
    {
        let v = self.u64()?;
        Ok(u64_to_i64(v))
    }

    /// Skips over a NUL-terminated string.
    pub fn skip_strz(&mut self) -> (r: Result<(), ParserError>)
        ensures
            r is Ok <==> exists|n: int| nul_terminated_len(old(self)@, n),
            forall|n: int|
                nul_terminated_len(old(self)@, n) ==> final(self)@ == old(self)@.skip(n + 1),
            r is Err ==> final(self)@ == old(self)@,
            forall|n: int| nul_terminated_len(old(self)@, n) ==> final(old(self).bytes)@ == old(self)@.take(n + 1) + final(final(self).bytes)@,
            r is Err ==> final(final(self).bytes)@ == final(old(self).bytes)@,
    {
        match self.strz() {
            Ok(_) => Ok(()),
            Err(e) => Err(e),
        }
    }

    /// Reads a NUL-terminated string, with mutable access to its bytes.
    pub fn strz(&mut self) -> (r: Result<&'a mut [u8], ParserError>)
        ensures
            r is Ok <==> exists|n: int| nul_terminated_len(old(self)@, n),
            r matches Ok(s) ==> nul_terminated_len(old(self)@, s@.len() as int) && s@ == old(
                self,
            )@.take(s@.len() as int),
            forall|n: int|
                nul_terminated_len(old(self)@, n) ==> final(self)@ == old(self)@.skip(n + 1),
            r is Err ==> final(self)@ == old(self)@,
            r matches Ok(s) ==> final(old(self).bytes)@ == final(s)@ + seq![0u8] + final(final(self).bytes)@,
            r is Err ==> final(final(self).bytes)@ == final(old(self).bytes)@,
    {
        let len = self.bytes.len();
        let mut i: usize = 0;
        while i < len
            invariant
                len == self.bytes@.len(),
                i <= len,
                self@ == old(self)@,
                final(self.bytes)@ == final(old(self).bytes)@,
                forall|j: int| 0 <= j < i ==> self@[j] != 0,
            decreases len - i,
        {
            if self.bytes[i] == 0 {
                proof {
                    assert(nul_terminated_len(old(self)@, i as int));
                    assert forall|n: int| nul_terminated_len(old(self)@, n) implies n == i by {
                        if n < i {
                        } else if n > i {
                            assert(old(self)@[i as int] != 0);
                        }
                    }
                }
                let s = self.bytes_mut(i);
                let nul = self.bytes_mut(1);
                proof {
                    if let Ok(b) = nul {
                        assert(b@ =~= seq![0u8]);
                    }
                    assert(old(self)@.skip(i as int).skip(1) == old(self)@.skip(i + 1));
                }
                return s;
            }
            i = i + 1;
        }
        Err(ParserError::new())
    }

    /// Parses a 32-bit `TypeIndex`.
    pub fn type_index(&mut self) -> (r: Result<TypeIndex, ParserError>)
        ensures
            r is Ok <==> 4 <= old(self)@.len(),
            r matches Ok(t) ==> t.0 == le_u32(old(self)@) && final(self)@ == old(self)@.skip(4),
            r is Err ==> final(self)@ == old(self)@,
            r is Ok ==> final(old(self).bytes)@ == old(self)@.take(4) + final(final(self).bytes)@,
            r is Err ==> final(final(self).bytes)@ == final(old(self).bytes)@,
    {
        let v = self.u32()?;
        Ok(TypeIndex(v))
    }
}

} // verus!
