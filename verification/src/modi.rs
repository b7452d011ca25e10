//! Reads data from Module Info (`modi`) streams.
//!
//! A Module Stream holds, one after another: the module's symbols (which begin with a 4-byte
//! CodeView signature), its C11 Line Data, its C13 Line Data, and optionally its Global Refs (a
//! 32-bit size, then that many bytes). The sizes of the first three come from the module's
//! record in the DBI Modules Substream.

use vstd::prelude::*;
use crate::dbi::modules::ModuleInfoFixed;
use crate::le::{le_u32, read_u32_at};
use crate::lines::{LineData, LineDataMut};
use crate::syms::iter::SymIter;
use crate::utils::vec::replace_range_copy;

verus! {

/// The length of the header of the Module Symbols substream (its CodeView signature).
pub const MODULE_SYMBOLS_HEADER_LEN: usize = 4;

/// Actual signature is >64K
pub const CV_SIGNATURE_C6: u32 = 0;
/// First explicit signature
pub const CV_SIGNATURE_C7: u32 = 1;
/// C11 (vc5.x) 32-bit types
pub const CV_SIGNATURE_C11: u32 = 2;
/// C13 (vc7.x) zero terminated names
pub const CV_SIGNATURE_C13: u32 = 4;
/// All signatures from 5 to 64K are reserved
pub const CV_SIGNATURE_RESERVED: u32 = 5;

/// Why a Module Stream could not be read.
#[derive(Clone, Copy, Debug, PartialEq, Eq, Structural)]
pub enum ModiError {
    /// The symbols substream runs past the end of the stream.
    SymSizeExceedsStream,
    /// The C11 Line Data runs past the end of the stream.
    C11SizeExceedsStream,
    /// The C13 Line Data runs past the end of the stream.
    C13SizeExceedsStream,
    /// Fewer than 4 bytes follow the line data, so the size of the Global Refs cannot be read.
    GlobalRefsSizeMissing,
    /// The Global Refs run past the end of the stream.
    GlobalRefsExceedStream,
}

/// The description of an error that reading a Module Stream gives.
pub open spec fn modi_error_text(e: ModiError) -> Seq<char> {
    match e {
        ModiError::SymSizeExceedsStream => "Module info has a sym_byte_size that exceeds the size of the stream."@,
        ModiError::C11SizeExceedsStream => "Module info has a c11_byte_size that exceeds the size of the stream."@,
        ModiError::C13SizeExceedsStream => "Module info has a c13_byte_size that exceeds the size of the stream."@,
        ModiError::GlobalRefsSizeMissing => "Failed to decode global_refs_size."@,
        ModiError::GlobalRefsExceedStream => "Failed to decode global_refs substream."@,
    }
}

impl ModiError {
    /// A description of the error.
    pub fn to_string(&self) -> (s: &'static str)
        ensures
            s@ == modi_error_text(*self),
    {
        match self {
            ModiError::SymSizeExceedsStream => "Module info has a sym_byte_size that exceeds the size of the stream.",
            ModiError::C11SizeExceedsStream => "Module info has a c11_byte_size that exceeds the size of the stream.",
            ModiError::C13SizeExceedsStream => "Module info has a c13_byte_size that exceeds the size of the stream.",
            ModiError::GlobalRefsSizeMissing => "Failed to decode global_refs_size.",
            ModiError::GlobalRefsExceedStream => "Failed to decode global_refs substream.",
        }
    }
}

/// Contains (or refers to) the stream data for a Module Info stream.
pub struct ModiStreamData {
    /// The contents of the stream.
    pub stream_data: Vec<u8>,
    /// The size of the symbols substream, signature included.
    pub sym_byte_size: u32,
    /// The size of the C11 Line Data.
    pub c11_byte_size: u32,
    /// The size of the C13 Line Data.
    pub c13_byte_size: u32,
    /// The size of the Global Refs, or 0 if there are none.
    pub global_refs_size: u32,
}

/// The size of the Global Refs that a Module Stream `s` holds after its first `lines_end` bytes,
/// or the error that reading it gives.
pub open spec fn global_refs_size_of(s: Seq<u8>, lines_end: int) -> Result<u32, ModiError> {
    let rest = s.len() - lines_end;
    if rest == 0 {
        Ok(0)
    } else if rest < 4 {
        Err(ModiError::GlobalRefsSizeMissing)
    } else {
        let g = le_u32(s.skip(lines_end));
        if g == 0xffff_ffff {
            Ok(0)
        } else if g > rest - 4 {
            Err(ModiError::GlobalRefsExceedStream)
        } else {
            Ok(g as u32)
        }
    }
}

impl ModiStreamData {
    /// The substreams lie within the stream data.
    pub open spec fn wf(&self) -> bool {
        &&& self.sym_byte_size + self.c11_byte_size + self.c13_byte_size <= self.stream_data@.len()
        &&& self.global_refs_size > 0 ==> self.sym_byte_size + self.c11_byte_size + self.c13_byte_size + 4
            + self.global_refs_size <= self.stream_data@.len()
    }

    /// Reads a Module Stream, given the sizes of its substreams from the module's header, and
    /// checks that they fit in the stream.
    pub fn new(stream_data: Vec<u8>, module: &ModuleInfoFixed) -> (r: Result<Self, ModiError>)
        ensures
            ({
                let s = stream_data@;
                let a = module.sym_byte_size as int;
                let b = module.c11_byte_size as int;
                let c = module.c13_byte_size as int;
                if a > s.len() {
                    r == Err::<Self, ModiError>(ModiError::SymSizeExceedsStream)
                } else if a + b > s.len() {
                    r == Err::<Self, ModiError>(ModiError::C11SizeExceedsStream)
                } else if a + b + c > s.len() {
                    r == Err::<Self, ModiError>(ModiError::C13SizeExceedsStream)
                } else {
                    match global_refs_size_of(s, a + b + c) {
                        Err(e) => r == Err::<Self, ModiError>(e),
                        Ok(g) => r matches Ok(m) && m.stream_data@ == s && m.sym_byte_size == a
                            && m.c11_byte_size == b && m.c13_byte_size == c && m.global_refs_size == g
                            && m.wf(),
                    }
                }
            }),
    {
        let len = stream_data.len();
        let a = module.sym_byte_size as usize;
        let b = module.c11_byte_size as usize;
        let c = module.c13_byte_size as usize;
        if a > len {
            return Err(ModiError::SymSizeExceedsStream);
        }
        if b > len - a {
            return Err(ModiError::C11SizeExceedsStream);
        }
        if c > len - a - b {
            return Err(ModiError::C13SizeExceedsStream);
        }
        let lines_end = a + b + c;
        let rest = len - lines_end;
        let global_refs_size: u32;
        if rest == 0 {
            global_refs_size = 0;
        } else {
            if rest < 4 {
                return Err(ModiError::GlobalRefsSizeMissing);
            }
            let g = read_u32_at(stream_data.as_slice(), lines_end);
            if g == 0xffff_ffff {
                global_refs_size = 0;
            } else {
                if g as usize > rest - 4 {
                    return Err(ModiError::GlobalRefsExceedStream);
                }
                global_refs_size = g;
            }
        }
        Ok(
            ModiStreamData {
                stream_data,
                sym_byte_size: module.sym_byte_size,
                c11_byte_size: module.c11_byte_size,
                c13_byte_size: module.c13_byte_size,
                global_refs_size,
            },
        )
    }

    /// The encoded symbol data for this module, without the CodeView signature: empty where
    /// the symbols substream is shorter than the signature or runs past the stream.
    pub open spec fn sym_data_spec(&self) -> Seq<u8> {
        if MODULE_SYMBOLS_HEADER_LEN <= self.sym_byte_size <= self.stream_data@.len() {
            self.stream_data@.subrange(MODULE_SYMBOLS_HEADER_LEN as int, self.sym_byte_size as int)
        } else {
            Seq::empty()
        }
    }

    /// Returns a reference to the encoded symbol data for this module.
    ///
    /// This _does not_ include the CodeView signature.
    pub fn sym_data(&self) -> (r: &[u8])
        ensures
            r@ == self.sym_data_spec(),
    {
        let end = self.sym_byte_size as usize;
        if MODULE_SYMBOLS_HEADER_LEN <= end && end <= self.stream_data.len() {
            vstd::slice::slice_subrange(self.stream_data.as_slice(), MODULE_SYMBOLS_HEADER_LEN, end)
        } else {
            let empty: &[u8] = &[];
            assert(empty@ =~= Seq::<u8>::empty());
            empty
        }
    }

    /// Returns an iterator for the symbol data for this module.
    pub fn iter_syms(&self) -> (it: SymIter<'_>)
        ensures
            it@ == self.sym_data_spec(),
    {
        SymIter::new(self.sym_data())
    }

    /// Returns a reference to the encoded symbol data for this module.
    ///
    /// This _does_ include the CodeView signature.
    pub fn full_sym_data(&self) -> (r: &[u8])
        requires
            self.sym_byte_size <= self.stream_data@.len(),
        ensures
            r@ == self.stream_data@.take(self.sym_byte_size as int),
    {
        vstd::slice::slice_subrange(self.stream_data.as_slice(), 0, self.sym_byte_size as usize)
    }

    /// Mutable access to bytes `start..end` of the stream data.
    fn stream_range_mut(&mut self, start: usize, end: usize) -> (r: &mut [u8])
        requires
            start <= end <= old(self).stream_data@.len(),
        ensures
            r@ == old(self).stream_data@.subrange(start as int, end as int),
            final(self).stream_data@ == old(self).stream_data@.take(start as int) + final(r)@ + old(
                self,
            ).stream_data@.skip(end as int),
            final(self).sym_byte_size == old(self).sym_byte_size,
            final(self).c11_byte_size == old(self).c11_byte_size,
            final(self).c13_byte_size == old(self).c13_byte_size,
            final(self).global_refs_size == old(self).global_refs_size,
    {
        let s = self.stream_data.as_mut_slice();
        let (_, rest) = s.split_at_mut(start);
        let (mid, _) = rest.split_at_mut(end - start);
        mid
    }

    /// Returns a mutable reference to the encoded symbol data for this module.
    ///
    /// This _does not_ include the CodeView signature.
    pub fn sym_data_mut(&mut self) -> (r: &mut [u8])
        ensures
            r@ == old(self).sym_data_spec(),
    {
        let end = self.sym_byte_size as usize;
        if MODULE_SYMBOLS_HEADER_LEN <= end && end <= self.stream_data.len() {
            self.stream_range_mut(MODULE_SYMBOLS_HEADER_LEN, end)
        } else {
            let len = self.stream_data.len();
            let r = self.stream_range_mut(len, len);
            assert(r@ =~= Seq::<u8>::empty());
            r
        }
    }

    /// Returns a mutable reference to the encoded symbol data for this module: empty where the
    /// symbols substream runs past the stream.
    ///
    /// This _does_ include the CodeView signature.
    pub fn full_sym_data_mut(&mut self) -> (r: &mut [u8])
        ensures
            old(self).sym_byte_size <= old(self).stream_data@.len() ==> r@ == old(self).stream_data@.take(
                old(self).sym_byte_size as int,
            ),
            old(self).sym_byte_size > old(self).stream_data@.len() ==> r@.len() == 0,
    {
        let end = self.sym_byte_size as usize;
        if end <= self.stream_data.len() {
            self.stream_range_mut(0, end)
        } else {
            let len = self.stream_data.len();
            self.stream_range_mut(len, len)
        }
    }

    /// Replaces the symbol data for this module. `new_sym_data` includes the CodeView signature.
    pub fn replace_sym_data(&mut self, new_sym_data: &[u8])
        requires
            old(self).sym_byte_size <= old(self).stream_data@.len(),
            new_sym_data@.len() <= u32::MAX,
        ensures
            final(self).stream_data@ == new_sym_data@ + old(self).stream_data@.skip(
                old(self).sym_byte_size as int,
            ),
            final(self).sym_byte_size == new_sym_data@.len(),
            final(self).c11_byte_size == old(self).c11_byte_size,
            final(self).c13_byte_size == old(self).c13_byte_size,
            final(self).global_refs_size == old(self).global_refs_size,
    {
        let old_len = self.sym_byte_size as usize;
        if new_sym_data.len() == old_len {
            let ghost before = self.stream_data@;
            let mut i: usize = 0;
            while i < old_len
                invariant
                    i <= old_len,
                    old_len == new_sym_data@.len(),
                    old_len <= before.len(),
                    self.stream_data@.len() == before.len(),
                    before == old(self).stream_data@,
                    old_len == old(self).sym_byte_size,
                    self.sym_byte_size == old(self).sym_byte_size,
                    self.c11_byte_size == old(self).c11_byte_size,
                    self.c13_byte_size == old(self).c13_byte_size,
                    self.global_refs_size == old(self).global_refs_size,
                    forall|j: int| 0 <= j < i ==> self.stream_data@[j] == new_sym_data@[j],
                    forall|j: int| i <= j < before.len() ==> self.stream_data@[j] == before[j],
                decreases old_len - i,
            {
                self.stream_data.set(i, new_sym_data[i]);
                i = i + 1;
            }
            assert(self.stream_data@ =~= new_sym_data@ + before.skip(old_len as int));
        } else {
            replace_range_copy(&mut self.stream_data, 0, old_len, new_sym_data);
            assert(old(self).stream_data@.take(0) + new_sym_data@ =~= new_sym_data@);
            self.sym_byte_size = new_sym_data.len() as u32;
        }
    }

    /// The start and end of the C13 Line Data within this Module Information Stream (both 0 where
    /// there is none).
    pub fn c13_line_data_range(&self) -> (r: (usize, usize))
        requires
            self.wf(),
        ensures
            self.c13_byte_size == 0 ==> r == (0usize, 0usize),
            self.c13_byte_size != 0 ==> r.0 == self.sym_byte_size + self.c11_byte_size && r.1 == r.0
                + self.c13_byte_size,
    {
        if self.c13_byte_size == 0 {
            return (0, 0);
        }
        let _len = self.stream_data.len();
        let start = self.sym_byte_size as usize + self.c11_byte_size as usize;
        (start, start + self.c13_byte_size as usize)
    }

    /// The bytes of the C13 Line Data.
    pub open spec fn c13_bytes_spec(&self) -> Seq<u8> {
        if self.c13_byte_size == 0 {
            Seq::empty()
        } else {
            self.stream_data@.subrange(
                self.sym_byte_size + self.c11_byte_size,
                self.sym_byte_size + self.c11_byte_size + self.c13_byte_size,
            )
        }
    }

    /// Returns the byte data for the C13 line data.
    pub fn c13_line_data_bytes(&self) -> (r: &[u8])
        requires
            self.wf(),
        ensures
            r@ == self.c13_bytes_spec(),
    {
        if self.c13_byte_size == 0 {
            let empty: &[u8] = &[];
            assert(empty@ =~= Seq::<u8>::empty());
            return empty;
        }
        let (start, end) = self.c13_line_data_range();
        vstd::slice::slice_subrange(self.stream_data.as_slice(), start, end)
    }

    /// Returns a mutable reference to the byte data for the C13 Line Data.
    pub fn c13_line_data_bytes_mut(&mut self) -> (r: &mut [u8])
        requires
            old(self).wf(),
        ensures
            r@ == old(self).c13_bytes_spec(),
    {
        if self.c13_byte_size == 0 {
            let len = self.stream_data.len();
            let r = self.stream_range_mut(len, len);
            assert(r@ =~= Seq::<u8>::empty());
            return r;
        }
        let (start, end) = self.c13_line_data_range();
        self.stream_range_mut(start, end)
    }

    /// Returns an object which can decode the C13 Line Data.
    pub fn c13_line_data(&self) -> (r: LineData<'_>)
        requires
            self.wf(),
        ensures
            r@ == self.c13_bytes_spec(),
    {
        LineData::new(self.c13_line_data_bytes())
    }

    /// Returns an object which can decode and modify the C13 Line Data.
    pub fn c13_line_data_mut(&mut self) -> (r: LineDataMut<'_>)
        requires
            old(self).wf(),
        ensures
            r@ == old(self).c13_bytes_spec(),
    {
        LineDataMut::new(self.c13_line_data_bytes_mut())
    }

    /// Removes the Global Refs section, if present.
    pub fn truncate_global_refs(&mut self)
        requires
            old(self).wf(),
        ensures
            old(self).global_refs_size == 0 ==> *final(self) == *old(self),
            old(self).global_refs_size != 0 ==> final(self).stream_data@ == old(self).stream_data@.take(
                old(self).sym_byte_size + old(self).c11_byte_size + old(self).c13_byte_size,
            ) && final(self).global_refs_size == 0 && final(self).sym_byte_size == old(self).sym_byte_size
                && final(self).c11_byte_size == old(self).c11_byte_size && final(self).c13_byte_size
                == old(self).c13_byte_size,
    {
        if self.global_refs_size == 0 {
            return;
        }
        let _len = self.stream_data.len();
        let end = self.sym_byte_size as usize + self.c11_byte_size as usize + self.c13_byte_size as usize;
        self.stream_data.truncate(end);
        self.global_refs_size = 0;
    }
}

} // verus!
