//! Code for the `FILE_CHECKSUMS` subsection.

use vstd::prelude::*;
use crate::utils::iter::IterWithRange;
use crate::le::{decode_u32, encode_u32, le_bytes_u32, le_u32};
use crate::names::NameIndex;
use crate::parser::{Parser, ParserMut};
use crate::text::{dec_chars, push_dec, push_str};
use crate::utils::align::{alignment_bytes_needed_4, padding_to_4};
use crate::utils::iter::HasRestLen;

verus! {

/// The hash algorithm used for the checksum.
#[derive(Copy, Clone, PartialEq, Eq, Structural, PartialOrd, Ord)]
pub struct ChecksumKind(pub u8);

/// No checksum at all
pub const CHECKSUM_NONE: u8 = 0;
/// MD-5 checksum. See `/ZH:MD5` for MSVC.
pub const CHECKSUM_MD5: u8 = 1;
/// SHA-1 checksum. See `/ZH:SHA1` for MSVC
pub const CHECKSUM_SHA_1: u8 = 2;
/// SHA-256 checksum.  See `/ZH:SHA_256` for MSVC.
pub const CHECKSUM_SHA_256: u8 = 3;

/// The name that `Debug` shows for a checksum kind, if it is a known one.
pub open spec fn checksum_kind_name(k: u8) -> Option<&'static str> {
    if k == 0 {
        Some("NONE")
    } else if k == 1 {
        Some("MD5")
    } else if k == 2 {
        Some("SHA_1")
    } else if k == 3 {
        Some("SHA_256")
    } else {
        None
    }
}

impl ChecksumKind {
    /// The text that `Debug` shows: the kind's name, or `??(n)` for an unknown kind.
    pub fn to_debug_string(&self) -> (s: String)
        ensures
            s@ == (match checksum_kind_name(self.0) {
                Some(n) => n@,
                None => "??("@ + dec_chars(self.0 as nat) + ")"@,
            }),
    {
        let mut s = String::new();
        let name: Option<&'static str> = if self.0 == 0 {
            Some("NONE")
        } else if self.0 == 1 {
            Some("MD5")
        } else if self.0 == 2 {
            Some("SHA_1")
        } else if self.0 == 3 {
            Some("SHA_256")
        } else {
            None
        };
        match name {
            Some(n) => {
                push_str(&mut s, n);
                assert(s@ =~= n@);
            },
            None => {
                push_str(&mut s, "??(");
                push_dec(&mut s, self.0 as u64);
                push_str(&mut s, ")");
                assert(s@ =~= "??("@ + dec_chars(self.0 as nat) + ")"@);
            },
        }
        s
    }
}

/// The header at the start of a file checksum record: the file name (an offset into the names
/// stream), the size of the checksum, and the kind of checksum. The checksum bytes follow it.
#[derive(Copy, Clone, PartialEq, Eq, Structural)]
pub struct FileChecksumHeader {
    /// Offset into the global string table (the `/names` stream) of the PDB.
    pub name: u32,
    /// The size in bytes of the checksum.
    pub checksum_size: u8,
    /// The hash algorithm used for the checksum.
    pub checksum_kind: ChecksumKind,
}

/// The size of `FileChecksumHeader` in its encoded form.
pub const FILE_CHECKSUM_HEADER_LEN: usize = 6;

/// Whether `s` begins with a complete file checksum record.
pub open spec fn has_checksum(s: Seq<u8>) -> bool {
    s.len() >= 6 && 6 + s[4] <= s.len()
}

/// The length of the checksum record at the start of `s`, without padding.
pub open spec fn checksum_record_len(s: Seq<u8>) -> int {
    6 + s[4]
}

/// What follows the checksum record at the start of `s`; padding to a multiple of 4 is skipped
/// when it is present.
pub open spec fn checksum_rest(s: Seq<u8>) -> Seq<u8> {
    let rl = checksum_record_len(s);
    if rl + padding_to_4(rl) <= s.len() {
        s.skip(rl + padding_to_4(rl))
    } else {
        s.skip(rl)
    }
}

/// The names of the complete checksum records at the start of `s`, in order.
pub open spec fn checksum_names(s: Seq<u8>) -> Seq<NameIndex>
    decreases s.len(),
{
    if has_checksum(s) {
        seq![NameIndex(le_u32(s) as u32)] + checksum_names(checksum_rest(s))
    } else {
        Seq::empty()
    }
}

/// Points to a single file checksum record.
pub struct FileChecksum<'a> {
    /// The fixed-size header.
    pub header: FileChecksumHeader,
    /// The checksum bytes.
    pub checksum_data: &'a [u8],
}

impl<'a> FileChecksum<'a> {
    /// Gets the `NameIndex` of the file name for this record.
    pub fn name(&self) -> (n: NameIndex)
        ensures
            n.0 == self.header.name,
    {
        NameIndex(self.header.name)
    }
}

/// Whether `c` is the record decoded from the start of `s`.
pub open spec fn is_checksum_of(c: FileChecksum, s: Seq<u8>) -> bool {
    &&& c.header.name == le_u32(s)
    &&& c.header.checksum_size == s[4]
    &&& c.header.checksum_kind.0 == s[5]
    &&& c.checksum_data@ == s.subrange(6, 6 + s[4])
}

/// Points to a single file checksum record, with mutable access.
pub struct FileChecksumMut<'a> {
    /// The encoded header (`FILE_CHECKSUM_HEADER_LEN` bytes).
    pub header: &'a mut [u8],
    /// The checksum bytes.
    pub checksum_data: &'a mut [u8],
}

impl<'a> FileChecksumMut<'a> {
    /// The encoded header, as a spec value.
    pub open spec fn header_bytes(&self) -> Seq<u8> {
        self.header@
    }

    /// The file name offset stored in the header.
    pub fn name(&self) -> (n: u32)
        requires
            self.header_bytes().len() == 6,
        ensures
            n == le_u32(self.header_bytes()),
    {
        decode_u32(self.header)
    }

    /// Replaces the file name offset stored in the header.
    pub fn set_name(&mut self, name: u32)
        requires
            old(self).header@.len() == 6,
        ensures
            final(self).header@ == le_bytes_u32(name) + old(self).header@.skip(4),
            final(self).checksum_data@ == old(self).checksum_data@,
    {
        let b = encode_u32(name);
        self.header[0] = b[0];
        self.header[1] = b[1];
        self.header[2] = b[2];
        self.header[3] = b[3];
        assert(self.header@ =~= le_bytes_u32(name) + old(self).header@.skip(4));
    }
}

/// Iterates FileChecksum values from a byte stream.
pub struct FileChecksumIter<'a> {
    /// The unparsed data
    pub bytes: &'a [u8],
}

impl<'a> View for FileChecksumIter<'a> {
    type V = Seq<u8>;

    open spec fn view(&self) -> Seq<u8> {
        self.bytes@
    }
}

impl<'a> HasRestLen for FileChecksumIter<'a> {
    closed spec fn rest_len_spec(&self) -> nat {
        self.bytes@.len()
    }

    fn rest_len(&self) -> (n: usize) {
        self.bytes.len()
    }
}

impl<'a> FileChecksumIter<'a> {
    /// Starts a new iterator
    pub fn new(bytes: &'a [u8]) -> (it: Self)
        ensures
            it@ == bytes@,
    {
        Self { bytes }
    }

    /// Decodes the next checksum record. When the data does not begin with a complete record,
    /// returns `None` and leaves the iterator unchanged.
    pub fn next(&mut self) -> (r: Option<FileChecksum<'a>>)
        ensures
            r is Some <==> has_checksum(old(self)@),
            r matches Some(c) ==> is_checksum_of(c, old(self)@) && final(self)@ == checksum_rest(
                old(self)@,
            ),
            r is None ==> final(self)@ == old(self)@,
    {
        if self.bytes.len() == 0 {
            return None;
        }
        let mut p = Parser::new(self.bytes);
        let hdr = match p.bytes(FILE_CHECKSUM_HEADER_LEN) {
            Ok(h) => h,
            Err(_) => return None,
        };
        let header = FileChecksumHeader {
            name: decode_u32(hdr),
            checksum_size: hdr[4],
            checksum_kind: ChecksumKind(hdr[5]),
        };
        let checksum_data = match p.bytes(header.checksum_size as usize) {
            Ok(d) => d,
            Err(_) => return None,
        };
        let record_len = 6 + header.checksum_size as usize;
        let _ = p.skip(alignment_bytes_needed_4(record_len));
        self.bytes = p.into_rest();
        proof {
            let s = old(self)@;
            assert(checksum_data@ =~= s.subrange(6, 6 + s[4]));
            assert(s.skip(6).skip(s[4] as int) =~= s.skip(record_len as int));
            if record_len + padding_to_4(record_len as int) <= s.len() {
                assert(s.skip(record_len as int).skip(padding_to_4(record_len as int)) =~= s.skip(
                    record_len + padding_to_4(record_len as int),
                ));
            }
        }
        Some(FileChecksum { header, checksum_data })
    }

    /// The name indexes of all remaining complete records, in order (consumes them).
    pub fn names(&mut self) -> (r: Vec<NameIndex>)
        ensures
            r@ == checksum_names(old(self)@),
    {
        let mut out: Vec<NameIndex> = Vec::new();
        loop
            invariant
                out@ + checksum_names(self@) == checksum_names(old(self)@),
            decreases self@.len(),
        {
            let ghost before = self@;
            match self.next() {
                Some(c) => {
                    out.push(c.name());
                    assert(out@ + checksum_names(self@) =~= checksum_names(old(self)@));
                },
                None => {
                    assert(out@ =~= out@ + checksum_names(self@));
                    return out;
                },
            }
        }
    }
}

impl<'a> FileChecksumIter<'a> {
    /// Augments this iterator with the byte range of each record.
    pub fn with_ranges(self) -> (r: IterWithRange<Self>)
        ensures
            r.inner_spec() == self,
            r.original_len_spec() == self@.len(),
    {
        IterWithRange::new(self)
    }
}

/// What follows a record is no longer than the record and what follows it.
pub proof fn lemma_checksum_rest_shorter(s: Seq<u8>)
    requires
        has_checksum(s),
    ensures
        checksum_rest(s).len() < s.len(),
{
}

impl<'a> IterWithRange<FileChecksumIter<'a>> {
    /// Decodes the next checksum record, with its byte range within the original data.
    pub fn next(&mut self) -> (r: Option<(core::ops::Range<usize>, FileChecksum<'a>)>)
        requires
            old(self).inner_spec()@.len() <= old(self).original_len_spec(),
        ensures
            final(self).original_len_spec() == old(self).original_len_spec(),
            final(self).inner_spec()@.len() <= final(self).original_len_spec(),
            r is Some <==> has_checksum(old(self).inner_spec()@),
            r matches Some((range, c)) ==> {
                &&& range.start == old(self).original_len_spec() - old(self).inner_spec()@.len()
                &&& range.end == final(self).original_len_spec() - final(self).inner_spec()@.len()
                &&& is_checksum_of(c, old(self).inner_spec()@)
                &&& final(self).inner_spec()@ == checksum_rest(old(self).inner_spec()@)
            },
            r is None ==> final(self).inner_spec()@ == old(self).inner_spec()@,
    {
        let before = self.pos();
        let item = match self.inner_mut().next() {
            Some(c) => c,
            None => {
                return None;
            },
        };
        proof {
            lemma_checksum_rest_shorter(old(self).inner_spec()@);
        }
        let after = self.pos();
        Some((before..after, item))
    }
}

/// Iterator state. Iterates `FileChecksumMut` values.
pub struct FileChecksumMutIter<'a> {
    /// The unparsed data
    pub bytes: &'a mut [u8],
}

impl<'a> View for FileChecksumMutIter<'a> {
    type V = Seq<u8>;

    open spec fn view(&self) -> Seq<u8> {
        self.bytes@
    }
}

impl<'a> HasRestLen for FileChecksumMutIter<'a> {
    closed spec fn rest_len_spec(&self) -> nat {
        self.bytes@.len()
    }

    fn rest_len(&self) -> (n: usize) {
        self.bytes.len()
    }
}

impl<'a> FileChecksumMutIter<'a> {
    /// Starts a new iterator. Writes through the records that it hands out reach `bytes`.
    pub fn new(bytes: &'a mut [u8]) -> (it: Self)
        ensures
            it@ == old(bytes)@,
            final(bytes)@ == final(it.bytes)@,
    {
        Self { bytes }
    }

    /// Decodes the next checksum record, with mutable access. When the data does not begin with
    /// a complete record, returns `None` and the iterator gives up the rest of the data.
    pub fn next(&mut self) -> (r: Option<FileChecksumMut<'a>>)
        ensures
            r is Some <==> has_checksum(old(self)@),
            r matches Some(c) ==> c.header@ == old(self)@.take(6) && c.checksum_data@
                == old(self)@.subrange(6, 6 + old(self)@[4]) && final(self)@ == checksum_rest(
                old(self)@,
            ),
            r is None ==> final(self)@.len() == 0,
            r matches Some(c) ==> final(old(self).bytes)@ == final(c.header)@ + final(c.checksum_data)@
                + old(self)@.subrange(
                6 + old(self)@[4],
                old(self)@.len() - checksum_rest(old(self)@).len(),
            ) + final(final(self).bytes)@,
            r is None ==> final(old(self).bytes)@ == old(self)@,
    {
        let mut tmp: &'a mut [u8] = &mut [];
        core::mem::swap(&mut tmp, &mut self.bytes);
        if tmp.len() == 0 {
            return None;
        }
        let mut p = ParserMut::new(tmp);
        let header = match p.bytes_mut(FILE_CHECKSUM_HEADER_LEN) {
            Ok(h) => h,
            Err(_) => return None,
        };
        let checksum_size = header[4];
        let checksum_data = match p.bytes_mut(checksum_size as usize) {
            Ok(d) => d,
            Err(_) => return None,
        };
        let record_len = 6 + checksum_size as usize;
        let _ = p.skip(alignment_bytes_needed_4(record_len));
        self.bytes = p.into_rest();
        proof {
            let s = old(self)@;
            assert(checksum_data@ =~= s.subrange(6, 6 + s[4]));
            assert(s.skip(6).skip(s[4] as int) =~= s.skip(record_len as int));
            if record_len + padding_to_4(record_len as int) <= s.len() {
                assert(s.skip(record_len as int).skip(padding_to_4(record_len as int)) =~= s.skip(
                    record_len + padding_to_4(record_len as int),
                ));
            }
        }
        Some(FileChecksumMut { header, checksum_data })
    }
}

/// Why a file checksum record could not be found.
#[derive(Copy, Clone, Debug, PartialEq, Eq, Structural)]
pub enum FileChecksumError {
    /// The file index is beyond the end of the subsection.
    IndexOutOfRange,
    /// No complete record begins at the file index.
    DecodeFailed,
}

impl FileChecksumError {
    /// The text that describes this error.
    pub fn to_string(&self) -> (s: &'static str)
        ensures
            self matches FileChecksumError::IndexOutOfRange ==> s@
                == "file index is out of range of file checksums subsection"@,
            self matches FileChecksumError::DecodeFailed ==> s@
                == "failed to decode FileChecksum record"@,
    {
        match self {
            FileChecksumError::IndexOutOfRange => "file index is out of range of file checksums subsection",
            FileChecksumError::DecodeFailed => "failed to decode FileChecksum record",
        }
    }
}

/// The File Checksums Subsection: records for the source files referenced by Line Data.
pub struct FileChecksumsSubsection<'a> {
    /// The subsection payload.
    pub bytes: &'a [u8],
}

impl<'a> View for FileChecksumsSubsection<'a> {
    type V = Seq<u8>;

    open spec fn view(&self) -> Seq<u8> {
        self.bytes@
    }
}

impl<'a> FileChecksumsSubsection<'a> {
    /// Wraps the payload of a checksums subsection.
    pub fn new(bytes: &'a [u8]) -> (r: Self)
        ensures
            r@ == bytes@,
    {
        Self { bytes }
    }

    /// Iterates the `FileChecksum` records within this subsection.
    pub fn iter(&self) -> (it: FileChecksumIter<'a>)
        ensures
            it@ == self@,
    {
        FileChecksumIter { bytes: self.bytes }
    }

    /// Given a file index, which is a byte offset into the subsection, gets the record there.
    pub fn get_file(&self, file_index: u32) -> (r: Result<FileChecksum<'a>, FileChecksumError>)
        ensures
            file_index > self@.len() ==> r == Err::<FileChecksum<'a>, _>(
                FileChecksumError::IndexOutOfRange,
            ),
            file_index <= self@.len() && !has_checksum(self@.skip(file_index as int)) ==> r
                == Err::<FileChecksum<'a>, _>(FileChecksumError::DecodeFailed),
            file_index <= self@.len() && has_checksum(self@.skip(file_index as int)) ==> (r matches Ok(
                c,
            ) && is_checksum_of(c, self@.skip(file_index as int))),
    {
        if file_index as usize > self.bytes.len() {
            return Err(FileChecksumError::IndexOutOfRange);
        }
        let b = vstd::slice::slice_subrange(self.bytes, file_index as usize, self.bytes.len());
        let mut it = FileChecksumIter::new(b);
        match it.next() {
            Some(c) => Ok(c),
            None => Err(FileChecksumError::DecodeFailed),
        }
    }
}

/// Like `FileChecksumsSubsection`, but with mutable access
pub struct FileChecksumsSubsectionMut<'a> {
    /// The subsection payload.
    pub bytes: &'a mut [u8],
}

impl<'a> View for FileChecksumsSubsectionMut<'a> {
    type V = Seq<u8>;

    open spec fn view(&self) -> Seq<u8> {
        self.bytes@
    }
}

impl<'a> HasRestLen for FileChecksumsSubsectionMut<'a> {
    closed spec fn rest_len_spec(&self) -> nat {
        self.bytes@.len()
    }

    fn rest_len(&self) -> (n: usize) {
        self.bytes.len()
    }
}

impl<'a> FileChecksumsSubsectionMut<'a> {
    /// Wraps the payload of a checksums subsection, with mutable access. Writes through the
    /// records that it hands out reach `bytes`.
    pub fn new(bytes: &'a mut [u8]) -> (r: Self)
        ensures
            r@ == old(bytes)@,
            final(bytes)@ == final(r.bytes)@,
    {
        Self { bytes }
    }

    /// Iterates the `FileChecksumMut` records within this subsection.
    pub fn iter_mut(&mut self) -> (it: FileChecksumMutIter<'_>)
        ensures
            it@ == old(self)@,
            final(self)@ == final(it.bytes)@,
    {
        FileChecksumMutIter { bytes: &mut *self.bytes }
    }

    /// Given a file index, which is a byte offset into the subsection, gets the record there,
    /// with mutable access.
    pub fn get_file_mut(&mut self, file_index: u32) -> (r: Result<FileChecksumMut<'_>, FileChecksumError>)
        ensures
            file_index > old(self)@.len() ==> r is Err && r->Err_0
                == FileChecksumError::IndexOutOfRange,
            file_index <= old(self)@.len() && !has_checksum(old(self)@.skip(file_index as int))
                ==> r is Err && r->Err_0 == FileChecksumError::DecodeFailed,
            file_index <= old(self)@.len() && has_checksum(old(self)@.skip(file_index as int))
                ==> (r matches Ok(c) && c.header@ == old(self)@.skip(file_index as int).take(6)),
            r matches Ok(c) ==> final(self)@ == old(self)@.take(file_index as int) + final(c.header)@
                + final(c.checksum_data)@ + old(self)@.skip(
                file_index + 6 + old(self)@[file_index + 4],
            ),
            r is Err ==> final(self)@ == old(self)@,
    {
        if file_index as usize > self.bytes.len() {
            return Err(FileChecksumError::IndexOutOfRange);
        }
        let (_, hi) = self.bytes.split_at_mut(file_index as usize);
        let mut it = FileChecksumMutIter::new(hi);
        match it.next() {
            Some(c) => Ok(c),
            None => Err(FileChecksumError::DecodeFailed),
        }
    }
}

} // verus!
