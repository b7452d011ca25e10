//! DBI Modules Substream

use vstd::prelude::*;
use crate::dbi::sources::{lemma_strz_at_found, strz_at};
use crate::dbi::{decodes_section_contrib, SectionContribEntry};
use crate::le::{le_u16, le_u32, read_u16_at, read_u32_at};
use crate::parser::{nul_terminated_len, Parser, ParserMut};
use crate::sort_utils::{
    concat_records, identity_permutation_u32, invert_permutation_u32, is_inverse_permutation,
    is_permutation, lemma_concat_len, lemma_lens_sum_permutation, lemma_lex_le_antisym,
    lemma_lex_le_trans, lemma_permutation_onto, lex_le, range_at, ranges_sorted,
    reorder_records_inplace, sort_ranges, valid_starts,
};
use crate::lines::check::bytes_equal;
use crate::diag::{kept_messages, messages_view, records_messages, Diags};
use crate::text::{dec_chars, push_dec, push_str};
use crate::stream_index::StreamIndexU16;

verus! {

/// The size in bytes of the fixed-size header of a Module Info record.
pub const MODULE_INFO_FIXED_SIZE: usize = 64;

/// The header of a Module Info record. Module Info records are stored in the DBI stream.
#[derive(Clone, Copy, Debug)]
pub struct ModuleInfoFixed {
    /// This appears to be a module index field, but it is not always set. Set this to 0.
    pub unused1: u32,
    /// This module's first section contribution.
    pub section_contrib: SectionContribEntry,
    /// Various flags.
    ///
    /// * bit 0: set to 1 if this module has been written since DBI opened
    /// * bit 1: set to 1 if this module has EC symbolic information
    /// * bits 2-7: not used
    /// * bits 8-15: index into TSM list for this mods server
    pub flags: u16,
    /// Stream index of the Module Stream for this module, which contains the symbols and line
    /// data for this module. If this is 0xffff, then this module does not have a module stream.
    pub stream: StreamIndexU16,
    /// The size of the symbols substream within the Module Stream.
    pub sym_byte_size: u32,
    /// The length of the C11 Line Data in a Module Information Stream. C11 Line Data is not
    /// supported, so this value should always be zero.
    pub c11_byte_size: u32,
    /// The length of the C13 Line Data in a Module Information Stream.
    pub c13_byte_size: u32,
    /// Number of files contributing to this module.
    pub source_file_count: u16,
    /// Alignment padding.
    pub padding: [u8; 2],
    /// Do not read. Set to 0 when encoding.
    pub unused2: u32,
    /// Unknown; possible that this relates to Edit-and-Continue.
    pub source_file_name_index: u32,
    /// Unknown; possible that this relates to Edit-and-Continue.
    pub pdb_file_path_name_index: u32,
}

/// `h` is the header that the first 64 bytes of `s` encode.
pub open spec fn decodes_module_info_fixed(h: ModuleInfoFixed, s: Seq<u8>) -> bool {
    &&& h.unused1 == le_u32(s)
    &&& decodes_section_contrib(h.section_contrib, s.skip(4))
    &&& h.flags == le_u16(s.skip(32))
    &&& h.stream.0 == le_u16(s.skip(34))
    &&& h.sym_byte_size == le_u32(s.skip(36))
    &&& h.c11_byte_size == le_u32(s.skip(40))
    &&& h.c13_byte_size == le_u32(s.skip(44))
    &&& h.source_file_count == le_u16(s.skip(48))
    &&& h.padding@ == s.subrange(50, 52)
    &&& h.unused2 == le_u32(s.skip(52))
    &&& h.source_file_name_index == le_u32(s.skip(56))
    &&& h.pdb_file_path_name_index == le_u32(s.skip(60))
}

impl ModuleInfoFixed {
    /// Decodes the header that starts at `off` within `b`.
    pub fn decode_at(b: &[u8], off: usize) -> (h: Self)
        requires
            off + MODULE_INFO_FIXED_SIZE <= b@.len(),
        ensures
            decodes_module_info_fixed(h, b@.skip(off as int)),
    {
        let _len = b.len();
        let h = ModuleInfoFixed {
            unused1: read_u32_at(b, off),
            section_contrib: SectionContribEntry::decode_at(b, off + 4),
            flags: read_u16_at(b, off + 32),
            stream: StreamIndexU16(read_u16_at(b, off + 34)),
            sym_byte_size: read_u32_at(b, off + 36),
            c11_byte_size: read_u32_at(b, off + 40),
            c13_byte_size: read_u32_at(b, off + 44),
            source_file_count: read_u16_at(b, off + 48),
            padding: [b[off + 50], b[off + 51]],
            unused2: read_u32_at(b, off + 52),
            source_file_name_index: read_u32_at(b, off + 56),
            pdb_file_path_name_index: read_u32_at(b, off + 60),
        };
        proof {
            let s = b@.skip(off as int);
            assert(h.padding@ =~= s.subrange(50, 52));
            assert(b@.skip(off + 4) =~= s.skip(4));
            assert(b@.skip(off + 32) =~= s.skip(32));
            assert(b@.skip(off + 34) =~= s.skip(34));
            assert(b@.skip(off + 36) =~= s.skip(36));
            assert(b@.skip(off + 40) =~= s.skip(40));
            assert(b@.skip(off + 44) =~= s.skip(44));
            assert(b@.skip(off + 48) =~= s.skip(48));
            assert(b@.skip(off + 52) =~= s.skip(52));
            assert(b@.skip(off + 56) =~= s.skip(56));
            assert(b@.skip(off + 60) =~= s.skip(60));
        }
        h
    }

    /// Gets the stream for this module, if any. This stream contains the symbol data and C13
    /// Line Data for the module.
    pub fn stream(&self) -> (r: Option<u32>)
        ensures
            r is None <==> self.stream.0 == 0xffff,
            r matches Some(s) ==> s == self.stream.0,
    {
        self.stream.get()
    }
}

/// The module name, the object file name and the length (alignment padding included) of the
/// Module Info record at the start of `s`, if one can be read there.
///
/// A record is the 64-byte header, the NUL-terminated module name, the NUL-terminated object
/// file name, and as many padding bytes as bring its length to a multiple of 4.
pub open spec fn module_record(s: Seq<u8>) -> Option<(Seq<u8>, Seq<u8>, int)> {
    match strz_at(s, 64) {
        None => None,
        Some(name) => match strz_at(s, 64 + name.len() as int + 1) {
            None => None,
            Some(obj) => {
                let used = 64 + name.len() + obj.len() + 2;
                let total = used + (4 - used % 4) % 4;
                if total <= s.len() {
                    Some((name, obj, total))
                } else {
                    None
                }
            },
        },
    }
}

/// Holds or refers to the data of a substream within a Module Info record.
#[derive(Clone)]
pub struct ModInfoSubstream<'a> {
    /// The substream data.
    pub substream_data: &'a [u8],
}

impl<'a> ModInfoSubstream<'a> {
    /// Iterates the Module Info records contained within the DBI Stream.
    pub fn iter(&self) -> (it: IterModuleInfo<'a>)
        ensures
            it@ == self.substream_data@,
    {
        IterModuleInfo { rest: self.substream_data }
    }
}

/// An in-memory representation of a Module Info record.
///
/// The `IterModuleInfo` iterator produces these items.
pub struct ModuleInfo<'a> {
    /// The decoded header of the record.
    pub header: ModuleInfoFixed,
    /// The module name.
    pub module_name: &'a [u8],
    /// The object file name.
    pub obj_file: &'a [u8],
}

/// A mutable view of a Module Info record: the bytes of its header can be rewritten.
pub struct ModuleInfoMut<'a> {
    /// The 64 bytes of the encoded header.
    pub header: &'a mut [u8],
    /// The module name.
    pub module_name: &'a [u8],
    /// The object file name.
    pub obj_file: &'a [u8],
}

impl<'a> ModuleInfo<'a> {
    /// The name of the module.
    ///
    /// * For simple object files, this is the same as `file_name()`.
    /// * For DLL import libraries, this is the name of the DLL, e.g. `KernelBase.dll`.
    /// * For static libraries, this is the name (and possibly path) of the object file within
    ///   the static library, not the static library itself.
    pub fn module_name(&self) -> (r: &'a [u8])
        ensures
            r@ == self.module_name@,
    {
        self.module_name
    }

    /// The file name of this module.
    ///
    /// * For individual `*.obj` files that are passed directly to the linker (not in a static
    ///   library), this is the filename.
    /// * For static libraries, this is the `*.lib` file, not the modules within it.
    /// * For DLL import libraries, this is the import library, e.g. `KernelBase.lib`.
    pub fn obj_file(&self) -> (r: &'a [u8])
        ensures
            r@ == self.obj_file@,
    {
        self.obj_file
    }

    /// The header of this Module Info record.
    pub fn header(&self) -> (r: &ModuleInfoFixed)
        ensures
            *r == self.header,
    {
        &self.header
    }

    /// The stream index of the stream which contains the symbols defined by this module.
    ///
    /// Some modules do not have a symbol stream. In that case, this function will return `None`.
    pub fn stream(&self) -> (r: Option<u32>)
        ensures
            r is None <==> self.header.stream.0 == 0xffff,
            r matches Some(s) ==> s == self.header.stream.0,
    {
        self.header.stream()
    }

    /// Gets the size in bytes of the C11 Line Data.
    pub fn c11_size(&self) -> (r: u32)
        ensures
            r == self.header.c11_byte_size,
    {
        self.header.c11_byte_size
    }

    /// Gets the size in bytes of the C13 Line Data.
    pub fn c13_size(&self) -> (r: u32)
        ensures
            r == self.header.c13_byte_size,
    {
        self.header.c13_byte_size
    }

    /// Gets the size in bytes of the symbol stream for this module. This value includes the size
    /// of the 4-byte symbol stream header.
    pub fn sym_size(&self) -> (r: u32)
        ensures
            r == self.header.sym_byte_size,
    {
        self.header.sym_byte_size
    }
}

/// The number of padding bytes that follow a record of `used` bytes.
fn align_padding(used: usize) -> (r: usize)
    ensures
        r == (4 - used % 4) % 4,
{
    (4 - used % 4) % 4
}

/// Reads the Module Info record at the start of `rest`, and gives its length.
fn read_module_record<'a>(rest: &'a [u8]) -> (r: Option<(ModuleInfo<'a>, usize)>)
    ensures
        r is Some <==> module_record(rest@) is Some,
        r matches Some((m, n)) ==> module_record(rest@) == Some((m.module_name@, m.obj_file@, n as int))
            && decodes_module_info_fixed(m.header, rest@),
{
    if rest.len() < MODULE_INFO_FIXED_SIZE {
        return None;
    }
    let header = ModuleInfoFixed::decode_at(rest, 0);
    let tail = vstd::slice::slice_subrange(rest, MODULE_INFO_FIXED_SIZE, rest.len());
    let mut p = Parser::new(tail);
    let module_name = match p.strz() {
        Ok(s) => s,
        Err(_) => return None,
    };
    proof {
        assert(tail@ =~= rest@.skip(64));
        lemma_strz_at_found(rest@, 64, module_name@.len() as int);
    }
    let ghost after_name = p@;
    let obj_file = match p.strz() {
        Ok(s) => s,
        Err(_) => {
            proof {
                assert(after_name =~= rest@.skip(64 + module_name@.len() as int + 1));
            }
            return None;
        },
    };
    proof {
        assert(after_name =~= rest@.skip(64 + module_name@.len() as int + 1));
        lemma_strz_at_found(rest@, 64 + module_name@.len() as int + 1, obj_file@.len() as int);
    }
    let used = rest.len() - p.len();
    let alignment = align_padding(used);
    if p.len() < alignment {
        return None;
    }
    assert(rest@.skip(0) =~= rest@);
    Some((ModuleInfo { header, module_name, obj_file }, used + alignment))
}

/// Iterates module info records.
pub struct IterModuleInfo<'a> {
    rest: &'a [u8],
}

impl<'a> View for IterModuleInfo<'a> {
    type V = Seq<u8>;

    /// The data that has not yet been parsed.
    closed spec fn view(&self) -> Seq<u8> {
        self.rest@
    }
}

impl<'a> IterModuleInfo<'a> {
    /// Starts iterating the records in `data`.
    pub fn new(data: &'a [u8]) -> (it: Self)
        ensures
            it@ == data@,
    {
        Self { rest: data }
    }

    /// Returns the data in the iterator that has not yet been parsed.
    pub fn rest(&self) -> (r: &'a [u8])
        ensures
            r@ == self@,
    {
        self.rest
    }

    /// The number of bytes that have not yet been parsed.
    pub fn rest_len(&self) -> (n: usize)
        ensures
            n == self@.len(),
    {
        self.rest.len()
    }

    /// Reads the next record. At the end of the data, or where no record can be read, returns
    /// `None` and stays where it is.
    pub fn next(&mut self) -> (r: Option<ModuleInfo<'a>>)
        ensures
            old(self)@.len() == 0 ==> r is None && final(self)@ == old(self)@,
            old(self)@.len() > 0 ==> match module_record(old(self)@) {
                None => r is None && final(self)@ == old(self)@,
                Some((name, obj, n)) => r matches Some(m) && m.module_name@ == name
                    && m.obj_file@ == obj && decodes_module_info_fixed(m.header, old(self)@)
                    && final(self)@ == old(self)@.skip(n),
            },
    {
        if self.rest.len() == 0 {
            return None;
        }
        match read_module_record(self.rest) {
            Some((m, n)) => {
                self.rest = vstd::slice::slice_subrange(self.rest, n, self.rest.len());
                Some(m)
            },
            None => None,
        }
    }
}

/// Iterates module info records, with mutable access to their headers.
pub struct IterModuleInfoMut<'a> {
    rest: &'a mut [u8],
}

impl<'a> View for IterModuleInfoMut<'a> {
    type V = Seq<u8>;

    /// The data that has not yet been parsed.
    closed spec fn view(&self) -> Seq<u8> {
        self.rest@
    }
}

impl<'a> IterModuleInfoMut<'a> {
    /// Starts iterating the records in `data`.
    pub fn new(data: &'a mut [u8]) -> (it: Self)
        ensures
            it@ == old(data)@,
    {
        Self { rest: data }
    }

    /// Reads the next record. At the end of the data, or where no record can be read, returns
    /// `None`; in the latter case the rest of the data is given up.
    pub fn next(&mut self) -> (r: Option<ModuleInfoMut<'a>>)
        ensures
            old(self)@.len() == 0 ==> r is None && final(self)@.len() == 0,
            old(self)@.len() > 0 ==> match module_record(old(self)@) {
                None => r is None && final(self)@.len() == 0,
                Some((name, obj, n)) => r matches Some(m) && m.header@ == old(self)@.take(64)
                    && m.module_name@ == name && m.obj_file@ == obj && final(self)@ == old(
                    self,
                )@.skip(n),
            },
    {
        if self.rest.len() == 0 {
            return None;
        }
        let mut taken: &'a mut [u8] = &mut [];
        core::mem::swap(&mut taken, &mut self.rest);
        let ghost data = taken@;
        let found = read_module_record(&*taken);
        if found.is_none() {
            return None;
        }
        let data_len = taken.len();
        let mut p = ParserMut::new(taken);
        let header = match p.bytes_mut(MODULE_INFO_FIXED_SIZE) {
            Ok(h) => h,
            Err(_) => return None,
        };
        proof {
            let name = strz_at(data, 64).unwrap();
            assert(crate::parser::nul_terminated_len(data.skip(64), name.len() as int));
        }
        let module_name = match p.strz() {
            Ok(s) => s,
            Err(_) => return None,
        };
        proof {
            lemma_strz_at_found(data, 64, module_name@.len() as int);
            let obj = strz_at(data, 64 + module_name@.len() as int + 1).unwrap();
            assert(p@ =~= data.skip(64 + module_name@.len() as int + 1));
            assert(crate::parser::nul_terminated_len(p@, obj.len() as int));
        }
        let ghost after_name = p@;
        let obj_file = match p.strz() {
            Ok(s) => s,
            Err(_) => return None,
        };
        proof {
            lemma_strz_at_found(data, 64 + module_name@.len() as int + 1, obj_file@.len() as int);
        }
        let used = data_len - p.len();
        let alignment = align_padding(used);
        match p.skip(alignment) {
            Ok(_) => {},
            Err(_) => return None,
        }
        proof {
            assert(p@ =~= data.skip(used + alignment));
        }
        self.rest = p.into_rest();
        Some(ModuleInfoMut { header, module_name: &*module_name, obj_file: &*obj_file })
    }
}

/// The offsets of the Module Info records in `s` from `pos` on: records are read one after
/// another until the data ends or a record cannot be read.
pub open spec fn record_offsets_from(s: Seq<u8>, pos: int) -> Seq<int>
    decreases s.len() - pos,
{
    if pos < 0 || pos >= s.len() {
        Seq::empty()
    } else {
        match module_record(s.skip(pos)) {
            None => Seq::empty(),
            Some((_, _, n)) => if n > 0 {
                seq![pos].add(record_offsets_from(s, pos + n))
            } else {
                Seq::empty()
            },
        }
    }
}

/// The offsets of the Module Info records that can be read from `s`.
pub open spec fn module_record_offsets(s: Seq<u8>) -> Seq<int> {
    record_offsets_from(s, 0)
}

/// The sort key of the record at `off`: its module name, a NUL, and its object file name.
///
/// Since neither name holds a NUL, ordering these keys lexicographically orders the records by
/// module name first and by object file name second, and two keys are equal exactly when both
/// names are.
pub open spec fn module_key(s: Seq<u8>, off: int) -> Seq<u8> {
    match module_record(s.skip(off)) {
        Some((name, obj, _)) => name + seq![0u8] + obj,
        None => Seq::empty(),
    }
}

/// The module index stored in the first section contribution of the record at `off`.
pub open spec fn record_module_index(s: Seq<u8>, off: int) -> int {
    le_u16(s.skip(off + 20))
}

/// The module index of record `i` agrees with its position, or is 0xffff (no contribution).
pub open spec fn module_index_consistent(s: Seq<u8>, i: int) -> bool {
    let mi = record_module_index(s, module_record_offsets(s)[i]);
    mi == 0xffff || mi == i
}

/// Two records have the same module name and object file name.
pub open spec fn has_duplicate_modules(s: Seq<u8>) -> bool {
    let offs = module_record_offsets(s);
    exists|i: int, j: int|
        0 <= i < j < offs.len() && #[trigger] module_key(s, offs[i]) == #[trigger] module_key(s, offs[j])
}

/// The record boundaries of `s`: the offset of each record, then the length of `s`.
pub open spec fn record_starts(s: Seq<u8>) -> Seq<u32> {
    module_record_offsets(s).map_values(|o: int| o as u32).push(s.len() as u32)
}

/// `b` with the header of the record at `o`, which is the `i`-th record, rewritten: `unused1`,
/// `padding` and `unused2` are zeroed, and the module index of the first section contribution
/// becomes `i` (as a 16-bit value) unless it is 0xffff.
pub open spec fn patch_record(b: Seq<u8>, o: int, i: int) -> Seq<u8> {
    let z = b.update(o, 0).update(o + 1, 0).update(o + 2, 0).update(o + 3, 0).update(o + 50, 0).update(
        o + 51,
        0,
    ).update(o + 52, 0).update(o + 53, 0).update(o + 54, 0).update(o + 55, 0);
    if le_u16(b.skip(o + 20)) == 0xffff {
        z
    } else {
        z.update(o + 20, (i % 0x10000 % 0x100) as u8).update(o + 21, (i % 0x10000 / 0x100) as u8)
    }
}

/// `b` with the headers of its first `k` records rewritten by `patch_record`.
pub open spec fn patch_records_upto(b: Seq<u8>, offs: Seq<int>, k: int) -> Seq<u8>
    decreases k,
{
    if k <= 0 {
        b
    } else {
        patch_record(patch_records_upto(b, offs, k - 1), offs[k - 1], k - 1)
    }
}

/// `b` with the headers of all of its records rewritten by `patch_record`.
pub open spec fn patch_records(b: Seq<u8>) -> Seq<u8> {
    let offs = module_record_offsets(b);
    patch_records_upto(b, offs, offs.len() as int)
}

/// The key range `i` covers the sort key of the record at `offs[i]`.
pub open spec fn key_range_ok(b: Seq<u8>, lo: Seq<u32>, hi: Seq<u32>, offs: Seq<u32>, i: int) -> bool {
    &&& lo[i] <= hi[i] <= b.len()
    &&& range_at(b, lo, hi, i) == module_key(b, offs[i] as int)
}

/// The records of a substream, as `scan_records` finds them.
struct RecordScan {
    /// The offset of each record.
    offsets: Vec<u32>,
    /// Where the sort key of each record begins.
    key_lo: Vec<u32>,
    /// Where the sort key of each record ends.
    key_hi: Vec<u32>,
}

/// Finds the Module Info records of `b`, and the sort key of each.
fn scan_records(b: &[u8]) -> (r: RecordScan)
    requires
        b@.len() <= u32::MAX,
    ensures
        r.offsets@.map_values(|o: u32| o as int) == module_record_offsets(b@),
        r.offsets@.len() * 64 <= b@.len(),
        forall|i: int, j: int| 0 <= i < j < r.offsets@.len() ==> r.offsets@[i] < r.offsets@[j],
        forall|i: int| 0 <= i < r.offsets@.len() ==> r.offsets@[i] + 64 <= b@.len(),
        r.key_lo@.len() == r.offsets@.len(),
        r.key_hi@.len() == r.offsets@.len(),
        forall|i: int|
            0 <= i < r.offsets@.len() ==> #[trigger] key_range_ok(b@, r.key_lo@, r.key_hi@, r.offsets@, i),
{
    let len = b.len();
    let mut offsets: Vec<u32> = Vec::new();
    let mut key_lo: Vec<u32> = Vec::new();
    let mut key_hi: Vec<u32> = Vec::new();
    let mut pos: usize = 0;
    loop
        invariant_except_break
            pos <= len,
            len == b@.len(),
            len <= u32::MAX,
            offsets@.map_values(|o: u32| o as int) + record_offsets_from(b@, pos as int)
                == module_record_offsets(b@),
            offsets@.len() * 64 <= pos,
            forall|i: int, j: int| 0 <= i < j < offsets@.len() ==> offsets@[i] < offsets@[j],
            forall|i: int| 0 <= i < offsets@.len() ==> offsets@[i] < pos,
            forall|i: int| 0 <= i < offsets@.len() ==> offsets@[i] + 64 <= len,
            key_lo@.len() == offsets@.len(),
            key_hi@.len() == offsets@.len(),
            forall|i: int|
                0 <= i < offsets@.len() ==> #[trigger] key_range_ok(b@, key_lo@, key_hi@, offsets@, i),
        ensures
            offsets@.map_values(|o: u32| o as int) == module_record_offsets(b@),
            offsets@.len() * 64 <= len,
            forall|i: int, j: int| 0 <= i < j < offsets@.len() ==> offsets@[i] < offsets@[j],
            forall|i: int| 0 <= i < offsets@.len() ==> offsets@[i] + 64 <= len,
            key_lo@.len() == offsets@.len(),
            key_hi@.len() == offsets@.len(),
            forall|i: int|
                0 <= i < offsets@.len() ==> #[trigger] key_range_ok(b@, key_lo@, key_hi@, offsets@, i),
        decreases len - pos,
    {
        if pos >= len {
            proof {
                assert(offsets@.map_values(|o: u32| o as int) + record_offsets_from(b@, pos as int)
                    =~= offsets@.map_values(|o: u32| o as int));
            }
            break;
        }
        let rest = vstd::slice::slice_subrange(b, pos, len);
        assert(rest@ =~= b@.skip(pos as int));
        match read_module_record(rest) {
            None => {
                proof {
                    assert(offsets@.map_values(|o: u32| o as int) + record_offsets_from(b@, pos as int)
                        =~= offsets@.map_values(|o: u32| o as int));
                }
                break;
            },
            Some((m, n)) => {
                let ghost old_offs = offsets@;
                let ghost old_lo = key_lo@;
                let ghost old_hi = key_hi@;
                let lo = pos + MODULE_INFO_FIXED_SIZE;
                let hi = lo + m.module_name.len() + 1 + m.obj_file.len();
                proof {
                    let name = m.module_name@;
                    let obj = m.obj_file@;
                    let t = b@.skip(pos as int);
                    lemma_module_record_parts(t);
                    assert(b@.subrange(lo as int, hi as int) =~= name + seq![0u8] + obj) by {
                        assert forall|k: int| 0 <= k < name.len() implies b@[lo + k] == name[k] by {
                            assert(t.skip(64)[k] == b@[lo + k]);
                        }
                        assert(t.skip(64)[name.len() as int] == b@[lo + name.len()]);
                        assert forall|k: int| 0 <= k < obj.len() implies b@[lo + name.len() + 1 + k] == obj[k] by {
                            assert(t.skip(64 + name.len() as int + 1)[k] == b@[lo + name.len() + 1 + k]);
                        }
                    }
                }
                offsets.push(pos as u32);
                key_lo.push(lo as u32);
                key_hi.push(hi as u32);
                proof {
                    assert(offsets@.map_values(|o: u32| o as int) =~= old_offs.map_values(|o: u32| o as int).push(
                        pos as int,
                    ));
                    assert(record_offsets_from(b@, pos as int) == seq![pos as int].add(
                        record_offsets_from(b@, pos + n),
                    ));
                    assert(offsets@.map_values(|o: u32| o as int) + record_offsets_from(b@, pos + n)
                        =~= old_offs.map_values(|o: u32| o as int) + record_offsets_from(b@, pos as int));
                    assert forall|i: int| 0 <= i < offsets@.len() implies #[trigger] key_range_ok(
                        b@,
                        key_lo@,
                        key_hi@,
                        offsets@,
                        i,
                    ) by {
                        if i < old_offs.len() {
                            assert(key_range_ok(b@, old_lo, old_hi, old_offs, i));
                        }
                    }
                }
                pos = pos + n;
            },
        }
    }
    RecordScan { offsets, key_lo, key_hi }
}

/// What `module_record` finds: the names lie after the header, each followed by a NUL, and the
/// record is at least 66 bytes long.
proof fn lemma_module_record_parts(t: Seq<u8>)
    requires
        module_record(t) is Some,
    ensures
        ({
            let (name, obj, n) = module_record(t).unwrap();
            &&& 66 <= 64 + name.len() + obj.len() + 2 <= n <= t.len()
            &&& t.skip(64).take(name.len() as int) == name
            &&& t.skip(64)[name.len() as int] == 0
            &&& t.skip(64 + name.len() as int + 1).take(obj.len() as int) == obj
            &&& t.skip(64 + name.len() as int + 1)[obj.len() as int] == 0
        }),
{
    let name = strz_at(t, 64).unwrap();
    let t1 = t.skip(64);
    let n1 = choose|n: int| nul_terminated_len(t1, n);
    let obj = strz_at(t, 64 + name.len() as int + 1).unwrap();
    let t2 = t.skip(64 + name.len() as int + 1);
    let n2 = choose|n: int| nul_terminated_len(t2, n);
}

/// Why the Module Info records could not be sorted.
#[derive(Clone, Copy, Debug, PartialEq, Eq, Structural)]
pub enum SortModulesError {
    /// The first section contribution of record `module` has a module index that is neither
    /// the record's own index nor 0xffff.
    InconsistentModuleIndex { module: u32, module_index: u16 },
    /// Two records have the same module name and object file name.
    DuplicateModule { first: u32, second: u32 },
}

/// The description of an error that sorting the Module Info records gives.
pub open spec fn sort_modules_error_text(e: SortModulesError) -> Seq<char> {
    match e {
        SortModulesError::InconsistentModuleIndex { module, module_index } => "Module Info record #"@
            + dec_chars(module as nat) + " has inconsistent value for the module_index ("@ + dec_chars(
            module_index as nat,
        ) + ") of its first section contribution."@,
        SortModulesError::DuplicateModule { first, second } => "Two modules exist that have the same name and object file.\nModule indexes "@
            + dec_chars(first as nat) + ", "@ + dec_chars(second as nat) + "."@,
    }
}

impl SortModulesError {
    /// A description of the error.
    pub fn to_string(&self) -> (s: String)
        ensures
            s@ == sort_modules_error_text(*self),
    {
        let mut s = String::new();
        match self {
            SortModulesError::InconsistentModuleIndex { module, module_index } => {
                push_str(&mut s, "Module Info record #");
                push_dec(&mut s, *module as u64);
                push_str(&mut s, " has inconsistent value for the module_index (");
                push_dec(&mut s, *module_index as u64);
                push_str(&mut s, ") of its first section contribution.");
            },
            SortModulesError::DuplicateModule { first, second } => {
                push_str(&mut s, "Two modules exist that have the same name and object file.\nModule indexes ");
                push_dec(&mut s, *first as u64);
                push_str(&mut s, ", ");
                push_dec(&mut s, *second as u64);
                push_str(&mut s, ".");
            },
        }
        assert(s@ =~= sort_modules_error_text(*self));
        s
    }
}

/// Output of [`sort_module_info_records`]
pub struct SortModulesOutput {
    /// Maps `new_module_index --> old_module_index`
    pub new_to_old: Vec<u32>,
    /// Maps `old_module_index --> new_module_index`
    pub old_to_new: Vec<u32>,
}

/// The first record whose module index is inconsistent, if there is one.
fn find_inconsistent_module(b: &[u8], offsets: &Vec<u32>) -> (r: Option<(u32, u16)>)
    requires
        b@.len() <= u32::MAX,
        offsets@.map_values(|o: u32| o as int) == module_record_offsets(b@),
        offsets@.len() * 64 <= b@.len(),
        forall|i: int| 0 <= i < offsets@.len() ==> offsets@[i] + 64 <= b@.len(),
    ensures
        match r {
            Some((i, mi)) => {
                &&& i < offsets@.len()
                &&& mi == record_module_index(b@, offsets@[i as int] as int)
                &&& !module_index_consistent(b@, i as int)
                &&& forall|k: int| 0 <= k < i ==> module_index_consistent(b@, k)
            },
            None => forall|k: int| 0 <= k < offsets@.len() ==> module_index_consistent(b@, k),
        },
{
    let n = offsets.len();
    let blen = b.len();
    let mut i: usize = 0;
    while i < n
        invariant
            n == offsets@.len(),
            blen == b@.len(),
            n * 64 <= blen <= u32::MAX,
            offsets@.map_values(|o: u32| o as int) == module_record_offsets(b@),
            forall|k: int| 0 <= k < offsets@.len() ==> offsets@[k] + 64 <= b@.len(),
            i <= n,
            forall|k: int| 0 <= k < i ==> module_index_consistent(b@, k),
        decreases n - i,
    {
        let o = offsets[i] as usize;
        let mi = read_u16_at(b, o + 20);
        assert(module_record_offsets(b@)[i as int] == offsets@[i as int]);
        if mi != 0xffff && mi as usize != i {
            return Some((i as u32, mi));
        }
        i = i + 1;
    }
    None
}

/// Two ranges, next to each other in the sorted `order`, with equal contents, if there are any.
#[verifier::spinoff_prover]
#[verifier::rlimit(40)]
fn find_adjacent_duplicate(b: &[u8], lo: &Vec<u32>, hi: &Vec<u32>, order: &Vec<u32>) -> (r: Option<(u32, u32)>)
    requires
        lo@.len() == hi@.len(),
        forall|i: int| 0 <= i < lo@.len() ==> #[trigger] lo@[i] <= hi@[i] <= b@.len(),
        is_permutation(order@, lo@.len() as int),
        ranges_sorted(b@, lo@, hi@, order@),
    ensures
        match r {
            Some((x, y)) => x < lo@.len() && y < lo@.len() && x != y && range_at(b@, lo@, hi@, x as int)
                == range_at(b@, lo@, hi@, y as int),
            None => forall|x: int, y: int|
                0 <= x < y < lo@.len() ==> range_at(b@, lo@, hi@, x) != range_at(b@, lo@, hi@, y),
        },
{
    let n = order.len();
    let mut k: usize = 1;
    while k < n
        invariant
            n == order@.len(),
            n == lo@.len(),
            lo@.len() == hi@.len(),
            forall|i: int| 0 <= i < lo@.len() ==> #[trigger] lo@[i] <= hi@[i] <= b@.len(),
            is_permutation(order@, n as int),
            1 <= k,
            forall|q: int|
                1 <= q < k && q < n ==> range_at(b@, lo@, hi@, order@[q - 1] as int) != range_at(
                    b@,
                    lo@,
                    hi@,
                    #[trigger] order@[q] as int,
                ),
        decreases n - k,
    {
        let x = order[k - 1];
        let y = order[k];
        let rx = vstd::slice::slice_subrange(b, lo[x as usize] as usize, hi[x as usize] as usize);
        let ry = vstd::slice::slice_subrange(b, lo[y as usize] as usize, hi[y as usize] as usize);
        if bytes_equal(rx, ry) {
            return Some((x, y));
        }
        k = k + 1;
    }
    proof {
        assert forall|x: int, y: int| 0 <= x < y < n implies range_at(b@, lo@, hi@, x) != range_at(
            b@,
            lo@,
            hi@,
            y,
        ) by {
            if range_at(b@, lo@, hi@, x) == range_at(b@, lo@, hi@, y) {
                lemma_permutation_onto(order@, n as int, x);
                lemma_permutation_onto(order@, n as int, y);
                let px = choose|p: int| 0 <= p < n && order@[p] == x;
                let py = choose|p: int| 0 <= p < n && order@[p] == y;
                let p = if px < py { px } else { py };
                let q = if px < py { py } else { px };
                assert(p < q);
                let rp = range_at(b@, lo@, hi@, order@[p] as int);
                let rp1 = range_at(b@, lo@, hi@, order@[p + 1] as int);
                let rq = range_at(b@, lo@, hi@, order@[q] as int);
                assert(rp == rq);
                assert(lex_le(rp, rp1));
                if p + 1 < q {
                    assert(lex_le(rp1, rq));
                } else {
                    crate::sort_utils::lemma_lex_le_total(rp1, rp1);
                }
                lemma_lex_le_antisym(rp, rp1);
                assert(range_at(b@, lo@, hi@, order@[p] as int) == range_at(b@, lo@, hi@, order@[p + 1] as int));
            }
        }
    }
    None
}

/// Rewrites the headers of the records of `records`, as `patch_records` describes.
fn patch_record_headers(records: &mut [u8])
    requires
        old(records)@.len() <= u32::MAX,
    ensures
        final(records)@ == patch_records(old(records)@),
{
    let ghost b0 = records@;
    let scan = scan_records(&*records);
    let offsets = scan.offsets;
    let ghost offs = offsets@.map_values(|o: u32| o as int);
    let len = records.len();
    let n = offsets.len();
    let mut i: usize = 0;
    while i < n
        invariant
            n == offsets@.len(),
            len == records@.len(),
            len == b0.len(),
            offs == offsets@.map_values(|o: u32| o as int),
            offs == module_record_offsets(b0),
            forall|k: int| 0 <= k < n ==> offsets@[k] + 64 <= len,
            i <= n,
            records@ == patch_records_upto(b0, offs, i as int),
        decreases n - i,
    {
        let o = offsets[i] as usize;
        assert(offs[i as int] == o);
        let ghost before = records@;
        let mi = read_u16_at(records, o + 20);
        records[o] = 0;
        records[o + 1] = 0;
        records[o + 2] = 0;
        records[o + 3] = 0;
        records[o + 50] = 0;
        records[o + 51] = 0;
        records[o + 52] = 0;
        records[o + 53] = 0;
        records[o + 54] = 0;
        records[o + 55] = 0;
        if mi != 0xffff {
            let v = (i % 0x10000) as u16;
            records[o + 20] = (v % 0x100) as u8;
            records[o + 21] = (v / 0x100) as u8;
        }
        proof {
            assert(records@ =~= patch_record(before, o as int, i as int));
        }
        i = i + 1;
    }
}

/// Sorts the Module Info records within a DBI stream, by module name and then by object file
/// name, and returns the permutation that was applied.
///
/// Before sorting, the module index in the first section contribution of each record must be
/// the record's index (or 0xffff), and no two records may have the same module name and object
/// file name. After sorting, the header of each record is rewritten: its `unused1`, `padding`
/// and `unused2` fields are zeroed and its module index (where it is not 0xffff) is set to its
/// new index.
pub fn sort_module_info_records(records: &mut [u8]) -> (r: Result<SortModulesOutput, SortModulesError>)
    requires
        old(records)@.len() <= u32::MAX,
        old(records)@.len() == 0 || module_record(old(records)@) is Some,
    ensures
        ({
            let s = old(records)@;
            let offs = module_record_offsets(s);
            match r {
                Err(SortModulesError::InconsistentModuleIndex { module, module_index }) => {
                    &&& module < offs.len()
                    &&& module_index == record_module_index(s, offs[module as int])
                    &&& !module_index_consistent(s, module as int)
                    &&& forall|i: int| 0 <= i < module ==> module_index_consistent(s, i)
                    &&& final(records)@ == s
                },
                Err(SortModulesError::DuplicateModule { first, second }) => {
                    &&& forall|i: int| 0 <= i < offs.len() ==> module_index_consistent(s, i)
                    &&& first < offs.len() && second < offs.len() && first != second
                    &&& module_key(s, offs[first as int]) == module_key(s, offs[second as int])
                    &&& final(records)@ == s
                },
                Ok(out) => {
                    &&& forall|i: int| 0 <= i < offs.len() ==> module_index_consistent(s, i)
                    &&& !has_duplicate_modules(s)
                    &&& is_permutation(out.new_to_old@, offs.len() as int)
                    &&& forall|a: int, b: int|
                        0 <= a < b < offs.len() ==> lex_le(
                            module_key(s, offs[out.new_to_old@[a] as int]),
                            module_key(s, offs[out.new_to_old@[b] as int]),
                        )
                    &&& is_inverse_permutation(out.new_to_old@, out.old_to_new@)
                    &&& final(records)@ == patch_records(
                        concat_records(s, record_starts(s), out.new_to_old@),
                    )
                },
            }
        }),
{
    let ghost s = records@;
    let len = records.len();
    let scan = scan_records(&*records);
    let ghost offs = module_record_offsets(s);
    let n = scan.offsets.len();
    proof {
        assert forall|i: int| 0 <= i < n implies offs[i] == scan.offsets@[i] by {
            assert(scan.offsets@.map_values(|o: u32| o as int)[i] == scan.offsets@[i]);
        }
    }
    match find_inconsistent_module(&*records, &scan.offsets) {
        Some((module, module_index)) => {
            return Err(SortModulesError::InconsistentModuleIndex { module, module_index });
        },
        None => {},
    }
    proof {
        assert forall|i: int| 0 <= i < n implies #[trigger] scan.key_lo@[i] <= scan.key_hi@[i] <= s.len() by {
            assert(key_range_ok(s, scan.key_lo@, scan.key_hi@, scan.offsets@, i));
        }
        assert(records@ == s);
    }
    let order = sort_ranges(&*records, scan.key_lo.as_slice(), scan.key_hi.as_slice());
    match find_adjacent_duplicate(&*records, &scan.key_lo, &scan.key_hi, &order) {
        Some((first, second)) => {
            proof {
                assert(crate::dbi::modules::key_range_ok(s, scan.key_lo@, scan.key_hi@, scan.offsets@, first as int));
                assert(crate::dbi::modules::key_range_ok(s, scan.key_lo@, scan.key_hi@, scan.offsets@, second as int));
            }
            return Err(SortModulesError::DuplicateModule { first, second });
        },
        None => {},
    }
    proof {
        assert(!has_duplicate_modules(s)) by {
            assert forall|i: int, j: int| 0 <= i < j < offs.len() implies module_key(s, offs[i])
                != module_key(s, offs[j]) by {
                assert(key_range_ok(s, scan.key_lo@, scan.key_hi@, scan.offsets@, i));
                assert(key_range_ok(s, scan.key_lo@, scan.key_hi@, scan.offsets@, j));
            }
        }
        assert forall|a: int, b: int| 0 <= a < b < offs.len() implies lex_le(
            module_key(s, offs[order@[a] as int]),
            module_key(s, offs[order@[b] as int]),
        ) by {
            assert(key_range_ok(s, scan.key_lo@, scan.key_hi@, scan.offsets@, order@[a] as int));
            assert(key_range_ok(s, scan.key_lo@, scan.key_hi@, scan.offsets@, order@[b] as int));
        }
    }
    let old_to_new = invert_permutation_u32(order.as_slice());
    let mut starts = scan.offsets;
    starts.push(len as u32);
    proof {
        assert(starts@ =~= record_starts(s)) by {
            assert forall|i: int| 0 <= i < n implies starts@[i] == record_starts(s)[i] by {
                assert(offs[i] == starts@[i]);
            }
        }
        assert(valid_starts(starts@, len as int)) by {
            assert forall|i: int, j: int| 0 <= i <= j < starts@.len() implies starts@[i] <= starts@[j] by {
                if j < n && i < j {
                    assert(scan.offsets@[i] < scan.offsets@[j]);
                }
            }
        }
        assert(forall|k: int| 0 <= k < order@.len() ==> order@[k] < order@.len());
        lemma_concat_len(s, starts@, order@);
        lemma_lens_sum_permutation(starts@, order@, n as int);
        if n > 0 {
            assert(offs[0] == 0);
        } else if len > 0 {
            assert(s.skip(0) =~= s);
            lemma_module_record_parts(s);
            assert(offs.len() > 0);
        }
    }
    reorder_records_inplace(records, starts.as_slice(), order.as_slice());
    patch_record_headers(records);
    Ok(SortModulesOutput { new_to_old: order, old_to_new })
}

/// A message about module `module_index`: "Module #", its index, then `text`.
pub open spec fn module_msg(module_index: u16, text: Seq<char>) -> Seq<char> {
    "Module #"@ + dec_chars(module_index as nat) + text
}

/// A single message if `cond` holds, else none.
pub open spec fn msg_if(cond: bool, is_error: bool, text: Seq<char>) -> Seq<(bool, Seq<char>)> {
    if cond {
        seq![(is_error, text)]
    } else {
        Seq::empty()
    }
}

/// What `check_module_info` finds wrong with module `module_index`, whose header is `h`, in
/// order: each message is an error (`true`) or a warning (`false`), with its text.
/// `stream_len` is the length of the module's stream where that stream is valid.
pub open spec fn module_info_findings(module_index: u16, h: ModuleInfoFixed, stream_len: Option<u64>) -> Seq<(bool, Seq<char>)> {
    module_field_findings(module_index, h) + module_stream_findings(module_index, h, stream_len)
}

/// The findings about the fields of the header alone.
pub open spec fn module_field_findings(module_index: u16, h: ModuleInfoFixed) -> Seq<(bool, Seq<char>)> {
    let cmi = h.section_contrib.module_index;
    let c11 = h.c11_byte_size;
    let c13 = h.c13_byte_size;
    let sym = h.sym_byte_size;
    msg_if(
        !(cmi == module_index || cmi == 0xffff),
        true,
        module_msg(module_index, " has incorrect value for section_contrib.module_index"@),
    ) + msg_if(
        c11 % 4 != 0,
        true,
        module_msg(module_index, " has invalid value for c11_byte_size (not a multiple of 4)"@),
    ) + msg_if(
        c13 % 4 != 0,
        true,
        module_msg(module_index, " has invalid value for c13_byte_size (not a multiple of 4)"@),
    ) + msg_if(
        sym % 4 != 0,
        true,
        module_msg(module_index, " has invalid value for sym_byte_size (not a multiple of 4)"@),
    ) + msg_if(
        c11 != 0 && c13 != 0,
        true,
        module_msg(
            module_index,
            " has both C11 and C13 line data; these should be mutually-exclusive."@,
        ),
    )
}

/// The findings about the module's stream.
pub open spec fn module_stream_findings(module_index: u16, h: ModuleInfoFixed, stream_len: Option<u64>) -> Seq<(bool, Seq<char>)> {
    let c11 = h.c11_byte_size;
    let c13 = h.c13_byte_size;
    let sym = h.sym_byte_size;
    if h.stream.0 != 0xffff {
        match stream_len {
            Some(len) => msg_if(
                c11 + c13 + sym > len,
                true,
                module_msg(
                    module_index,
                    " specifies substream sizes that exceed the size of the module stream."@,
                ),
            ),
            None => seq![
                (
                    true,
                    module_msg(
                        module_index,
                        " specifies stream #"@ + dec_chars(h.stream.0 as nat)
                            + ", but that stream is invalid."@,
                    ),
                ),
            ],
        }
    } else {
        msg_if(
            c11 != 0,
            false,
            module_msg(module_index, " has non-zero c11_byte_size, but no stream"@),
        ) + msg_if(
            c13 != 0,
            false,
            module_msg(module_index, " has non-zero c13_byte_size, but no stream"@),
        ) + msg_if(
            sym != 0,
            false,
            module_msg(module_index, " has non-zero sym_byte_size, but no stream"@),
        )
    }
}

/// "Module #", the module index, then `text`.
fn make_module_msg(module_index: u16, text: &str) -> (s: String)
    ensures
        s@ == module_msg(module_index, text@),
{
    let mut s = String::new();
    push_str(&mut s, "Module #");
    push_dec(&mut s, module_index as u64);
    push_str(&mut s, text);
    s
}

/// Appends a message to `out` if `cond` holds.
fn push_msg_if(out: &mut Vec<(bool, String)>, cond: bool, is_error: bool, module_index: u16, text: &str)
    ensures
        messages_view(final(out)@) == messages_view(old(out)@) + msg_if(
            cond,
            is_error,
            module_msg(module_index, text@),
        ),
{
    let ghost before = messages_view(out@);
    if cond {
        let m = make_module_msg(module_index, text);
        out.push((is_error, m));
        assert(messages_view(out@) =~= before + msg_if(cond, is_error, module_msg(module_index, text@)));
    } else {
        assert(messages_view(out@) =~= before + msg_if(cond, is_error, module_msg(module_index, text@)));
    }
}

/// Appends to `out` what is wrong with the fields of the header.
fn collect_module_field_findings(out: &mut Vec<(bool, String)>, module_index: u16, h: &ModuleInfoFixed)
    ensures
        messages_view(final(out)@) == messages_view(old(out)@) + module_field_findings(module_index, *h),
{
    let ghost before = messages_view(out@);
    let cmi = h.section_contrib.module_index;
    let c11 = h.c11_byte_size;
    let c13 = h.c13_byte_size;
    let sym = h.sym_byte_size;
    push_msg_if(
        out,
        !(cmi == module_index || cmi == 0xffff),
        true,
        module_index,
        " has incorrect value for section_contrib.module_index",
    );
    push_msg_if(out, c11 % 4 != 0, true, module_index, " has invalid value for c11_byte_size (not a multiple of 4)");
    push_msg_if(out, c13 % 4 != 0, true, module_index, " has invalid value for c13_byte_size (not a multiple of 4)");
    push_msg_if(out, sym % 4 != 0, true, module_index, " has invalid value for sym_byte_size (not a multiple of 4)");
    push_msg_if(
        out,
        c11 != 0 && c13 != 0,
        true,
        module_index,
        " has both C11 and C13 line data; these should be mutually-exclusive.",
    );
    assert(messages_view(out@) =~= before + module_field_findings(module_index, *h));
}

/// Appends to `out` what is wrong with the module's stream.
fn collect_module_stream_findings(
    out: &mut Vec<(bool, String)>,
    module_index: u16,
    h: &ModuleInfoFixed,
    stream_len: Option<u64>,
)
    ensures
        messages_view(final(out)@) == messages_view(old(out)@) + module_stream_findings(
            module_index,
            *h,
            stream_len,
        ),
{
    let c11 = h.c11_byte_size;
    let c13 = h.c13_byte_size;
    let sym = h.sym_byte_size;
    let ghost mid = messages_view(out@);
    if h.stream.0 != 0xffff {
        match stream_len {
            Some(len) => {
                let sum = c11 as u64 + c13 as u64 + sym as u64;
                push_msg_if(
                    out,
                    sum > len,
                    true,
                    module_index,
                    " specifies substream sizes that exceed the size of the module stream.",
                );
            },
            None => {
                let mut m = make_module_msg(module_index, " specifies stream #");
                push_dec(&mut m, h.stream.0 as u64);
                push_str(&mut m, ", but that stream is invalid.");
                out.push((true, m));
                proof {
                    assert(m@ =~= module_msg(
                        module_index,
                        " specifies stream #"@ + dec_chars(h.stream.0 as nat) + ", but that stream is invalid."@,
                    ));
                    assert(messages_view(out@) =~= mid.push((true, m@)));
                }
            },
        }
    } else {
        push_msg_if(out, c11 != 0, false, module_index, " has non-zero c11_byte_size, but no stream");
        push_msg_if(out, c13 != 0, false, module_index, " has non-zero c13_byte_size, but no stream");
        push_msg_if(out, sym != 0, false, module_index, " has non-zero sym_byte_size, but no stream");
    }
    assert(messages_view(out@) =~= mid + module_stream_findings(module_index, *h, stream_len));
}

/// Checks the fields of a Module Info record for consistency, and records what is wrong in
/// `diags`.
///
/// `stream_len` is the length of the module's stream, where that stream is valid (it exists and
/// is not nil); it is `None` otherwise.
pub fn check_module_info(module_index: u16, module: &ModuleInfo, stream_len: Option<u64>, diags: &mut Diags)
    ensures
        ({
            let k = kept_messages(
                old(diags).num_errors as int,
                old(diags).num_warnings as int,
                old(diags).max_errors as int,
                module_info_findings(module_index, module.header, stream_len),
            );
            &&& final(diags).num_errors == k.0
            &&& final(diags).num_warnings == k.1
            &&& final(diags).max_errors == old(diags).max_errors
            &&& records_messages(final(diags).diags@, old(diags).diags@, k.2)
        }),
{
    let mut out: Vec<(bool, String)> = Vec::new();
    assert(messages_view(out@) =~= Seq::<(bool, Seq<char>)>::empty());
    collect_module_field_findings(&mut out, module_index, &module.header);
    collect_module_stream_findings(&mut out, module_index, &module.header, stream_len);
    assert(messages_view(out@) =~= module_info_findings(module_index, module.header, stream_len));
    diags.report_all(&out);
}

/// The header that the first 64 bytes of `s` encode.
pub open spec fn header_at(s: Seq<u8>) -> ModuleInfoFixed {
    choose|h: ModuleInfoFixed| decodes_module_info_fixed(h, s)
}

/// The length of the stream that header `h` names, where that stream is valid. `streams` holds,
/// for each stream of the PDB, its length, or `None` for a nil stream.
pub open spec fn module_stream_len(streams: Seq<Option<u64>>, h: ModuleInfoFixed) -> Option<u64> {
    if h.stream.0 < streams.len() {
        streams[h.stream.0 as int]
    } else {
        None
    }
}

/// What `check_module_infos` finds in the records of `s` from `pos` on, the first of which is
/// module `i`.
pub open spec fn module_findings_from(s: Seq<u8>, streams: Seq<Option<u64>>, pos: int, i: int) -> Seq<(bool, Seq<char>)>
    decreases s.len() - pos,
{
    if pos < 0 || pos >= s.len() {
        Seq::empty()
    } else {
        match module_record(s.skip(pos)) {
            None => Seq::empty(),
            Some((_, _, n)) => if n > 0 {
                let h = header_at(s.skip(pos));
                module_info_findings((i % 0x10000) as u16, h, module_stream_len(streams, h))
                    + module_findings_from(s, streams, pos + n, i + 1)
            } else {
                Seq::empty()
            },
        }
    }
}

/// The findings depend only on what the header bytes encode.
proof fn lemma_findings_of_decoded(i: u16, h: ModuleInfoFixed, s: Seq<u8>, streams: Seq<Option<u64>>)
    requires
        decodes_module_info_fixed(h, s),
    ensures
        module_info_findings(i, header_at(s), module_stream_len(streams, header_at(s)))
            == module_info_findings(i, h, module_stream_len(streams, h)),
{
    let h2 = header_at(s);
    assert(decodes_module_info_fixed(h2, s));
    assert(h2.stream == h.stream);
    assert(module_field_findings(i, h2) == module_field_findings(i, h));
    assert(module_stream_findings(i, h2, module_stream_len(streams, h2)) == module_stream_findings(
        i,
        h,
        module_stream_len(streams, h),
    ));
}

/// Checks every Module Info record of the DBI Modules Substream for consistency, and records what
/// is wrong in `diags`.
///
/// `streams` describes the streams of the PDB: for each stream index, the stream's length, or
/// `None` for a nil stream.
#[verifier::spinoff_prover]
#[verifier::rlimit(30)]
pub fn check_module_infos(modules: &ModInfoSubstream, streams: &[Option<u64>], diags: &mut Diags)
    ensures
        ({
            let k = kept_messages(
                old(diags).num_errors as int,
                old(diags).num_warnings as int,
                old(diags).max_errors as int,
                module_findings_from(modules.substream_data@, streams@, 0, 0),
            );
            &&& final(diags).num_errors == k.0
            &&& final(diags).num_warnings == k.1
            &&& final(diags).max_errors == old(diags).max_errors
            &&& records_messages(final(diags).diags@, old(diags).diags@, k.2)
        }),
{
    let data = modules.substream_data;
    let len = data.len();
    let mut out: Vec<(bool, String)> = Vec::new();
    let mut pos: usize = 0;
    let mut i: usize = 0;
    assert(messages_view(out@) =~= Seq::<(bool, Seq<char>)>::empty());
    loop
        invariant_except_break
            pos <= len,
            len == data@.len(),
            i <= pos,
            messages_view(out@) + module_findings_from(data@, streams@, pos as int, i as int)
                == module_findings_from(data@, streams@, 0, 0),
        ensures
            messages_view(out@) == module_findings_from(data@, streams@, 0, 0),
        decreases len - pos,
    {
        if pos >= len {
            assert(messages_view(out@) + module_findings_from(data@, streams@, pos as int, i as int)
                =~= messages_view(out@));
            break;
        }
        let rest = vstd::slice::slice_subrange(data, pos, len);
        assert(rest@ =~= data@.skip(pos as int));
        match read_module_record(rest) {
            None => {
                assert(messages_view(out@) + module_findings_from(data@, streams@, pos as int, i as int)
                    =~= messages_view(out@));
                break;
            },
            Some((m, n)) => {
                proof {
                    lemma_module_record_parts(rest@);
                }
                let h = m.header;
                let stream_len = if (h.stream.0 as usize) < streams.len() {
                    streams[h.stream.0 as usize]
                } else {
                    None
                };
                let ghost before = messages_view(out@);
                let idx = (i % 0x10000) as u16;
                collect_module_field_findings(&mut out, idx, &h);
                collect_module_stream_findings(&mut out, idx, &h, stream_len);
                proof {
                    lemma_findings_of_decoded(idx, h, data@.skip(pos as int), streams@);
                    assert(stream_len == module_stream_len(streams@, h));
                    assert(messages_view(out@) + module_findings_from(data@, streams@, pos + n, i + 1)
                        =~= before + module_findings_from(data@, streams@, pos as int, i as int));
                }
                pos = pos + n;
                i = i + 1;
            },
        }
    }
    diags.report_all(&out);
}

} // verus!
