//! DBI Sources Substream

use vstd::prelude::*;
use std::collections::HashMap;
use crate::le::le_u16;
use crate::parser::{nul_terminated_len, Parser, ParserError};

verus! {

/// The sum of the per-module file counts.
pub open spec fn sum_counts(c: Seq<u16>) -> int
    decreases c.len(),
{
    if c.len() == 0 {
        0
    } else {
        sum_counts(c.drop_last()) + c.last()
    }
}

/// The NUL-terminated string at offset `off` of `buf` (without its terminator), if there is one.
pub open spec fn strz_at(buf: Seq<u8>, off: int) -> Option<Seq<u8>> {
    if 0 <= off <= buf.len() && exists|n: int| nul_terminated_len(buf.skip(off), n) {
        Some(buf.skip(off).take(choose|n: int| nul_terminated_len(buf.skip(off), n)))
    } else {
        None
    }
}

/// A NUL terminator found at `n` bytes after `off` determines the string at `off`.
pub proof fn lemma_strz_at_found(buf: Seq<u8>, off: int, n: int)
    requires
        0 <= off <= buf.len(),
        nul_terminated_len(buf.skip(off), n),
    ensures
        strz_at(buf, off) == Some(buf.skip(off).take(n)),
{
    let t = buf.skip(off);
    let m = choose|m: int| nul_terminated_len(t, m);
    if m < n {
        assert(t[m] == 0);
    } else if m > n {
        assert(t[n] == 0);
    }
}

/// The decoded parts of a sources substream: the per-module first file indexes, the per-module
/// file counts, the file name offsets, and the names buffer.
pub open spec fn parse_sources(b: Seq<u8>) -> Option<(Seq<u16>, Seq<u16>, Seq<u32>, Seq<u8>)> {
    if b.len() < 4 {
        None
    } else {
        let nm = le_u16(b);
        if 4 + 4 * nm > b.len() {
            None
        } else {
            let starts = Parser::u16_list(b.skip(4), nm);
            let counts = Parser::u16_list(b.skip(4 + 2 * nm), nm);
            let total = sum_counts(counts);
            if 4 + 4 * nm + 4 * total > b.len() {
                None
            } else {
                Some(
                    (
                        starts,
                        counts,
                        Parser::u32_list(b.skip(4 + 4 * nm), total),
                        b.skip(4 + 4 * nm + 4 * total),
                    ),
                )
            }
        }
    }
}

/// The "Sources" substream of the DBI stream. This stream describes the merged set of source
/// files that were the inputs (compilands) of all modules.
pub struct DbiSourcesSubstream<'a> {
    /// For each module, the index within `file_name_offsets` of its first file.
    module_file_starts: Vec<u16>,
    /// For each module, the number of source files that contribute to it.
    module_file_counts: Vec<u16>,
    /// The concatenated list of file name lists, one list per module. Each item is an offset
    /// into `names_buffer`.
    file_name_offsets: Vec<u32>,
    /// The file name strings, encoded in UTF-8 and NUL-terminated.
    names_buffer: &'a [u8],
}

impl<'a> DbiSourcesSubstream<'a> {
    /// The first file index of each module.
    pub closed spec fn starts(&self) -> Seq<u16> {
        self.module_file_starts@
    }

    /// The number of files of each module.
    pub closed spec fn counts(&self) -> Seq<u16> {
        self.module_file_counts@
    }

    /// The file name offsets.
    pub closed spec fn offsets(&self) -> Seq<u32> {
        self.file_name_offsets@
    }

    /// The names buffer.
    pub closed spec fn names(&self) -> Seq<u8> {
        self.names_buffer@
    }

    /// The number of modules
    pub fn num_modules(&self) -> (n: usize)
        ensures
            n == self.starts().len(),
    {
        self.module_file_starts.len()
    }

    /// The file name offsets. Each value can be used with `get_source_file_name_at()`.
    pub fn file_name_offsets(&self) -> (r: &[u32])
        ensures
            r@ == self.offsets(),
    {
        self.file_name_offsets.as_slice()
    }

    /// Parses the file info substream: the number of modules, an obsolete count of source files,
    /// the per-module first file indexes and file counts, the file name offsets (as many as the
    /// counts add up to), and the names buffer.
    pub fn parse(substream_data: &'a [u8]) -> (r: Result<Self, ParserError>)
        ensures
            r is Ok <==> parse_sources(substream_data@) is Some,
            r matches Ok(s) ==> parse_sources(substream_data@) == Some(
                (s.starts(), s.counts(), s.offsets(), s.names()),
            ),
    {
        let mut p = Parser::new(substream_data);
        let num_modules = p.u16()? as usize;
        let _obsolete_num_source_files = p.u16()?;
        let module_file_starts = p.u16_array(num_modules)?;
        let module_file_counts = p.u16_array(num_modules)?;
        let mut num_file_offsets: usize = 0;
        let mut i: usize = 0;
        while i < num_modules
            invariant
                num_modules == module_file_counts@.len(),
                num_modules <= 0xffff,
                i <= num_modules,
                num_file_offsets == sum_counts(module_file_counts@.take(i as int)),
                num_file_offsets <= 0xffff * i,
            decreases num_modules - i,
        {
            assert(module_file_counts@.take(i + 1).drop_last() =~= module_file_counts@.take(i as int));
            num_file_offsets = num_file_offsets + module_file_counts[i] as usize;
            i = i + 1;
        }
        assert(module_file_counts@.take(num_modules as int) =~= module_file_counts@);
        proof {
            let b = substream_data@;
            let nm = num_modules as int;
            assert(b.skip(2).skip(2) =~= b.skip(4));
            assert(b.skip(4).skip(2 * nm) =~= b.skip(4 + 2 * nm));
            assert(b.skip(4 + 2 * nm).skip(2 * nm) =~= b.skip(4 + 4 * nm));
        }
        let file_name_offsets = p.u32_array(num_file_offsets)?;
        let names_buffer = p.into_rest();
        proof {
            let b = substream_data@;
            let nm = num_modules as int;
            assert(b.skip(2).skip(2) =~= b.skip(4));
            assert(b.skip(4).skip(2 * nm) =~= b.skip(4 + 2 * nm));
            assert(b.skip(4 + 2 * nm).skip(2 * nm) =~= b.skip(4 + 4 * nm));
            assert(b.skip(4 + 4 * nm).skip(4 * num_file_offsets) =~= b.skip(
                4 + 4 * nm + 4 * num_file_offsets,
            ));
        }
        Ok(Self { module_file_starts, module_file_counts, file_name_offsets, names_buffer })
    }

    /// Given a file name offset (within the names buffer), returns the source file name.
    pub fn get_source_file_name_at(&self, file_name_offset: u32) -> (r: Result<&'a [u8], ParserError>)
        ensures
            r is Ok <==> strz_at(self.names(), file_name_offset as int) is Some,
            r matches Ok(name) ==> strz_at(self.names(), file_name_offset as int) == Some(name@),
    {
        let off = file_name_offset as usize;
        if off > self.names_buffer.len() {
            return Err(ParserError::new());
        }
        let string_data = vstd::slice::slice_subrange(self.names_buffer, off, self.names_buffer.len());
        let mut p = Parser::new(string_data);
        let file_name = p.strz()?;
        proof {
            let s = self.names_buffer@.skip(off as int);
            assert(string_data@ =~= s);
            let n = choose|n: int| nul_terminated_len(s, n);
            if n < file_name@.len() {
                assert(s[n] == 0);
            } else if n > file_name@.len() {
                assert(s[file_name@.len() as int] == 0);
            }
        }
        Ok(file_name)
    }

    /// Given a source file index (an index into the file name offsets), returns the source file
    /// name.
    pub fn get_source_file_name(&self, source_file_index: usize) -> (r: Result<&'a [u8], ParserError>)
        requires
            source_file_index < self.offsets().len(),
        ensures
            r is Ok <==> strz_at(self.names(), self.offsets()[source_file_index as int] as int) is Some,
            r matches Ok(name) ==> strz_at(
                self.names(),
                self.offsets()[source_file_index as int] as int,
            ) == Some(name@),
    {
        let offset = self.file_name_offsets[source_file_index];
        self.get_source_file_name_at(offset)
    }

    /// The file name offsets of the files of one module.
    pub fn name_offsets_for_module(&self, module_index: usize) -> (r: Result<&[u32], ParserError>)
        requires
            module_index < self.starts().len(),
            self.starts().len() == self.counts().len(),
        ensures
            ({
                let start = self.starts()[module_index as int] as int;
                let count = self.counts()[module_index as int] as int;
                &&& r is Ok <==> start + count <= self.offsets().len()
                &&& r matches Ok(s) ==> s@ == self.offsets().subrange(start, start + count)
            }),
    {
        let start = self.module_file_starts[module_index] as usize;
        let count = self.module_file_counts[module_index] as usize;
        if start + count > self.file_name_offsets.len() {
            return Err(ParserError::new());
        }
        Ok(vstd::slice::slice_subrange(self.file_name_offsets.as_slice(), start, start + count))
    }

    /// Iterates the source files: each file name offset, with its name.
    pub fn iter_sources(&self) -> (it: IterSources<'a, '_>)
        ensures
            it.names_spec() == self.names(),
            it.offsets_spec() == self.offsets(),
    {
        IterSources { names_buffer: self.names_buffer, file_name_offsets: self.file_name_offsets.as_slice() }
    }

    /// Builds a map from each file name offset to its file name. Fails if any offset does not
    /// point at a NUL-terminated name.
    pub fn sources_map(&self) -> (r: Result<HashMap<u32, &'a [u8]>, ParserError>)
        ensures
            r is Ok <==> forall|i: int|
                0 <= i < self.offsets().len() ==> strz_at(self.names(), #[trigger] self.offsets()[i] as int) is Some,
            r matches Ok(m) ==> {
                &&& forall|k: u32| m@.contains_key(k) <==> self.offsets().contains(k)
                &&& forall|k: u32| #[trigger] m@.contains_key(k) ==> strz_at(self.names(), k as int) == Some(m@[k]@)
            },
    {
        broadcast use vstd::std_specs::hash::group_hash_axioms;

        let offsets = self.file_name_offsets.as_slice();
        let mut map: HashMap<u32, &'a [u8]> = HashMap::new();
        let mut i: usize = 0;
        while i < offsets.len()
            invariant
                offsets@ == self.offsets(),
                i <= offsets@.len(),
                forall|j: int| 0 <= j < i ==> strz_at(self.names(), #[trigger] offsets@[j] as int) is Some,
                forall|k: u32| map@.contains_key(k) <==> exists|j: int| 0 <= j < i && offsets@[j] == k,
                forall|k: u32| #[trigger] map@.contains_key(k) ==> strz_at(self.names(), k as int) == Some(map@[k]@),
            decreases offsets@.len() - i,
        {
            let offset = offsets[i];
            let name = match self.get_source_file_name_at(offset) {
                Ok(n) => n,
                Err(e) => {
                    return Err(e);
                },
            };
            map.insert(offset, name);
            proof {
                assert forall|k: u32| map@.contains_key(k) <==> exists|j: int| 0 <= j < i + 1 && offsets@[j] == k by {
                    if k == offset {
                        assert(offsets@[i as int] == k);
                    }
                }
            }
            i = i + 1;
        }
        proof {
            assert forall|k: u32| map@.contains_key(k) <==> self.offsets().contains(k) by {
                if map@.contains_key(k) {
                    let j = choose|j: int| 0 <= j < i && offsets@[j] == k;
                    assert(self.offsets()[j] == k);
                }
                if self.offsets().contains(k) {
                    let j = choose|j: int| 0 <= j < self.offsets().len() && self.offsets()[j] == k;
                    assert(offsets@[j] == k);
                }
            }
        }
        Ok(map)
    }
}

/// Iterates source files in the DBI Sources Substream: each item is a file name offset and the
/// name that it points to.
pub struct IterSources<'a, 'b> {
    names_buffer: &'a [u8],
    file_name_offsets: &'b [u32],
}

impl<'a, 'b> IterSources<'a, 'b> {
    /// The names buffer.
    pub closed spec fn names_spec(&self) -> Seq<u8> {
        self.names_buffer@
    }

    /// The file name offsets that have not been visited.
    pub closed spec fn offsets_spec(&self) -> Seq<u32> {
        self.file_name_offsets@
    }

    /// The next file name offset and its name. Iteration stops (`None`) at the end of the
    /// offsets, and at an offset that does not point at a NUL-terminated name.
    pub fn next(&mut self) -> (r: Option<(u32, &'a [u8])>)
        ensures
            final(self).names_spec() == old(self).names_spec(),
            old(self).offsets_spec().len() == 0 ==> r is None && final(self).offsets_spec() == old(self).offsets_spec(),
            old(self).offsets_spec().len() > 0 ==> {
                let off = old(self).offsets_spec()[0];
                &&& final(self).offsets_spec() == old(self).offsets_spec().drop_first()
                &&& r is Some <==> strz_at(old(self).names_spec(), off as int) is Some
                &&& r matches Some((o, name)) ==> o == off && strz_at(old(self).names_spec(), off as int) == Some(name@)
            },
    {
        if self.file_name_offsets.len() == 0 {
            return None;
        }
        let offset = self.file_name_offsets[0];
        self.file_name_offsets = vstd::slice::slice_subrange(self.file_name_offsets, 1, self.file_name_offsets.len());
        assert(self.file_name_offsets@ =~= old(self).offsets_spec().drop_first());
        let off = offset as usize;
        if off > self.names_buffer.len() {
            return None;
        }
        let string_data = vstd::slice::slice_subrange(self.names_buffer, off, self.names_buffer.len());
        let mut p = Parser::new(string_data);
        let name = match p.strz() {
            Ok(n) => n,
            Err(_) => {
                return None;
            },
        };
        proof {
            let s = self.names_buffer@.skip(off as int);
            assert(string_data@ =~= s);
            let n = choose|n: int| nul_terminated_len(s, n);
            if n < name@.len() {
                assert(s[n] == 0);
            } else if n > name@.len() {
                assert(s[name@.len() as int] == 0);
            }
        }
        Some((offset, name))
    }
}

} // verus!
