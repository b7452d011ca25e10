//! C13 Line Data: a sequence of subsections, each with a kind and a payload.

pub mod blocks;
pub mod check;
pub mod checksum;
pub mod subsection;

use vstd::prelude::*;
use crate::lines::checksum::{FileChecksumsSubsection, FileChecksumIter, checksum_names};
use crate::lines::subsection::{SubsectionIter, SubsectionIterMut, find_subsection};
use crate::names::NameIndex;

verus! {

/// Identifies the kind of data in a subsection of C13 Line Data.
#[derive(Copy, Clone, Debug, PartialEq, Eq, Structural, PartialOrd, Ord, Hash)]
pub struct SubsectionKind(pub u32);

/// `DEBUG_S_SYMBOLS`
pub const DEBUG_S_SYMBOLS: u32 = 0xf1;
/// `DEBUG_S_LINES`
pub const DEBUG_S_LINES: u32 = 0xf2;
/// `DEBUG_S_STRINGTABLE`
pub const DEBUG_S_STRINGTABLE: u32 = 0xf3;
/// `DEBUG_S_FILECHKSMS`
pub const DEBUG_S_FILECHKSMS: u32 = 0xf4;
/// `DEBUG_S_FRAMEDATA`
pub const DEBUG_S_FRAMEDATA: u32 = 0xf5;
/// `DEBUG_S_INLINEELINES`
pub const DEBUG_S_INLINEELINES: u32 = 0xf6;
/// `DEBUG_S_CROSSSCOPEIMPORTS`
pub const DEBUG_S_CROSSSCOPEIMPORTS: u32 = 0xf7;
/// `DEBUG_S_CROSSSCOPEEXPORTS`
pub const DEBUG_S_CROSSSCOPEEXPORTS: u32 = 0xf8;
/// `DEBUG_S_IL_LINES`
pub const DEBUG_S_IL_LINES: u32 = 0xf9;
/// `DEBUG_S_FUNC_MDTOKEN_MAP`
pub const DEBUG_S_FUNC_MDTOKEN_MAP: u32 = 0xfa;
/// `DEBUG_S_TYPE_MDTOKEN_MAP`
pub const DEBUG_S_TYPE_MDTOKEN_MAP: u32 = 0xfb;
/// `DEBUG_S_MERGED_ASSEMBLYINPUT`
pub const DEBUG_S_MERGED_ASSEMBLYINPUT: u32 = 0xfc;
/// `DEBUG_S_COFF_SYMBOL_RVA`
pub const DEBUG_S_COFF_SYMBOL_RVA: u32 = 0xfd;

/// C13 Line Data, which holds subsections.
pub struct LineData<'a> {
    bytes: &'a [u8],
}

impl<'a> View for LineData<'a> {
    type V = Seq<u8>;

    closed spec fn view(&self) -> Seq<u8> {
        self.bytes@
    }
}

impl<'a> LineData<'a> {
    /// Starts reading C13 Line Data.
    pub fn new(bytes: &'a [u8]) -> (r: Self)
        ensures
            r@ == bytes@,
    {
        Self { bytes }
    }

    /// Iterates the subsections.
    pub fn subsections(&self) -> (it: SubsectionIter<'a>)
        ensures
            it@ == self@,
    {
        SubsectionIter::new(self.bytes)
    }

    /// Finds the payload of the first `DEBUG_S_FILECHKSMS` subsection, if any.
    pub fn find_checksums_bytes(&self) -> (r: Option<&'a [u8]>)
        ensures
            r matches Some(b) ==> find_subsection(self@, DEBUG_S_FILECHKSMS) == Some(b@),
            r is None ==> find_subsection(self@, DEBUG_S_FILECHKSMS) is None,
    {
        let mut it = SubsectionIter::new(self.bytes);
        loop
            invariant
                find_subsection(it@, DEBUG_S_FILECHKSMS) == find_subsection(self@, DEBUG_S_FILECHKSMS),
            decreases it@.len(),
        {
            let ghost before = it@;
            match it.next() {
                Some(sub) => {
                    if sub.kind.0 == DEBUG_S_FILECHKSMS {
                        return Some(sub.data);
                    }
                },
                None => {
                    return None;
                },
            }
        }
    }

    /// Finds the first `DEBUG_S_FILECHKSMS` subsection, if any.
    pub fn find_checksums(&self) -> (r: Option<FileChecksumsSubsection<'a>>)
        ensures
            r matches Some(c) ==> find_subsection(self@, DEBUG_S_FILECHKSMS) == Some(c@),
            r is None ==> find_subsection(self@, DEBUG_S_FILECHKSMS) is None,
    {
        match self.find_checksums_bytes() {
            Some(b) => Some(FileChecksumsSubsection::new(b)),
            None => None,
        }
    }

    /// The name indexes of the file checksum records, in order. Empty when there is no
    /// `DEBUG_S_FILECHKSMS` subsection.
    pub fn name_indexes(&self) -> (r: Vec<NameIndex>)
        ensures
            r@ == (match find_subsection(self@, DEBUG_S_FILECHKSMS) {
                Some(b) => checksum_names(b),
                None => Seq::empty(),
            }),
    {
        match self.find_checksums_bytes() {
            Some(b) => FileChecksumIter::new(b).names(),
            None => Vec::new(),
        }
    }
}

/// C13 Line Data, with mutable access.
pub struct LineDataMut<'a> {
    /// The Line Data.
    pub bytes: &'a mut [u8],
}

impl<'a> View for LineDataMut<'a> {
    type V = Seq<u8>;

    open spec fn view(&self) -> Seq<u8> {
        self.bytes@
    }
}

impl<'a> LineDataMut<'a> {
    /// Starts reading C13 Line Data, with mutable access. Writes through the subsections that
    /// it hands out reach `bytes`.
    pub fn new(bytes: &'a mut [u8]) -> (r: Self)
        ensures
            r@ == old(bytes)@,
            final(bytes)@ == final(r.bytes)@,
    {
        Self { bytes }
    }

    /// Iterates the subsections, with mutable access.
    pub fn subsections_mut(&mut self) -> (it: SubsectionIterMut<'_>)
        ensures
            it@ == old(self)@,
            final(self)@ == final(it.rest)@,
    {
        SubsectionIterMut::new(&mut *self.bytes)
    }
}

} // verus!
