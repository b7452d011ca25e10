//! The DBI stream: modules, their section contributions and their source files.

pub mod modules;
pub mod sources;

use vstd::prelude::*;
use crate::le::{le_u16, le_u32, read_u16_at, read_u32_at, to_signed, u32_to_i32};

verus! {

/// The size in bytes of an encoded section contribution.
pub const SECTION_CONTRIB_ENTRY_SIZE: usize = 28;

/// Describes a region of a section (in the executable image) that a module contributed.
#[derive(Clone, Copy, Debug)]
pub struct SectionContribEntry {
    /// The section index (1-based).
    pub section: u16,
    /// Alignment padding.
    pub padding1: [u8; 2],
    /// The offset of the contribution within its section.
    pub offset: i32,
    /// The size in bytes of the contribution.
    pub size: i32,
    /// The characteristics of the section (COFF flags).
    pub characteristics: u32,
    /// The index of the module that made the contribution.
    pub module_index: u16,
    /// Alignment padding.
    pub padding2: [u8; 2],
    /// A checksum of the contributed data.
    pub data_crc: u32,
    /// A checksum of the relocations of the contributed data.
    pub reloc_crc: u32,
}

/// `c` is the section contribution that the first 28 bytes of `s` encode.
pub open spec fn decodes_section_contrib(c: SectionContribEntry, s: Seq<u8>) -> bool {
    &&& c.section == le_u16(s)
    &&& c.padding1@ == s.subrange(2, 4)
    &&& c.offset == to_signed(le_u32(s.skip(4)), 0x1_0000_0000)
    &&& c.size == to_signed(le_u32(s.skip(8)), 0x1_0000_0000)
    &&& c.characteristics == le_u32(s.skip(12))
    &&& c.module_index == le_u16(s.skip(16))
    &&& c.padding2@ == s.subrange(18, 20)
    &&& c.data_crc == le_u32(s.skip(20))
    &&& c.reloc_crc == le_u32(s.skip(24))
}

impl SectionContribEntry {
    /// Decodes the section contribution that starts at `off` within `b`.
    pub fn decode_at(b: &[u8], off: usize) -> (c: Self)
        requires
            off + SECTION_CONTRIB_ENTRY_SIZE <= b@.len(),
        ensures
            decodes_section_contrib(c, b@.skip(off as int)),
    {
        let _len = b.len();
        let c = SectionContribEntry {
            section: read_u16_at(b, off),
            padding1: [b[off + 2], b[off + 3]],
            offset: u32_to_i32(read_u32_at(b, off + 4)),
            size: u32_to_i32(read_u32_at(b, off + 8)),
            characteristics: read_u32_at(b, off + 12),
            module_index: read_u16_at(b, off + 16),
            padding2: [b[off + 18], b[off + 19]],
            data_crc: read_u32_at(b, off + 20),
            reloc_crc: read_u32_at(b, off + 24),
        };
        proof {
            let s = b@.skip(off as int);
            assert(c.padding1@ =~= s.subrange(2, 4));
            assert(c.padding2@ =~= s.subrange(18, 20));
            assert(b@.skip(off + 4) =~= s.skip(4));
            assert(b@.skip(off + 8) =~= s.skip(8));
            assert(b@.skip(off + 12) =~= s.skip(12));
            assert(b@.skip(off + 16) =~= s.skip(16));
            assert(b@.skip(off + 20) =~= s.skip(20));
            assert(b@.skip(off + 24) =~= s.skip(24));
        }
        c
    }
}

} // verus!
