//! The `DEBUG_S_LINES` subsection: a header, then blocks of line records, one block per source
//! file.
//!
//! ```text
//! header:  offset (u32), segment (u16), flags (u16), code size (u32)
//! block:   file_index (u32), num_lines (u32), block_size (u32, header included), lines...
//! ```

use vstd::prelude::*;
use crate::le::{decode_u16, decode_u32, le_u16, le_u32};
use crate::parser::ParserError;

verus! {

/// The size of the header of a `DEBUG_S_LINES` subsection.
pub const LINES_HEADER_LEN: usize = 12;

/// The size of the header of a block of lines.
pub const LINE_BLOCK_HEADER_LEN: usize = 12;

/// Whether `s` begins with a complete block: a header whose size field covers at least the
/// header and at most the data.
pub open spec fn has_block(s: Seq<u8>) -> bool {
    s.len() >= 12 && 12 <= le_u32(s.skip(8)) <= s.len()
}

/// The file indexes of the complete blocks at the start of `s`, in order.
pub open spec fn block_file_indexes(s: Seq<u8>) -> Seq<u32>
    decreases s.len(),
{
    if has_block(s) {
        seq![le_u32(s) as u32] + block_file_indexes(s.skip(le_u32(s.skip(8))))
    } else {
        Seq::empty()
    }
}

/// A `DEBUG_S_LINES` subsection.
pub struct LinesSubsection<'a> {
    /// The offset of the code that the lines describe.
    pub offset: u32,
    /// The segment of the code that the lines describe.
    pub segment: u16,
    /// Flags; bit 0 says that the lines have columns.
    pub flags: u16,
    /// The size of the code that the lines describe.
    pub code_size: u32,
    /// The blocks.
    pub blocks_data: &'a [u8],
}

impl<'a> LinesSubsection<'a> {
    /// Reads the header of a `DEBUG_S_LINES` subsection; the blocks follow it.
    pub fn parse(data: &'a [u8]) -> (r: Result<Self, ParserError>)
        ensures
            r is Ok <==> data@.len() >= 12,
            r matches Ok(l) ==> {
                &&& l.offset == le_u32(data@)
                &&& l.segment == le_u16(data@.skip(4))
                &&& l.flags == le_u16(data@.skip(6))
                &&& l.code_size == le_u32(data@.skip(8))
                &&& l.blocks_data@ == data@.skip(12)
            },
    {
        if data.len() < LINES_HEADER_LEN {
            return Err(ParserError::new());
        }
        let seg = vstd::slice::slice_subrange(data, 4, 6);
        let flags = vstd::slice::slice_subrange(data, 6, 8);
        let size = vstd::slice::slice_subrange(data, 8, 12);
        assert(seg@ =~= data@.skip(4).take(2));
        assert(flags@ =~= data@.skip(6).take(2));
        assert(size@ =~= data@.skip(8).take(4));
        Ok(LinesSubsection {
            offset: decode_u32(data),
            segment: decode_u16(seg),
            flags: decode_u16(flags),
            code_size: decode_u32(size),
            blocks_data: vstd::slice::slice_subrange(data, 12, data.len()),
        })
    }

    /// The file index of each block, in order. Iteration stops at a block whose size does not
    /// fit.
    pub fn block_file_indexes(&self) -> (r: Vec<u32>)
        ensures
            r@ == block_file_indexes(self.blocks_data@),
    {
        let mut out: Vec<u32> = Vec::new();
        let mut rest = self.blocks_data;
        loop
            invariant
                out@ + block_file_indexes(rest@) == block_file_indexes(self.blocks_data@),
            decreases rest@.len(),
        {
            if rest.len() < LINE_BLOCK_HEADER_LEN {
                assert(out@ + block_file_indexes(rest@) =~= out@);
                return out;
            }
            let size_bytes = vstd::slice::slice_subrange(rest, 8, 12);
            assert(size_bytes@ =~= rest@.skip(8).take(4));
            let block_size = decode_u32(size_bytes) as usize;
            if block_size < LINE_BLOCK_HEADER_LEN || block_size > rest.len() {
                assert(out@ + block_file_indexes(rest@) =~= out@);
                return out;
            }
            let file_index = decode_u32(rest);
            out.push(file_index);
            let ghost before = rest@;
            rest = vstd::slice::slice_subrange(rest, block_size, rest.len());
            assert(rest@ =~= before.skip(block_size as int));
            assert(out@ + block_file_indexes(rest@) =~= out@.drop_last() + block_file_indexes(before));
        }
    }
}

} // verus!
