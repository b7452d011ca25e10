//! CodeView type records and type indexes.

pub mod iter;
pub mod kind;
pub mod number;
pub mod primitive;
pub mod records;
pub mod visitor;

use vstd::prelude::*;
use crate::text::{hex_padded, push_hex, push_str};
use crate::types::primitive::{dump_primitive_type_index, primitive_dump};

verus! {

/// A 32-bit index into a type stream (or a primitive type).
#[derive(Copy, Clone, Debug, PartialEq, Eq, Structural, PartialOrd, Ord, Hash)]
pub struct TypeIndex(pub u32);

/// The lowest type index of a record in a type stream; the lower values denote primitive types.
pub const TYPE_INDEX_MIN_BEGIN: u32 = 0x1000;

/// How a type index is shown: a primitive type by its description, any other index as `T#0x`
/// followed by its value in hexadecimal.
pub open spec fn type_index_debug(t: TypeIndex) -> Seq<char> {
    if t.0 < TYPE_INDEX_MIN_BEGIN {
        primitive_dump(t.0)
    } else {
        "T#0x"@ + hex_padded(t.0 as nat, 0)
    }
}

impl TypeIndex {
    /// The text that shows this type index (see `type_index_debug`).
    pub fn to_debug_string(&self) -> (s: String)
        ensures
            s@ == type_index_debug(*self),
    {
        let mut s = String::new();
        if self.0 < TYPE_INDEX_MIN_BEGIN {
            dump_primitive_type_index(&mut s, *self);
        } else {
            push_str(&mut s, "T#0x");
            push_hex(&mut s, self.0 as u64, 0);
        }
        s
    }
}

} // verus!
