//! Indexes into the `/names` stream (the global string table of a PDB).

use vstd::prelude::*;

verus! {

/// A byte offset into the `/names` stream, identifying a string.
#[derive(Copy, Clone, Debug, PartialEq, Eq, Structural, PartialOrd, Ord, Hash)]
pub struct NameIndex(pub u32);

} // verus!
