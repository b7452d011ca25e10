//! Alignment and padding utilities

use vstd::prelude::*;

verus! {

/// The number of padding bytes after `n` bytes that reach the next multiple of 4.
pub open spec fn padding_to_4(n: int) -> int {
    (4 - n % 4) % 4
}

/// Returns the number of alignment padding bytes that are needed to reach an alignment of 4,
/// given the number of bytes already in a buffer.
pub fn alignment_bytes_needed_4(n: usize) -> (r: usize)
    ensures
        r == padding_to_4(n as int),
        r < 4,
        (n + r) % 4 == 0,
{
    (4 - n % 4) % 4
}

} // verus!
