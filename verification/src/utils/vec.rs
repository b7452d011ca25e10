//! Utilities for `Vec`

use vstd::prelude::*;

verus! {

/// Replaces the `old_len` values at `start` in `v` with `values`. The old and new ranges can be
/// different sizes.
pub fn replace_range_copy<T: Copy>(v: &mut Vec<T>, start: usize, old_len: usize, values: &[T])
    requires
        start <= old(v)@.len(),
        old_len <= old(v)@.len() - start,
    ensures
        final(v)@ == old(v)@.take(start as int) + values@ + old(v)@.skip(start + old_len),
{
    let ghost orig = v@;
    let vlen = v.len();
    let end = start + old_len;
    let mut out: Vec<T> = Vec::new();
    let mut i: usize = 0;
    while i < start
        invariant
            v@ == orig,
            start <= orig.len(),
            i <= start,
            out@ == orig.take(i as int),
        decreases start - i,
    {
        out.push(v[i]);
        i = i + 1;
        assert(out@ =~= orig.take(i as int));
    }
    let mut j: usize = 0;
    while j < values.len()
        invariant
            v@ == orig,
            j <= values@.len(),
            out@ == orig.take(start as int) + values@.take(j as int),
        decreases values@.len() - j,
    {
        out.push(values[j]);
        j = j + 1;
        assert(out@ =~= orig.take(start as int) + values@.take(j as int));
    }
    let mut k: usize = end;
    while k < v.len()
        invariant
            v@ == orig,
            end == start + old_len,
            start + old_len <= k <= orig.len(),
            out@ == orig.take(start as int) + values@ + orig.subrange(start + old_len, k as int),
        decreases orig.len() - k,
    {
        out.push(v[k]);
        k = k + 1;
        assert(out@ =~= orig.take(start as int) + values@ + orig.subrange(
            start + old_len,
            k as int,
        ));
    }
    assert(values@.take(values@.len() as int) =~= values@);
    assert(orig.subrange(start + old_len, orig.len() as int) =~= orig.skip(start + old_len));
    *v = out;
}

} // verus!
