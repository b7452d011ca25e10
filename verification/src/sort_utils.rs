//! Utilities for sorting: sortedness checks, permutation vectors, and sorting of
//! variable-length records.

use vstd::prelude::*;
use vstd::set_lib::{lemma_int_range, lemma_subset_equality, set_int_range};

verus! {

/// Item `i` is less than or equal to item `i + 1`.
pub open spec fn adjacent_le(s: Seq<u32>, i: int) -> bool {
    s[i] <= s[i + 1]
}

/// Item `i` is less than item `i + 1`.
pub open spec fn adjacent_lt(s: Seq<u32>, i: int) -> bool {
    s[i] < s[i + 1]
}

/// Every item is less than or equal to the next one.
pub open spec fn is_sorted_u32(s: Seq<u32>) -> bool {
    forall|i: int| 0 <= i < s.len() - 1 ==> #[trigger] adjacent_le(s, i)
}

/// Every item is strictly less than the next one.
pub open spec fn is_sorted_unique_u32(s: Seq<u32>) -> bool {
    forall|i: int| 0 <= i < s.len() - 1 ==> #[trigger] adjacent_lt(s, i)
}

/// `p` holds each of `0..n` exactly once.
pub open spec fn is_permutation(p: Seq<u32>, n: int) -> bool {
    &&& p.len() == n
    &&& forall|i: int| 0 <= i < n ==> p[i] < n
    &&& forall|i: int, j: int| 0 <= i < j < n ==> p[i] != p[j]
}

/// `q` undoes `p`: `q[p[i]] == i` and `p[q[j]] == j`.
pub open spec fn is_inverse_permutation(p: Seq<u32>, q: Seq<u32>) -> bool {
    &&& p.len() == q.len()
    &&& forall|i: int| 0 <= i < p.len() ==> p[i] < q.len()
    &&& forall|j: int| 0 <= j < q.len() ==> q[j] < p.len()
    &&& forall|i: int| 0 <= i < p.len() ==> q[p[i] as int] == i
    &&& forall|j: int| 0 <= j < q.len() ==> p[q[j] as int] == j
}

/// The items of `items` read in the order `p`: the result's `i`-th item is `items[p[i]]`.
pub open spec fn spec_reorder<T>(p: Seq<u32>, items: Seq<T>) -> Seq<T> {
    Seq::new(p.len(), |i: int| items[p[i] as int])
}

/// Byte sequences ordered lexicographically (a proper prefix comes first), as slices compare.
pub open spec fn lex_le(a: Seq<u8>, b: Seq<u8>) -> bool
    decreases a.len(),
{
    if a.len() == 0 {
        true
    } else if b.len() == 0 {
        false
    } else if a[0] < b[0] {
        true
    } else if a[0] > b[0] {
        false
    } else {
        lex_le(a.drop_first(), b.drop_first())
    }
}

/// `starts` describes records within a buffer of `len` items: it is non-decreasing and its last
/// entry is `len`.
pub open spec fn valid_starts(starts: Seq<u32>, len: int) -> bool {
    &&& starts.len() >= 1
    &&& starts[starts.len() - 1] == len
    &&& forall|i: int, j: int| 0 <= i <= j < starts.len() ==> starts[i] <= starts[j]
}

/// Record `i` of `records`, as delimited by `starts`.
pub open spec fn record_at<T>(records: Seq<T>, starts: Seq<u32>, i: int) -> Seq<T> {
    records.subrange(starts[i] as int, starts[i + 1] as int)
}

/// The records of `records` concatenated in the order given by `order`.
pub open spec fn concat_records<T>(records: Seq<T>, starts: Seq<u32>, order: Seq<u32>) -> Seq<T>
    decreases order.len(),
{
    if order.len() == 0 {
        Seq::empty()
    } else {
        concat_records(records, starts, order.drop_last()) + record_at(
            records,
            starts,
            order.last() as int,
        )
    }
}

/// Records listed in `order` appear in lexicographic order.
pub open spec fn records_sorted(records: Seq<u8>, starts: Seq<u32>, order: Seq<u32>) -> bool {
    forall|i: int, j: int|
        0 <= i < j < order.len() ==> lex_le(
            record_at(records, starts, order[i] as int),
            record_at(records, starts, order[j] as int),
        )
}

/// The lexicographic order is total.
pub proof fn lemma_lex_le_total(a: Seq<u8>, b: Seq<u8>)
    ensures
        lex_le(a, b) || lex_le(b, a),
    decreases a.len(),
{
    if a.len() > 0 && b.len() > 0 && a[0] == b[0] {
        lemma_lex_le_total(a.drop_first(), b.drop_first());
    }
}

/// The lexicographic order is transitive.
pub proof fn lemma_lex_le_trans(a: Seq<u8>, b: Seq<u8>, c: Seq<u8>)
    requires
        lex_le(a, b),
        lex_le(b, c),
    ensures
        lex_le(a, c),
    decreases a.len(),
{
    if a.len() > 0 && b.len() > 0 && c.len() > 0 && a[0] == b[0] && b[0] == c[0] {
        lemma_lex_le_trans(a.drop_first(), b.drop_first(), c.drop_first());
    }
}

/// Two byte sequences that are each no greater than the other are equal.
pub proof fn lemma_lex_le_antisym(a: Seq<u8>, b: Seq<u8>)
    requires
        lex_le(a, b),
        lex_le(b, a),
    ensures
        a == b,
    decreases a.len(),
{
    if a.len() > 0 && b.len() > 0 {
        lemma_lex_le_antisym(a.drop_first(), b.drop_first());
        assert(a =~= seq![a[0]] + a.drop_first());
        assert(b =~= seq![b[0]] + b.drop_first());
    } else {
        assert(a =~= b);
    }
}

/// Compares two byte slices lexicographically.
pub fn lex_le_slices(a: &[u8], b: &[u8]) -> (r: bool)
    ensures
        r == lex_le(a@, b@),
{
    let mut i: usize = 0;
    assert(a@.skip(0) =~= a@);
    assert(b@.skip(0) =~= b@);
    while i < a.len() && i < b.len()
        invariant
            i <= a@.len(),
            i <= b@.len(),
            lex_le(a@, b@) == lex_le(a@.skip(i as int), b@.skip(i as int)),
        decreases a@.len() - i,
    {
        if a[i] < b[i] {
            return true;
        }
        if a[i] > b[i] {
            return false;
        }
        assert(a@.skip(i as int).drop_first() =~= a@.skip(i + 1));
        assert(b@.skip(i as int).drop_first() =~= b@.skip(i + 1));
        i = i + 1;
    }
    i == a.len()
}

/// A sequence of distinct values below `n`, of length `n`, holds every value below `n`.
pub proof fn lemma_permutation_onto(p: Seq<u32>, n: int, j: int)
    requires
        is_permutation(p, n),
        0 <= j < n,
    ensures
        exists|i: int| 0 <= i < n && p[i] == j,
{
    let s = p.map_values(|x: u32| x as int);
    assert(s.no_duplicates());
    s.unique_seq_to_set();
    lemma_int_range(0, n);
    assert(s.to_set().subset_of(set_int_range(0, n))) by {
        assert forall|x: int| s.to_set().contains(x) implies set_int_range(0, n).contains(x) by {
            let k = choose|k: int| 0 <= k < s.len() && s[k] == x;
        }
    }
    vstd::set_lib::lemma_len_subset(s.to_set(), set_int_range(0, n));
    lemma_subset_equality(s.to_set(), set_int_range(0, n));
    assert(set_int_range(0, n).contains(j));
    assert(s.to_set().contains(j));
    let k = choose|k: int| 0 <= k < s.len() && s[k] == j;
    assert(p[k] == j);
}

/// Verifies that all items in the slice are in sorted order. Duplicates are permitted.
pub fn assert_is_sorted(items: &[u32])
    requires
        is_sorted_u32(items@),
{
    let mut i: usize = 1;
    while i < items.len()
        invariant
            1 <= i,
            is_sorted_u32(items@),
        decreases items@.len() - i,
    {
        assert(adjacent_le(items@, i - 1));
        i = i + 1;
    }
}

/// Verifies that all items in the slice are in strictly-increasing sorted order.
pub fn assert_is_sorted_and_unique(items: &[u32])
    requires
        is_sorted_unique_u32(items@),
{
    let mut i: usize = 1;
    while i < items.len()
        invariant
            1 <= i,
            is_sorted_unique_u32(items@),
        decreases items@.len() - i,
    {
        assert(adjacent_lt(items@, i - 1));
        i = i + 1;
    }
}

/// Checks whether the items are in sorted order (duplicates permitted).
pub fn is_sorted(items: &[u32]) -> (r: bool)
    ensures
        r == is_sorted_u32(items@),
{
    let mut i: usize = 1;
    while i < items.len()
        invariant
            1 <= i,
            forall|k: int| 0 <= k < i - 1 && k < items@.len() - 1 ==> #[trigger] adjacent_le(items@, k),
        decreases items@.len() - i,
    {
        if items[i - 1] > items[i] {
            assert(!adjacent_le(items@, i - 1));
            return false;
        }
        i = i + 1;
    }
    true
}

/// Sorts a sequence of variable-length byte records. Returns a sorted permutation vector: the
/// indexes of the records, in lexicographic order of their contents.
///
/// The `starts` slice gives the index within `records` where each record begins, plus an extra
/// value at the end that is equal to `records.len()`. The number of records is
/// `starts.len() - 1`.
pub fn sort_records(records: &[u8], starts: &[u32]) -> (order: Vec<u32>)
    requires
        valid_starts(starts@, records@.len() as int),
        records@.len() <= u32::MAX,
        starts@.len() <= u32::MAX,
    ensures
        is_permutation(order@, starts@.len() - 1),
        records_sorted(records@, starts@, order@),
{
    let n = starts.len() - 1;
    let lo = vstd::slice::slice_subrange(starts, 0, n);
    let hi = vstd::slice::slice_subrange(starts, 1, n + 1);
    assert forall|i: int| 0 <= i < n implies #[trigger] range_at(records@, lo@, hi@, i) == record_at(
        records@,
        starts@,
        i,
    ) by {}
    let order = sort_ranges(records, lo, hi);
    assert forall|a: int, b: int| 0 <= a < b < order@.len() implies lex_le(
        record_at(records@, starts@, order@[a] as int),
        record_at(records@, starts@, order@[b] as int),
    ) by {
        assert(range_at(records@, lo@, hi@, order@[a] as int) == record_at(records@, starts@, order@[a] as int));
        assert(range_at(records@, lo@, hi@, order@[b] as int) == record_at(records@, starts@, order@[b] as int));
    }
    order
}

/// The bytes of `buf` from `lo[i]` up to `hi[i]`.
pub open spec fn range_at(buf: Seq<u8>, lo: Seq<u32>, hi: Seq<u32>, i: int) -> Seq<u8> {
    buf.subrange(lo[i] as int, hi[i] as int)
}

/// Each pair `lo[i]`, `hi[i]` delimits a range of a buffer of `len` bytes.
pub open spec fn valid_ranges(lo: Seq<u32>, hi: Seq<u32>, len: int) -> bool {
    &&& lo.len() == hi.len()
    &&& forall|i: int| 0 <= i < lo.len() ==> #[trigger] lo[i] <= hi[i] <= len
}

/// The ranges listed in `order` appear in lexicographic order of their contents.
pub open spec fn ranges_sorted(buf: Seq<u8>, lo: Seq<u32>, hi: Seq<u32>, order: Seq<u32>) -> bool {
    forall|i: int, j: int|
        0 <= i < j < order.len() ==> lex_le(
            range_at(buf, lo, hi, order[i] as int),
            range_at(buf, lo, hi, order[j] as int),
        )
}

/// Compares range `a` with range `b`.
fn range_le(buf: &[u8], lo: &[u32], hi: &[u32], a: u32, b: u32) -> (r: bool)
    requires
        valid_ranges(lo@, hi@, buf@.len() as int),
        (a as int) < lo@.len(),
        (b as int) < lo@.len(),
    ensures
        r == lex_le(range_at(buf@, lo@, hi@, a as int), range_at(buf@, lo@, hi@, b as int)),
{
    let ra = vstd::slice::slice_subrange(buf, lo[a as usize] as usize, hi[a as usize] as usize);
    let rb = vstd::slice::slice_subrange(buf, lo[b as usize] as usize, hi[b as usize] as usize);
    lex_le_slices(ra, rb)
}

/// Sorts byte ranges of a buffer by their contents. Returns a permutation vector: the indexes
/// of the ranges, in lexicographic order of their contents. Range `i` runs from `lo[i]` up to
/// `hi[i]`.
pub fn sort_ranges(buf: &[u8], lo: &[u32], hi: &[u32]) -> (order: Vec<u32>)
    requires
        valid_ranges(lo@, hi@, buf@.len() as int),
        lo@.len() <= u32::MAX,
    ensures
        is_permutation(order@, lo@.len() as int),
        ranges_sorted(buf@, lo@, hi@, order@),
{
    let n = lo.len();
    let mut order = identity_permutation_u32(n);
    let mut i: usize = 0;
    while i < n
        invariant
            n == lo@.len(),
            valid_ranges(lo@, hi@, buf@.len() as int),
            i <= n,
            is_permutation(order@, n as int),
            forall|a: int, b: int|
                0 <= a < b < i ==> lex_le(
                    range_at(buf@, lo@, hi@, order@[a] as int),
                    range_at(buf@, lo@, hi@, order@[b] as int),
                ),
            forall|a: int, k: int|
                0 <= a < i <= k < n ==> lex_le(
                    range_at(buf@, lo@, hi@, order@[a] as int),
                    range_at(buf@, lo@, hi@, order@[k] as int),
                ),
        decreases n - i,
    {
        let mut m: usize = i;
        let mut j: usize = i + 1;
        proof {
            let ri = range_at(buf@, lo@, hi@, order@[i as int] as int);
            lemma_lex_le_total(ri, ri);
        }
        while j < n
            invariant
                n == lo@.len(),
                valid_ranges(lo@, hi@, buf@.len() as int),
                i <= m < n,
                i < j <= n,
                m < j,
                is_permutation(order@, n as int),
                forall|k: int|
                    i <= k < j ==> lex_le(
                        range_at(buf@, lo@, hi@, order@[m as int] as int),
                        range_at(buf@, lo@, hi@, order@[k] as int),
                    ),
            decreases n - j,
        {
            if !range_le(buf, lo, hi, order[m], order[j]) {
                proof {
                    let rm = range_at(buf@, lo@, hi@, order@[m as int] as int);
                    let rj = range_at(buf@, lo@, hi@, order@[j as int] as int);
                    lemma_lex_le_total(rm, rj);
                    assert forall|k: int| i <= k < j + 1 implies lex_le(
                        rj,
                        range_at(buf@, lo@, hi@, order@[k] as int),
                    ) by {
                        if k < j {
                            lemma_lex_le_trans(rj, rm, range_at(buf@, lo@, hi@, order@[k] as int));
                        } else {
                            lemma_lex_le_total(rj, rj);
                        }
                    }
                }
                m = j;
            } else {
                proof {
                    let rm = range_at(buf@, lo@, hi@, order@[m as int] as int);
                    assert forall|k: int| i <= k < j + 1 implies lex_le(
                        rm,
                        range_at(buf@, lo@, hi@, order@[k] as int),
                    ) by {
                    }
                }
            }
            j = j + 1;
        }
        let ghost old_order = order@;
        let oi = order[i];
        let om = order[m];
        order.set(i, om);
        order.set(m, oi);
        proof {
            assert forall|a: int| 0 <= a < n implies order@[a] == (if a == i {
                old_order[m as int]
            } else if a == m {
                old_order[i as int]
            } else {
                old_order[a]
            }) by {}
            assert forall|a: int, b: int| 0 <= a < b < n implies order@[a] != order@[b] by {}
            assert forall|a: int, b: int| 0 <= a < b < i + 1 implies lex_le(
                range_at(buf@, lo@, hi@, order@[a] as int),
                range_at(buf@, lo@, hi@, order@[b] as int),
            ) by {
                if b == i {
                    assert(order@[b] == old_order[m as int]);
                }
            }
            assert forall|a: int, k: int| 0 <= a < i + 1 <= k < n implies lex_le(
                range_at(buf@, lo@, hi@, order@[a] as int),
                range_at(buf@, lo@, hi@, order@[k] as int),
            ) by {
                if a < i {
                    if k == m {
                        assert(order@[k] == old_order[i as int]);
                    }
                } else {
                    if k == m {
                        assert(order@[k] == old_order[i as int]);
                    }
                }
            }
        }
        i = i + 1;
    }
    order
}

/// Reads a sequence of variable-length records and writes them to `dst_records`, in the order
/// given by `order`.
///
/// The `src_starts` slice gives the index within `src_records` where each record begins, plus a
/// final entry equal to `src_records.len()`. The records named by `order` must exactly fill
/// `dst_records`.
pub fn reorder_records<T: Copy>(
    src_records: &[T],
    dst_records: &mut [T],
    src_starts: &[u32],
    order: &[u32],
)
    requires
        valid_starts(src_starts@, src_records@.len() as int),
        src_records@.len() == old(dst_records)@.len(),
        src_starts@.len() == order@.len() + 1,
        forall|k: int| 0 <= k < order@.len() ==> order@[k] < order@.len(),
        concat_records(src_records@, src_starts@, order@).len() == old(dst_records)@.len(),
    ensures
        final(dst_records)@ == concat_records(src_records@, src_starts@, order@),
{
    let ghost full = concat_records(src_records@, src_starts@, order@);
    let mut pos: usize = 0;
    let mut k: usize = 0;
    let dst_len = dst_records.len();
    while k < order.len()
        invariant
            valid_starts(src_starts@, src_records@.len() as int),
            src_starts@.len() == order@.len() + 1,
            forall|q: int| 0 <= q < order@.len() ==> order@[q] < order@.len(),
            full == concat_records(src_records@, src_starts@, order@),
            full.len() == dst_len,
            dst_records@.len() == dst_len,
            k <= order@.len(),
            pos == concat_records(src_records@, src_starts@, order@.take(k as int)).len(),
            dst_records@.take(pos as int) == concat_records(
                src_records@,
                src_starts@,
                order@.take(k as int),
            ),
        decreases order@.len() - k,
    {
        let i = order[k] as usize;
        let start = src_starts[i] as usize;
        let end = src_starts[i + 1] as usize;
        proof {
            lemma_concat_prefix_len(src_records@, src_starts@, order@, k as int + 1);
            assert(order@.take(k + 1).drop_last() =~= order@.take(k as int));
            assert(order@.take(k + 1).last() == order@[k as int]);
        }
        let ghost prefix = dst_records@.take(pos as int);
        let mut t: usize = start;
        while t < end
            invariant
                start <= t <= end,
                end <= src_records@.len(),
                dst_records@.len() == dst_len,
                pos + (end - start) <= dst_len,
                dst_records@.take(pos as int) == prefix,
                dst_records@.subrange(pos as int, pos + (t - start)) == src_records@.subrange(
                    start as int,
                    t as int,
                ),
            decreases end - t,
        {
            let ghost before = dst_records@;
            dst_records[pos + (t - start)] = src_records[t];
            proof {
                assert(dst_records@.take(pos as int) =~= before.take(pos as int));
                assert(dst_records@.subrange(pos as int, pos + (t + 1 - start)) =~= src_records@.subrange(
                    start as int,
                    t + 1,
                ));
            }
            t = t + 1;
        }
        proof {
            assert(dst_records@.take(pos + (end - start)) =~= prefix + src_records@.subrange(
                start as int,
                end as int,
            ));
        }
        pos = pos + (end - start);
        k = k + 1;
    }
    proof {
        assert(order@.take(order@.len() as int) =~= order@);
        assert(dst_records@.take(pos as int) =~= dst_records@);
    }
}

/// The concatenation of a prefix of the order is no longer than the whole concatenation.
pub proof fn lemma_concat_prefix_len<T>(records: Seq<T>, starts: Seq<u32>, order: Seq<u32>, k: int)
    requires
        0 <= k <= order.len(),
        valid_starts(starts, records.len() as int),
        forall|q: int| 0 <= q < order.len() ==> order[q] < starts.len() - 1,
    ensures
        concat_records(records, starts, order.take(k)).len() <= concat_records(
            records,
            starts,
            order,
        ).len(),
    decreases order.len() - k,
{
    if k < order.len() {
        lemma_concat_prefix_len(records, starts, order, k + 1);
        assert(order.take(k + 1).drop_last() =~= order.take(k));
    } else {
        assert(order.take(k) =~= order);
    }
}

/// The total length of the records listed in `order`.
pub open spec fn record_lens_sum(starts: Seq<u32>, order: Seq<u32>) -> int
    decreases order.len(),
{
    if order.len() == 0 {
        0
    } else {
        record_lens_sum(starts, order.drop_last()) + (starts[order.last() + 1] - starts[order.last() as int])
    }
}

/// The concatenation of the records listed in `order` is as long as their lengths add up to.
pub proof fn lemma_concat_len<T>(records: Seq<T>, starts: Seq<u32>, order: Seq<u32>)
    requires
        valid_starts(starts, records.len() as int),
        forall|q: int| 0 <= q < order.len() ==> order[q] < starts.len() - 1,
    ensures
        concat_records(records, starts, order).len() == record_lens_sum(starts, order),
    decreases order.len(),
{
    if order.len() > 0 {
        lemma_concat_len(records, starts, order.drop_last());
    }
}

/// Taking one item out of `order` takes its record's length out of the total.
proof fn lemma_lens_sum_remove(starts: Seq<u32>, order: Seq<u32>, p: int)
    requires
        0 <= p < order.len(),
        forall|q: int| 0 <= q < order.len() ==> order[q] < starts.len() - 1,
    ensures
        record_lens_sum(starts, order) == record_lens_sum(starts, order.remove(p)) + (starts[order[p]
            + 1] - starts[order[p] as int]),
    decreases order.len(),
{
    if p == order.len() - 1 {
        assert(order.remove(p) =~= order.drop_last());
    } else {
        lemma_lens_sum_remove(starts, order.drop_last(), p);
        assert(order.drop_last().remove(p) =~= order.remove(p).drop_last());
        assert(order.remove(p).last() == order.last());
    }
}

/// Whatever order a permutation lists the records in, their lengths add up to the length of
/// the whole buffer that they divide.
pub proof fn lemma_lens_sum_permutation(starts: Seq<u32>, order: Seq<u32>, n: int)
    requires
        is_permutation(order, n),
        starts.len() > n,
    ensures
        record_lens_sum(starts, order) == starts[n] - starts[0],
    decreases n,
{
    if n > 0 {
        lemma_permutation_onto(order, n, n - 1);
        let p = choose|p: int| 0 <= p < n && order[p] == n - 1;
        lemma_lens_sum_remove(starts, order, p);
        let rest = order.remove(p);
        assert forall|i: int| 0 <= i < n - 1 implies rest[i] < n - 1 by {
            if i < p {
                assert(rest[i] == order[i]);
            } else {
                assert(rest[i] == order[i + 1]);
            }
        }
        assert forall|i: int, j: int| 0 <= i < j < n - 1 implies rest[i] != rest[j] by {
            if j < p {
            } else if i < p {
                assert(rest[j] == order[j + 1]);
            } else {
                assert(rest[i] == order[i + 1]);
                assert(rest[j] == order[j + 1]);
            }
        }
        lemma_lens_sum_permutation(starts, rest, n - 1);
    }
}

/// Reorders a sequence of variable-length records in-place, using a given order vector.
///
/// This copies the records to temporary storage first.
pub fn reorder_records_inplace<T: Copy>(records: &mut [T], starts: &[u32], order: &[u32])
    requires
        valid_starts(starts@, old(records)@.len() as int),
        starts@.len() == order@.len() + 1,
        forall|k: int| 0 <= k < order@.len() ==> order@[k] < order@.len(),
        concat_records(old(records)@, starts@, order@).len() == old(records)@.len(),
    ensures
        final(records)@ == concat_records(old(records)@, starts@, order@),
{
    let old_records = vstd::slice::slice_to_vec(&*records);
    reorder_records(old_records.as_slice(), records, starts, order);
}

/// Checks that `p` is a permutation vector.
pub fn assert_is_permutation_u32(p: &[u32])
    requires
        is_permutation(p@, p@.len() as int),
{
    let n = p.len();
    let mut found: Vec<bool> = vec![false; n];
    let mut k: usize = 0;
    while k < n
        invariant
            n == p@.len(),
            is_permutation(p@, n as int),
            k <= n,
            found@.len() == n,
            forall|j: int| 0 <= j < n ==> (found@[j] <==> exists|q: int| 0 <= q < k && p@[q] == j),
        decreases n - k,
    {
        let i = p[k] as usize;
        assert(!found@[i as int]);
        found.set(i, true);
        proof {
            assert forall|j: int| 0 <= j < n implies (found@[j] <==> exists|q: int|
                0 <= q < k + 1 && p@[q] == j) by {
                if j == i {
                    assert(p@[k as int] == j);
                } else {
                    if found@[j] {
                        let q = choose|q: int| 0 <= q < k && p@[q] == j;
                        assert(0 <= q < k + 1 && p@[q] == j);
                    }
                }
            }
        }
        k = k + 1;
    }
    let mut j: usize = 0;
    while j < n
        invariant
            n == p@.len(),
            is_permutation(p@, n as int),
            j <= n,
            found@.len() == n,
            forall|x: int| 0 <= x < n ==> (found@[x] <==> exists|q: int| 0 <= q < n && p@[q] == x),
        decreases n - j,
    {
        proof {
            lemma_permutation_onto(p@, n as int, j as int);
        }
        assert(found@[j as int]);
        j = j + 1;
    }
}

/// Checks that `p` is a permutation vector, in builds with debug assertions.
pub fn debug_assert_is_permutation_u32(p: &[u32])
    requires
        is_permutation(p@, p@.len() as int),
{
    assert_is_permutation_u32(p);
}

/// Inverts a permutation vector, stored in `u32`.
pub fn invert_permutation_u32(p: &[u32]) -> (inv: Vec<u32>)
    requires
        p@.len() < u32::MAX,
        is_permutation(p@, p@.len() as int),
    ensures
        is_permutation(inv@, p@.len() as int),
        is_inverse_permutation(p@, inv@),
{
    let n = p.len();
    let mut inv: Vec<u32> = vec![u32::MAX; n];
    let mut i: usize = 0;
    while i < n
        invariant
            n == p@.len(),
            n < u32::MAX,
            is_permutation(p@, n as int),
            i <= n,
            inv@.len() == n,
            forall|q: int| 0 <= q < i ==> inv@[p@[q] as int] == q,
            forall|x: int|
                0 <= x < n ==> (inv@[x] == u32::MAX || (inv@[x] < i && p@[inv@[x] as int] == x)),
            forall|x: int| 0 <= x < n && inv@[x] != u32::MAX ==> exists|q: int| 0 <= q < i && p@[q] == x,
            forall|q: int| 0 <= q < n && i <= q ==> inv@[p@[q] as int] == u32::MAX,
        decreases n - i,
    {
        let j = p[i] as usize;
        assert(inv@[j as int] == u32::MAX);
        inv.set(j, i as u32);
        proof {
            assert forall|q: int| 0 <= q < n && i + 1 <= q implies inv@[p@[q] as int] == u32::MAX by {
                assert(p@[q] != p@[i as int]);
            }
            assert forall|x: int| 0 <= x < n && inv@[x] != u32::MAX implies exists|q: int|
                0 <= q < i + 1 && p@[q] == x by {
                if x == j {
                    assert(p@[i as int] == x);
                }
            }
        }
        i = i + 1;
    }
    proof {
        assert forall|x: int| 0 <= x < n implies inv@[x] != u32::MAX by {
            lemma_permutation_onto(p@, n as int, x);
            let q = choose|q: int| 0 <= q < n && p@[q] == x;
            assert(inv@[p@[q] as int] == q);
        }
        assert forall|a: int, b: int| 0 <= a < b < n implies inv@[a] != inv@[b] by {
            assert(p@[inv@[a] as int] == a);
            assert(p@[inv@[b] as int] == b);
        }
    }
    inv
}

/// Creates the identity permutation of `n` elements.
pub fn identity_permutation_u32(n: usize) -> (p: Vec<u32>)
    requires
        n <= u32::MAX,
    ensures
        p@.len() == n,
        forall|i: int| 0 <= i < n ==> p@[i] == i,
        is_permutation(p@, n as int),
{
    let mut p: Vec<u32> = Vec::new();
    let mut i: usize = 0;
    while i < n
        invariant
            n <= u32::MAX,
            i <= n,
            p@.len() == i,
            forall|k: int| 0 <= k < i ==> p@[k] == k,
        decreases n - i,
    {
        p.push(i as u32);
        i = i + 1;
    }
    p
}

/// Reorders a set of copyable items, using a permutation `p`: the `i`-th output item is
/// `items[p[i]]`.
pub fn reorder_copy_u32<T: Copy>(p: &[u32], items: &[T]) -> (out: Vec<T>)
    requires
        p@.len() == items@.len(),
        forall|i: int| 0 <= i < p@.len() ==> p@[i] < items@.len(),
    ensures
        out@ == spec_reorder(p@, items@),
{
    let mut output: Vec<T> = Vec::new();
    let mut k: usize = 0;
    while k < p.len()
        invariant
            p@.len() == items@.len(),
            forall|i: int| 0 <= i < p@.len() ==> p@[i] < items@.len(),
            k <= p@.len(),
            output@ == spec_reorder(p@.take(k as int), items@),
        decreases p@.len() - k,
    {
        output.push(items[p[k] as usize]);
        k = k + 1;
        assert(output@ =~= spec_reorder(p@.take(k as int), items@));
    }
    assert(p@.take(p@.len() as int) =~= p@);
    output
}

/// Reordering by a permutation and then by its inverse gives back the original items.
pub proof fn lemma_reorder_by_inverse_restores<T>(p: Seq<u32>, q: Seq<u32>, items: Seq<T>)
    requires
        is_permutation(p, items.len() as int),
        is_inverse_permutation(p, q),
    ensures
        spec_reorder(q, spec_reorder(p, items)) == items,
{
    assert(spec_reorder(q, spec_reorder(p, items)) =~= items);
}

/// Inverting the inverse of a permutation gives back the permutation.
pub proof fn lemma_inverse_of_inverse(p: Seq<u32>, q: Seq<u32>)
    requires
        is_inverse_permutation(p, q),
    ensures
        is_inverse_permutation(q, p),
{
}

} // verus!
