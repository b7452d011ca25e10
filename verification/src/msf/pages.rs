//! Page allocation: the Free Page Map and the states of the pages of an MSF file.

use vstd::prelude::*;
use bitvec::order::Lsb0;
use bitvec::vec::BitVec;
use vstd::arithmetic::power2::pow2;
use crate::msf::{pages_for_stream_size, PageSize, NIL_STREAM_SIZE};

verus! {

/// The largest length of a bit-vector (`BitSlice::MAX_BITS`): three bits of a length are taken
/// for the bit offset within the first element.
pub open spec fn max_bitvec_len() -> int {
    (usize::MAX / 8) as int
}

/// A vector of bits, one per page, held in a `bitvec` bit-vector (with `u32` elements, least
/// significant bit first).
#[verifier::external_body]
pub struct PageBits {
    bits: BitVec<u32, Lsb0>,
}

/// The bits that a `PageBits` holds, in order.
pub uninterp spec fn page_bits(b: PageBits) -> Seq<bool>;

impl PageBits {
    /// `BitVec::repeat`: `len` copies of `bit`.
    #[verifier::external_body]
    pub fn repeat(bit: bool, len: usize) -> (b: Self)
        requires
            len <= max_bitvec_len(),
        ensures
            page_bits(b) == Seq::new(len as nat, |i: int| bit),
    {
        PageBits { bits: BitVec::repeat(bit, len) }
    }

    /// `BitVec::len`: the number of bits.
    #[verifier::external_body]
    pub fn len(&self) -> (n: usize)
        ensures
            n == page_bits(*self).len(),
    {
        self.bits.len()
    }

    /// Indexing a `BitSlice`: bit `i`.
    #[verifier::external_body]
    pub fn get(&self, i: usize) -> (v: bool)
        requires
            i < page_bits(*self).len(),
        ensures
            v == page_bits(*self)[i as int],
    {
        self.bits[i]
    }

    /// `BitSlice::set`: sets bit `i` to `v`.
    #[verifier::external_body]
    pub fn set(&mut self, i: usize, v: bool)
        requires
            i < page_bits(*old(self)).len(),
        ensures
            page_bits(*final(self)) == page_bits(*old(self)).update(i as int, v),
    {
        self.bits.set(i, v)
    }

    /// `BitVec::push`: appends `v`.
    #[verifier::external_body]
    pub fn push(&mut self, v: bool)
        requires
            page_bits(*old(self)).len() + 1 <= max_bitvec_len(),
        ensures
            page_bits(*final(self)) == page_bits(*old(self)).push(v),
    {
        self.bits.push(v)
    }

    /// `BitVec::resize`: extends with copies of `v`, or truncates, to `new_len` bits.
    #[verifier::external_body]
    pub fn resize(&mut self, new_len: usize, v: bool)
        requires
            new_len <= max_bitvec_len(),
        ensures
            page_bits(*final(self)) == if new_len > page_bits(*old(self)).len() {
                page_bits(*old(self)) + Seq::new((new_len - page_bits(*old(self)).len()) as nat, |i: int| v)
            } else {
                page_bits(*old(self)).take(new_len as int)
            },
    {
        self.bits.resize(new_len, v)
    }

    /// `BitSlice::first_one` on the bits from `start` on: the offset (from `start`) of the first
    /// set bit, if there is one.
    #[verifier::external_body]
    pub fn first_one_from(&self, start: usize) -> (r: Option<usize>)
        requires
            start <= page_bits(*self).len(),
        ensures
            r matches Some(k) ==> start + k < page_bits(*self).len() && page_bits(*self)[start + k]
                && forall|j: int| start <= j < start + k ==> !page_bits(*self)[j],
            r is None ==> forall|j: int| start <= j < page_bits(*self).len() ==> !page_bits(*self)[j],
    {
        self.bits[start..].first_one()
    }
}

/// Page `i` is one of the two pages of the Free Page Maps that each interval holds: the second
/// and third pages of the interval (an interval is as many pages long as a page has bytes).
pub open spec fn is_fpm_page(i: int, page_size: int) -> bool {
    i >= 1 && ((i - 1) % page_size == 0 || (i >= 2 && (i - 2) % page_size == 0))
}

/// The residue of `x` (between `-ps` and `2 * ps`) modulo `ps`.
proof fn lemma_small_residue(x: int, ps: int)
    requires
        ps > 0,
        -ps <= x < 2 * ps,
    ensures
        x % ps == if x < 0 {
            x + ps
        } else if x < ps {
            x
        } else {
            x - ps
        },
{
    if x < 0 {
        vstd::arithmetic::div_mod::lemma_fundamental_div_mod_converse(x, ps, -1, x + ps);
    } else if x < ps {
        vstd::arithmetic::div_mod::lemma_fundamental_div_mod_converse(x, ps, 0, x);
    } else {
        vstd::arithmetic::div_mod::lemma_fundamental_div_mod_converse(x, ps, 1, x - ps);
    }
}

/// A page whose index within its interval is neither 1 nor 2 is not an FPM page.
proof fn lemma_not_fpm_page(j: int, ps: int)
    requires
        ps >= 4,
        j >= 1,
        j % ps != 1,
        j % ps != 2,
    ensures
        !is_fpm_page(j, ps),
{
    let r = j % ps;
    vstd::arithmetic::div_mod::lemma_mod_bound(j, ps);
    vstd::arithmetic::div_mod::lemma_sub_mod_noop(j, 1, ps);
    vstd::arithmetic::div_mod::lemma_sub_mod_noop(j, 2, ps);
    lemma_small_residue(1, ps);
    lemma_small_residue(2, ps);
    lemma_small_residue(r - 1, ps);
    lemma_small_residue(r - 2, ps);
}

/// The pages that `alloc_pages` adds at the end of the file are not FPM pages.
proof fn lemma_new_pages_not_fpm(n: int, ps: int, skip: int, count: int)
    requires
        ps >= 4,
        n >= 1,
        skip == (if n % ps == 1 {
            2int
        } else if n % ps == 2 {
            1int
        } else {
            0int
        }),
        0 <= count,
        count <= (if n % ps == 0 {
            1int
        } else if n % ps == 1 || n % ps == 2 {
            ps - 2
        } else {
            ps - n % ps + 1
        }),
    ensures
        forall|j: int| n + skip <= j < n + skip + count ==> !(j == 0 || is_fpm_page(j, ps)),
{
    assert forall|j: int| n + skip <= j < n + skip + count implies !(j == 0 || is_fpm_page(j, ps)) by {
        let t = j - n;
        vstd::arithmetic::div_mod::lemma_mod_bound(n, ps);
        vstd::arithmetic::div_mod::lemma_add_mod_noop_right(t, n, ps);
        lemma_small_residue(t + n % ps, ps);
        assert(j % ps == (t + n % ps) % ps);
        lemma_not_fpm_page(j, ps);
    }
}

/// `s` with the bits from `lo` up to `hi` set to `v`.
pub open spec fn set_range(s: Seq<bool>, lo: int, hi: int, v: bool) -> Seq<bool> {
    Seq::new(s.len(), |i: int| if lo <= i < hi { v } else { s[i] })
}

/// Whether page `k` of a list of stream pages cannot be marked busy in a Free Page Map `fpm`: it
/// is out of range, not free, or an earlier entry of the list already names it.
pub open spec fn bad_stream_page(pages: Seq<u32>, fpm: Seq<bool>, k: int) -> bool {
    ||| pages[k] >= fpm.len()
    ||| !fpm[pages[k] as int]
    ||| exists|j: int| 0 <= j < k && pages[j] == pages[k]
}

/// Why a page could not be marked.
#[derive(Clone, Copy, Debug, PartialEq, Eq, Structural)]
pub enum PageMarkError {
    /// The page number is not below the number of pages.
    OutOfRange(u32),
    /// The page is already marked busy.
    AlreadyBusy(u32),
    /// The page is already marked freed.
    AlreadyFreed(u32),
    /// The page is marked both free and freed.
    IllegalState(u32),
}

/// Contains state for allocating pages.
///
/// The `fpm`, `fpm_freed` and `fresh` bit vectors all describe the state of pages. These are
/// parallel vectors; the same index in each vector is related to the same page. Each page is
/// FREE (`fpm` set, `fpm_freed` clear: not used by any stream), BUSY (both clear: used by a
/// stream), or DELETING (`fpm` clear, `fpm_freed` set: used by the committed state of some stream,
/// but deleted in the uncommitted state). `fresh` tells whether a page has been allocated since
/// the last commit, and may be written.
pub struct PageAllocator {
    /// Free Page Map (FPM): the pages in the MSF that are free.
    pub fpm: PageBits,
    /// The pages that are valid in the committed state but have been deleted in the uncommitted
    /// state.
    pub fpm_freed: PageBits,
    /// The pages that have been allocated, and may be written.
    pub fresh: PageBits,
    /// The index of the next page to check in the Free Page Map, when allocating pages.
    pub next_free_page_hint: u32,
    /// The number of valid pages in the file.
    pub num_pages: u32,
    /// The page size.
    pub page_size: PageSize,
}

/// Bit `idx` of a Free Page Map as it is written: the bits beyond the last page read as free.
pub open spec fn fpm_bit_written(bits: Seq<bool>, idx: int) -> bool {
    idx >= bits.len() || bits[idx]
}

/// The value of `k` bits of a Free Page Map as written, from bit `start` on, least significant
/// bit first.
pub open spec fn fpm_bits_value(bits: Seq<bool>, start: int, k: nat) -> int
    decreases k,
{
    if k == 0 {
        0
    } else {
        (if fpm_bit_written(bits, start) {
            1int
        } else {
            0int
        }) + 2 * fpm_bits_value(bits, start + 1, (k - 1) as nat)
    }
}

/// What `alloc_pages` does when `a` is asked for `wanted` pages, giving `b` and the first page
/// and number of pages `r`: it takes the first free page at or after the hint, with the free
/// pages that follow it, up to `wanted`; when there is none, it adds pages at the end of the file,
/// up to the end of the current interval, stepping over the pages of the Free Page Maps.
pub open spec fn alloc_outcome(a: PageAllocator, b: PageAllocator, wanted: u32, r: (u32, u32)) -> bool {
    let f = page_bits(a.fpm);
    let hint = a.next_free_page_hint as int;
    let n = a.num_pages as int;
    let (p0, run) = r;
    if exists|p: int| hint <= p < n && f[p] {
        &&& hint <= p0 < n
        &&& f[p0 as int]
        &&& forall|j: int| hint <= j < p0 ==> !f[j]
        &&& 1 <= run <= wanted
        &&& p0 + run <= n
        &&& forall|j: int| p0 <= j < p0 + run ==> f[j]
        &&& (run < wanted && p0 + run < n) ==> !f[p0 + run]
        &&& page_bits(b.fpm) == set_range(f, p0 as int, p0 + run, false)
        &&& page_bits(b.fresh) == set_range(
            page_bits(a.fresh),
            p0 as int,
            p0 + run,
            true,
        )
        &&& page_bits(b.fpm_freed) == page_bits(a.fpm_freed)
        &&& b.num_pages == n
        &&& b.next_free_page_hint == p0 + run
    } else {
        let ps = pow2(a.page_size@) as int;
        let phase = n % ps;
        let skip: int = if phase == 1 {
            2
        } else if phase == 2 {
            1
        } else {
            0
        };
        let avail: int = if phase == 0 {
            1
        } else if phase == 1 || phase == 2 {
            ps - 2
        } else {
            ps - phase + 1
        };
        let count: int = if avail < wanted {
            avail
        } else {
            wanted as int
        };
        &&& p0 == n + skip
        &&& run == count
        &&& b.num_pages == n + skip + count
        &&& b.next_free_page_hint == b.num_pages
        &&& page_bits(b.fpm) == f + Seq::new((skip + count) as nat, |i: int| false)
        &&& page_bits(b.fpm_freed) == page_bits(a.fpm_freed) + Seq::new(
            (skip + count) as nat,
            |i: int| false,
        )
        &&& page_bits(b.fresh) == page_bits(a.fresh) + Seq::new(
            (skip + count) as nat,
            |i: int| true,
        )
    }
}

impl PageAllocator {
    /// The bit vectors all have one bit per page, and the hint lies within the pages.
    pub open spec fn wf(&self) -> bool {
        &&& page_bits(self.fpm).len() == self.num_pages
        &&& page_bits(self.fpm_freed).len() == self.num_pages
        &&& page_bits(self.fresh).len() == self.num_pages
        &&& self.next_free_page_hint <= self.num_pages
    }

    /// The allocator's invariants (beyond `wf`): there is at least one page; Page 0 and the pages
    /// of the Free Page Maps are busy and never freed; and no page is both free and freed.
    pub open spec fn invariants(&self) -> bool {
        let fpm = page_bits(self.fpm);
        let freed = page_bits(self.fpm_freed);
        let ps = pow2(self.page_size@) as int;
        &&& self.wf()
        &&& self.num_pages > 0
        &&& !fpm[0] && !freed[0]
        &&& forall|i: int| 0 <= i < self.num_pages && is_fpm_page(i, ps) ==> !fpm[i] && !freed[i]
        &&& forall|i: int| 0 <= i < self.num_pages ==> !(fpm[i] && freed[i])
    }

    /// Creates the page state for a file of `num_pages` pages: every page is free, except Page 0
    /// and the pages of the Free Page Maps, which are busy. Nothing is freed or fresh.
    pub fn new(num_pages: usize, page_size: PageSize) -> (a: Self)
        requires
            1 <= num_pages <= u32::MAX,
            num_pages <= max_bitvec_len(),
        ensures
            a.wf(),
            a.invariants(),
            a.num_pages == num_pages,
            a.page_size == page_size,
            a.next_free_page_hint == 0,
            page_bits(a.fpm) == Seq::new(
                num_pages as nat,
                |i: int| !(i == 0 || is_fpm_page(i, pow2(page_size@) as int)),
            ),
            page_bits(a.fpm_freed) == Seq::new(num_pages as nat, |i: int| false),
            page_bits(a.fresh) == Seq::new(num_pages as nat, |i: int| false),
    {
        let ps = page_size.bytes() as usize;
        let mut fpm = PageBits::repeat(true, num_pages);
        let mut i: usize = 0;
        while i < num_pages
            invariant
                i <= num_pages,
                ps == pow2(page_size@),
                ps > 0,
                page_bits(fpm).len() == num_pages,
                forall|j: int|
                    0 <= j < num_pages ==> #[trigger] page_bits(fpm)[j] == if j < i {
                        !(j == 0 || is_fpm_page(j, ps as int))
                    } else {
                        true
                    },
            decreases num_pages - i,
        {
            let busy = i == 0 || (i - 1) % ps == 0 || (i >= 2 && (i - 2) % ps == 0);
            if busy {
                fpm.set(i, false);
            }
            i = i + 1;
        }
        assert(page_bits(fpm) =~= Seq::new(
            num_pages as nat,
            |i: int| !(i == 0 || is_fpm_page(i, pow2(page_size@) as int)),
        ));
        PageAllocator {
            fpm,
            fpm_freed: PageBits::repeat(false, num_pages),
            fresh: PageBits::repeat(false, num_pages),
            next_free_page_hint: 0,
            num_pages: num_pages as u32,
            page_size,
        }
    }

    /// Marks a page of the Stream Directory (or, for big MSF, of its page map) as "busy but
    /// freed": such pages become unused after the next successful commit. The page must be
    /// within range, free, and not already freed.
    pub fn init_mark_stream_dir_page_busy(&mut self, page: u32) -> (r: Result<(), PageMarkError>)
        requires
            old(self).wf(),
        ensures
            final(self).wf(),
            old(self).invariants() ==> final(self).invariants(),
            final(self).num_pages == old(self).num_pages,
            final(self).next_free_page_hint == old(self).next_free_page_hint,
            final(self).page_size == old(self).page_size,
            page_bits(final(self).fresh) == page_bits(old(self).fresh),
            page >= old(self).num_pages ==> r == Err::<(), PageMarkError>(PageMarkError::OutOfRange(page))
                && *final(self) == *old(self),
            page < old(self).num_pages && !page_bits(old(self).fpm)[page as int] ==> r == Err::<
                (),
                PageMarkError,
            >(PageMarkError::AlreadyBusy(page)) && *final(self) == *old(self),
            page < old(self).num_pages && page_bits(old(self).fpm)[page as int] && page_bits(
                old(self).fpm_freed,
            )[page as int] ==> r == Err::<(), PageMarkError>(PageMarkError::AlreadyFreed(page))
                && page_bits(final(self).fpm) == page_bits(old(self).fpm).update(page as int, false)
                && page_bits(final(self).fpm_freed) == page_bits(old(self).fpm_freed),
            page < old(self).num_pages && page_bits(old(self).fpm)[page as int] && !page_bits(
                old(self).fpm_freed,
            )[page as int] ==> r is Ok && page_bits(final(self).fpm) == page_bits(old(self).fpm).update(
                page as int,
                false,
            ) && page_bits(final(self).fpm_freed) == page_bits(old(self).fpm_freed).update(
                page as int,
                true,
            ),
    {
        if page >= self.num_pages {
            return Err(PageMarkError::OutOfRange(page));
        }
        let p = page as usize;
        if !self.fpm.get(p) {
            return Err(PageMarkError::AlreadyBusy(page));
        }
        self.fpm.set(p, false);
        if self.fpm_freed.get(p) {
            return Err(PageMarkError::AlreadyFreed(page));
        }
        self.fpm_freed.set(p, true);
        Ok(())
    }

    /// Marks a page of a stream as busy. The page must be within range and free: Page 0, the
    /// pages of the Free Page Maps, the pages of the Stream Directory and pages that another
    /// stream already uses are not free, so a stream that names one of them is refused.
    pub fn init_mark_stream_page_busy(&mut self, page: u32) -> (r: Result<(), PageMarkError>)
        requires
            old(self).wf(),
        ensures
            final(self).wf(),
            old(self).invariants() ==> final(self).invariants(),
            final(self).num_pages == old(self).num_pages,
            final(self).next_free_page_hint == old(self).next_free_page_hint,
            final(self).page_size == old(self).page_size,
            page_bits(final(self).fresh) == page_bits(old(self).fresh),
            page_bits(final(self).fpm_freed) == page_bits(old(self).fpm_freed),
            page >= old(self).num_pages ==> r == Err::<(), PageMarkError>(PageMarkError::OutOfRange(page))
                && *final(self) == *old(self),
            page < old(self).num_pages && !page_bits(old(self).fpm)[page as int] ==> r == Err::<
                (),
                PageMarkError,
            >(PageMarkError::AlreadyBusy(page)) && *final(self) == *old(self),
            page < old(self).num_pages && page_bits(old(self).fpm)[page as int] ==> r is Ok && page_bits(
                final(self).fpm,
            ) == page_bits(old(self).fpm).update(page as int, false),
    {
        if page >= self.num_pages {
            return Err(PageMarkError::OutOfRange(page));
        }
        let p = page as usize;
        if !self.fpm.get(p) {
            return Err(PageMarkError::AlreadyBusy(page));
        }
        self.fpm.set(p, false);
        Ok(())
    }

    /// Marks the pages of the streams busy, in order, stopping at the first page that cannot
    /// be marked (see `init_mark_stream_page_busy`): a page out of range, a page that was not
    /// free, or a page that occurs twice.
    pub fn mark_stream_pages_busy(&mut self, pages: &[u32]) -> (r: Result<(), PageMarkError>)
        requires
            old(self).wf(),
        ensures
            final(self).wf(),
            old(self).invariants() ==> final(self).invariants(),
            final(self).num_pages == old(self).num_pages,
            final(self).next_free_page_hint == old(self).next_free_page_hint,
            final(self).page_size == old(self).page_size,
            page_bits(final(self).fresh) == page_bits(old(self).fresh),
            page_bits(final(self).fpm_freed) == page_bits(old(self).fpm_freed),
            r is Ok <==> forall|k: int|
                0 <= k < pages@.len() ==> !#[trigger] bad_stream_page(
                    pages@,
                    page_bits(old(self).fpm),
                    k,
                ),
            r matches Err(e) ==> exists|k: int|
                0 <= k < pages@.len() && #[trigger] bad_stream_page(pages@, page_bits(old(self).fpm), k)
                    && (forall|j: int| 0 <= j < k ==> !bad_stream_page(pages@, page_bits(old(self).fpm), j))
                    && e == (if pages@[k] >= old(self).num_pages {
                    PageMarkError::OutOfRange(pages@[k])
                } else {
                    PageMarkError::AlreadyBusy(pages@[k])
                }),
            r is Ok ==> page_bits(final(self).fpm) == Seq::new(
                old(self).num_pages as nat,
                |i: int| page_bits(old(self).fpm)[i] && !pages@.contains(i as u32),
            ),
    {
        let ghost fpm0 = page_bits(self.fpm);
        let ghost n = self.num_pages as int;
        let ghost inv0 = self.invariants();
        let mut k: usize = 0;
        assert(page_bits(self.fpm) =~= Seq::new(n as nat, |i: int| fpm0[i] && !pages@.take(0).contains(i as u32)));
        while k < pages.len()
            invariant
                k <= pages@.len(),
                self.wf(),
                self.num_pages == n,
                n == old(self).num_pages,
                fpm0 == page_bits(old(self).fpm),
                fpm0.len() == n,
                inv0 == old(self).invariants(),
                inv0 ==> self.invariants(),
                self.next_free_page_hint == old(self).next_free_page_hint,
                self.page_size == old(self).page_size,
                page_bits(self.fresh) == page_bits(old(self).fresh),
                page_bits(self.fpm_freed) == page_bits(old(self).fpm_freed),
                page_bits(self.fpm) == Seq::new(n as nat, |i: int| fpm0[i] && !pages@.take(k as int).contains(i as u32)),
                forall|j: int| 0 <= j < k ==> !#[trigger] bad_stream_page(pages@, fpm0, j),
            decreases pages@.len() - k,
        {
            let page = pages[k];
            let ghost before = page_bits(self.fpm);
            proof {
                if page < n {
                    assert(before[page as int] == (fpm0[page as int] && !pages@.take(k as int).contains(page)));
                }
                if pages@.take(k as int).contains(page) {
                    let j = choose|j: int| 0 <= j < k && #[trigger] pages@.take(k as int)[j] == page;
                    assert(pages@[j] == page);
                }
                if exists|j: int| 0 <= j < k && pages@[j] == page {
                    let j = choose|j: int| 0 <= j < k && pages@[j] == page;
                    assert(pages@.take(k as int)[j] == page);
                }
            }
            let r = self.init_mark_stream_page_busy(page);
            if r.is_err() {
                proof {
                    if page < n {
                        assert(!before[page as int]);
                        if pages@.take(k as int).contains(page) {
                            let j = choose|j: int| 0 <= j < k && #[trigger] pages@.take(k as int)[j] == page;
                            assert(pages@[j] == pages@[k as int]);
                        }
                    }
                    assert(bad_stream_page(pages@, fpm0, k as int));
                }
                return r;
            }
            proof {
                assert(!bad_stream_page(pages@, fpm0, k as int));
                assert(pages@.take(k + 1) =~= pages@.take(k as int).push(page));
                assert(page_bits(self.fpm) =~= Seq::new(
                    n as nat,
                    |i: int| fpm0[i] && !pages@.take(k + 1).contains(i as u32),
                )) by {
                    assert forall|i: int| 0 <= i < n implies #[trigger] page_bits(self.fpm)[i] == (fpm0[i]
                        && !pages@.take(k + 1).contains(i as u32)) by {
                        if i != page as int {
                            if pages@.take(k + 1).contains(i as u32) {
                                let j = choose|j: int| 0 <= j < k + 1 && #[trigger] pages@.take(k + 1)[j] == i as u32;
                                assert(j < k);
                                assert(pages@.take(k as int)[j] == i as u32);
                            }
                            if pages@.take(k as int).contains(i as u32) {
                                let j = choose|j: int| 0 <= j < k && #[trigger] pages@.take(k as int)[j] == i as u32;
                                assert(pages@.take(k + 1)[j] == i as u32);
                            }
                        } else {
                            assert(pages@.take(k + 1)[k as int] == page);
                        }
                    }
                }
            }
            k = k + 1;
        }
        proof {
            assert(pages@.take(pages@.len() as int) =~= pages@);
        }
        Ok(())
    }

    /// Checks that no page is marked both free and freed; gives the first page that is.
    pub fn check_vector_consistency(&self) -> (r: Result<(), PageMarkError>)
        requires
            self.wf(),
        ensures
            r is Ok <==> forall|i: int|
                0 <= i < self.num_pages ==> !(page_bits(self.fpm)[i] && page_bits(self.fpm_freed)[i]),
            r matches Err(e) ==> exists|i: int|
                0 <= i < self.num_pages && page_bits(self.fpm)[i] && page_bits(self.fpm_freed)[i]
                    && e == PageMarkError::IllegalState(i as u32) && forall|j: int|
                    0 <= j < i ==> !(page_bits(self.fpm)[j] && page_bits(self.fpm_freed)[j]),
    {
        let n = self.num_pages as usize;
        let mut i: usize = 0;
        while i < n
            invariant
                i <= n,
                n == self.num_pages,
                self.wf(),
                forall|j: int| 0 <= j < i ==> !(page_bits(self.fpm)[j] && page_bits(self.fpm_freed)[j]),
            decreases n - i,
        {
            if self.fpm.get(i) && self.fpm_freed.get(i) {
                return Err(PageMarkError::IllegalState(i as u32));
            }
            i = i + 1;
        }
        Ok(())
    }

    /// Adds pages to the end of the page list of a stream (as appending data or zero-extending
    /// a stream does): takes a run of up to `num_pages_wanted` pages from `alloc_pages` and
    /// appends them. Returns the first page and the number of pages added, at least 1. Each new
    /// page was free, or lies beyond the old end of the file, and is now busy and fresh.
    pub fn append_new_pages(&mut self, pages: &mut Vec<u32>, num_pages_wanted: u32) -> (r: (u32, u32))
        requires
            old(self).wf(),
            num_pages_wanted > 0,
            old(self).page_size@ >= 2,
            old(self).num_pages + pow2(old(self).page_size@) + 2 <= u32::MAX,
            old(self).num_pages + pow2(old(self).page_size@) + 2 <= max_bitvec_len(),
        ensures
            final(self).wf(),
            old(self).invariants() ==> final(self).invariants(),
            final(self).page_size == old(self).page_size,
            alloc_outcome(*old(self), *final(self), num_pages_wanted, r),
            1 <= r.1 <= num_pages_wanted,
            final(pages)@.len() == old(pages)@.len() + r.1,
            old(pages)@.len() < final(pages)@.len() ==> final(pages)@[old(pages)@.len() as int] == r.0,
            final(pages)@.take(old(pages)@.len() as int) == old(pages)@,
            forall|k: int|
                old(pages)@.len() < k < final(pages)@.len() ==> #[trigger] final(pages)@[k]
                    == final(pages)@[k - 1] + 1,
            forall|k: int|
                old(pages)@.len() <= k < final(pages)@.len() ==> {
                    let p = #[trigger] final(pages)@[k] as int;
                    &&& p < final(self).num_pages
                    &&& !page_bits(final(self).fpm)[p]
                    &&& page_bits(final(self).fresh)[p]
                    &&& (p >= old(self).num_pages || page_bits(old(self).fpm)[p])
                },
    {
        let ghost f = page_bits(self.fpm);
        let ghost n = self.num_pages as int;
        let (first, run) = self.alloc_pages(num_pages_wanted);
        proof {
            vstd::arithmetic::power2::lemma_pow2_pos(self.page_size@);
            assert(pow2(self.page_size@) >= 4) by {
                vstd::arithmetic::power2::lemma_pow2_adds(2, (self.page_size@ - 2) as nat);
                vstd::arithmetic::power2::lemma_pow2_pos((self.page_size@ - 2) as nat);
                assert(pow2(2) == 4) by {
                    vstd::arithmetic::power2::lemma2_to64();
                }
                assert(pow2(self.page_size@) == pow2(2) * pow2((self.page_size@ - 2) as nat));
                assert(pow2((self.page_size@ - 2) as nat) >= 1);
                assert(pow2(2) * pow2((self.page_size@ - 2) as nat) >= 4) by (nonlinear_arith)
                    requires pow2(2) == 4, pow2((self.page_size@ - 2) as nat) >= 1;
            }
            assert(first + run <= self.num_pages);
        }
        let ghost old_len = pages@.len();
        let mut i: u32 = 0;
        while i < run
            invariant
                i <= run,
                first + run <= self.num_pages,
                self.num_pages <= u32::MAX,
                pages@.len() == old_len + i,
                old_len == old(pages)@.len(),
                pages@.take(old_len as int) == old(pages)@,
                forall|k: int| old_len <= k < pages@.len() ==> #[trigger] pages@[k] == first + (k - old_len),
            decreases run - i,
        {
            pages.push(first + i);
            proof {
                assert(pages@.take(old_len as int) =~= old(pages)@);
            }
            i = i + 1;
        }
        (first, run)
    }

    /// The contents of the page of the Free Page Map that interval `interval` holds, as a
    /// commit writes it: bit `8 * b + i` of the page (bit `i` of byte `b`, least significant
    /// first) tells whether page `8 * (interval * page_len + b) + i` is free; the bits beyond the
    /// last page read as free.
    pub fn fpm_page_bytes(&self, interval: u32, page_len: u32) -> (out: Vec<u8>)
        requires
            self.wf(),
            (interval as int + 1) * page_len * 8 <= u64::MAX,
        ensures
            out@.len() == page_len,
            forall|b: int|
                0 <= b < page_len ==> #[trigger] out@[b] as int == fpm_bits_value(
                    page_bits(self.fpm),
                    8 * (interval * page_len + b),
                    8,
                ),
    {
        let n = self.num_pages as u64;
        let ghost bits = page_bits(self.fpm);
        let mut out: Vec<u8> = Vec::new();
        let mut b: u32 = 0;
        proof {
            assert((interval as int) * page_len * 8 + page_len * 8 == (interval as int + 1) * page_len * 8) by (nonlinear_arith);
        }
        while b < page_len
            invariant
                b <= page_len,
                out@.len() == b,
                n == self.num_pages,
                n <= u32::MAX,
                bits == page_bits(self.fpm),
                bits.len() == n,
                (interval as int) * page_len * 8 + page_len * 8 <= u64::MAX,
                forall|c: int|
                    0 <= c < b ==> #[trigger] out@[c] as int == fpm_bits_value(
                        bits,
                        8 * (interval * page_len + c),
                        8,
                    ),
            decreases page_len - b,
        {
            let ghost first = 8 * (interval * page_len + b);
            proof {
                assert(first + 8 <= (interval as int) * page_len * 8 + page_len * 8) by (nonlinear_arith)
                    requires first == 8 * (interval * page_len + b), b < page_len;
            }
            let base: u64 = 8 * ((interval as u64) * (page_len as u64) + (b as u64));
            let mut v: u32 = 0;
            let mut j: u64 = 8;
            proof {
                vstd::arithmetic::power2::lemma2_to64();
            }
            while j > 0
                invariant
                    j <= 8,
                    base == first,
                    first + 8 <= u64::MAX,
                    n == bits.len(),
                    n <= u32::MAX,
                    bits == page_bits(self.fpm),
                    v as int == fpm_bits_value(bits, first + j, (8 - j) as nat),
                    v < pow2((8 - j) as nat),
                decreases j,
            {
                j = j - 1;
                let idx = base + j;
                let free = if idx >= n {
                    true
                } else {
                    assert(idx < u32::MAX);
                    let i = idx as usize;
                    assert(i == idx);
                    self.fpm.get(i)
                };
                proof {
                    assert(free == fpm_bit_written(bits, first + j));
                    vstd::arithmetic::power2::lemma_pow2_unfold((8 - j) as nat);
                    assert(fpm_bits_value(bits, first + j, (8 - j) as nat) == (if fpm_bit_written(bits, first + j) {
                        1int
                    } else {
                        0int
                    }) + 2 * fpm_bits_value(bits, first + j + 1, (7 - j) as nat));
                    assert((8 - j) as nat - 1 == (7 - j) as nat);
                    vstd::arithmetic::power2::lemma2_to64();
                    assert(pow2((8 - j) as nat) <= 256);
                }
                v = 2 * v + if free {
                    1u32
                } else {
                    0u32
                };
            }
            proof {
                assert(pow2(8) == 256) by {
                    vstd::arithmetic::power2::lemma2_to64();
                }
            }
            out.push(v as u8);
            b = b + 1;
        }
        out
    }

    /// Shortens the page list of a stream to its first `keep` pages (as setting a smaller
    /// length does): the pages that are dropped are marked freed, so that they become free after
    /// the next commit.
    pub fn release_stream_pages(&mut self, pages: &mut Vec<u32>, keep: usize)
        requires
            old(self).wf(),
            keep <= old(pages)@.len(),
            forall|i: int| 0 <= i < old(pages)@.len() ==> #[trigger] old(pages)@[i] < old(self).num_pages,
        ensures
            final(self).wf(),
            final(pages)@ == old(pages)@.take(keep as int),
            page_bits(final(self).fpm_freed) == Seq::new(
                old(self).num_pages as nat,
                |p: int| page_bits(old(self).fpm_freed)[p] || old(pages)@.skip(keep as int).contains(p as u32),
            ),
            page_bits(final(self).fpm) == page_bits(old(self).fpm),
            page_bits(final(self).fresh) == page_bits(old(self).fresh),
            final(self).num_pages == old(self).num_pages,
            final(self).next_free_page_hint == old(self).next_free_page_hint,
            final(self).page_size == old(self).page_size,
    {
        let ghost freed0 = page_bits(self.fpm_freed);
        let ghost dropped = pages@.skip(keep as int);
        let ghost n = self.num_pages as int;
        let mut i: usize = keep;
        assert(page_bits(self.fpm_freed) =~= Seq::new(
            n as nat,
            |p: int| freed0[p] || dropped.take(0).contains(p as u32),
        ));
        while i < pages.len()
            invariant
                keep <= i <= pages@.len(),
                pages@ == old(pages)@,
                dropped == pages@.skip(keep as int),
                self.wf(),
                self.num_pages == n,
                freed0 == page_bits(old(self).fpm_freed),
                freed0.len() == n,
                forall|j: int| 0 <= j < pages@.len() ==> #[trigger] pages@[j] < n,
                page_bits(self.fpm_freed) == Seq::new(
                    n as nat,
                    |p: int| freed0[p] || dropped.take(i - keep).contains(p as u32),
                ),
                page_bits(self.fpm) == page_bits(old(self).fpm),
                page_bits(self.fresh) == page_bits(old(self).fresh),
                self.num_pages == old(self).num_pages,
                self.next_free_page_hint == old(self).next_free_page_hint,
                self.page_size == old(self).page_size,
            decreases pages@.len() - i,
        {
            let page = pages[i];
            self.fpm_freed.set(page as usize, true);
            proof {
                let t0 = dropped.take(i - keep);
                let t1 = dropped.take(i + 1 - keep);
                assert(t1 =~= t0.push(page));
                assert forall|p: int| 0 <= p < n implies #[trigger] page_bits(self.fpm_freed)[p] == (freed0[p]
                    || t1.contains(p as u32)) by {
                    if t1.contains(p as u32) && p != page as int {
                        let j = choose|j: int| 0 <= j < t1.len() && #[trigger] t1[j] == p as u32;
                        assert(j < t0.len());
                        assert(t0[j] == p as u32);
                    }
                    if t0.contains(p as u32) {
                        let j = choose|j: int| 0 <= j < t0.len() && #[trigger] t0[j] == p as u32;
                        assert(t1[j] == p as u32);
                    }
                    if p == page as int {
                        assert(t1[t1.len() - 1] == page);
                    }
                }
                assert(page_bits(self.fpm_freed) =~= Seq::new(
                    n as nat,
                    |p: int| freed0[p] || t1.contains(p as u32),
                ));
            }
            i = i + 1;
        }
        assert(dropped.take(pages@.len() - keep) =~= dropped);
        pages.truncate(keep);
    }

    /// Merges the "freed" bit map into the "free" bitmap and clears the "freed" bitmap. This is
    /// part of the commit protocol.
    pub fn merge_freed_into_free(&mut self)
        requires
            old(self).wf(),
        ensures
            final(self).wf(),
            old(self).invariants() ==> final(self).invariants(),
            final(self).num_pages == old(self).num_pages,
            final(self).next_free_page_hint == old(self).next_free_page_hint,
            final(self).page_size == old(self).page_size,
            page_bits(final(self).fresh) == page_bits(old(self).fresh),
            page_bits(final(self).fpm) == Seq::new(
                old(self).num_pages as nat,
                |i: int| page_bits(old(self).fpm)[i] || page_bits(old(self).fpm_freed)[i],
            ),
            page_bits(final(self).fpm_freed) == Seq::new(old(self).num_pages as nat, |i: int| false),
    {
        let n = self.num_pages as usize;
        let mut i: usize = 0;
        while i < n
            invariant
                i <= n,
                n == self.num_pages,
                self.num_pages == old(self).num_pages,
                self.next_free_page_hint == old(self).next_free_page_hint,
                self.page_size == old(self).page_size,
                page_bits(self.fresh) == page_bits(old(self).fresh),
                self.wf(),
                forall|j: int|
                    0 <= j < n ==> #[trigger] page_bits(self.fpm)[j] == if j < i {
                        page_bits(old(self).fpm)[j] || page_bits(old(self).fpm_freed)[j]
                    } else {
                        page_bits(old(self).fpm)[j]
                    },
                forall|j: int|
                    0 <= j < n ==> #[trigger] page_bits(self.fpm_freed)[j] == if j < i {
                        false
                    } else {
                        page_bits(old(self).fpm_freed)[j]
                    },
            decreases n - i,
        {
            if self.fpm_freed.get(i) {
                self.fpm.set(i, true);
                self.fpm_freed.set(i, false);
            }
            i = i + 1;
        }
        assert(page_bits(self.fpm) =~= Seq::new(
            old(self).num_pages as nat,
            |i: int| page_bits(old(self).fpm)[i] || page_bits(old(self).fpm_freed)[i],
        ));
        assert(page_bits(self.fpm_freed) =~= Seq::new(old(self).num_pages as nat, |i: int| false));
    }

    /// Allocates one or more contiguous pages, and marks them busy and fresh.
    ///
    /// The first free page at or after the hint is taken, with as many of the free pages that
    /// immediately follow it as are wanted. Where there is no free page, pages are added at the
    /// end of the file: as many as are wanted, up to the end of the current interval, stepping
    /// over the pages of the Free Page Maps. So fewer pages than wanted may be returned. Returns
    /// the first page and the number of pages. This does no I/O.
    #[verifier::spinoff_prover]
    pub fn alloc_pages(&mut self, num_pages_wanted: u32) -> (r: (u32, u32))
        requires
            old(self).wf(),
            num_pages_wanted > 0,
            old(self).page_size@ >= 2,
            old(self).num_pages + pow2(old(self).page_size@) + 2 <= u32::MAX,
            old(self).num_pages + pow2(old(self).page_size@) + 2 <= max_bitvec_len(),
        ensures
            final(self).wf(),
            final(self).page_size == old(self).page_size,
            old(self).invariants() ==> final(self).invariants(),
            old(self).invariants() ==> forall|j: int|
                r.0 <= j < r.0 + r.1 ==> !(j == 0 || is_fpm_page(j, pow2(old(self).page_size@) as int)),
            alloc_outcome(*old(self), *final(self), num_pages_wanted, r),
    {
        let ghost f = page_bits(self.fpm);
        let ghost fresh0 = page_bits(self.fresh);
        if self.next_free_page_hint < self.num_pages {
            let hint = self.next_free_page_hint as usize;
            match self.fpm.first_one_from(hint) {
                Some(i) => {
                    let p0 = hint + i;
                    self.fpm.set(p0, false);
                    self.fresh.set(p0, true);
                    self.next_free_page_hint = (p0 + 1) as u32;
                    let mut run_len: u32 = 1;
                    proof {
                        assert(page_bits(self.fpm) =~= set_range(f, p0 as int, p0 + 1, false));
                        assert(page_bits(self.fresh) =~= set_range(fresh0, p0 as int, p0 + 1, true));
                    }
                    while run_len < num_pages_wanted && (p0 as u32) + run_len < self.num_pages
                        && self.fpm.get(self.next_free_page_hint as usize)
                        invariant
                            p0 < self.num_pages,
                            1 <= run_len <= num_pages_wanted,
                            p0 + run_len <= self.num_pages,
                            self.next_free_page_hint == p0 + run_len,
                            self.num_pages == old(self).num_pages,
                            self.page_size == old(self).page_size,
                            f == page_bits(old(self).fpm),
                            fresh0 == page_bits(old(self).fresh),
                            page_bits(self.fpm_freed) == page_bits(old(self).fpm_freed),
                            page_bits(self.fpm) == set_range(f, p0 as int, p0 + run_len, false),
                            page_bits(self.fresh) == set_range(fresh0, p0 as int, p0 + run_len, true),
                            forall|j: int| p0 <= j < p0 + run_len ==> f[j],
                            f.len() == self.num_pages,
                            fresh0.len() == self.num_pages,
                        decreases self.num_pages - self.next_free_page_hint,
                    {
                        let h = self.next_free_page_hint as usize;
                        self.fpm.set(h, false);
                        self.fresh.set(h, true);
                        self.next_free_page_hint = self.next_free_page_hint + 1;
                        run_len = run_len + 1;
                        proof {
                            assert(page_bits(self.fpm) =~= set_range(f, p0 as int, p0 + run_len, false));
                            assert(page_bits(self.fresh) =~= set_range(fresh0, p0 as int, p0 + run_len, true));
                        }
                    }
                    return (p0 as u32, run_len);
                },
                None => {
                    self.next_free_page_hint = self.num_pages;
                },
            }
        }
        let ghost n = self.num_pages as int;
        proof {
            assert(!exists|p: int| old(self).next_free_page_hint <= p < n && f[p]);
        }
        let ps = self.page_size.bytes();
        let phase = self.num_pages % ps;
        let avail: u32;
        if phase == 0 {
            avail = 1;
        } else if phase == 1 {
            self.fpm_freed.push(false);
            self.fpm_freed.push(false);
            self.fpm.push(false);
            self.fpm.push(false);
            self.num_pages = self.num_pages + 2;
            self.next_free_page_hint = self.next_free_page_hint + 2;
            avail = ps - 2;
        } else if phase == 2 {
            self.fpm_freed.push(false);
            self.fpm.push(false);
            self.num_pages = self.num_pages + 1;
            self.next_free_page_hint = self.next_free_page_hint + 1;
            avail = ps - 2;
        } else {
            avail = ps - phase + 1;
        }
        let count = if avail < num_pages_wanted {
            avail
        } else {
            num_pages_wanted
        };
        let start_page = self.num_pages;
        self.num_pages = self.num_pages + count;
        self.fpm_freed.resize(self.num_pages as usize, false);
        self.fpm.resize(self.num_pages as usize, false);
        self.fresh.resize(self.num_pages as usize, true);
        self.next_free_page_hint = self.num_pages;
        proof {
            let skip = start_page - n;
            if old(self).invariants() {
                vstd::arithmetic::power2::lemma2_to64();
                if self.page_size@ > 2 {
                    vstd::arithmetic::power2::lemma_pow2_strictly_increases(2, self.page_size@);
                }
                lemma_new_pages_not_fpm(n, ps as int, skip, count as int);
            }
            assert(page_bits(self.fpm) =~= f + Seq::new((skip + count) as nat, |i: int| false));
            assert(page_bits(self.fpm_freed) =~= page_bits(old(self).fpm_freed) + Seq::new(
                (skip + count) as nat,
                |i: int| false,
            ));
            assert(page_bits(self.fresh) =~= page_bits(old(self).fresh) + Seq::new(
                (skip + count) as nat,
                |i: int| true,
            ));
        }
        (start_page, count)
    }

    /// Allocates a single page.
    pub fn alloc_page(&mut self) -> (page: u32)
        requires
            old(self).wf(),
            old(self).page_size@ >= 2,
            old(self).num_pages + pow2(old(self).page_size@) + 2 <= u32::MAX,
            old(self).num_pages + pow2(old(self).page_size@) + 2 <= max_bitvec_len(),
        ensures
            final(self).wf(),
            final(self).page_size == old(self).page_size,
            final(self).num_pages >= old(self).num_pages,
            page < final(self).num_pages,
            !page_bits(final(self).fpm)[page as int],
            page_bits(final(self).fresh)[page as int],
            alloc_outcome(*old(self), *final(self), 1, (page, 1u32)),
    {
        let ghost n = self.num_pages as int;
        let ghost f = page_bits(self.fpm);
        let ghost hint = self.next_free_page_hint as int;
        proof {
            vstd::arithmetic::power2::lemma_pow2_pos(self.page_size@);
            let ps = pow2(self.page_size@) as int;
            vstd::arithmetic::div_mod::lemma_mod_bound(n, ps);
            assert(ps >= 4) by {
                vstd::arithmetic::power2::lemma2_to64();
                if self.page_size@ > 2 {
                    vstd::arithmetic::power2::lemma_pow2_strictly_increases(2, self.page_size@);
                }
            }
        }
        let (page, run_len) = self.alloc_pages(1);
        proof {
            assert(run_len == 1);
            if exists|p: int| hint <= p < n && f[p] {
                assert(page_bits(self.fpm)[page as int] == false);
                assert(page_bits(self.fresh)[page as int] == true);
            } else {
                assert(run_len == 1);
                assert(page_bits(self.fpm)[page as int] == false);
                assert(page_bits(self.fresh)[page as int] == true);
            }
        }
        page
    }

    /// Ensures that `*page` is fresh (can be modified in the uncommitted state): a page that is
    /// not fresh is replaced by a newly allocated page, and marked freed. Returns the page.
    pub fn make_page_fresh(&mut self, page: &mut u32) -> (r: u32)
        requires
            old(self).wf(),
            *old(page) < old(self).num_pages,
            old(self).page_size@ >= 2,
            old(self).num_pages + pow2(old(self).page_size@) + 2 <= u32::MAX,
            old(self).num_pages + pow2(old(self).page_size@) + 2 <= max_bitvec_len(),
        ensures
            final(self).wf(),
            final(self).page_size == old(self).page_size,
            r == *final(page),
            page_bits(old(self).fresh)[*old(page) as int] ==> *final(page) == *old(page) && *final(self)
                == *old(self),
            !page_bits(old(self).fresh)[*old(page) as int] ==> {
                let fin = *final(self);
                &&& page_bits(fin.fpm_freed)[*old(page) as int]
                &&& *final(page) < fin.num_pages
                &&& page_bits(fin.fresh)[*final(page) as int]
            },
    {
        let p = *page as usize;
        if self.fresh.get(p) {
            *page
        } else {
            let new_page = self.alloc_page();
            self.fpm_freed.set(p, true);
            *page = new_page;
            new_page
        }
    }
}

/// How many of the `limit` page indexes after `f` continue a contiguous run of page numbers from
/// `pages[f]`: the largest `c <= limit` such that `pages[f + j] == pages[f] + j` for every `j`
/// from 1 to `c`.
pub open spec fn contiguous_run(pages: Seq<u32>, f: int, limit: int) -> int
    decreases limit,
{
    if limit <= 0 {
        0
    } else {
        let c = contiguous_run(pages, f, limit - 1);
        if c == limit - 1 && f + limit < pages.len() && pages[f + limit] == pages[f] + limit {
            limit
        } else {
            c
        }
    }
}

/// The run never shrinks as the limit grows, and stays at `c` once it stops short of its limit.
proof fn lemma_contiguous_run(pages: Seq<u32>, f: int, l1: int, l2: int)
    requires
        0 <= l1 <= l2,
    ensures
        contiguous_run(pages, f, l1) <= contiguous_run(pages, f, l2),
        contiguous_run(pages, f, l1) < l1 ==> contiguous_run(pages, f, l2) == contiguous_run(
            pages,
            f,
            l1,
        ),
        contiguous_run(pages, f, l2) <= l2,
    decreases l2 - l1,
{
    if l1 < l2 {
        lemma_contiguous_run(pages, f, l1, l2 - 1);
    } else {
        lemma_run_le_limit(pages, f, l2);
    }
}

/// The run is at most its limit.
proof fn lemma_run_le_limit(pages: Seq<u32>, f: int, l: int)
    ensures
        l >= 0 ==> contiguous_run(pages, f, l) <= l,
        contiguous_run(pages, f, l) >= 0,
    decreases l,
{
    if l > 0 {
        lemma_run_le_limit(pages, f, l - 1);
    }
}

/// Where a read or write of `bytes_wanted` bytes at offset `pos` of a stream of `stream_size`
/// bytes, whose pages are `pages` (of `2^exponent` bytes), starts in the file, and how many of
/// those bytes lie contiguously there; `None` when no byte can be mapped.
pub open spec fn map_spec(pages: Seq<u32>, exponent: nat, stream_size: u32, pos: u32, bytes_wanted: u32) -> Option<(u64, u32)> {
    if stream_size == NIL_STREAM_SIZE || pos >= stream_size {
        None
    } else {
        let max = if stream_size - pos < bytes_wanted {
            stream_size - pos
        } else {
            bytes_wanted as int
        };
        if max == 0 {
            None
        } else {
            let page = pow2(exponent) as int;
            let f = pos as int / page;
            let within = pos as int % page;
            let first = page - within;
            let transfer = if max <= first {
                max
            } else {
                let run = contiguous_run(pages, f, (max - first + page - 1) / page);
                if max <= first + page * run {
                    max
                } else {
                    first + page * run
                }
            };
            Some(((pages[f] * page + within) as u64, transfer as u32))
        }
    }
}

/// Maps ranges of bytes within a stream to contiguous ranges of bytes in the containing MSF file.
pub struct StreamPageMapper<'a> {
    pages: &'a [u32],
    page_size: PageSize,
    stream_size: u32,
}

impl<'a> StreamPageMapper<'a> {
    /// The pages of the stream.
    pub closed spec fn pages_spec(&self) -> Seq<u32> {
        self.pages@
    }

    /// The page size.
    pub closed spec fn page_size_spec(&self) -> PageSize {
        self.page_size
    }

    /// The size of the stream.
    pub closed spec fn stream_size_spec(&self) -> u32 {
        self.stream_size
    }

    /// Creates a mapper for a stream of `stream_size` bytes held in `pages`, which must be as
    /// many pages as the stream needs.
    pub fn new(pages: &'a [u32], page_size: PageSize, stream_size: u32) -> (m: Self)
        requires
            pages@.len() == pages_for_stream_size(stream_size, page_size@),
        ensures
            m.pages_spec() == pages@,
            m.page_size_spec() == page_size,
            m.stream_size_spec() == stream_size,
    {
        Self { pages, page_size, stream_size }
    }

    /// Maps a byte offset and a length within a stream to a contiguous run of bytes within the
    /// MSF file: the byte offset within the file and the length of the longest contiguous
    /// sub-range of the requested range (see `map_spec`). Repeated calls (with increasing values
    /// of `pos`) can be used to read or write a stream with few calls to the file.
    ///
    /// Returns `None` when no bytes can be mapped: for a nil stream, when `pos` is at or past
    /// the end of the stream, or when no bytes are wanted. Otherwise the length is more than 0
    /// and at most `bytes_wanted`.
    pub fn map(&self, pos: u32, bytes_wanted: u32) -> (r: Option<(u64, u32)>)
        requires
            self.pages_spec().len() == pages_for_stream_size(
                self.stream_size_spec(),
                self.page_size_spec()@,
            ),
            forall|i: int|
                0 <= i < self.pages_spec().len() ==> #[trigger] self.pages_spec()[i] < u32::MAX,
        ensures
            r == map_spec(self.pages_spec(), self.page_size_spec()@, self.stream_size_spec(), pos, bytes_wanted),
            r matches Some((_, n)) ==> 0 < n <= bytes_wanted,
    {
        if self.stream_size == NIL_STREAM_SIZE {
            return None;
        }
        if pos >= self.stream_size {
            return None;
        }
        let bytes_available = self.stream_size - pos;
        let max_transfer_size = if bytes_available < bytes_wanted {
            bytes_available
        } else {
            bytes_wanted
        };
        if max_transfer_size == 0 {
            return None;
        }
        let page = self.page_size.bytes();
        let ghost pg = page as int;
        let first_page_index = pos / page;
        let within = pos % page;
        proof {
            let ss = self.stream_size as int;
            assert(pos as int / pg < (ss + pg - 1) / pg) by (nonlinear_arith)
                requires
                    0 <= pos < ss,
                    pg > 0,
            {
                vstd::arithmetic::div_mod::lemma_div_is_ordered(pos as int, ss - 1, pg);
                vstd::arithmetic::div_mod::lemma_fundamental_div_mod(ss - 1, pg);
                vstd::arithmetic::div_mod::lemma_fundamental_div_mod_converse(ss - 1 + pg, pg, (ss - 1) / pg + 1, (ss - 1) % pg);
            }
        }
        let first_page_pointer = self.pages[first_page_index as usize];
        proof {
            vstd::arithmetic::mul::lemma_mul_upper_bound(
                first_page_pointer as int,
                u32::MAX as int,
                pg,
                u32::MAX as int,
            );
        }
        let file_offset = first_page_pointer as u64 * page as u64 + within as u64;
        let bytes_available_first_page = page - within;
        let transfer_size: u32;
        if max_transfer_size > bytes_available_first_page {
            let ghost f = first_page_index as int;
            let ghost max = max_transfer_size as int;
            let ghost first = bytes_available_first_page as int;
            let ghost needed = (max - first + pg - 1) / pg;
            let mut p: u32 = pos + bytes_available_first_page;
            let mut last_page_ptr = first_page_pointer;
            let ghost mut j: int = 0;
            proof {
                vstd::arithmetic::div_mod::lemma_fundamental_div_mod(pos as int, pg);
                assert(p == (f + 1) * pg) by (nonlinear_arith)
                    requires
                        p == pos + first,
                        first == pg - within,
                        pos == pg * f + within,
                ;
                lemma_run_le_limit(self.pages@, f, 0);
                assert(needed >= 1) by (nonlinear_arith)
                    requires
                        needed == (max - first + pg - 1) / pg,
                        max > first,
                        pg > 0,
                {
                    vstd::arithmetic::div_mod::lemma_div_is_ordered(pg, max - first + pg - 1, pg);
                    vstd::arithmetic::div_mod::lemma_div_by_self(pg);
                }
            }
            loop
                invariant
                    self.pages_spec().len() == pages_for_stream_size(
                        self.stream_size_spec(),
                        self.page_size_spec()@,
                    ),
                    forall|i: int|
                        0 <= i < self.pages_spec().len() ==> #[trigger] self.pages_spec()[i]
                            < u32::MAX,
                    pg == pow2(self.page_size_spec()@),
                    pg == page,
                    pg > 0,
                    f == first_page_index,
                    max == max_transfer_size,
                    first == bytes_available_first_page,
                    max > first,
                    pos + max <= self.stream_size_spec(),
                    self.stream_size_spec() != NIL_STREAM_SIZE,
                    needed == (max - first + pg - 1) / pg,
                    0 <= j,
                    contiguous_run(self.pages@, f, j) == j,
                    last_page_ptr == self.pages@[f] + j,
                    p - pos == (if max <= first + pg * j {
                        max
                    } else {
                        first + pg * j
                    }),
                    p - pos < max ==> p == (f + 1 + j) * pg,
                    p - pos < max ==> j < needed,
                    j <= needed,
                    f + j < self.pages_spec().len(),
                    last_page_ptr == self.pages_spec()[f + j],
                ensures
                    p - pos == (if max <= first + pg * contiguous_run(self.pages@, f, needed) {
                        max
                    } else {
                        first + pg * contiguous_run(self.pages@, f, needed)
                    }),
                decreases max - (p - pos),
            {
                let want_bytes = max_transfer_size - (p - pos);
                if p - pos == max_transfer_size {
                    proof {
                        lemma_contiguous_run(self.pages@, f, j, needed);
                        if j <= needed {
                            assert(pg * j <= pg * contiguous_run(self.pages@, f, needed)) by (nonlinear_arith)
                                requires
                                    j <= contiguous_run(self.pages@, f, needed),
                                    pg > 0,
                            ;
                        }
                    }
                    break;
                }
                let p_page = p / page;
                proof {
                    let ss = self.stream_size as int;
                    assert(p_page == f + 1 + j) by (nonlinear_arith)
                        requires
                            p == (f + 1 + j) * pg,
                            p_page == p as int / pg,
                            pg > 0,
                    {
                        vstd::arithmetic::div_mod::lemma_div_multiples_vanish(f + 1 + j, pg);
                    }
                    assert(p as int / pg < (ss + pg - 1) / pg) by (nonlinear_arith)
                        requires
                            0 <= p < ss,
                            pg > 0,
                    {
                        vstd::arithmetic::div_mod::lemma_div_is_ordered(p as int, ss - 1, pg);
                        vstd::arithmetic::div_mod::lemma_fundamental_div_mod(ss - 1, pg);
                        vstd::arithmetic::div_mod::lemma_fundamental_div_mod_converse(ss - 1 + pg, pg, (ss - 1) / pg + 1, (ss - 1) % pg);
                    }
                }
                let p_ptr = self.pages[p_page as usize];
                if p_ptr != last_page_ptr + 1 {
                    proof {
                        assert(contiguous_run(self.pages@, f, j + 1) == j);
                        lemma_contiguous_run(self.pages@, f, j + 1, needed);
                    }
                    break;
                }
                let step = if want_bytes < page {
                    want_bytes
                } else {
                    page
                };
                proof {
                    assert(contiguous_run(self.pages@, f, j + 1) == j + 1);
                    assert(first + pg * (j + 1) == first + pg * j + pg) by (nonlinear_arith);
                    assert((f + 1 + (j + 1)) * pg == (f + 1 + j) * pg + pg) by (nonlinear_arith);
                    if step == page && p - pos + step < max {
                        assert((max - first + pg - 1) / pg > j + 1) by (nonlinear_arith)
                            requires
                                first + pg * (j + 1) < max,
                                pg > 0,
                        {
                            vstd::arithmetic::div_mod::lemma_fundamental_div_mod(max - first + pg - 1, pg);
                        }
                    }
                    j = j + 1;
                }
                p = p + step;
                last_page_ptr = last_page_ptr + 1;
            }
            transfer_size = p - pos;
        } else {
            transfer_size = max_transfer_size;
        }
        proof {
            vstd::arithmetic::div_mod::lemma_fundamental_div_mod(pos as int, pg);
        }
        Some((file_offset, transfer_size))
    }
}

} // verus!
