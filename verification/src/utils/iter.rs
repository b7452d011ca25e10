//! Iterator utilities

use vstd::prelude::*;

verus! {

/// Allows iterators to report the remaining, unparsed bytes within an iterator.
pub trait HasRestLen {
    /// The number of bytes that have not yet been parsed, as a spec value.
    spec fn rest_len_spec(&self) -> nat;

    /// Returns the number of bytes (or elements, abstractly) that have not yet been parsed by
    /// this iterator.
    fn rest_len(&self) -> (n: usize)
        ensures
            n == self.rest_len_spec(),
    ;
}

/// Wraps an iterator and remembers how much input it had when it was created, so that the
/// byte range of each item can be reported.
pub struct IterWithRange<I> {
    original_len: usize,
    inner: I,
}

impl<I: HasRestLen> IterWithRange<I> {
    /// Wraps `inner`, recording its current rest length as the original length.
    pub fn new(inner: I) -> (r: Self)
        ensures
            r.inner_spec() == inner,
            r.original_len_spec() == inner.rest_len_spec(),
    {
        let original_len = inner.rest_len();
        IterWithRange { original_len, inner }
    }
}

impl<I> IterWithRange<I> {
    /// The iterator inside.
    pub closed spec fn inner_spec(&self) -> I {
        self.inner
    }

    /// The original length, as a spec value.
    pub closed spec fn original_len_spec(&self) -> usize {
        self.original_len
    }

    /// The number of items (usually bytes) that were present in the inner iterator when this
    /// `IterWithRange` was created.
    pub fn original_len(&self) -> (n: usize)
        ensures
            n == self.original_len_spec(),
    {
        self.original_len
    }

    /// Gets access to the inner iterator.
    pub fn inner(&self) -> (r: &I)
        ensures
            *r == self.inner_spec(),
    {
        &self.inner
    }

    /// Gets mutable access to the inner iterator.
    pub fn inner_mut(&mut self) -> (r: &mut I)
        ensures
            *r == old(self).inner_spec(),
            final(self).inner_spec() == *final(r),
            final(self).original_len_spec() == old(self).original_len_spec(),
    {
        &mut self.inner
    }
}

impl<I: HasRestLen> IterWithRange<I> {
    /// The current position in the iteration range: how much of the original input the inner
    /// iterator has consumed.
    pub fn pos(&self) -> (p: usize)
        requires
            self.inner_spec().rest_len_spec() <= self.original_len_spec(),
        ensures
            p == self.original_len_spec() - self.inner_spec().rest_len_spec(),
    {
        self.original_len - self.inner.rest_len()
    }
}

} // verus!
