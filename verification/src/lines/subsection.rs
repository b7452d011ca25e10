//! Iteration logic for subsections

use vstd::prelude::*;
use crate::le::le_u32;
use crate::lines::SubsectionKind;
use crate::parser::{Parser, ParserMut};
use crate::utils::align::{alignment_bytes_needed_4, padding_to_4};
use crate::utils::iter::HasRestLen;

verus! {

/// The payload size of the subsection at the start of `s`.
pub open spec fn subsection_size(s: Seq<u8>) -> int {
    le_u32(s.skip(4))
}

/// Whether `s` begins with a complete subsection (header and payload).
pub open spec fn has_subsection(s: Seq<u8>) -> bool {
    s.len() >= 8 && 8 + subsection_size(s) <= s.len()
}

/// The kind of the subsection at the start of `s`.
pub open spec fn subsection_kind(s: Seq<u8>) -> u32 {
    le_u32(s) as u32
}

/// The payload of the subsection at the start of `s`.
pub open spec fn subsection_data(s: Seq<u8>) -> Seq<u8> {
    s.subrange(8, 8 + subsection_size(s))
}

/// What follows the subsection at the start of `s`: its alignment padding is skipped when
/// the padding is present.
pub open spec fn subsection_rest(s: Seq<u8>) -> Seq<u8> {
    let end = 8 + subsection_size(s);
    if end + padding_to_4(subsection_size(s)) <= s.len() {
        s.skip(end + padding_to_4(subsection_size(s)))
    } else {
        s.skip(end)
    }
}

/// The payload of the first subsection of kind `kind`, among the complete subsections at the
/// start of `s`.
pub open spec fn find_subsection(s: Seq<u8>, kind: u32) -> Option<Seq<u8>>
    decreases s.len(),
{
    if has_subsection(s) {
        if subsection_kind(s) == kind {
            Some(subsection_data(s))
        } else {
            find_subsection(subsection_rest(s), kind)
        }
    } else {
        None
    }
}

/// The number of complete subsections that iteration finds at the start of `s`.
pub open spec fn count_subsections(s: Seq<u8>) -> nat
    decreases s.len(),
{
    if has_subsection(s) {
        1 + count_subsections(subsection_rest(s))
    } else {
        0
    }
}

/// Iterator state for subsections
pub struct SubsectionIter<'a> {
    rest: &'a [u8],
}

impl<'a> View for SubsectionIter<'a> {
    type V = Seq<u8>;

    closed spec fn view(&self) -> Seq<u8> {
        self.rest@
    }
}

impl<'a> HasRestLen for SubsectionIter<'a> {
    closed spec fn rest_len_spec(&self) -> nat {
        self.rest@.len()
    }

    fn rest_len(&self) -> (n: usize) {
        self.rest.len()
    }
}

/// A reference to one subsection
pub struct Subsection<'a> {
    /// The kind of data in this subsection.
    pub kind: SubsectionKind,
    /// The contents of the subsection.
    pub data: &'a [u8],
}

/// A reference to one subsection, with mutable access
pub struct SubsectionMut<'a> {
    /// The kind of data in this subsection.
    pub kind: SubsectionKind,
    /// The contents of the subsection.
    pub data: &'a mut [u8],
}

/// The header of a subsection.
#[derive(Copy, Clone, Debug, PartialEq, Eq, Structural)]
pub struct SubsectionHeader {
    /// The kind of data in this subsection.
    pub kind: u32,
    /// The size of the subsection, in bytes. This value does not count the size of the header.
    pub size: u32,
}

impl<'a> SubsectionIter<'a> {
    /// Start iteration
    pub fn new(rest: &'a [u8]) -> (it: Self)
        ensures
            it@ == rest@,
    {
        Self { rest }
    }

    /// The remaining unparsed data.
    pub fn rest(&self) -> (r: &'a [u8])
        ensures
            r@ == self@,
    {
        self.rest
    }

    /// Decodes the next subsection. When the data does not begin with a complete subsection,
    /// returns `None` and leaves the iterator unchanged.
    pub fn next(&mut self) -> (r: Option<Subsection<'a>>)
        ensures
            r is Some <==> has_subsection(old(self)@),
            r matches Some(sub) ==> sub.kind.0 == subsection_kind(old(self)@) && sub.data@
                == subsection_data(old(self)@) && final(self)@ == subsection_rest(old(self)@),
            r is None ==> final(self)@ == old(self)@,
            final(self)@.len() <= old(self)@.len(),
    {
        if self.rest.len() == 0 {
            return None;
        }
        let mut p = Parser::new(self.rest);
        let kind = match p.u32() {
            Ok(v) => v,
            Err(_) => return None,
        };
        let size = match p.u32() {
            Ok(v) => v,
            Err(_) => return None,
        };
        let data = match p.bytes(size as usize) {
            Ok(d) => d,
            Err(_) => return None,
        };
        let alignment_len = alignment_bytes_needed_4(size as usize);
        let _ = p.skip(alignment_len);
        self.rest = p.into_rest();
        proof {
            let s = old(self)@;
            assert(s.skip(4).skip(4) =~= s.skip(8));
            assert(data@ =~= subsection_data(s));
            assert(s.skip(8).skip(size as int) =~= s.skip(8 + size));
            if 8 + size + alignment_len <= s.len() {
                assert(s.skip(8 + size).skip(alignment_len as int) =~= s.skip(
                    8 + size + alignment_len,
                ));
            }
        }
        Some(Subsection { kind: SubsectionKind(kind), data })
    }

    /// Counts the remaining complete subsections (consuming them).
    pub fn count(&mut self) -> (n: usize)
        ensures
            n == count_subsections(old(self)@),
    {
        let mut n: usize = 0;
        let total = self.rest.len();
        proof {
            lemma_count_subsections_bound(self@);
        }
        loop
            invariant
                n + count_subsections(self@) == count_subsections(old(self)@),
                count_subsections(old(self)@) <= total,
            decreases self@.len(),
        {
            proof {
                lemma_count_subsections_bound(self@);
            }
            match self.next() {
                Some(_) => {
                    n = n + 1;
                },
                None => {
                    return n;
                },
            }
        }
    }
}

/// A subsection's payload is no longer than the data that holds it.
pub proof fn lemma_find_subsection_len(s: Seq<u8>, kind: u32)
    ensures
        find_subsection(s, kind) matches Some(b) ==> b.len() <= s.len(),
    decreases s.len(),
{
    if has_subsection(s) && subsection_kind(s) != kind {
        lemma_find_subsection_len(subsection_rest(s), kind);
    }
}

/// The count of subsections is at most the number of bytes.
pub proof fn lemma_count_subsections_bound(s: Seq<u8>)
    ensures
        count_subsections(s) <= s.len(),
    decreases s.len(),
{
    if has_subsection(s) {
        lemma_count_subsections_bound(subsection_rest(s));
    }
}

/// Iterator state for subsections with mutable access
pub struct SubsectionIterMut<'a> {
    /// The unparsed data.
    pub rest: &'a mut [u8],
}

impl<'a> View for SubsectionIterMut<'a> {
    type V = Seq<u8>;

    open spec fn view(&self) -> Seq<u8> {
        self.rest@
    }
}

impl<'a> HasRestLen for SubsectionIterMut<'a> {
    closed spec fn rest_len_spec(&self) -> nat {
        self.rest@.len()
    }

    fn rest_len(&self) -> (n: usize) {
        self.rest.len()
    }
}

impl<'a> SubsectionIterMut<'a> {
    /// Begins iteration. Writes through the subsections that it hands out reach `rest`.
    pub fn new(rest: &'a mut [u8]) -> (it: Self)
        ensures
            it@ == old(rest)@,
            final(rest)@ == final(it.rest)@,
    {
        Self { rest }
    }

    /// The remaining unparsed data.
    pub fn rest(&self) -> (r: &[u8])
        ensures
            r@ == self@,
    {
        self.rest
    }

    /// Decodes the next subsection, with mutable access to its payload. When the data does not
    /// begin with a complete subsection, returns `None` and the iterator gives up the rest of the
    /// data (it becomes empty).
    pub fn next(&mut self) -> (r: Option<SubsectionMut<'a>>)
        ensures
            r is Some <==> has_subsection(old(self)@),
            r matches Some(sub) ==> sub.kind.0 == subsection_kind(old(self)@) && sub.data@
                == subsection_data(old(self)@) && final(self)@ == subsection_rest(old(self)@),
            r is None ==> final(self)@.len() == 0,
            r matches Some(sub) ==> final(old(self).rest)@ == old(self)@.take(8) + final(sub.data)@
                + old(self)@.subrange(
                8 + subsection_size(old(self)@),
                old(self)@.len() - subsection_rest(old(self)@).len(),
            ) + final(final(self).rest)@,
            r is None ==> final(old(self).rest)@ == old(self)@,
    {
        let mut tmp: &'a mut [u8] = &mut [];
        core::mem::swap(&mut tmp, &mut self.rest);
        if tmp.len() == 0 {
            return None;
        }
        let mut p = ParserMut::new(tmp);
        let kind = match p.u32() {
            Ok(v) => v,
            Err(_) => return None,
        };
        let size = match p.u32() {
            Ok(v) => v,
            Err(_) => return None,
        };
        let data = match p.bytes_mut(size as usize) {
            Ok(d) => d,
            Err(_) => return None,
        };
        let alignment_len = alignment_bytes_needed_4(size as usize);
        let _ = p.skip(alignment_len);
        self.rest = p.into_rest();
        proof {
            let s = old(self)@;
            assert(s.skip(4).skip(4) =~= s.skip(8));
            assert(data@ =~= subsection_data(s));
            assert(s.skip(8).skip(size as int) =~= s.skip(8 + size));
            if 8 + size + alignment_len <= s.len() {
                assert(s.skip(8 + size).skip(alignment_len as int) =~= s.skip(
                    8 + size + alignment_len,
                ));
            }
        }
        Some(SubsectionMut { kind: SubsectionKind(kind), data })
    }

    /// Counts the remaining complete subsections (consuming them).
    pub fn count(&mut self) -> (n: usize)
        ensures
            n == count_subsections(old(self)@),
    {
        let mut n: usize = 0;
        let total = self.rest.len();
        proof {
            lemma_count_subsections_bound(self@);
        }
        loop
            invariant
                n + count_subsections(self@) == count_subsections(old(self)@),
                count_subsections(old(self)@) <= total,
            decreases self@.len(),
        {
            proof {
                lemma_count_subsections_bound(self@);
                lemma_count_subsections_bound(old(self)@);
            }
            match self.next() {
                Some(_) => {
                    n = n + 1;
                },
                None => {
                    return n;
                },
            }
        }
    }
}

} // verus!
