//! Iteration over the records of a symbol stream.

use vstd::prelude::*;
use crate::le::{le_u16, le_u32};
use crate::parser::{Parser, ParserError, ParserMut};
use crate::record::{has_record, record_kind, record_payload, record_size, split_record};
use crate::syms::kind::{SymKind, S_BPREL32, S_BUILDINFO, S_CALLSITEINFO, S_CONSTANT, S_FILESTATIC, S_GDATA32, S_GDATA32_ST, S_GPROC32, S_GPROC32_ST, S_GTHREAD32, S_GTHREAD32_ST, S_HEAPALLOCSITE, S_LDATA32, S_LDATA32_ST, S_LOCAL, S_LPROC32, S_LPROC32_ST, S_LTHREAD32, S_LTHREAD32_ST, S_REGISTER, S_REGREL32, S_UDT, S_UNAMESPACE, S_VFTABLE32};
use crate::utils::iter::HasRestLen;

verus! {

/// A symbol record: its kind and its payload (without the length and kind fields).
pub struct Sym<'a> {
    /// The kind of the symbol.
    pub kind: SymKind,
    /// The payload of the symbol record.
    pub data: &'a [u8],
}

/// A symbol record, with mutable access to its payload.
pub struct SymMut<'a> {
    /// The kind of the symbol.
    pub kind: SymKind,
    /// The payload of the symbol record.
    pub data: &'a mut [u8],
}

/// The decoded contents of the few symbol kinds that this library decodes.
pub enum SymData<'a> {
    /// `S_BUILDINFO`: the item id of the build information record.
    BuildInfo(u32),
    /// `S_UNAMESPACE`: the namespace named by a `using namespace` directive.
    UsingNamespace(&'a [u8]),
    /// Any other kind; the payload is not decoded.
    Other,
}

impl<'a> Sym<'a> {
    /// Decodes the payload of this symbol, for the kinds that this library understands.
    pub fn parse(&self) -> (r: Result<SymData<'a>, ParserError>)
        ensures
            self.kind.0 == S_BUILDINFO ==> (r is Ok <==> self.data@.len() >= 4) && (r is Ok ==> (
            r matches Ok(SymData::BuildInfo(id)) && id == le_u32(self.data@))),
            self.kind.0 == S_UNAMESPACE ==> (r is Ok <==> exists|n: int|
                crate::parser::nul_terminated_len(self.data@, n)) && (r is Ok ==> (r matches Ok(
                SymData::UsingNamespace(ns),
            ) && crate::parser::nul_terminated_len(self.data@, ns@.len() as int) && ns@
                == self.data@.take(ns@.len() as int))),
            self.kind.0 != S_BUILDINFO && self.kind.0 != S_UNAMESPACE ==> r matches Ok(
                SymData::Other,
            ),
    {
        let mut p = Parser::new(self.data);
        if self.kind.0 == S_BUILDINFO {
            let id = p.u32()?;
            Ok(SymData::BuildInfo(id))
        } else if self.kind.0 == S_UNAMESPACE {
            let ns = p.strz()?;
            Ok(SymData::UsingNamespace(ns))
        } else {
            Ok(SymData::Other)
        }
    }
}

impl<'a> SymData<'a> {
    /// The name of the symbol, for the kinds that have one.
    pub fn name(&self) -> (r: Option<&'a [u8]>)
        ensures
            r == (match *self {
                SymData::UsingNamespace(ns) => Some(ns),
                _ => None,
            }),
    {
        match self {
            SymData::UsingNamespace(ns) => Some(*ns),
            _ => None,
        }
    }
}

/// Parses `Sym` records from a symbol stream.
#[derive(Clone)]
pub struct SymIter<'a> {
    data: &'a [u8],
}

impl<'a> View for SymIter<'a> {
    type V = Seq<u8>;

    closed spec fn view(&self) -> Seq<u8> {
        self.data@
    }
}

impl<'a> HasRestLen for SymIter<'a> {
    closed spec fn rest_len_spec(&self) -> nat {
        self.data@.len()
    }

    fn rest_len(&self) -> (n: usize) {
        self.data.len()
    }
}

impl<'a> SymIter<'a> {
    /// Creates a new symbol iterator.
    pub fn new(data: &'a [u8]) -> (it: Self)
        ensures
            it@ == data@,
    {
        Self { data }
    }

    /// The number of unparsed bytes, as a spec value.
    pub proof fn lemma_rest_len(&self)
        ensures
            self.rest_len_spec() == self@.len(),
    {
    }

    /// Parses the 4-byte CodeView signature that is at the start of a module symbol stream.
    pub fn get_signature(&mut self) -> (r: Result<[u8; 4], ParserError>)
        ensures
            r is Ok <==> old(self)@.len() >= 4,
            r matches Ok(sig) ==> sig@ == old(self)@.take(4) && final(self)@ == old(self)@.skip(4),
            r is Err ==> final(self)@ == old(self)@,
    {
        let mut p = Parser::new(self.data);
        let b = p.bytes(4)?;
        self.data = p.into_rest();
        let sig = [b[0], b[1], b[2], b[3]];
        assert(sig@ =~= old(self)@.take(4));
        Ok(sig)
    }

    /// The remaining unparsed bytes in the symbol stream.
    pub fn rest(&self) -> (r: &'a [u8])
        ensures
            r@ == self@,
    {
        self.data
    }

    /// Parses a single record from `data`.
    pub fn one(data: &'a [u8]) -> (r: Option<Sym<'a>>)
        ensures
            r is Some <==> has_record(data@),
            r matches Some(s) ==> s.kind.0 == record_kind(data@) && s.data@ == record_payload(
                data@,
            ),
    {
        let mut it = Self::new(data);
        it.next()
    }

    /// Parses the next symbol record. When the data does not begin with a complete record,
    /// returns `None` and leaves the iterator unchanged.
    pub fn next(&mut self) -> (r: Option<Sym<'a>>)
        ensures
            r is Some <==> has_record(old(self)@),
            r matches Some(s) ==> s.kind.0 == record_kind(old(self)@) && s.data@ == record_payload(
                old(self)@,
            ) && final(self)@ == old(self)@.skip(record_size(old(self)@)),
            r is None ==> final(self)@ == old(self)@,
    {
        match split_record(self.data) {
            Some((kind, data, rest)) => {
                self.data = rest;
                Some(Sym { kind: SymKind(kind), data })
            },
            None => None,
        }
    }
}

/// Parses `SymMut` records from a symbol stream.
///
/// This iterator allows you to modify the payload of a symbol record but not to change its
/// length or its kind.
pub struct SymIterMut<'a> {
    /// The unparsed data.
    pub data: &'a mut [u8],
}

impl<'a> View for SymIterMut<'a> {
    type V = Seq<u8>;

    open spec fn view(&self) -> Seq<u8> {
        self.data@
    }
}

impl<'a> HasRestLen for SymIterMut<'a> {
    closed spec fn rest_len_spec(&self) -> nat {
        self.data@.len()
    }

    fn rest_len(&self) -> (n: usize) {
        self.data.len()
    }
}

/// Whether the record at the start of `s` can be split off by `SymIterMut::next`: either it is
/// too short to be a record, or its length field is too small, or the whole record is present.
pub open spec fn sym_mut_next_defined(s: Seq<u8>) -> bool {
    s.len() < 4 || le_u16(s) < 2 || 2 + le_u16(s) <= s.len()
}

impl<'a> SymIterMut<'a> {
    /// Creates a new symbol iterator. Writes through the records that it hands out reach
    /// `data`; what it skips is left as it was.
    pub fn new(data: &'a mut [u8]) -> (it: Self)
        ensures
            it@ == old(data)@,
            final(data)@ == final(it.data)@,
    {
        Self { data }
    }

    /// Parses the 4-byte CodeView signature that is at the start of a module symbol stream.
    pub fn get_signature(&mut self) -> (r: Result<[u8; 4], ParserError>)
        ensures
            r is Ok <==> old(self)@.len() >= 4,
            r matches Ok(sig) ==> sig@ == old(self)@.take(4) && final(self)@ == old(self)@.skip(4),
            r is Err ==> final(self)@ == old(self)@,
            r is Ok ==> final(old(self).data)@ == old(self)@.take(4) + final(final(self).data)@,
            r is Err ==> final(final(self).data)@ == final(old(self).data)@,
    {
        let mut tmp: &'a mut [u8] = &mut [];
        core::mem::swap(&mut tmp, &mut self.data);
        let mut p = ParserMut::new(tmp);
        match p.bytes(4) {
            Ok(b) => {
                let sig = [b[0], b[1], b[2], b[3]];
                self.data = p.into_rest();
                assert(sig@ =~= old(self)@.take(4));
                Ok(sig)
            },
            Err(e) => {
                self.data = p.into_rest();
                Err(e)
            },
        }
    }

    /// The remaining unparsed bytes in the symbol stream.
    pub fn rest(&self) -> (r: &[u8])
        ensures
            r@ == self@,
    {
        self.data
    }

    /// The remaining unparsed bytes in the symbol stream, with mutable access. Writes through
    /// them reach the iterator's bytes.
    pub fn rest_mut(&mut self) -> (r: &mut [u8])
        ensures
            r@ == old(self)@,
            final(self)@ == final(r)@,
    {
        &mut *self.data
    }

    /// Converts this iterator into a mutable reference to the unparsed bytes in the symbol stream.
    pub fn into_rest(self) -> (r: &'a mut [u8])
        ensures
            r@ == self@,
    {
        self.data
    }

    /// Splits off the next symbol record, with mutable access to its payload.
    ///
    /// Returns `None` when fewer than 4 bytes remain or when the length field is less than 2;
    /// the iterator is then unchanged. A record whose length field reaches past the end of the
    /// data is not accepted (`requires`).
    pub fn next(&mut self) -> (r: Option<SymMut<'a>>)
        requires
            sym_mut_next_defined(old(self)@),
        ensures
            r is Some <==> has_record(old(self)@),
            r matches Some(s) ==> s.kind.0 == record_kind(old(self)@) && s.data@ == record_payload(
                old(self)@,
            ) && final(self)@ == old(self)@.skip(record_size(old(self)@)),
            r is None ==> final(self)@ == old(self)@,
            r matches Some(s) ==> final(old(self).data)@ == old(self)@.take(4) + final(s.data)@
                + final(final(self).data)@,
            r is None ==> final(final(self).data)@ == final(old(self).data)@,
    {
        if self.data.len() < 4 {
            return None;
        }
        let (record_len, kind) = {
            let p = Parser::new(&*self.data);
            let mut p = p;
            let record_len = match p.u16() {
                Ok(v) => v,
                Err(_) => return None,
            };
            let kind = match p.u16() {
                Ok(v) => v,
                Err(_) => return None,
            };
            proof {
                assert(old(self)@.skip(2) =~= old(self)@.skip(2));
            }
            (record_len, kind)
        };
        if record_len < 2 {
            return None;
        }
        let mut tmp: &'a mut [u8] = &mut [];
        core::mem::swap(&mut tmp, &mut self.data);
        let (entire, hi) = tmp.split_at_mut(2 + record_len as usize);
        self.data = hi;
        let mut p = ParserMut::new(entire);
        let _ = p.skip(4);
        let record_data = p.into_rest();
        proof {
            assert(record_data@ =~= record_payload(old(self)@));
        }
        Some(SymMut { kind: SymKind(kind), data: record_data })
    }
}

/// The size of the fixed part of a procedure record (`S_GPROC32` and friends).
pub const PROC_FIXED_SIZE: usize = 35;

/// The offset of the type index within the fixed part of a procedure record.
pub const PROC_FIXED_TYPE_OFFSET: usize = 24;

/// The byte offsets of the `TypeIndex` fields within the payload of a symbol of kind `k`, and the
/// number of bytes that the payload must hold for them to be read.
pub open spec fn sym_type_ref_layout(k: u16) -> (Seq<int>, int) {
    if k == S_CALLSITEINFO || k == S_HEAPALLOCSITE {
        (seq![8], 12)
    } else if k == S_FILESTATIC || k == S_UDT || k == S_LOCAL || k == S_CONSTANT || k == S_GDATA32
        || k == S_LDATA32 || k == S_GDATA32_ST || k == S_LDATA32_ST || k == S_REGISTER {
        (seq![0], 4)
    } else if k == S_VFTABLE32 || k == S_LTHREAD32 || k == S_GTHREAD32 || k == S_LTHREAD32_ST
        || k == S_GTHREAD32_ST {
        (seq![0, 4], 8)
    } else if k == S_BPREL32 || k == S_REGREL32 {
        (seq![4], 8)
    } else if k == S_LPROC32 || k == S_GPROC32 || k == S_LPROC32_ST || k == S_GPROC32_ST {
        (seq![PROC_FIXED_TYPE_OFFSET as int], PROC_FIXED_SIZE as int)
    } else {
        (seq![], 0)
    }
}

/// Finds the byte offsets of the `TypeIndex` fields within the payload of a symbol record.
///
/// Fails when the payload is too short to hold the fields that the kind defines.
pub fn sym_type_ref_offsets(kind: SymKind, payload_len: usize) -> (r: Result<Vec<usize>, ParserError>)
    ensures
        r is Ok <==> payload_len >= sym_type_ref_layout(kind.0).1,
        r matches Ok(v) ==> v@.map_values(|o: usize| o as int) == sym_type_ref_layout(kind.0).0,
{
    let k = kind.0;
    let mut v: Vec<usize> = Vec::new();
    let need: usize;
    if k == S_CALLSITEINFO || k == S_HEAPALLOCSITE {
        v.push(8);
        need = 12;
    } else if k == S_FILESTATIC || k == S_UDT || k == S_LOCAL || k == S_CONSTANT || k == S_GDATA32
        || k == S_LDATA32 || k == S_GDATA32_ST || k == S_LDATA32_ST || k == S_REGISTER {
        v.push(0);
        need = 4;
    } else if k == S_VFTABLE32 || k == S_LTHREAD32 || k == S_GTHREAD32 || k == S_LTHREAD32_ST
        || k == S_GTHREAD32_ST {
        v.push(0);
        v.push(4);
        need = 8;
    } else if k == S_BPREL32 || k == S_REGREL32 {
        v.push(4);
        need = 8;
    } else if k == S_LPROC32 || k == S_GPROC32 || k == S_LPROC32_ST || k == S_GPROC32_ST {
        v.push(PROC_FIXED_TYPE_OFFSET);
        need = PROC_FIXED_SIZE;
    } else {
        need = 0;
    }
    if payload_len < need {
        return Err(ParserError::new());
    }
    assert(v@.map_values(|o: usize| o as int) =~= sym_type_ref_layout(kind.0).0);
    Ok(v)
}

} // verus!
