//! Code for iterating through type streams

use vstd::prelude::*;
use crate::parser::ParserMut;
use crate::record::{has_record, record_kind, record_payload, record_size, record_starts_from, split_record};
use crate::types::kind::Leaf;
use crate::utils::iter::HasRestLen;

verus! {

/// Parses a type record stream and iterates `TypeRecord` values.
#[derive(Clone)]
pub struct TypesIter<'a> {
    buffer: &'a [u8],
}

impl<'a> View for TypesIter<'a> {
    type V = Seq<u8>;

    closed spec fn view(&self) -> Seq<u8> {
        self.buffer@
    }
}

impl<'a> HasRestLen for TypesIter<'a> {
    closed spec fn rest_len_spec(&self) -> nat {
        self.buffer@.len()
    }

    fn rest_len(&self) -> (n: usize) {
        self.buffer.len()
    }
}

/// Represents a record that was enumerated within a type record stream (the TPI or IPI).
#[derive(Clone)]
pub struct TypeRecord<'a> {
    /// Indicates how to interpret the payload (the `data` field).
    pub kind: Leaf,
    /// Record data. This does NOT include `kind` and the record data length.
    pub data: &'a [u8],
}

impl<'a> TypesIter<'a> {
    /// Starts a new iterator.
    pub fn new(buffer: &'a [u8]) -> (it: Self)
        ensures
            it@ == buffer@,
    {
        Self { buffer }
    }

    /// Returns the "rest" of the data that has not been parsed.
    pub fn rest(&self) -> (r: &'a [u8])
        ensures
            r@ == self@,
    {
        self.buffer
    }

    /// Finds the next type record.
    ///
    /// If it cannot decode the next record, it does not change the iterator, so that an
    /// application can see the exact length and contents of an unparseable record.
    pub fn next(&mut self) -> (r: Option<TypeRecord<'a>>)
        ensures
            r is Some <==> has_record(old(self)@),
            r matches Some(t) ==> t.kind.0 == record_kind(old(self)@) && t.data@ == record_payload(
                old(self)@,
            ) && final(self)@ == old(self)@.skip(record_size(old(self)@)),
            r is None ==> final(self)@ == old(self)@,
    {
        match split_record(self.buffer) {
            Some((kind, data, rest)) => {
                self.buffer = rest;
                Some(TypeRecord { kind: Leaf(kind), data })
            },
            None => None,
        }
    }
}

/// Builds a "starts" table that gives the starting location of each type record, plus one
/// more entry: the offset at which decoding stopped (the end of the data, or the start of an
/// undecodable record).
pub fn build_types_starts(num_records_expected: usize, type_records: &[u8]) -> (starts: Vec<u32>)
    requires
        type_records@.len() <= u32::MAX,
    ensures
        starts@.map_values(|x: u32| x as int) == record_starts_from(type_records@, 0),
{
    let ghost s = type_records@;
    let mut starts: Vec<u32> = Vec::new();
    let mut iter = TypesIter::new(type_records);
    let total = type_records.len();
    loop
        invariant_except_break
            starts@.map_values(|x: u32| x as int) + record_starts_from(s, s.len() - iter@.len())
                == record_starts_from(s, 0),
        invariant
            total == s.len(),
            s.len() <= u32::MAX,
            iter@.len() <= s.len(),
            iter@ == s.skip(s.len() - iter@.len()),
        ensures
            starts@.map_values(|x: u32| x as int) == record_starts_from(s, 0),
        decreases iter@.len(),
    {
        let pos = total - iter.rest().len();
        let ghost before = starts@.map_values(|x: u32| x as int);
        starts.push(pos as u32);
        let ghost it_before = iter@;
        let r = iter.next();
        proof {
            assert(starts@.map_values(|x: u32| x as int) =~= before.push(pos as int));
        }
        if r.is_none() {
            proof {
                assert(record_starts_from(s, pos as int) == seq![pos as int]);
                assert(before + seq![pos as int] =~= before.push(pos as int));
                assert(starts@.map_values(|x: u32| x as int) == record_starts_from(s, 0));
            }
            break;
        }
        proof {
            assert(s.skip(pos as int).skip(record_size(it_before)) =~= s.skip(
                pos + record_size(it_before),
            ));
            assert(record_starts_from(s, pos as int) == seq![pos as int] + record_starts_from(
                s,
                pos + record_size(s.skip(pos as int)),
            ));
            assert(before.push(pos as int) + record_starts_from(s, s.len() - iter@.len()) =~= before
                + record_starts_from(s, pos as int));
        }
    }
    starts
}

/// Parses a type record stream and iterates `TypeRecordMut` values.
pub struct TypesIterMut<'a> {
    buffer: &'a mut [u8],
}

impl<'a> View for TypesIterMut<'a> {
    type V = Seq<u8>;

    closed spec fn view(&self) -> Seq<u8> {
        self.buffer@
    }
}

impl<'a> HasRestLen for TypesIterMut<'a> {
    closed spec fn rest_len_spec(&self) -> nat {
        self.buffer@.len()
    }

    fn rest_len(&self) -> (n: usize) {
        self.buffer.len()
    }
}

/// Represents a record that was enumerated within a type record stream (the TPI or IPI).
/// Allows mutable access.
pub struct TypeRecordMut<'a> {
    /// Indicates how to interpret the payload (the `data` field).
    pub kind: Leaf,
    /// Record data. This does NOT include `kind` and the record data length.
    pub data: &'a mut [u8],
}

impl<'a> TypesIterMut<'a> {
    /// Starts a new iterator.
    pub fn new(buffer: &'a mut [u8]) -> (it: Self)
        ensures
            it@ == old(buffer)@,
    {
        Self { buffer }
    }

    /// Finds the next type record, with mutable access to its payload.
    ///
    /// Unlike `TypesIter::next`, when the next record cannot be decoded the iterator gives up
    /// the rest of the data (it becomes empty).
    pub fn next(&mut self) -> (r: Option<TypeRecordMut<'a>>)
        ensures
            r is Some <==> has_record(old(self)@),
            r matches Some(t) ==> t.kind.0 == record_kind(old(self)@) && t.data@ == record_payload(
                old(self)@,
            ) && final(self)@ == old(self)@.skip(record_size(old(self)@)),
            r is None ==> final(self)@.len() == 0,
    {
        let mut tmp: &'a mut [u8] = &mut [];
        core::mem::swap(&mut tmp, &mut self.buffer);
        if tmp.len() == 0 {
            return None;
        }
        let mut parser = ParserMut::new(tmp);
        let record_len = match parser.u16() {
            Ok(v) => v,
            Err(_) => return None,
        };
        if record_len < 2 {
            return None;
        }
        let type_kind = match parser.u16() {
            Ok(v) => v,
            Err(_) => return None,
        };
        let record_data = match parser.bytes_mut(record_len as usize - 2) {
            Ok(d) => d,
            Err(_) => return None,
        };
        self.buffer = parser.into_rest();
        proof {
            assert(old(self)@.skip(2).skip(2) =~= old(self)@.skip(4));
            assert(record_data@ =~= record_payload(old(self)@));
            assert(old(self)@.skip(4).skip(record_len - 2) =~= old(self)@.skip(
                record_size(old(self)@),
            ));
        }
        Some(TypeRecordMut { data: record_data, kind: Leaf(type_kind) })
    }
}

} // verus!
