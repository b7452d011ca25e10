//! Checks of a Type Stream or an Id Stream: the values of its header, and the ordering of the
//! indexes within its records.
//!
//! A record may only refer to records that come before it: a `TypeIndex` within the TPI must
//! be less than the index of the record that holds it, and likewise an `ItemId` within the IPI.

use vstd::prelude::*;
use crate::le::le_u32;
use crate::parser::ParserError;
use crate::record::{has_record, record_kind, record_payload, record_size};
use crate::diag::{kept_messages, messages_view, records_messages, Diags};
use crate::le::read_u32_at;
use crate::text::{dec_chars, push_dec, push_str};
use crate::types::{type_index_debug, TYPE_INDEX_MIN_BEGIN};
use crate::types::iter::TypesIter;
use crate::types::visitor::{record_index_locations, type_index_locations, IndexKind, IndexLocation};
use crate::types::TypeIndex;

verus! {

/// After more than this many bad indexes, the check stops (at the end of a record).
pub const MAX_ORDERING_ERRORS: usize = 25;

/// What is wrong with an index within the TPI.
#[derive(Clone, Copy, Debug, PartialEq, Eq, Structural)]
pub enum TpiBadReason {
    /// An `ItemId` appears in the TPI, which cannot refer to the IPI.
    ItemIdInWrongStream,
    /// A `TypeIndex` refers to the record that holds it or to a later one.
    TypeIndexForward,
}

/// What is wrong with an index within the IPI.
#[derive(Clone, Copy, Debug, PartialEq, Eq, Structural)]
pub enum IpiBadReason {
    /// A non-zero `ItemId` below the first id of the stream.
    IdInvalidLow,
    /// An `ItemId` that refers to the record that holds it or to a later one.
    IdInvalidForward,
    /// An `ItemId` beyond the last id of the stream.
    IdInvalidHigh,
    /// A `TypeIndex` beyond the end of the TPI.
    TypeIndexOutOfRange,
}

/// Why the ordering check failed.
pub enum TypeOrderingError<E> {
    /// A record could not be decoded.
    Decode(ParserError),
    /// Bad indexes were found: each with its offset within the stream and what is wrong with it.
    BadIndexes(Vec<E>),
}

/// The bad indexes among the index locations `locs` (those that lie within the record, as all
/// the locations that `record_index_locations` gives do) of a TPI record whose data is `data`, whose
/// own type index is `this`, and whose data begins at offset `base` of the stream.
pub open spec fn tpi_loc_errors(begin: u32, this: int, data: Seq<u8>, locs: Seq<IndexLocation>, base: int) -> Seq<(u32, TpiBadReason)>
    decreases locs.len(),
{
    if locs.len() == 0 {
        Seq::empty()
    } else {
        let l = locs.last();
        let prev = tpi_loc_errors(begin, this, data, locs.drop_last(), base);
        if l.offset + 4 > data.len() {
            prev
        } else {
            match l.kind {
            IndexKind::Item => prev.push(((base + l.offset) as u32, TpiBadReason::ItemIdInWrongStream)),
            IndexKind::Type => {
                let t = le_u32(data.skip(l.offset as int));
                if t < begin || t < this {
                    prev
                } else {
                    prev.push(((base + l.offset) as u32, TpiBadReason::TypeIndexForward))
                }
            },
            IndexKind::Name => prev,
        }
        }
    }
}

/// The index locations of a record (kept opaque here, so that checking does not unfold the record
/// layouts).
#[verifier::opaque]
pub open spec fn index_locations(kind: u16, data: Seq<u8>) -> Option<Seq<IndexLocation>> {
    record_index_locations(kind, data)
}

/// `index_locations` is `record_index_locations`.
proof fn lemma_index_locations(kind: u16, data: Seq<u8>)
    ensures
        index_locations(kind, data) == record_index_locations(kind, data),
{
    reveal(index_locations);
}

/// The index locations of a record, as `index_locations` gives them.
fn locations_of(kind: crate::types::kind::Leaf, data: &[u8]) -> (r: Result<Vec<IndexLocation>, ParserError>)
    ensures
        r is Ok <==> index_locations(kind.0, data@) is Some,
        r matches Ok(v) ==> index_locations(kind.0, data@) == Some(v@),
{
    proof {
        lemma_index_locations(kind.0, data@);
    }
    type_index_locations(kind, data)
}

/// The bad indexes found in the TPI records of `s` from `pos` on (the first being record `i`),
/// after `errs` were found in the earlier ones; or the decoding error.
pub open spec fn tpi_order_from(s: Seq<u8>, pos: int, i: int, begin: u32, ro: int, errs: Seq<(u32, TpiBadReason)>) -> Result<Seq<(u32, TpiBadReason)>, ParserError>
    decreases s.len() - pos,
{
    if !(0 <= pos < s.len() && has_record(s.skip(pos))) {
        Ok(errs)
    } else {
        let r = s.skip(pos);
        match index_locations(record_kind(r), record_payload(r)) {
            None => Err(ParserError),
            Some(locs) => {
                let e2 = errs + tpi_loc_errors(begin, begin + i, record_payload(r), locs, ro + pos + 4);
                if e2.len() > MAX_ORDERING_ERRORS {
                    Ok(e2)
                } else {
                    tpi_order_from(s, pos + record_size(r), i + 1, begin, ro, e2)
                }
            },
        }
    }
}

/// Appends to `errs` the bad indexes of one TPI record.
fn tpi_record_errors(
    begin: u32,
    this: u32,
    data: &[u8],
    locs: &Vec<IndexLocation>,
    base: u32,
    errs: &mut Vec<(u32, TpiBadReason)>,
)
    requires
        base + data@.len() <= u32::MAX,
    ensures
        final(errs)@ == old(errs)@ + tpi_loc_errors(begin, this as int, data@, locs@, base as int),
{
    let ghost e0 = errs@;
    let mut k: usize = 0;
    assert(locs@.take(0) =~= Seq::<IndexLocation>::empty());
    assert(e0 + Seq::<(u32, TpiBadReason)>::empty() =~= e0);
    while k < locs.len()
        invariant
            k <= locs@.len(),
            base + data@.len() <= u32::MAX,
            errs@ == e0 + tpi_loc_errors(begin, this as int, data@, locs@.take(k as int), base as int),
        decreases locs@.len() - k,
    {
        let l = locs[k];
        proof {
            assert(locs@.take(k + 1).drop_last() =~= locs@.take(k as int));
            assert(locs@.take(k + 1).last() == l);
        }
        if l.offset > data.len() || data.len() - l.offset < 4 {
            k = k + 1;
            continue;
        }
        match l.kind {
            IndexKind::Item => {
                errs.push((base + l.offset as u32, TpiBadReason::ItemIdInWrongStream));
            },
            IndexKind::Type => {
                let t = crate::le::read_u32_at(data, l.offset);
                if !(t < begin || t < this) {
                    errs.push((base + l.offset as u32, TpiBadReason::TypeIndexForward));
                }
            },
            IndexKind::Name => {},
        }
        k = k + 1;
    }
    assert(locs@.take(locs@.len() as int) =~= locs@);
}

/// Verifies that all `TypeIndex` values within the TPI are well-ordered: each refers to an
/// earlier record (or below `type_index_begin`, to a primitive type), and no `ItemId` appears.
/// `records_offset` is the offset of the records within the stream; the bad indexes are reported
/// with their offsets within the stream. The check stops after the first record at which more
/// than 25 bad indexes have been found.
pub fn check_tpi_type_ordering(
    type_index_begin: TypeIndex,
    _type_index_end: TypeIndex,
    records_offset: usize,
    records: &[u8],
) -> (r: Result<(), TypeOrderingError<(u32, TpiBadReason)>>)
    requires
        records_offset + records@.len() + 4 <= u32::MAX,
        type_index_begin.0 + records@.len() <= u32::MAX,
    ensures
        match tpi_order_from(records@, 0, 0, type_index_begin.0, records_offset as int, Seq::empty()) {
            Err(_) => r matches Err(TypeOrderingError::Decode(_)),
            Ok(es) => if es.len() == 0 {
                r is Ok
            } else {
                r matches Err(TypeOrderingError::BadIndexes(v)) && v@ == es
            },
        },
{
    let len = records.len();
    let begin = type_index_begin.0;
    let mut errs: Vec<(u32, TpiBadReason)> = Vec::new();
    let mut it = TypesIter::new(records);
    let mut pos: usize = 0;
    let mut i: u32 = 0;
    let ghost whole = tpi_order_from(records@, 0, 0, begin, records_offset as int, Seq::empty());
    loop
        invariant_except_break
            pos <= len,
            len == records@.len(),
            i <= pos,
            records_offset + len + 4 <= u32::MAX,
            begin + len <= u32::MAX,
            begin == type_index_begin.0,
            it@ == records@.skip(pos as int),
            whole == tpi_order_from(records@, 0, 0, begin, records_offset as int, Seq::empty()),
            whole == tpi_order_from(records@, pos as int, i as int, begin, records_offset as int, errs@),
        ensures
            whole == Ok::<Seq<(u32, TpiBadReason)>, ParserError>(errs@),
        decreases len - pos,
    {
        let r = match it.next() {
            None => break,
            Some(r) => r,
        };
        let ghost rec = records@.skip(pos as int);
        let locs = match locations_of(r.kind, r.data) {
            Ok(l) => l,
            Err(e) => {
                proof {
                    assert(has_record(rec));
                    assert(tpi_order_from(records@, pos as int, i as int, begin, records_offset as int, errs@)
                        is Err);
                }
                return Err(TypeOrderingError::Decode(e));
            },
        };
        let base = (records_offset + pos + 4) as u32;
        tpi_record_errors(begin, begin + i, r.data, &locs, base, &mut errs);
        if errs.len() > MAX_ORDERING_ERRORS {
            break;
        }
        proof {
            assert(it@ =~= records@.skip(pos + record_size(rec)));
        }
        pos = len - it.rest().len();
        i = i + 1;
    }
    if errs.len() == 0 {
        Ok(())
    } else {
        Err(TypeOrderingError::BadIndexes(errs))
    }
}

/// The bad indexes among the index locations `locs` (those that lie within the record) of an IPI
/// record whose data is `data`, whose own id is `this`, and whose data begins at offset `base` of
/// the stream: each with its offset, the record's id, what is wrong, and the index's value.
pub open spec fn ipi_loc_errors(
    type_index_end: u32,
    id_begin: u32,
    id_end: u32,
    this: u32,
    data: Seq<u8>,
    locs: Seq<IndexLocation>,
    base: int,
) -> Seq<(u32, u32, IpiBadReason, u32)>
    decreases locs.len(),
{
    if locs.len() == 0 {
        Seq::empty()
    } else {
        let l = locs.last();
        let prev = ipi_loc_errors(type_index_end, id_begin, id_end, this, data, locs.drop_last(), base);
        let off = (base + l.offset) as u32;
        if l.offset + 4 > data.len() {
            prev
        } else {
            let v = le_u32(data.skip(l.offset as int)) as u32;
            match l.kind {
                IndexKind::Item => if v == 0 {
                    prev
                } else if v < id_begin {
                    prev.push((off, this, IpiBadReason::IdInvalidLow, v))
                } else if v < id_end {
                    if v < this {
                        prev
                    } else {
                        prev.push((off, this, IpiBadReason::IdInvalidForward, v))
                    }
                } else {
                    prev.push((off, this, IpiBadReason::IdInvalidHigh, v))
                },
                IndexKind::Type => if v >= type_index_end {
                    prev.push((off, this, IpiBadReason::TypeIndexOutOfRange, v))
                } else {
                    prev
                },
                IndexKind::Name => prev,
            }
        }
    }
}

/// The bad indexes found in the IPI records of `s` from `pos` on (the first being record `i`),
/// after `errs` were found in the earlier ones; or the decoding error.
pub open spec fn ipi_order_from(
    s: Seq<u8>,
    pos: int,
    i: int,
    type_index_end: u32,
    id_begin: u32,
    id_end: u32,
    ro: int,
    errs: Seq<(u32, u32, IpiBadReason, u32)>,
) -> Result<Seq<(u32, u32, IpiBadReason, u32)>, ParserError>
    decreases s.len() - pos,
{
    if !(0 <= pos < s.len() && has_record(s.skip(pos))) {
        Ok(errs)
    } else {
        let r = s.skip(pos);
        match index_locations(record_kind(r), record_payload(r)) {
            None => Err(ParserError),
            Some(locs) => {
                let e2 = errs + ipi_loc_errors(
                    type_index_end,
                    id_begin,
                    id_end,
                    (id_begin + i) as u32,
                    record_payload(r),
                    locs,
                    ro + pos + 4,
                );
                if e2.len() > MAX_ORDERING_ERRORS {
                    Ok(e2)
                } else {
                    ipi_order_from(s, pos + record_size(r), i + 1, type_index_end, id_begin, id_end, ro, e2)
                }
            },
        }
    }
}

/// Appends to `errs` the bad indexes of one IPI record.
fn ipi_record_errors(
    type_index_end: u32,
    id_begin: u32,
    id_end: u32,
    this: u32,
    data: &[u8],
    locs: &Vec<IndexLocation>,
    base: u32,
    errs: &mut Vec<(u32, u32, IpiBadReason, u32)>,
)
    requires
        base + data@.len() <= u32::MAX,
    ensures
        final(errs)@ == old(errs)@ + ipi_loc_errors(type_index_end, id_begin, id_end, this, data@, locs@, base as int),
{
    let ghost e0 = errs@;
    let mut k: usize = 0;
    assert(locs@.take(0) =~= Seq::<IndexLocation>::empty());
    assert(e0 + Seq::<(u32, u32, IpiBadReason, u32)>::empty() =~= e0);
    while k < locs.len()
        invariant
            k <= locs@.len(),
            base + data@.len() <= u32::MAX,
            errs@ == e0 + ipi_loc_errors(type_index_end, id_begin, id_end, this, data@, locs@.take(k as int), base as int),
        decreases locs@.len() - k,
    {
        let l = locs[k];
        proof {
            assert(locs@.take(k + 1).drop_last() =~= locs@.take(k as int));
            assert(locs@.take(k + 1).last() == l);
        }
        if l.offset > data.len() || data.len() - l.offset < 4 {
            k = k + 1;
            continue;
        }
        let off = base + l.offset as u32;
        let v = crate::le::read_u32_at(data, l.offset);
        match l.kind {
            IndexKind::Item => {
                if v == 0 {
                } else if v < id_begin {
                    errs.push((off, this, IpiBadReason::IdInvalidLow, v));
                } else if v < id_end {
                    if !(v < this) {
                        errs.push((off, this, IpiBadReason::IdInvalidForward, v));
                    }
                } else {
                    errs.push((off, this, IpiBadReason::IdInvalidHigh, v));
                }
            },
            IndexKind::Type => {
                if v >= type_index_end {
                    errs.push((off, this, IpiBadReason::TypeIndexOutOfRange, v));
                }
            },
            IndexKind::Name => {},
        }
        k = k + 1;
    }
    assert(locs@.take(locs@.len() as int) =~= locs@);
}

/// Verifies that all `ItemId` values within an IPI Stream are well-ordered: each non-zero id
/// refers to an earlier record of the stream (`id_begin..id_end` being the ids of the stream), and
/// each `TypeIndex` lies below `type_index_end`, the end of the TPI. `records_offset` is the offset
/// of the records within the stream; the bad indexes are reported with their offsets within the
/// stream, the id of the record that holds them, and their values. The check stops after the
/// first record at which more than 25 bad indexes have been found.
pub fn check_ipi_type_ordering(
    _type_index_begin: TypeIndex,
    type_index_end: TypeIndex,
    id_begin: u32,
    id_end: u32,
    records_offset: usize,
    records: &[u8],
) -> (r: Result<(), TypeOrderingError<(u32, u32, IpiBadReason, u32)>>)
    requires
        records_offset + records@.len() + 4 <= u32::MAX,
        id_begin + records@.len() <= u32::MAX,
    ensures
        match ipi_order_from(records@, 0, 0, type_index_end.0, id_begin, id_end, records_offset as int, Seq::empty()) {
            Err(_) => r matches Err(TypeOrderingError::Decode(_)),
            Ok(es) => if es.len() == 0 {
                r is Ok
            } else {
                r matches Err(TypeOrderingError::BadIndexes(v)) && v@ == es
            },
        },
{
    let len = records.len();
    let tend = type_index_end.0;
    let mut errs: Vec<(u32, u32, IpiBadReason, u32)> = Vec::new();
    let mut it = TypesIter::new(records);
    let mut pos: usize = 0;
    let mut i: u32 = 0;
    let ghost whole = ipi_order_from(records@, 0, 0, tend, id_begin, id_end, records_offset as int, Seq::empty());
    loop
        invariant_except_break
            pos <= len,
            len == records@.len(),
            i <= pos,
            records_offset + len + 4 <= u32::MAX,
            id_begin + len <= u32::MAX,
            tend == type_index_end.0,
            it@ == records@.skip(pos as int),
            whole == ipi_order_from(records@, 0, 0, tend, id_begin, id_end, records_offset as int, Seq::empty()),
            whole == ipi_order_from(records@, pos as int, i as int, tend, id_begin, id_end, records_offset as int, errs@),
        ensures
            whole == Ok::<Seq<(u32, u32, IpiBadReason, u32)>, ParserError>(errs@),
        decreases len - pos,
    {
        let r = match it.next() {
            None => break,
            Some(r) => r,
        };
        let ghost rec = records@.skip(pos as int);
        let locs = match locations_of(r.kind, r.data) {
            Ok(l) => l,
            Err(e) => {
                proof {
                    assert(has_record(rec));
                    assert(ipi_order_from(records@, pos as int, i as int, tend, id_begin, id_end, records_offset as int, errs@)
                        is Err);
                }
                return Err(TypeOrderingError::Decode(e));
            },
        };
        let base = (records_offset + pos + 4) as u32;
        ipi_record_errors(tend, id_begin, id_end, id_begin + i, r.data, &locs, base, &mut errs);
        if errs.len() > MAX_ORDERING_ERRORS {
            break;
        }
        proof {
            assert(it@ =~= records@.skip(pos + record_size(rec)));
        }
        pos = len - it.rest().len();
        i = i + 1;
    }
    if errs.len() == 0 {
        Ok(())
    } else {
        Err(TypeOrderingError::BadIndexes(errs))
    }
}

/// The size of the header at the start of a Type Stream (and of an Id Stream).
pub const TYPE_STREAM_HEADER_LEN: usize = 56;

/// A single error message.
pub open spec fn one_error(text: Seq<char>) -> Seq<(bool, Seq<char>)> {
    seq![(true, text)]
}

/// What `check_type_stream` finds wrong with the Type Stream `s`, in order (all errors). The
/// header holds `header_size` at offset 4, `type_index_begin` at 8, `type_index_end` at 12 and
/// the size of the type records at 16. The check stops at the first of these problems but the
/// last.
pub open spec fn type_stream_findings(s: Seq<u8>) -> Seq<(bool, Seq<char>)> {
    if s.len() == 0 {
        Seq::empty()
    } else if s.len() < TYPE_STREAM_HEADER_LEN {
        one_error("The Type Stream is too small to contain a valid Type Stream Header."@)
    } else {
        let header_size = le_u32(s.skip(4));
        let begin = le_u32(s.skip(8)) as u32;
        let end = le_u32(s.skip(12)) as u32;
        let types_size = le_u32(s.skip(16));
        if header_size < TYPE_STREAM_HEADER_LEN {
            one_error(
                "The Type Stream Header specifies a header_size ("@ + dec_chars(header_size as nat)
                    + ") that is too small to be valid."@,
            )
        } else if begin < TYPE_INDEX_MIN_BEGIN {
            one_error(
                "The Type Stream has an invalid value for type_index_begin ("@ + type_index_debug(
                    TypeIndex(begin),
                ) + "). It is less than the minimum required value (4096)."@,
            )
        } else if end < begin {
            one_error(
                "The Type Stream has an invalid value for type_index_end ("@ + type_index_debug(
                    TypeIndex(end),
                ) + "). It is less than type_index_begin ("@ + type_index_debug(TypeIndex(begin))
                    + ")."@,
            )
        } else if header_size > s.len() {
            one_error(
                "The Type Stream Header specifies a header_size ("@ + dec_chars(header_size as nat)
                    + ") that is larger than the size of the stream."@,
            )
        } else if types_size > s.len() - header_size {
            one_error(
                "The Type Stream Header specifies a types_size ("@ + dec_chars(types_size as nat)
                    + ") that exceeds the remaining data in the stream ("@ + dec_chars(
                    (s.len() - header_size) as nat,
                ) + ")."@,
            )
        } else if types_size % 2 != 0 {
            one_error(
                "The Type Stream is invalid. The Type Stream Header specifies a types_size ("@
                    + dec_chars(types_size as nat) + ") that is not aligned to 2-byte boundaries."@,
            )
        } else {
            Seq::empty()
        }
    }
}

/// Adds an error whose text is `text`.
fn error_message(out: &mut Vec<(bool, String)>, text: String)
    ensures
        final(out)@ == old(out)@.push((true, text)),
{
    out.push((true, text));
}

/// Computes `type_stream_findings`.
pub fn type_stream_findings_exec(stream_data: &[u8]) -> (ms: Vec<(bool, String)>)
    ensures
        messages_view(ms@) == type_stream_findings(stream_data@),
{
    let ghost sd = stream_data@;
    let mut out: Vec<(bool, String)> = Vec::new();
    let mut t = String::new();
    if stream_data.len() == 0 {
        assert(messages_view(out@) =~= type_stream_findings(sd));
        return out;
    }
    if stream_data.len() < TYPE_STREAM_HEADER_LEN {
        push_str(&mut t, "The Type Stream is too small to contain a valid Type Stream Header.");
    } else {
        let header_size = read_u32_at(stream_data, 4);
        let begin = read_u32_at(stream_data, 8);
        let end = read_u32_at(stream_data, 12);
        let types_size = read_u32_at(stream_data, 16);
        if (header_size as usize) < TYPE_STREAM_HEADER_LEN {
            push_str(&mut t, "The Type Stream Header specifies a header_size (");
            push_dec(&mut t, header_size as u64);
            push_str(&mut t, ") that is too small to be valid.");
        } else if begin < TYPE_INDEX_MIN_BEGIN {
            push_str(&mut t, "The Type Stream has an invalid value for type_index_begin (");
            let d = TypeIndex(begin).to_debug_string();
            push_str(&mut t, d.as_str());
            push_str(&mut t, "). It is less than the minimum required value (4096).");
        } else if end < begin {
            push_str(&mut t, "The Type Stream has an invalid value for type_index_end (");
            let d = TypeIndex(end).to_debug_string();
            push_str(&mut t, d.as_str());
            push_str(&mut t, "). It is less than type_index_begin (");
            let d2 = TypeIndex(begin).to_debug_string();
            push_str(&mut t, d2.as_str());
            push_str(&mut t, ").");
        } else if header_size as usize > stream_data.len() {
            push_str(&mut t, "The Type Stream Header specifies a header_size (");
            push_dec(&mut t, header_size as u64);
            push_str(&mut t, ") that is larger than the size of the stream.");
        } else if types_size as usize > stream_data.len() - header_size as usize {
            push_str(&mut t, "The Type Stream Header specifies a types_size (");
            push_dec(&mut t, types_size as u64);
            push_str(&mut t, ") that exceeds the remaining data in the stream (");
            push_dec(&mut t, (stream_data.len() - header_size as usize) as u64);
            push_str(&mut t, ").");
        } else if types_size % 2 != 0 {
            push_str(&mut t, "The Type Stream is invalid. The Type Stream Header specifies a types_size (");
            push_dec(&mut t, types_size as u64);
            push_str(&mut t, ") that is not aligned to 2-byte boundaries.");
        } else {
            assert(messages_view(out@) =~= type_stream_findings(sd));
            return out;
        }
    }
    error_message(&mut out, t);
    assert(messages_view(out@) =~= type_stream_findings(sd));
    out
}

/// Thoroughly checks the invariants of the header of a Type Stream (or an Id Stream), whose
/// contents are `stream_data`, reporting what it finds to `diags`. It is legal for a type stream
/// to be empty.
pub fn check_type_stream(stream_data: &[u8], diags: &mut Diags)
    ensures
        ({
            let k = kept_messages(
                old(diags).num_errors as int,
                old(diags).num_warnings as int,
                old(diags).max_errors as int,
                type_stream_findings(stream_data@),
            );
            &&& final(diags).num_errors == k.0
            &&& final(diags).num_warnings == k.1
            &&& final(diags).max_errors == old(diags).max_errors
            &&& records_messages(final(diags).diags@, old(diags).diags@, k.2)
        }),
{
    let ms = type_stream_findings_exec(stream_data);
    diags.report_all(&ms);
}

} // verus!
