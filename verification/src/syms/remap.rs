//! Remapping the type indexes found in symbol streams.

use vstd::prelude::*;
use crate::le::{le_bytes_u32, le_u16, le_u32, lemma_u32_roundtrip, put_le_u32, read_u32_at, write_u32_at};
use crate::record::{has_record, record_kind, record_size, record_starts_from};
use crate::syms::iter::{sym_mut_next_defined, sym_type_ref_layout, sym_type_ref_offsets};
use crate::syms::kind::{
    SymKind, S_BPREL32, S_CALLSITEINFO, S_CONSTANT, S_FILESTATIC, S_GDATA32, S_GDATA32_ST,
    S_GPROC32, S_GPROC32_ST, S_GTHREAD32, S_GTHREAD32_ST, S_HEAPALLOCSITE, S_LDATA32,
    S_LDATA32_ST, S_LOCAL, S_LPROC32, S_LPROC32_ST, S_LTHREAD32, S_LTHREAD32_ST, S_REGISTER,
    S_REGREL32, S_UDT, S_VFTABLE32,
};
use crate::syms::sort::record_at_pos;
use crate::types::TypeIndex;

verus! {

/// Why the type indexes of a symbol stream could not all be remapped.
#[derive(Clone, Copy, Debug, PartialEq, Eq, Structural)]
pub enum RemapSymsError {
    /// A symbol record is too short to hold the type index fields of its kind.
    Parse,
    /// At least one type index was beyond the range of the type map.
    OutOfRange,
}

/// The offsets of the type index fields that are visited within the payload (of `n` bytes) of
/// a symbol of kind `k`, and whether the visit completes. A kind with two fields visits the
/// first one when only it fits; otherwise a payload that is too short is not visited at all.
pub open spec fn sym_type_ref_visits(k: u16, n: int) -> (Seq<int>, bool) {
    let (offs, need) = sym_type_ref_layout(k);
    if n >= need {
        (offs, true)
    } else if offs.len() == 2 && n >= 4 {
        (seq![offs[0]], false)
    } else {
        (Seq::empty(), false)
    }
}

/// What happens to a type index `ti`: `None` when it must be remapped but lies beyond the map;
/// otherwise its new value. Primitive types (below `begin`) and indexes with the high bit set
/// (which refer to the IPI) are kept.
pub open spec fn remapped_type_index(ti: u32, begin: u32, map: Seq<TypeIndex>) -> Option<u32> {
    if ti < begin || ti >= 0x8000_0000 {
        Some(ti)
    } else if ti - begin < map.len() {
        Some(map[ti - begin].0)
    } else {
        None
    }
}

/// Remaps the type index fields at `base + offs[i]` of `b`, in order; `bad` records whether some
/// type index was out of range.
pub open spec fn remap_at_offsets(b: Seq<u8>, base: int, offs: Seq<int>, begin: u32, map: Seq<TypeIndex>, bad: bool) -> (Seq<u8>, bool)
    decreases offs.len(),
{
    if offs.len() == 0 {
        (b, bad)
    } else {
        let prev = remap_at_offsets(b, base, offs.drop_last(), begin, map, bad);
        let o = base + offs.last();
        let ti = le_u32(prev.0.skip(o)) as u32;
        match remapped_type_index(ti, begin, map) {
            Some(v) => if v == ti {
                prev
            } else {
                (put_le_u32(prev.0, o, v), prev.1)
            },
            None => (prev.0, true),
        }
    }
}

/// Remaps the type indexes of the symbol records of `b` from offset `pos` on, until no complete
/// record begins: the stream afterwards, and the result. The remapping stops at a record that is
/// too short for its fields (the fields visited before are remapped); out-of-range type indexes
/// are kept and reported at the end.
pub open spec fn remap_syms_from(b: Seq<u8>, pos: int, begin: u32, map: Seq<TypeIndex>, bad: bool) -> (Seq<u8>, Result<(), RemapSymsError>)
    decreases b.len() - pos,
{
    if !(0 <= pos < b.len() && has_record(b.skip(pos))) {
        (b, if bad {
            Err(RemapSymsError::OutOfRange)
        } else {
            Ok(())
        })
    } else {
        let r = b.skip(pos);
        let v = sym_type_ref_visits(record_kind(r), record_size(r) - 4);
        let step = remap_at_offsets(b, pos + 4, v.0, begin, map, bad);
        if !v.1 {
            (step.0, Err(RemapSymsError::Parse))
        } else if step.0.len() == b.len() && record_size(r) > 0 {
            remap_syms_from(step.0, pos + record_size(r), begin, map, step.1)
        } else {
            (step.0, Ok(()))
        }
    }
}

/// Whether iterating the records of a symbol stream stops without meeting a record that runs
/// past the end of the stream.
pub open spec fn syms_walkable(s: Seq<u8>) -> bool {
    sym_mut_next_defined(s.skip(record_starts_from(s, 0).last()))
}

/// The offsets as integers.
pub open spec fn offsets_view(offs: Seq<usize>) -> Seq<int> {
    offs.map_values(|o: usize| o as int)
}

/// Remaps the type index fields at `base + offs[i]` of `buf`, for the first `count` offsets (see
/// `remap_at_offsets`).
fn remap_fields_exec(
    buf: &mut [u8],
    base: usize,
    offs: &Vec<usize>,
    count: usize,
    begin: u32,
    map: &[TypeIndex],
    bad: bool,
) -> (bad2: bool)
    requires
        count <= offs@.len(),
        forall|i: int| 0 <= i < count ==> base + #[trigger] offs@[i] + 4 <= old(buf)@.len(),
    ensures
        final(buf)@.len() == old(buf)@.len(),
        (final(buf)@, bad2) == remap_at_offsets(
            old(buf)@,
            base as int,
            offsets_view(offs@).take(count as int),
            begin,
            map@,
            bad,
        ),
{
    let ghost b0 = buf@;
    let blen = buf.len();
    let ghost ov = offsets_view(offs@);
    let mut bad2 = bad;
    let mut i: usize = 0;
    assert(ov.take(0) =~= Seq::<int>::empty());
    while i < count
        invariant
            count <= offs@.len(),
            ov == offsets_view(offs@),
            forall|q: int| 0 <= q < count ==> base + #[trigger] offs@[q] + 4 <= b0.len(),
            buf@.len() == b0.len(),
            blen == b0.len(),
            i <= count,
            (buf@, bad2) == remap_at_offsets(b0, base as int, ov.take(i as int), begin, map@, bad),
        decreases count - i,
    {
        proof {
            assert(ov.take(i + 1).drop_last() =~= ov.take(i as int));
            assert(ov.take(i + 1).last() == offs@[i as int] as int);
        }
        let o = base + offs[i];
        let ti = read_u32_at(buf, o);
        if ti < begin || ti >= 0x8000_0000 {
        } else if ((ti - begin) as usize) < map.len() {
            let v = map[(ti - begin) as usize].0;
            if v != ti {
                write_u32_at(buf, o, v);
            }
        } else {
            bad2 = true;
        }
        i = i + 1;
    }
    bad2
}

/// Scans a symbol stream and remaps every `TypeIndex` found in its records, using `type_map`:
/// the type index `type_index_begin + i` becomes `type_map[i]` (see `remap_syms_from`).
///
/// Primitive types (below `type_index_begin`) and type indexes that refer to the IPI (with the
/// high bit set) are kept. A type index beyond the range of `type_map` is kept, and the result is
/// then an error. A record that is too short for its fields stops the remapping with an error.
pub fn remap_type_indexes_in_symbol_stream(
    syms_data: &mut [u8],
    _description: &str,
    type_index_begin: TypeIndex,
    type_map: &[TypeIndex],
) -> (r: Result<(), RemapSymsError>)
    requires
        syms_walkable(old(syms_data)@),
    ensures
        (final(syms_data)@, r) == remap_syms_from(old(syms_data)@, 0, type_index_begin.0, type_map@, false),
{
    let ghost s = syms_data@;
    let begin = type_index_begin.0;
    let mut pos: usize = 0;
    let mut bad = false;
    let mut failed = false;
    let len = syms_data.len();
    loop
        invariant_except_break
            !failed,
            remap_syms_from(s, 0, begin, type_map@, false) == remap_syms_from(
                syms_data@,
                pos as int,
                begin,
                type_map@,
                bad,
            ),
        invariant
            syms_data@.len() == len,
            len == s.len(),
            pos <= len,
        ensures
            failed ==> remap_syms_from(s, 0, begin, type_map@, false) == (
                syms_data@,
                Err::<(), RemapSymsError>(RemapSymsError::Parse),
            ),
            !failed ==> !(pos < len && has_record(syms_data@.skip(pos as int)))
                && remap_syms_from(s, 0, begin, type_map@, false) == remap_syms_from(
                syms_data@,
                pos as int,
                begin,
                type_map@,
                bad,
            ),
        decreases len - pos,
    {
        let at_pos = record_at_pos(syms_data, pos);
        if at_pos.is_none() {
            break;
        }
        let (kind16, size) = at_pos.unwrap();
        let n = size - 4;
        let ghost cur = syms_data@;
        let ghost visits = sym_type_ref_visits(kind16, n as int);
        match sym_type_ref_offsets(SymKind(kind16), n) {
            Ok(offs) => {
                proof {
                    assert(offsets_view(offs@).take(offs@.len() as int) =~= visits.0);
                    assert forall|i: int| 0 <= i < offs@.len() implies pos + 4 + #[trigger] offs@[i] + 4
                        <= cur.len() by {
                        assert(offsets_view(offs@)[i] == offs@[i] as int);
                    }
                }
                bad = remap_fields_exec(syms_data, pos + 4, &offs, offs.len(), begin, type_map, bad);
                proof {
                    assert(visits.1);
                    assert(syms_data@.len() == cur.len());
                }
                pos = pos + size;
            },
            Err(_) => {
                let all = sym_type_ref_offsets(SymKind(kind16), usize::MAX);
                let all = match all {
                    Ok(v) => v,
                    Err(_) => Vec::new(),
                };
                if all.len() == 2 && n >= 4 {
                    proof {
                        assert(offsets_view(all@).take(1) =~= visits.0);
                        assert(offsets_view(all@)[0] == all@[0] as int);
                    }
                    bad = remap_fields_exec(syms_data, pos + 4, &all, 1, begin, type_map, bad);
                } else {
                    proof {
                        assert(offsets_view(all@).take(0) =~= visits.0);
                    }
                }
                failed = true;
                break;
            },
        }
    }
    if failed {
        return Err(RemapSymsError::Parse);
    }
    if bad {
        Err(RemapSymsError::OutOfRange)
    } else {
        Ok(())
    }
}

/// The value a type index field holds after remapping: its new value, or the old one when it lies
/// beyond the map.
pub open spec fn kept_or_mapped(ti: u32, begin: u32, map: Seq<TypeIndex>) -> u32 {
    match remapped_type_index(ti, begin, map) {
        Some(v) => v,
        None => ti,
    }
}

/// Whether `b` is a symbol stream that holds exactly one record.
pub open spec fn single_record(b: Seq<u8>) -> bool {
    b.len() >= 4 && 2 + le_u16(b) == b.len()
}

/// Whether `out` and `r` are `b`, a single record, with the type index fields at payload offsets
/// `offs` remapped: each field holds its remapped value, the other bytes are as they were, and
/// the result is `Ok` exactly when every field could be remapped.
pub open spec fn fields_remapped(
    b: Seq<u8>,
    out: Seq<u8>,
    r: Result<(), RemapSymsError>,
    begin: u32,
    map: Seq<TypeIndex>,
    offs: Seq<int>,
) -> bool {
    &&& out.len() == b.len()
    &&& forall|j: int|
        0 <= j < b.len() && (forall|i: int| 0 <= i < offs.len() ==> !(4 + #[trigger] offs[i] <= j < 8 + offs[i]))
            ==> out[j] == b[j]
    &&& forall|i: int|
        0 <= i < offs.len() ==> le_u32(#[trigger] out.skip(4 + offs[i])) == kept_or_mapped(
            le_u32(b.skip(4 + offs[i])) as u32,
            begin,
            map,
        )
    &&& (r is Ok <==> forall|i: int|
        0 <= i < offs.len() ==> (#[trigger] remapped_type_index(
            le_u32(b.skip(4 + offs[i])) as u32,
            begin,
            map,
        )) is Some)
    &&& r is Err ==> r == Err::<(), RemapSymsError>(RemapSymsError::OutOfRange)
}

/// Writing a `u32` at `o` changes only bytes `o..o + 4`, which then read back as the value.
proof fn lemma_put_le_u32(s: Seq<u8>, o: int, v: u32)
    requires
        0 <= o,
        o + 4 <= s.len(),
    ensures
        put_le_u32(s, o, v).len() == s.len(),
        le_u32(put_le_u32(s, o, v).skip(o)) == v,
        forall|j: int| 0 <= j < s.len() && !(o <= j < o + 4) ==> put_le_u32(s, o, v)[j] == s[j],
{
    let t = put_le_u32(s, o, v);
    assert(t.skip(o).take(4) =~= le_bytes_u32(v));
    lemma_u32_roundtrip(v);
    assert(le_u32(t.skip(o)) == le_u32(le_bytes_u32(v)));
}

/// Remapping the field at payload offset `o`.
proof fn lemma_remap_one_field(b: Seq<u8>, o: int, begin: u32, map: Seq<TypeIndex>, bad: bool)
    requires
        0 <= o,
        8 + o <= b.len(),
    ensures
        ({
            let (out, bad2) = remap_at_offsets(b, 4, seq![o], begin, map, bad);
            let ti = le_u32(b.skip(4 + o)) as u32;
            &&& out.len() == b.len()
            &&& le_u32(out.skip(4 + o)) == kept_or_mapped(ti, begin, map)
            &&& forall|j: int| 0 <= j < b.len() && !(4 + o <= j < 8 + o) ==> out[j] == b[j]
            &&& bad2 == (bad || remapped_type_index(ti, begin, map) is None)
        }),
{
    let offs = seq![o];
    assert(offs.drop_last() =~= Seq::<int>::empty());
    assert(offs.last() == o);
    assert(remap_at_offsets(b, 4, offs.drop_last(), begin, map, bad) == (b, bad));
    let ti = le_u32(b.skip(4 + o)) as u32;
    assert(0 <= le_u32(b.skip(4 + o)) < 0x1_0000_0000);
    match remapped_type_index(ti, begin, map) {
        Some(v) => {
            lemma_put_le_u32(b, 4 + o, v);
        },
        None => {},
    }
}

/// Remapping the fields at payload offsets 0 and 4.
proof fn lemma_remap_two_fields(b: Seq<u8>, begin: u32, map: Seq<TypeIndex>)
    requires
        12 <= b.len(),
    ensures
        ({
            let (out, bad2) = remap_at_offsets(b, 4, seq![0int, 4int], begin, map, false);
            &&& out.len() == b.len()
            &&& le_u32(out.skip(4)) == kept_or_mapped(le_u32(b.skip(4)) as u32, begin, map)
            &&& le_u32(out.skip(8)) == kept_or_mapped(le_u32(b.skip(8)) as u32, begin, map)
            &&& forall|j: int| 0 <= j < b.len() && !(4 <= j < 12) ==> out[j] == b[j]
            &&& bad2 == (remapped_type_index(le_u32(b.skip(4)) as u32, begin, map) is None
                || remapped_type_index(le_u32(b.skip(8)) as u32, begin, map) is None)
        }),
{
    assert(seq![0int, 4int].drop_last() =~= seq![0int]);
    lemma_remap_one_field(b, 0, begin, map, false);
    let (mid, bad1) = remap_at_offsets(b, 4, seq![0int], begin, map, false);
    assert(mid.skip(8).take(4) =~= b.skip(8).take(4));
    assert(le_u32(mid.skip(8)) == le_u32(b.skip(8)));
    let ti = le_u32(mid.skip(8)) as u32;
    assert(0 <= le_u32(mid.skip(8)) < 0x1_0000_0000);
    match remapped_type_index(ti, begin, map) {
        Some(v) => {
            lemma_put_le_u32(mid, 8, v);
            let out = put_le_u32(mid, 8, v);
            assert(out.skip(4).take(4) =~= mid.skip(4).take(4));
            assert(le_u32(out.skip(4)) == le_u32(mid.skip(4)));
        },
        None => {},
    }
}

/// Remapping a stream of a single record: the fields visited for its kind are remapped, and
/// the result says whether the visit completed and every field could be remapped.
proof fn lemma_remap_single(b: Seq<u8>, begin: u32, map: Seq<TypeIndex>)
    requires
        single_record(b),
    ensures
        ({
            let v = sym_type_ref_visits(record_kind(b), b.len() - 4);
            let (out, bad) = remap_at_offsets(b, 4, v.0, begin, map, false);
            out.len() == b.len() ==> remap_syms_from(b, 0, begin, map, false) == (out, if !v.1 {
                Err(RemapSymsError::Parse)
            } else if bad {
                Err(RemapSymsError::OutOfRange)
            } else {
                Ok(())
            })
        }),
{
    assert(b.skip(0) =~= b);
    let v = sym_type_ref_visits(record_kind(b), b.len() - 4);
    let (out, bad) = remap_at_offsets(b, 4, v.0, begin, map, false);
    if out.len() == b.len() {
        assert(remap_syms_from(out, b.len() as int, begin, map, bad) == (out, if bad {
            Err(RemapSymsError::OutOfRange)
        } else {
            Ok(())
        }));
    }
}

/// The type index fields of the symbol kinds, as the CodeView format lays out their payloads, are
/// remapped in a stream that holds one record of that kind:
/// - `S_BPREL32`, `S_REGREL32` (a 4-byte offset, then the type): the field at offset 4;
/// - `S_FILESTATIC`, `S_UDT`, `S_LOCAL`, `S_CONSTANT`, `S_GDATA32`, `S_LDATA32` (and their `_ST`
///   forms), `S_REGISTER`: the field at offset 0;
/// - `S_CALLSITEINFO`, `S_HEAPALLOCSITE` (an offset, a section and a 2-byte field): offset 8;
/// - `S_LPROC32`, `S_GPROC32` (and `_ST` forms): the procedure type at offset 24 of the 35-byte
///   fixed part;
/// - `S_VFTABLE32`, `S_LTHREAD32`, `S_GTHREAD32` (and `_ST` forms): the fields at offsets 0 and 4;
///   when only the first fits, it is remapped and the record is an error.
///
/// A payload too short for its single type field is an error and is left as it was. The records
/// of the other kinds hold no type index and are left as they are.
pub proof fn lemma_symbol_type_fields(b: Seq<u8>, begin: u32, map: Seq<TypeIndex>)
    requires
        single_record(b),
    ensures
        ({
            let k = record_kind(b);
            let n = b.len() - 4;
            let (out, r) = remap_syms_from(b, 0, begin, map, false);
            &&& (k == S_BPREL32 || k == S_REGREL32) ==> if n >= 8 {
                fields_remapped(b, out, r, begin, map, seq![4])
            } else {
                out == b && r == Err::<(), RemapSymsError>(RemapSymsError::Parse)
            }
            &&& (k == S_FILESTATIC || k == S_UDT || k == S_LOCAL || k == S_CONSTANT || k == S_GDATA32
                || k == S_LDATA32 || k == S_GDATA32_ST || k == S_LDATA32_ST || k == S_REGISTER)
                ==> if n >= 4 {
                fields_remapped(b, out, r, begin, map, seq![0])
            } else {
                out == b && r == Err::<(), RemapSymsError>(RemapSymsError::Parse)
            }
            &&& (k == S_CALLSITEINFO || k == S_HEAPALLOCSITE) ==> if n >= 12 {
                fields_remapped(b, out, r, begin, map, seq![8])
            } else {
                out == b && r == Err::<(), RemapSymsError>(RemapSymsError::Parse)
            }
            &&& (k == S_LPROC32 || k == S_GPROC32 || k == S_LPROC32_ST || k == S_GPROC32_ST) ==> if n
                >= 35 {
                fields_remapped(b, out, r, begin, map, seq![24])
            } else {
                out == b && r == Err::<(), RemapSymsError>(RemapSymsError::Parse)
            }
            &&& (k == S_VFTABLE32 || k == S_LTHREAD32 || k == S_GTHREAD32 || k == S_LTHREAD32_ST
                || k == S_GTHREAD32_ST) && n >= 8 ==> fields_remapped(b, out, r, begin, map, seq![0, 4])
            &&& (k == S_VFTABLE32 || k == S_LTHREAD32 || k == S_GTHREAD32 || k == S_LTHREAD32_ST
                || k == S_GTHREAD32_ST) && n < 8 ==> r == Err::<(), RemapSymsError>(RemapSymsError::Parse)
                && (n >= 4 ==> out.len() == b.len() && le_u32(out.skip(4)) == kept_or_mapped(
                le_u32(b.skip(4)) as u32,
                begin,
                map,
            )) && (n < 4 ==> out == b)
            &&& !(k == S_BPREL32 || k == S_REGREL32 || k == S_FILESTATIC || k == S_UDT || k == S_LOCAL
                || k == S_CONSTANT || k == S_GDATA32 || k == S_LDATA32 || k == S_GDATA32_ST || k
                == S_LDATA32_ST || k == S_REGISTER || k == S_CALLSITEINFO || k == S_HEAPALLOCSITE || k
                == S_LPROC32 || k == S_GPROC32 || k == S_LPROC32_ST || k == S_GPROC32_ST || k
                == S_VFTABLE32 || k == S_LTHREAD32 || k == S_GTHREAD32 || k == S_LTHREAD32_ST || k
                == S_GTHREAD32_ST) ==> out == b && r == Ok::<(), RemapSymsError>(())
        }),
{
    let k = record_kind(b);
    let n = b.len() - 4;
    lemma_remap_single(b, begin, map);
    let v = sym_type_ref_visits(k, n);
    if v.0.len() == 1 {
        let o = v.0[0];
        assert(v.0 == seq![o]);
        lemma_remap_one_field(b, o, begin, map, false);
    } else if v.0.len() == 2 && v.1 {
        assert(v.0 == seq![0int, 4int]);
        lemma_remap_two_fields(b, begin, map);
        let (out, r) = remap_syms_from(b, 0, begin, map, false);
        let offs = seq![0int, 4int];
        assert forall|j: int|
            0 <= j < b.len() && (forall|i: int| 0 <= i < offs.len() ==> !(4 + #[trigger] offs[i] <= j < 8 + offs[i]))
                implies out[j] == b[j] by {
            assert(!(4 + offs[0] <= j < 8 + offs[0]));
            assert(!(4 + offs[1] <= j < 8 + offs[1]));
        }
        assert(r is Ok <==> forall|i: int|
            0 <= i < offs.len() ==> (#[trigger] remapped_type_index(
                le_u32(b.skip(4 + offs[i])) as u32,
                begin,
                map,
            )) is Some) by {
            if forall|i: int|
                0 <= i < offs.len() ==> (#[trigger] remapped_type_index(
                    le_u32(b.skip(4 + offs[i])) as u32,
                    begin,
                    map,
                )) is Some {
                assert(remapped_type_index(le_u32(b.skip(4 + offs[0])) as u32, begin, map) is Some);
                assert(remapped_type_index(le_u32(b.skip(4 + offs[1])) as u32, begin, map) is Some);
            }
        }
    } else if v.0.len() == 0 {
        assert(remap_at_offsets(b, 4, v.0, begin, map, false) == (b, false));
    }
}

} // verus!
