//! Traversal of the indexes within a type record: the type indexes, item ids and name indexes
//! that a record of each kind holds, and where they sit within the record.
//!
//! The layout of each record kind is stated as a walk over the record's bytes
//! (`visit_record`); the executable traversal follows that walk through any `RecordVisitor`.

use vstd::prelude::*;
use crate::le::{le_u16, le_u32};
use crate::parser::{nul_terminated_len, Parser, ParserError};
use crate::types::kind::{
    Leaf, LF_LABEL, LF_VTSHAPE, LF_PRECOMP, LF_ENDPRECOMP, LF_SKIP, LF_MODIFIER, LF_ALIAS,
    LF_BITFIELD, LF_DIMCONU, LF_DIMCONLU, LF_ARRAY, LF_VFTABLE, LF_MFUNC_ID, LF_CLASS,
    LF_STRUCTURE, LF_ENUM, LF_UNION, LF_PROCEDURE, LF_MFUNCTION, LF_CLASS2, LF_STRUCTURE2,
    LF_UNION2, LF_INTERFACE2, LF_FUNC_ID, LF_STRING_ID, LF_UDT_SRC_LINE, LF_UDT_MOD_SRC_LINE,
    LF_ARGLIST, LF_DERIVED, LF_VFTPATH, LF_SUBSTR_LIST, LF_BUILDINFO, LF_POINTER, LF_DIMVARU,
    LF_METHODLIST, LF_FIELDLIST, LF_BCLASS, LF_VBCLASS, LF_IVBCLASS, LF_ENUMERATE, LF_FRIENDFCN,
    LF_INDEX, LF_MEMBER, LF_STMEMBER, LF_METHOD, LF_NESTEDTYPE, LF_VFUNCTAB, LF_FRIENDCLS,
    LF_VFUNCOFF, LF_NESTEDTYPEEX, LF_ONEMETHOD,
};
use crate::types::number::number_len;
use crate::types::TypeIndex;
use crate::types::records::{introduces_virtual, spec_introduces_virtual, spec_pointer_mode, PointerFlags};

verus! {

/// What an index within a record refers to.
#[derive(Copy, Clone, Debug, PartialEq, Eq, Structural)]
pub enum IndexKind {
    /// A `TypeIndex` into the type stream.
    Type,
    /// An `ItemId` into the id stream.
    Item,
    /// A `NameIndex` into the names stream.
    Name,
}

/// An index within a record: what it refers to, and its byte offset within the record.
#[derive(Copy, Clone, Debug, PartialEq, Eq, Structural)]
pub struct IndexLocation {
    /// What the index refers to.
    pub kind: IndexKind,
    /// The byte offset of the (4-byte) index within the record.
    pub offset: usize,
}

/// One field of a record, as the traversal reads it.
#[derive(Copy, Clone, Debug, PartialEq, Eq, Structural)]
pub enum Field {
    /// A `u16` value.
    U16,
    /// A `u32` value.
    U32,
    /// Bytes that are skipped.
    Skip(usize),
    /// A `TypeIndex`.
    Ty,
    /// An `ItemId`.
    Item,
    /// A `NameIndex`.
    NameIndex,
    /// A numeric leaf.
    Number,
    /// A NUL-terminated string.
    Strz,
}

/// The length of the NUL-terminated string at the start of `s`, terminator included.
pub open spec fn strz_len(s: Seq<u8>) -> Option<int> {
    if exists|n: int| nul_terminated_len(s, n) {
        Some((choose|n: int| nul_terminated_len(s, n)) + 1)
    } else {
        None
    }
}

/// The state of a walk over a record: the offset of the next byte and the index locations found
/// so far; `None` once the record turned out to be malformed.
pub type Walk = Option<(int, Seq<IndexLocation>)>;

/// Reading a 4-byte index of the given kind at the current offset.
pub open spec fn index_step(data: Seq<u8>, pos: int, found: Seq<IndexLocation>, kind: IndexKind) -> Walk {
    if pos + 4 <= data.len() {
        Some((pos + 4, found.push(IndexLocation { kind, offset: pos as usize })))
    } else {
        None
    }
}

/// Reading one field.
pub open spec fn step(data: Seq<u8>, w: Walk, f: Field) -> Walk {
    match w {
        None => None,
        Some((pos, found)) => {
            let rest = data.skip(pos);
            match f {
                Field::U16 => if pos + 2 <= data.len() {
                    Some((pos + 2, found))
                } else {
                    None
                },
                Field::U32 => if pos + 4 <= data.len() {
                    Some((pos + 4, found))
                } else {
                    None
                },
                Field::Skip(n) => if pos + n <= data.len() {
                    Some((pos + n, found))
                } else {
                    None
                },
                Field::Ty => index_step(data, pos, found, IndexKind::Type),
                Field::Item => index_step(data, pos, found, IndexKind::Item),
                Field::NameIndex => index_step(data, pos, found, IndexKind::Name),
                Field::Number => match number_len(rest) {
                    Some(n) => Some((pos + n, found)),
                    None => None,
                },
                Field::Strz => match strz_len(rest) {
                    Some(n) => Some((pos + n, found)),
                    None => None,
                },
            }
        },
    }
}

/// Reading a sequence of fields, in order.
pub open spec fn steps(data: Seq<u8>, w: Walk, fs: Seq<Field>) -> Walk
    decreases fs.len(),
{
    if fs.len() == 0 {
        w
    } else {
        step(data, steps(data, w, fs.drop_last()), fs.last())
    }
}

/// Reading the same field `n` times.
pub open spec fn repeat(data: Seq<u8>, w: Walk, f: Field, n: nat) -> Walk
    decreases n,
{
    if n == 0 {
        w
    } else {
        step(data, repeat(data, w, f, (n - 1) as nat), f)
    }
}

/// The value of the `u16` or `u32` count field at `pos`.
pub open spec fn count_at(data: Seq<u8>, pos: int, f: Field) -> int {
    if f == Field::U16 {
        le_u16(data.skip(pos))
    } else {
        le_u32(data.skip(pos))
    }
}

/// The fields of the record kinds whose layout does not depend on their contents.
pub open spec fn fixed_fields(kind: u16) -> Option<Seq<Field>> {
    if kind == LF_LABEL || kind == LF_VTSHAPE || kind == LF_PRECOMP || kind == LF_ENDPRECOMP
        || kind == LF_SKIP {
        Some(Seq::empty())
    } else if kind == LF_MODIFIER || kind == LF_ALIAS || kind == LF_BITFIELD || kind == LF_DIMCONU
        || kind == LF_DIMCONLU {
        Some(seq![Field::Ty])
    } else if kind == LF_ARRAY || kind == LF_VFTABLE || kind == LF_MFUNC_ID {
        Some(seq![Field::Ty, Field::Ty])
    } else if kind == LF_CLASS || kind == LF_STRUCTURE {
        Some(seq![Field::U16, Field::Skip(2), Field::Ty, Field::Ty, Field::Ty])
    } else if kind == LF_ENUM {
        Some(seq![Field::U16, Field::Skip(2), Field::Ty, Field::Ty])
    } else if kind == LF_UNION {
        Some(seq![Field::U16, Field::Skip(2), Field::Ty])
    } else if kind == LF_PROCEDURE {
        Some(seq![Field::Ty, Field::Skip(4), Field::Ty])
    } else if kind == LF_MFUNCTION {
        Some(seq![Field::Ty, Field::Ty, Field::Ty, Field::Skip(4), Field::Ty])
    } else if kind == LF_CLASS2 || kind == LF_STRUCTURE2 || kind == LF_UNION2 || kind
        == LF_INTERFACE2 {
        Some(seq![Field::Skip(4), Field::Ty, Field::Ty, Field::Ty])
    } else if kind == LF_FUNC_ID {
        Some(seq![Field::Item, Field::Ty])
    } else if kind == LF_STRING_ID {
        Some(seq![Field::Item])
    } else if kind == LF_UDT_SRC_LINE || kind == LF_UDT_MOD_SRC_LINE {
        Some(seq![Field::Ty, Field::NameIndex])
    } else {
        None
    }
}

/// The record kinds made of a count followed by that many indexes: the count field and the
/// repeated field.
pub open spec fn counted_fields(kind: u16) -> Option<(Field, Field)> {
    if kind == LF_ARGLIST || kind == LF_DERIVED || kind == LF_VFTPATH {
        Some((Field::U32, Field::Ty))
    } else if kind == LF_SUBSTR_LIST {
        Some((Field::U32, Field::Item))
    } else if kind == LF_BUILDINFO {
        Some((Field::U16, Field::Item))
    } else {
        None
    }
}

/// The fields that follow the kind of a member of a field list, for the members whose layout does
/// not depend on their contents.
pub open spec fn member_fields(kind: u16) -> Option<Seq<Field>> {
    if kind == LF_BCLASS {
        Some(seq![Field::U16, Field::Ty, Field::Number])
    } else if kind == LF_VBCLASS || kind == LF_IVBCLASS {
        Some(seq![Field::U16, Field::Ty, Field::Ty, Field::Number, Field::Number])
    } else if kind == LF_ENUMERATE {
        Some(seq![Field::U16, Field::Number, Field::Strz])
    } else if kind == LF_FRIENDFCN || kind == LF_NESTEDTYPE {
        Some(seq![Field::Skip(2), Field::Ty, Field::Strz])
    } else if kind == LF_INDEX || kind == LF_VFUNCTAB || kind == LF_FRIENDCLS {
        Some(seq![Field::Skip(2), Field::Ty])
    } else if kind == LF_MEMBER {
        Some(seq![Field::U16, Field::Ty, Field::Number, Field::Strz])
    } else if kind == LF_STMEMBER || kind == LF_METHOD || kind == LF_NESTEDTYPEEX {
        Some(seq![Field::U16, Field::Ty, Field::Strz])
    } else if kind == LF_VFUNCOFF {
        Some(seq![Field::U16, Field::Ty, Field::U32])
    } else {
        None
    }
}

/// A count field followed by that many repetitions of a field.
pub open spec fn counted_walk(data: Seq<u8>, w: Walk, count: Field, item: Field) -> Walk {
    match w {
        None => None,
        Some((pos, _)) => repeat(data, step(data, w, count), item, count_at(data, pos, count) as nat),
    }
}

/// `LF_POINTER`: the underlying type and the attributes; pointers to members (modes 2 and 3)
/// are followed by the type of the containing class.
pub open spec fn pointer_walk(data: Seq<u8>, w: Walk) -> Walk {
    match w {
        None => None,
        Some((pos, _)) => {
            let w1 = step(data, step(data, w, Field::Ty), Field::U32);
            let mode = spec_pointer_mode(le_u32(data.skip(pos + 4)) as u32);
            if w1 is Some && (mode == 2 || mode == 3) {
                step(data, w1, Field::Ty)
            } else {
                w1
            }
        },
    }
}

/// `LF_DIMVARU`: the rank, the index type, and an upper bound for each dimension.
pub open spec fn dimvaru_walk(data: Seq<u8>, w: Walk) -> Walk {
    match w {
        None => None,
        Some((pos, _)) => repeat(
            data,
            step(data, step(data, w, Field::U32), Field::Ty),
            Field::Ty,
            le_u32(data.skip(pos)) as nat,
        ),
    }
}

/// The offset of the next byte of a walk (0 for a failed walk).
pub open spec fn walk_pos(w: Walk) -> int {
    match w {
        None => 0,
        Some((pos, _)) => pos,
    }
}

/// How far a walk is from the end of the record.
pub open spec fn walk_measure(data: Seq<u8>, w: Walk) -> int {
    match w {
        None => 0,
        Some((pos, _)) => data.len() - pos,
    }
}

/// One entry of a `LF_METHODLIST` record: attributes, padding, the method type, and a vtable
/// offset for methods that introduce a virtual slot.
pub open spec fn method_entry_walk(data: Seq<u8>, w: Walk) -> Walk {
    match w {
        None => None,
        Some((pos, _)) => {
            let w1 = step(data, step(data, step(data, w, Field::U16), Field::Skip(2)), Field::Ty);
            if spec_introduces_virtual(le_u16(data.skip(pos)) as u16) {
                step(data, w1, Field::Skip(4))
            } else {
                w1
            }
        },
    }
}

/// `LF_METHODLIST`: entries until the end of the record.
pub open spec fn method_list_walk(data: Seq<u8>, w: Walk) -> Walk
    decreases walk_measure(data, w),
{
    match w {
        None => None,
        Some((pos, _)) => if pos >= data.len() {
            w
        } else {
            method_list_walk(data, method_entry_walk(data, w))
        },
    }
}

/// The number of padding bytes (`0xf0` and above) at the start of `s`.
pub open spec fn pad_len(s: Seq<u8>) -> nat
    decreases s.len(),
{
    if s.len() > 0 && s[0] >= 0xf0 {
        1 + pad_len(s.drop_first())
    } else {
        0
    }
}

/// `LF_ONEMETHOD` within a field list: attributes, the method type, a vtable offset for methods
/// that introduce a virtual slot, and the name. `w` is positioned after the member kind.
pub open spec fn one_method_walk(data: Seq<u8>, w: Walk) -> Walk {
    match w {
        None => None,
        Some((pos, _)) => {
            let w1 = step(data, step(data, w, Field::U16), Field::Ty);
            let w2 = if spec_introduces_virtual(le_u16(data.skip(pos)) as u16) {
                step(data, w1, Field::U32)
            } else {
                w1
            };
            step(data, w2, Field::Strz)
        },
    }
}

/// Reading one member of a field list whose kind has been read; `w` is positioned after the
/// kind. `None` for a kind that is not recognized.
pub open spec fn member_walk(data: Seq<u8>, w: Walk, kind: u16) -> Option<Walk> {
    match member_fields(kind) {
        Some(fs) => Some(steps(data, w, fs)),
        None => if kind == LF_ONEMETHOD {
            Some(one_method_walk(data, w))
        } else {
            None
        },
    }
}

/// Reading fields never moves the walk backwards.
pub proof fn lemma_step_advances(data: Seq<u8>, w: Walk, f: Field)
    requires
        w is Some,
        0 <= walk_pos(w) <= data.len(),
        step(data, w, f) is Some,
    ensures
        walk_pos(w) <= walk_pos(step(data, w, f)) <= data.len(),
{
    let rest = data.skip(walk_pos(w));
    if f == Field::Strz {
        let n = choose|n: int| nul_terminated_len(rest, n);
        assert(nul_terminated_len(rest, n));
    }
    if f == Field::Number && rest.len() >= 2 && le_u16(rest) as u16 == crate::types::kind::LF_UTF8STRING {
        let n = choose|n: int| nul_terminated_len(rest.skip(2), n);
        if exists|n: int| nul_terminated_len(rest.skip(2), n) {
            assert(nul_terminated_len(rest.skip(2), n));
        }
    }
}

/// Reading a sequence of fields never moves the walk backwards.
pub proof fn lemma_steps_advance(data: Seq<u8>, w: Walk, fs: Seq<Field>)
    requires
        w is Some,
        0 <= walk_pos(w) <= data.len(),
        steps(data, w, fs) is Some,
    ensures
        walk_pos(w) <= walk_pos(steps(data, w, fs)) <= data.len(),
    decreases fs.len(),
{
    if fs.len() > 0 {
        lemma_steps_advance(data, w, fs.drop_last());
        lemma_step_advances(data, steps(data, w, fs.drop_last()), fs.last());
    }
}

/// Reading a member never moves the walk backwards.
pub proof fn lemma_member_advances(data: Seq<u8>, w: Walk, kind: u16)
    requires
        w is Some,
        0 <= walk_pos(w) <= data.len(),
        member_walk(data, w, kind) matches Some(w2) && w2 is Some,
    ensures
        walk_pos(w) <= walk_pos(member_walk(data, w, kind)->0) <= data.len(),
{
    match member_fields(kind) {
        Some(fs) => lemma_steps_advance(data, w, fs),
        None => {
            let pos = walk_pos(w);
            let w1 = step(data, step(data, w, Field::U16), Field::Ty);
            let w2 = if spec_introduces_virtual(le_u16(data.skip(pos)) as u16) {
                step(data, w1, Field::U32)
            } else {
                w1
            };
            lemma_step_advances(data, w2, Field::Strz);
        },
    }
}

/// `LF_FIELDLIST`: members until the end of the record, with padding bytes skipped before each
/// one. A member of an unrecognized kind ends the walk after its kind.
pub open spec fn field_list_walk(data: Seq<u8>, w: Walk) -> Walk
    decreases walk_measure(data, w),
{
    match w {
        None => None,
        Some((pos, found)) => if pos < 0 {
            None
        } else if pos >= data.len() {
            w
        } else {
            let p1 = pos + pad_len(data.skip(pos));
            if p1 >= data.len() {
                Some((p1, found))
            } else {
                let w1 = step(data, Some((p1, found)), Field::U16);
                if w1 is None {
                    None
                } else {
                    match member_walk(data, w1, le_u16(data.skip(p1)) as u16) {
                        None => w1,
                        Some(w2) => if w2 is None {
                            None
                        } else {
                            proof {
                                lemma_member_advances(data, w1, le_u16(data.skip(p1)) as u16);
                            }
                            field_list_walk(data, w2)
                        },
                    }
                }
            }
        },
    }
}

/// The walk over a whole record of the given kind, starting from `w`. `None` when the kind is
/// not recognized or the record is malformed.
pub open spec fn visit_record(kind: u16, data: Seq<u8>, w: Walk) -> Walk {
    match fixed_fields(kind) {
        Some(fs) => steps(data, w, fs),
        None => match counted_fields(kind) {
            Some((count, item)) => counted_walk(data, w, count, item),
            None => if kind == LF_POINTER {
                pointer_walk(data, w)
            } else if kind == LF_DIMVARU {
                dimvaru_walk(data, w)
            } else if kind == LF_METHODLIST {
                method_list_walk(data, w)
            } else if kind == LF_FIELDLIST {
                field_list_walk(data, w)
            } else {
                None
            },
        },
    }
}

/// The locations of the indexes within a record of the given kind, in the order in which they
/// occur; `None` when the kind is not recognized or the record is malformed.
pub open spec fn record_index_locations(kind: u16, data: Seq<u8>) -> Option<Seq<IndexLocation>> {
    match visit_record(kind, data, Some((0, Seq::empty()))) {
        Some((_, found)) => Some(found),
        None => None,
    }
}


/// A type index at byte `offset` of a record.
pub open spec fn ty_at(offset: int) -> IndexLocation {
    IndexLocation { kind: IndexKind::Type, offset: offset as usize }
}

/// An item id at byte `offset` of a record.
pub open spec fn item_at(offset: int) -> IndexLocation {
    IndexLocation { kind: IndexKind::Item, offset: offset as usize }
}

/// A name index at byte `offset` of a record.
pub open spec fn name_at(offset: int) -> IndexLocation {
    IndexLocation { kind: IndexKind::Name, offset: offset as usize }
}

/// `Some(locs)` when the record holds at least `n` bytes, and `None` when it is too short.
pub open spec fn if_long_enough(data: Seq<u8>, n: int, locs: Seq<IndexLocation>) -> Option<Seq<IndexLocation>> {
    if n <= data.len() {
        Some(locs)
    } else {
        None
    }
}

/// The index locations found by a walk, if it did not fail.
pub open spec fn found_of(w: Walk) -> Option<Seq<IndexLocation>> {
    match w {
        Some((_, found)) => Some(found),
        None => None,
    }
}

/// Whether `fs` is made of fields of fixed size, with `size` bytes in all, and `locs` are the
/// indexes among them.
spec fn fixed_layout(fs: Seq<Field>, size: int, locs: Seq<IndexLocation>) -> bool
    decreases fs.len(),
{
    if fs.len() == 0 {
        size == 0 && locs.len() == 0
    } else {
        match fs.last() {
            Field::U16 => size >= 2 && fixed_layout(fs.drop_last(), size - 2, locs),
            Field::U32 => size >= 4 && fixed_layout(fs.drop_last(), size - 4, locs),
            Field::Skip(n) => size >= n && fixed_layout(fs.drop_last(), size - n, locs),
            Field::Ty => size >= 4 && locs.len() > 0 && locs.last() == ty_at(size - 4)
                && fixed_layout(fs.drop_last(), size - 4, locs.drop_last()),
            Field::Item => size >= 4 && locs.len() > 0 && locs.last() == item_at(size - 4)
                && fixed_layout(fs.drop_last(), size - 4, locs.drop_last()),
            Field::NameIndex => size >= 4 && locs.len() > 0 && locs.last() == name_at(size - 4)
                && fixed_layout(fs.drop_last(), size - 4, locs.drop_last()),
            _ => false,
        }
    }
}

/// Walking fields of fixed size from the start of a record finds their indexes, when the record
/// is long enough for all of them, and fails otherwise.
proof fn lemma_fixed_steps(data: Seq<u8>, fs: Seq<Field>, size: int, locs: Seq<IndexLocation>)
    requires
        fixed_layout(fs, size, locs),
        size <= usize::MAX,
    ensures
        size <= data.len() ==> steps(data, Some((0, Seq::empty())), fs) == Some((size, locs)),
        size > data.len() ==> steps(data, Some((0, Seq::empty())), fs) is None,
    decreases fs.len(),
{
    if fs.len() > 0 {
        let f = fs.last();
        let prev_size: int = match f {
            Field::U16 => size - 2,
            Field::Skip(n) => size - n,
            _ => size - 4,
        };
        let prev_locs = match f {
            Field::Ty | Field::Item | Field::NameIndex => locs.drop_last(),
            _ => locs,
        };
        lemma_fixed_steps(data, fs.drop_last(), prev_size, prev_locs);
        if size <= data.len() {
            assert(locs =~= match f {
                Field::Ty | Field::Item | Field::NameIndex => prev_locs.push(locs.last()),
                _ => prev_locs,
            });
        } else if prev_size <= data.len() {
        }
    }
}

/// A fixed layout, as the walk of a record kind whose fields it lists.
proof fn lemma_layout(data: Seq<u8>, fs: Seq<Field>, size: int, locs: Seq<IndexLocation>)
    requires
        fixed_layout(fs, size, locs),
        size <= usize::MAX,
    ensures
        found_of(steps(data, Some((0, Seq::empty())), fs)) == if_long_enough(data, size, locs),
{
    lemma_fixed_steps(data, fs, size, locs);
}

/// The indexes of an `LF_PROCEDURE` record.
proof fn lemma_kind_procedure(data: Seq<u8>)
    ensures
        record_index_locations(LF_PROCEDURE, data) == if_long_enough(data, 12, seq![ty_at(0), ty_at(8)]),
{
    reveal_with_fuel(fixed_layout, 6);
    assert(fixed_fields(LF_PROCEDURE) == Some(seq![Field::Ty, Field::Skip(4), Field::Ty]));
    lemma_layout(data, seq![Field::Ty, Field::Skip(4), Field::Ty], 12, seq![ty_at(0), ty_at(8)]);
}

/// The indexes of an `LF_MFUNCTION` record.
proof fn lemma_kind_mfunction(data: Seq<u8>)
    ensures
        record_index_locations(LF_MFUNCTION, data) == if_long_enough(
            data,
            20,
            seq![ty_at(0), ty_at(4), ty_at(8), ty_at(16)],
        ),
{
    reveal_with_fuel(fixed_layout, 6);
    assert(fixed_fields(LF_MFUNCTION) == Some(seq![Field::Ty, Field::Ty, Field::Ty, Field::Skip(4), Field::Ty]));
    lemma_layout(data, seq![Field::Ty, Field::Ty, Field::Ty, Field::Skip(4), Field::Ty], 20, seq![ty_at(0), ty_at(4), ty_at(8), ty_at(16)]);
}

/// The indexes of an `LF_MODIFIER` record.
proof fn lemma_kind_modifier(data: Seq<u8>)
    ensures
        record_index_locations(LF_MODIFIER, data) == if_long_enough(data, 4, seq![ty_at(0)]),
{
    reveal_with_fuel(fixed_layout, 6);
    assert(fixed_fields(LF_MODIFIER) == Some(seq![Field::Ty]));
    lemma_layout(data, seq![Field::Ty], 4, seq![ty_at(0)]);
}

/// The indexes of an `LF_ALIAS` record.
proof fn lemma_kind_alias(data: Seq<u8>)
    ensures
        record_index_locations(LF_ALIAS, data) == if_long_enough(data, 4, seq![ty_at(0)]),
{
    reveal_with_fuel(fixed_layout, 6);
    assert(fixed_fields(LF_ALIAS) == Some(seq![Field::Ty]));
    lemma_layout(data, seq![Field::Ty], 4, seq![ty_at(0)]);
}

/// The indexes of an `LF_BITFIELD` record.
proof fn lemma_kind_bitfield(data: Seq<u8>)
    ensures
        record_index_locations(LF_BITFIELD, data) == if_long_enough(data, 4, seq![ty_at(0)]),
{
    reveal_with_fuel(fixed_layout, 6);
    assert(fixed_fields(LF_BITFIELD) == Some(seq![Field::Ty]));
    lemma_layout(data, seq![Field::Ty], 4, seq![ty_at(0)]);
}

/// The indexes of an `LF_DIMCONU` record.
proof fn lemma_kind_dimconu(data: Seq<u8>)
    ensures
        record_index_locations(LF_DIMCONU, data) == if_long_enough(data, 4, seq![ty_at(0)]),
{
    reveal_with_fuel(fixed_layout, 6);
    assert(fixed_fields(LF_DIMCONU) == Some(seq![Field::Ty]));
    lemma_layout(data, seq![Field::Ty], 4, seq![ty_at(0)]);
}

/// The indexes of an `LF_DIMCONLU` record.
proof fn lemma_kind_dimconlu(data: Seq<u8>)
    ensures
        record_index_locations(LF_DIMCONLU, data) == if_long_enough(data, 4, seq![ty_at(0)]),
{
    reveal_with_fuel(fixed_layout, 6);
    assert(fixed_fields(LF_DIMCONLU) == Some(seq![Field::Ty]));
    lemma_layout(data, seq![Field::Ty], 4, seq![ty_at(0)]);
}

/// The indexes of an `LF_ARRAY` record.
proof fn lemma_kind_array(data: Seq<u8>)
    ensures
        record_index_locations(LF_ARRAY, data) == if_long_enough(data, 8, seq![ty_at(0), ty_at(4)]),
{
    reveal_with_fuel(fixed_layout, 6);
    assert(fixed_fields(LF_ARRAY) == Some(seq![Field::Ty, Field::Ty]));
    lemma_layout(data, seq![Field::Ty, Field::Ty], 8, seq![ty_at(0), ty_at(4)]);
}

/// The indexes of an `LF_VFTABLE` record.
proof fn lemma_kind_vftable(data: Seq<u8>)
    ensures
        record_index_locations(LF_VFTABLE, data) == if_long_enough(data, 8, seq![ty_at(0), ty_at(4)]),
{
    reveal_with_fuel(fixed_layout, 6);
    assert(fixed_fields(LF_VFTABLE) == Some(seq![Field::Ty, Field::Ty]));
    lemma_layout(data, seq![Field::Ty, Field::Ty], 8, seq![ty_at(0), ty_at(4)]);
}

/// The indexes of an `LF_MFUNC_ID` record.
proof fn lemma_kind_mfunc_id(data: Seq<u8>)
    ensures
        record_index_locations(LF_MFUNC_ID, data) == if_long_enough(data, 8, seq![ty_at(0), ty_at(4)]),
{
    reveal_with_fuel(fixed_layout, 6);
    assert(fixed_fields(LF_MFUNC_ID) == Some(seq![Field::Ty, Field::Ty]));
    lemma_layout(data, seq![Field::Ty, Field::Ty], 8, seq![ty_at(0), ty_at(4)]);
}

/// The indexes of an `LF_CLASS` record.
proof fn lemma_kind_class(data: Seq<u8>)
    ensures
        record_index_locations(LF_CLASS, data) == if_long_enough(
            data,
            16,
            seq![ty_at(4), ty_at(8), ty_at(12)],
        ),
{
    reveal_with_fuel(fixed_layout, 6);
    assert(fixed_fields(LF_CLASS) == Some(seq![Field::U16, Field::Skip(2), Field::Ty, Field::Ty, Field::Ty]));
    lemma_layout(data, seq![Field::U16, Field::Skip(2), Field::Ty, Field::Ty, Field::Ty], 16, seq![ty_at(4), ty_at(8), ty_at(12)]);
}

/// The indexes of an `LF_STRUCTURE` record.
proof fn lemma_kind_structure(data: Seq<u8>)
    ensures
        record_index_locations(LF_STRUCTURE, data) == if_long_enough(
            data,
            16,
            seq![ty_at(4), ty_at(8), ty_at(12)],
        ),
{
    reveal_with_fuel(fixed_layout, 6);
    assert(fixed_fields(LF_STRUCTURE) == Some(seq![Field::U16, Field::Skip(2), Field::Ty, Field::Ty, Field::Ty]));
    lemma_layout(data, seq![Field::U16, Field::Skip(2), Field::Ty, Field::Ty, Field::Ty], 16, seq![ty_at(4), ty_at(8), ty_at(12)]);
}

/// The indexes of an `LF_ENUM` record.
proof fn lemma_kind_enum(data: Seq<u8>)
    ensures
        record_index_locations(LF_ENUM, data) == if_long_enough(data, 12, seq![ty_at(4), ty_at(8)]),
{
    reveal_with_fuel(fixed_layout, 6);
    assert(fixed_fields(LF_ENUM) == Some(seq![Field::U16, Field::Skip(2), Field::Ty, Field::Ty]));
    lemma_layout(data, seq![Field::U16, Field::Skip(2), Field::Ty, Field::Ty], 12, seq![ty_at(4), ty_at(8)]);
}

/// The indexes of an `LF_UNION` record.
proof fn lemma_kind_union(data: Seq<u8>)
    ensures
        record_index_locations(LF_UNION, data) == if_long_enough(data, 8, seq![ty_at(4)]),
{
    reveal_with_fuel(fixed_layout, 6);
    assert(fixed_fields(LF_UNION) == Some(seq![Field::U16, Field::Skip(2), Field::Ty]));
    lemma_layout(data, seq![Field::U16, Field::Skip(2), Field::Ty], 8, seq![ty_at(4)]);
}

/// The indexes of an `LF_CLASS2` record.
proof fn lemma_kind_class2(data: Seq<u8>)
    ensures
        record_index_locations(LF_CLASS2, data) == if_long_enough(
            data,
            16,
            seq![ty_at(4), ty_at(8), ty_at(12)],
        ),
{
    reveal_with_fuel(fixed_layout, 6);
    assert(fixed_fields(LF_CLASS2) == Some(seq![Field::Skip(4), Field::Ty, Field::Ty, Field::Ty]));
    lemma_layout(data, seq![Field::Skip(4), Field::Ty, Field::Ty, Field::Ty], 16, seq![ty_at(4), ty_at(8), ty_at(12)]);
}

/// The indexes of an `LF_STRUCTURE2` record.
proof fn lemma_kind_structure2(data: Seq<u8>)
    ensures
        record_index_locations(LF_STRUCTURE2, data) == if_long_enough(
            data,
            16,
            seq![ty_at(4), ty_at(8), ty_at(12)],
        ),
{
    reveal_with_fuel(fixed_layout, 6);
    assert(fixed_fields(LF_STRUCTURE2) == Some(seq![Field::Skip(4), Field::Ty, Field::Ty, Field::Ty]));
    lemma_layout(data, seq![Field::Skip(4), Field::Ty, Field::Ty, Field::Ty], 16, seq![ty_at(4), ty_at(8), ty_at(12)]);
}

/// The indexes of an `LF_UNION2` record.
proof fn lemma_kind_union2(data: Seq<u8>)
    ensures
        record_index_locations(LF_UNION2, data) == if_long_enough(
            data,
            16,
            seq![ty_at(4), ty_at(8), ty_at(12)],
        ),
{
    reveal_with_fuel(fixed_layout, 6);
    assert(fixed_fields(LF_UNION2) == Some(seq![Field::Skip(4), Field::Ty, Field::Ty, Field::Ty]));
    lemma_layout(data, seq![Field::Skip(4), Field::Ty, Field::Ty, Field::Ty], 16, seq![ty_at(4), ty_at(8), ty_at(12)]);
}

/// The indexes of an `LF_INTERFACE2` record.
proof fn lemma_kind_interface2(data: Seq<u8>)
    ensures
        record_index_locations(LF_INTERFACE2, data) == if_long_enough(
            data,
            16,
            seq![ty_at(4), ty_at(8), ty_at(12)],
        ),
{
    reveal_with_fuel(fixed_layout, 6);
    assert(fixed_fields(LF_INTERFACE2) == Some(seq![Field::Skip(4), Field::Ty, Field::Ty, Field::Ty]));
    lemma_layout(data, seq![Field::Skip(4), Field::Ty, Field::Ty, Field::Ty], 16, seq![ty_at(4), ty_at(8), ty_at(12)]);
}

/// The indexes of an `LF_FUNC_ID` record.
proof fn lemma_kind_func_id(data: Seq<u8>)
    ensures
        record_index_locations(LF_FUNC_ID, data) == if_long_enough(data, 8, seq![item_at(0), ty_at(4)]),
{
    reveal_with_fuel(fixed_layout, 6);
    assert(fixed_fields(LF_FUNC_ID) == Some(seq![Field::Item, Field::Ty]));
    lemma_layout(data, seq![Field::Item, Field::Ty], 8, seq![item_at(0), ty_at(4)]);
}

/// The indexes of an `LF_STRING_ID` record.
proof fn lemma_kind_string_id(data: Seq<u8>)
    ensures
        record_index_locations(LF_STRING_ID, data) == if_long_enough(data, 4, seq![item_at(0)]),
{
    reveal_with_fuel(fixed_layout, 6);
    assert(fixed_fields(LF_STRING_ID) == Some(seq![Field::Item]));
    lemma_layout(data, seq![Field::Item], 4, seq![item_at(0)]);
}

/// The indexes of an `LF_UDT_SRC_LINE` record.
proof fn lemma_kind_udt_src_line(data: Seq<u8>)
    ensures
        record_index_locations(LF_UDT_SRC_LINE, data) == if_long_enough(
            data,
            8,
            seq![ty_at(0), name_at(4)],
        ),
{
    reveal_with_fuel(fixed_layout, 6);
    assert(fixed_fields(LF_UDT_SRC_LINE) == Some(seq![Field::Ty, Field::NameIndex]));
    lemma_layout(data, seq![Field::Ty, Field::NameIndex], 8, seq![ty_at(0), name_at(4)]);
}

/// The indexes of an `LF_UDT_MOD_SRC_LINE` record.
proof fn lemma_kind_udt_mod_src_line(data: Seq<u8>)
    ensures
        record_index_locations(LF_UDT_MOD_SRC_LINE, data) == if_long_enough(
            data,
            8,
            seq![ty_at(0), name_at(4)],
        ),
{
    reveal_with_fuel(fixed_layout, 6);
    assert(fixed_fields(LF_UDT_MOD_SRC_LINE) == Some(seq![Field::Ty, Field::NameIndex]));
    lemma_layout(data, seq![Field::Ty, Field::NameIndex], 8, seq![ty_at(0), name_at(4)]);
}

/// The indexes of an `LF_LABEL` record.
proof fn lemma_kind_label(data: Seq<u8>)
    ensures
        record_index_locations(LF_LABEL, data) == Some(Seq::<IndexLocation>::empty()),
{
    reveal_with_fuel(fixed_layout, 6);
    assert(fixed_fields(LF_LABEL) == Some(Seq::<Field>::empty()));
    lemma_layout(data, Seq::<Field>::empty(), 0, Seq::<IndexLocation>::empty());
}

/// The indexes of an `LF_VTSHAPE` record.
proof fn lemma_kind_vtshape(data: Seq<u8>)
    ensures
        record_index_locations(LF_VTSHAPE, data) == Some(Seq::<IndexLocation>::empty()),
{
    reveal_with_fuel(fixed_layout, 6);
    assert(fixed_fields(LF_VTSHAPE) == Some(Seq::<Field>::empty()));
    lemma_layout(data, Seq::<Field>::empty(), 0, Seq::<IndexLocation>::empty());
}

/// The indexes of an `LF_PRECOMP` record.
proof fn lemma_kind_precomp(data: Seq<u8>)
    ensures
        record_index_locations(LF_PRECOMP, data) == Some(Seq::<IndexLocation>::empty()),
{
    reveal_with_fuel(fixed_layout, 6);
    assert(fixed_fields(LF_PRECOMP) == Some(Seq::<Field>::empty()));
    lemma_layout(data, Seq::<Field>::empty(), 0, Seq::<IndexLocation>::empty());
}

/// The indexes of an `LF_ENDPRECOMP` record.
proof fn lemma_kind_endprecomp(data: Seq<u8>)
    ensures
        record_index_locations(LF_ENDPRECOMP, data) == Some(Seq::<IndexLocation>::empty()),
{
    reveal_with_fuel(fixed_layout, 6);
    assert(fixed_fields(LF_ENDPRECOMP) == Some(Seq::<Field>::empty()));
    lemma_layout(data, Seq::<Field>::empty(), 0, Seq::<IndexLocation>::empty());
}

/// The indexes of an `LF_SKIP` record.
proof fn lemma_kind_skip(data: Seq<u8>)
    ensures
        record_index_locations(LF_SKIP, data) == Some(Seq::<IndexLocation>::empty()),
{
    reveal_with_fuel(fixed_layout, 6);
    assert(fixed_fields(LF_SKIP) == Some(Seq::<Field>::empty()));
    lemma_layout(data, Seq::<Field>::empty(), 0, Seq::<IndexLocation>::empty());
}

/// The indexes of the records whose layout is fixed, as the CodeView format lays them out (each
/// field is 4 bytes long unless said otherwise):
/// - `LF_PROCEDURE`: the return type, 4 bytes of calling convention and parameter count, the
///   argument list;
/// - `LF_MFUNCTION`: the return type, the class, the type of `this`, 4 bytes, the argument list;
/// - `LF_MODIFIER`, `LF_ALIAS`, `LF_BITFIELD`, `LF_DIMCONU`, `LF_DIMCONLU`: one type;
/// - `LF_ARRAY` (element and index types), `LF_VFTABLE`, `LF_MFUNC_ID`: two types;
/// - `LF_CLASS`, `LF_STRUCTURE`: a 2-byte count, 2 bytes of properties, then the field list, the
///   derivation list and the vtable shape; `LF_ENUM`: the same header, the underlying type and
///   the field list; `LF_UNION`: the same header and the field list;
/// - `LF_CLASS2`, `LF_STRUCTURE2`, `LF_UNION2`, `LF_INTERFACE2`: 4 bytes of properties, then the
///   field list, the derivation list and the vtable shape;
/// - `LF_FUNC_ID`: the parent scope (an item id) and the function type; `LF_STRING_ID`: an item
///   id; `LF_UDT_SRC_LINE`, `LF_UDT_MOD_SRC_LINE`: a type and a name index;
/// - `LF_LABEL`, `LF_VTSHAPE`, `LF_PRECOMP`, `LF_ENDPRECOMP`, `LF_SKIP`: none.
///
/// A record too short for these fields is malformed.
pub proof fn lemma_fixed_record_indexes(data: Seq<u8>)
    ensures
        record_index_locations(LF_PROCEDURE, data) == if_long_enough(data, 12, seq![ty_at(0), ty_at(8)]),
        record_index_locations(LF_MFUNCTION, data) == if_long_enough(
            data,
            20,
            seq![ty_at(0), ty_at(4), ty_at(8), ty_at(16)],
        ),
        record_index_locations(LF_MODIFIER, data) == if_long_enough(data, 4, seq![ty_at(0)]),
        record_index_locations(LF_ALIAS, data) == if_long_enough(data, 4, seq![ty_at(0)]),
        record_index_locations(LF_BITFIELD, data) == if_long_enough(data, 4, seq![ty_at(0)]),
        record_index_locations(LF_DIMCONU, data) == if_long_enough(data, 4, seq![ty_at(0)]),
        record_index_locations(LF_DIMCONLU, data) == if_long_enough(data, 4, seq![ty_at(0)]),
        record_index_locations(LF_ARRAY, data) == if_long_enough(data, 8, seq![ty_at(0), ty_at(4)]),
        record_index_locations(LF_VFTABLE, data) == if_long_enough(data, 8, seq![ty_at(0), ty_at(4)]),
        record_index_locations(LF_MFUNC_ID, data) == if_long_enough(data, 8, seq![ty_at(0), ty_at(4)]),
        record_index_locations(LF_CLASS, data) == if_long_enough(
            data,
            16,
            seq![ty_at(4), ty_at(8), ty_at(12)],
        ),
        record_index_locations(LF_STRUCTURE, data) == if_long_enough(
            data,
            16,
            seq![ty_at(4), ty_at(8), ty_at(12)],
        ),
        record_index_locations(LF_ENUM, data) == if_long_enough(data, 12, seq![ty_at(4), ty_at(8)]),
        record_index_locations(LF_UNION, data) == if_long_enough(data, 8, seq![ty_at(4)]),
        record_index_locations(LF_CLASS2, data) == if_long_enough(
            data,
            16,
            seq![ty_at(4), ty_at(8), ty_at(12)],
        ),
        record_index_locations(LF_STRUCTURE2, data) == if_long_enough(
            data,
            16,
            seq![ty_at(4), ty_at(8), ty_at(12)],
        ),
        record_index_locations(LF_UNION2, data) == if_long_enough(
            data,
            16,
            seq![ty_at(4), ty_at(8), ty_at(12)],
        ),
        record_index_locations(LF_INTERFACE2, data) == if_long_enough(
            data,
            16,
            seq![ty_at(4), ty_at(8), ty_at(12)],
        ),
        record_index_locations(LF_FUNC_ID, data) == if_long_enough(data, 8, seq![item_at(0), ty_at(4)]),
        record_index_locations(LF_STRING_ID, data) == if_long_enough(data, 4, seq![item_at(0)]),
        record_index_locations(LF_UDT_SRC_LINE, data) == if_long_enough(
            data,
            8,
            seq![ty_at(0), name_at(4)],
        ),
        record_index_locations(LF_UDT_MOD_SRC_LINE, data) == if_long_enough(
            data,
            8,
            seq![ty_at(0), name_at(4)],
        ),
        record_index_locations(LF_LABEL, data) == Some(Seq::<IndexLocation>::empty()),
        record_index_locations(LF_VTSHAPE, data) == Some(Seq::<IndexLocation>::empty()),
        record_index_locations(LF_PRECOMP, data) == Some(Seq::<IndexLocation>::empty()),
        record_index_locations(LF_ENDPRECOMP, data) == Some(Seq::<IndexLocation>::empty()),
        record_index_locations(LF_SKIP, data) == Some(Seq::<IndexLocation>::empty()),
{
    lemma_kind_procedure(data);
    lemma_kind_mfunction(data);
    lemma_kind_modifier(data);
    lemma_kind_alias(data);
    lemma_kind_bitfield(data);
    lemma_kind_dimconu(data);
    lemma_kind_dimconlu(data);
    lemma_kind_array(data);
    lemma_kind_vftable(data);
    lemma_kind_mfunc_id(data);
    lemma_kind_class(data);
    lemma_kind_structure(data);
    lemma_kind_enum(data);
    lemma_kind_union(data);
    lemma_kind_class2(data);
    lemma_kind_structure2(data);
    lemma_kind_union2(data);
    lemma_kind_interface2(data);
    lemma_kind_func_id(data);
    lemma_kind_string_id(data);
    lemma_kind_udt_src_line(data);
    lemma_kind_udt_mod_src_line(data);
    lemma_kind_label(data);
    lemma_kind_vtshape(data);
    lemma_kind_precomp(data);
    lemma_kind_endprecomp(data);
    lemma_kind_skip(data);
}

/// An index of kind `kind` at byte `offset` of a record.
pub open spec fn index_at(kind: IndexKind, offset: int) -> IndexLocation {
    IndexLocation { kind, offset: offset as usize }
}

/// A failed walk stays failed however many fields are read.
proof fn lemma_repeat_failed(data: Seq<u8>, f: Field, n: nat)
    ensures
        repeat(data, None, f, n) is None,
    decreases n,
{
    if n > 0 {
        lemma_repeat_failed(data, f, (n - 1) as nat);
    }
}

/// Reading `n` indexes one after another from `start` finds them at `start`, `start + 4`, ...,
/// when they all fit in the record.
proof fn lemma_repeat_indexes(data: Seq<u8>, start: int, f: Field, kind: IndexKind, n: nat)
    requires
        0 <= start <= data.len(),
        f == Field::Ty && kind == IndexKind::Type || f == Field::Item && kind == IndexKind::Item,
    ensures
        repeat(data, Some((start, Seq::empty())), f, n) == if start + 4 * n <= data.len() {
            Some((start + 4 * n, Seq::new(n, |i: int| index_at(kind, start + 4 * i))))
        } else {
            None::<(int, Seq<IndexLocation>)>
        },
{
    lemma_repeat_indexes_after(data, start, Seq::empty(), f, kind, n);
    assert(Seq::<IndexLocation>::empty() + Seq::new(n, |i: int| index_at(kind, start + 4 * i)) =~= Seq::new(
        n,
        |i: int| index_at(kind, start + 4 * i),
    ));
}

/// Reading `n` indexes one after another from `start`, after the indexes `found`, adds them at
/// `start`, `start + 4`, ..., when they all fit in the record.
proof fn lemma_repeat_indexes_after(
    data: Seq<u8>,
    start: int,
    found: Seq<IndexLocation>,
    f: Field,
    kind: IndexKind,
    n: nat,
)
    requires
        0 <= start <= data.len(),
        f == Field::Ty && kind == IndexKind::Type || f == Field::Item && kind == IndexKind::Item,
    ensures
        repeat(data, Some((start, found)), f, n) == if start + 4 * n <= data.len() {
            Some((start + 4 * n, found + Seq::new(n, |i: int| index_at(kind, start + 4 * i))))
        } else {
            None::<(int, Seq<IndexLocation>)>
        },
    decreases n,
{
    if n > 0 {
        let w0 = Some((start, found));
        lemma_repeat_indexes_after(data, start, found, f, kind, (n - 1) as nat);
        let prev = repeat(data, w0, f, (n - 1) as nat);
        assert(repeat(data, w0, f, n) == step(data, prev, f));
        let pos = start + 4 * (n - 1);
        let got = found + Seq::new((n - 1) as nat, |i: int| index_at(kind, start + 4 * i));
        if pos + 4 <= data.len() {
            assert(prev == Some((pos, got)));
            assert(step(data, prev, f) == index_step(data, pos, got, kind));
            assert(got.push(index_at(kind, pos)) =~= found + Seq::new(n, |i: int| index_at(kind, start + 4 * i)));
        } else if pos <= data.len() {
            assert(prev == Some((pos, got)));
            assert(step(data, prev, f) == index_step(data, pos, got, kind));
            assert(step(data, prev, f) is None);
        } else {
            assert(prev is None);
            assert(step(data, prev, f) is None);
        }
    } else {
        assert(found + Seq::new(0, |i: int| index_at(kind, start + 4 * i)) =~= found);
    }
}

/// The records made of a count and that many indexes: `LF_ARGLIST` (the argument types),
/// `LF_DERIVED` and `LF_VFTPATH` have a 4-byte count followed by that many type indexes;
/// `LF_SUBSTR_LIST` a 4-byte count followed by that many item ids; `LF_BUILDINFO` a 2-byte count
/// followed by that many item ids. A record too short for its count, or for the indexes that the
/// count announces, is malformed.
pub proof fn lemma_counted_record_indexes(data: Seq<u8>)
    ensures
        ({
            let n = le_u32(data);
            let types = if 4 <= data.len() && 4 + 4 * n <= data.len() {
                Some(Seq::new(n as nat, |i: int| ty_at(4 + 4 * i)))
            } else {
                None
            };
            &&& record_index_locations(LF_ARGLIST, data) == types
            &&& record_index_locations(LF_DERIVED, data) == types
            &&& record_index_locations(LF_VFTPATH, data) == types
            &&& record_index_locations(LF_SUBSTR_LIST, data) == if 4 <= data.len() && 4 + 4 * n
                <= data.len() {
                Some(Seq::new(n as nat, |i: int| item_at(4 + 4 * i)))
            } else {
                None
            }
        }),
        ({
            let n = le_u16(data);
            record_index_locations(LF_BUILDINFO, data) == if 2 <= data.len() && 2 + 4 * n
                <= data.len() {
                Some(Seq::new(n as nat, |i: int| item_at(2 + 4 * i)))
            } else {
                None
            }
        }),
{
    let e = Seq::<IndexLocation>::empty();
    let w0: Walk = Some((0, e));
    assert(data.skip(0) =~= data);
    assert(counted_fields(LF_ARGLIST) == Some((Field::U32, Field::Ty)));
    assert(counted_fields(LF_DERIVED) == Some((Field::U32, Field::Ty)));
    assert(counted_fields(LF_VFTPATH) == Some((Field::U32, Field::Ty)));
    assert(counted_fields(LF_SUBSTR_LIST) == Some((Field::U32, Field::Item)));
    assert(counted_fields(LF_BUILDINFO) == Some((Field::U16, Field::Item)));
    assert(count_at(data, 0, Field::U32) == le_u32(data));
    assert(count_at(data, 0, Field::U16) == le_u16(data));
    lemma_repeat_failed(data, Field::Ty, le_u32(data) as nat);
    lemma_repeat_failed(data, Field::Item, le_u32(data) as nat);
    lemma_repeat_failed(data, Field::Item, le_u16(data) as nat);
    if 4 <= data.len() {
        let n = le_u32(data);
        assert(0 <= n);
        assert(step(data, w0, Field::U32) == Some((4int, e)));
        lemma_repeat_indexes(data, 4, Field::Ty, IndexKind::Type, n as nat);
        lemma_repeat_indexes(data, 4, Field::Item, IndexKind::Item, n as nat);
        assert(Seq::new(n as nat, |i: int| index_at(IndexKind::Type, 4 + 4 * i)) =~= Seq::new(
            n as nat,
            |i: int| ty_at(4 + 4 * i),
        ));
        assert(Seq::new(n as nat, |i: int| index_at(IndexKind::Item, 4 + 4 * i)) =~= Seq::new(
            n as nat,
            |i: int| item_at(4 + 4 * i),
        ));
    }
    if 2 <= data.len() {
        let n = le_u16(data);
        assert(0 <= n);
        assert(step(data, w0, Field::U16) == Some((2int, e)));
        lemma_repeat_indexes(data, 2, Field::Item, IndexKind::Item, n as nat);
        assert(Seq::new(n as nat, |i: int| index_at(IndexKind::Item, 2 + 4 * i)) =~= Seq::new(
            n as nat,
            |i: int| item_at(2 + 4 * i),
        ));
    }
}

/// `LF_POINTER`: the underlying type and 4 bytes of attributes, whose bits 5 to 7 give the
/// pointer mode; a pointer to a data member (mode 2) or to a method (mode 3) is followed by the
/// type of the containing class.
pub proof fn lemma_pointer_record_indexes(data: Seq<u8>)
    ensures
        data.len() < 8 ==> record_index_locations(LF_POINTER, data) is None,
        data.len() >= 8 ==> ({
            let mode = (le_u32(data.skip(4)) / 32) % 8;
            record_index_locations(LF_POINTER, data) == if mode == 2 || mode == 3 {
                if_long_enough(data, 12, seq![ty_at(0), ty_at(8)])
            } else {
                Some(seq![ty_at(0)])
            }
        }),
{
    let e = Seq::<IndexLocation>::empty();
    assert(e.push(ty_at(0)) =~= seq![ty_at(0)]);
    assert(e.push(ty_at(0)).push(ty_at(8)) =~= seq![ty_at(0), ty_at(8)]);
    assert(fixed_fields(LF_POINTER) is None);
    assert(counted_fields(LF_POINTER) is None);
    if data.len() >= 8 {
        let bits = le_u32(data.skip(4));
        assert(0 <= bits < 0x1_0000_0000);
        assert(spec_pointer_mode(bits as u32) == (bits / 32) % 8);
    }
}

/// A field list positioned on a member (no padding before it) reads the member's kind and then
/// its fields, and goes on from there.
proof fn lemma_member_unfold(data: Seq<u8>, pos: int, found: Seq<IndexLocation>)
    requires
        0 <= pos,
        pos + 2 <= data.len(),
        data[pos] < 0xf0,
        member_fields(le_u16(data.skip(pos)) as u16) is Some,
    ensures
        field_list_walk(data, Some((pos, found))) == field_list_walk(
            data,
            steps(data, Some((pos + 2, found)), member_fields(le_u16(data.skip(pos)) as u16)->0),
        ),
{
    assert(pad_len(data.skip(pos)) == 0);
    let w1: Walk = Some((pos + 2, found));
    assert(step(data, Some((pos, found)), Field::U16) == w1);
}

/// The fields of a member, read from `a`, after its kind.
proof fn lemma_steps_pad_type(data: Seq<u8>, a: int, found: Seq<IndexLocation>)
    requires
        0 <= a,
    ensures
        ({
            let t = found.push(ty_at(a + 2));
            steps(data, Some((a, found)), seq![Field::Skip(2), Field::Ty]) ==
            if a + 6 <= data.len() {
                Some((a + 6, t))
            } else {
                None
            }
        }),
{
    reveal_with_fuel(steps, 6);
}

/// The fields of a member, read from `a`, after its kind.
proof fn lemma_steps_vfuncoff(data: Seq<u8>, a: int, found: Seq<IndexLocation>)
    requires
        0 <= a,
    ensures
        ({
            let t = found.push(ty_at(a + 2));
            steps(data, Some((a, found)), seq![Field::U16, Field::Ty, Field::U32]) ==
            if a + 10 <= data.len() {
                Some((a + 10, t))
            } else {
                None
            }
        }),
{
    reveal_with_fuel(steps, 6);
}

/// The fields of a member, read from `a`, after its kind.
proof fn lemma_steps_named0(data: Seq<u8>, a: int, found: Seq<IndexLocation>)
    requires
        0 <= a,
    ensures
        ({
            let t = found.push(ty_at(a + 2));
            steps(data, Some((a, found)), seq![Field::U16, Field::Ty, Field::Strz]) ==
            if a + 6 <= data.len() {
                match strz_len(data.skip(a + 6)) {
                    Some(sl) => Some((a + 6 + sl, t)),
                    None => None,
                }
            } else {
                None
            }
        }),
{
    reveal_with_fuel(steps, 6);
}

/// The fields of a member, read from `a`, after its kind.
proof fn lemma_steps_named1(data: Seq<u8>, a: int, found: Seq<IndexLocation>)
    requires
        0 <= a,
    ensures
        ({
            let t = found.push(ty_at(a + 2));
            steps(data, Some((a, found)), seq![Field::Skip(2), Field::Ty, Field::Strz]) ==
            if a + 6 <= data.len() {
                match strz_len(data.skip(a + 6)) {
                    Some(sl) => Some((a + 6 + sl, t)),
                    None => None,
                }
            } else {
                None
            }
        }),
{
    reveal_with_fuel(steps, 6);
}

/// The fields of a member, read from `a`, after its kind.
proof fn lemma_steps_member(data: Seq<u8>, a: int, found: Seq<IndexLocation>)
    requires
        0 <= a,
    ensures
        ({
            let t = found.push(ty_at(a + 2));
            steps(data, Some((a, found)), seq![Field::U16, Field::Ty, Field::Number, Field::Strz]) ==
            if a + 6 <= data.len() {
                match number_len(data.skip(a + 6)) {
                    Some(nl) => match strz_len(data.skip(a + 6 + nl)) {
                        Some(sl) => Some((a + 6 + nl + sl, t)),
                        None => None,
                    },
                    None => None,
                }
            } else {
                None
            }
        }),
{
    reveal_with_fuel(steps, 6);
}

/// The fields of a member, read from `a`, after its kind.
proof fn lemma_steps_bclass(data: Seq<u8>, a: int, found: Seq<IndexLocation>)
    requires
        0 <= a,
    ensures
        ({
            let t = found.push(ty_at(a + 2));
            steps(data, Some((a, found)), seq![Field::U16, Field::Ty, Field::Number]) ==
            if a + 6 <= data.len() {
                match number_len(data.skip(a + 6)) {
                    Some(nl) => Some((a + 6 + nl, t)),
                    None => None,
                }
            } else {
                None
            }
        }),
{
    reveal_with_fuel(steps, 6);
}

/// The fields of a member, read from `a`, after its kind.
proof fn lemma_steps_vbclass(data: Seq<u8>, a: int, found: Seq<IndexLocation>)
    requires
        0 <= a,
    ensures
        ({
            let t = found.push(ty_at(a + 2));
            steps(data, Some((a, found)), seq![Field::U16, Field::Ty, Field::Ty, Field::Number, Field::Number]) ==
            if a + 10 <= data.len() {
                match number_len(data.skip(a + 10)) {
                    Some(n1) => match number_len(data.skip(a + 10 + n1)) {
                        Some(n2) => Some((a + 10 + n1 + n2, t.push(ty_at(a + 6)))),
                        None => None,
                    },
                    None => None,
                }
            } else {
                None
            }
        }),
{
    reveal_with_fuel(steps, 6);
}

/// The fields of a member, read from `a`, after its kind.
proof fn lemma_steps_enumerate(data: Seq<u8>, a: int, found: Seq<IndexLocation>)
    requires
        0 <= a,
    ensures
        ({
            let t = found.push(ty_at(a + 2));
            steps(data, Some((a, found)), seq![Field::U16, Field::Number, Field::Strz]) ==
            if a + 2 <= data.len() {
                match number_len(data.skip(a + 2)) {
                    Some(nl) => match strz_len(data.skip(a + 2 + nl)) {
                        Some(sl) => Some((a + 2 + nl + sl, found)),
                        None => None,
                    },
                    None => None,
                }
            } else {
                None
            }
        }),
{
    reveal_with_fuel(steps, 6);
}

/// The fields of `LF_INDEX`, `LF_VFUNCTAB`, `LF_FRIENDCLS` within a field list.
proof fn lemma_member_pad_type(data: Seq<u8>, pos: int, found: Seq<IndexLocation>)
    requires
        0 <= pos,
        pos + 2 <= data.len(),
        data[pos] < 0xf0,
    ensures
        ({
            let k = le_u16(data.skip(pos));
            let a = pos + 2;
            let walk = field_list_walk(data, Some((pos, found)));
            let t = found.push(ty_at(a + 2));
            (k == LF_INDEX || k == LF_VFUNCTAB || k == LF_FRIENDCLS) ==> walk == field_list_walk(
                data,
                if a + 6 <= data.len() {
                    Some((a + 6, t))
                } else {
                    None
                },
            )
        }),
{
    let k = le_u16(data.skip(pos));
    assert(0 <= k < 0x10000);
    if k == LF_INDEX || k == LF_VFUNCTAB || k == LF_FRIENDCLS {
        assert(member_fields(k as u16) == Some(seq![Field::Skip(2), Field::Ty]));
        lemma_member_unfold(data, pos, found);
        lemma_steps_pad_type(data, pos + 2, found);
    }
}

/// The fields of `LF_VFUNCOFF` within a field list.
proof fn lemma_member_vfuncoff(data: Seq<u8>, pos: int, found: Seq<IndexLocation>)
    requires
        0 <= pos,
        pos + 2 <= data.len(),
        data[pos] < 0xf0,
    ensures
        ({
            let k = le_u16(data.skip(pos));
            let a = pos + 2;
            let walk = field_list_walk(data, Some((pos, found)));
            let t = found.push(ty_at(a + 2));
            k == LF_VFUNCOFF ==> walk == field_list_walk(
                data,
                if a + 10 <= data.len() {
                    Some((a + 10, t))
                } else {
                    None
                },
            )
        }),
{
    let k = le_u16(data.skip(pos));
    assert(0 <= k < 0x10000);
    if k == LF_VFUNCOFF {
        assert(member_fields(k as u16) == Some(seq![Field::U16, Field::Ty, Field::U32]));
        lemma_member_unfold(data, pos, found);
        lemma_steps_vfuncoff(data, pos + 2, found);
    }
}

/// The fields of `LF_STMEMBER`, `LF_METHOD`, `LF_NESTEDTYPEEX`, `LF_FRIENDFCN`, `LF_NESTEDTYPE` within a field list.
proof fn lemma_member_named(data: Seq<u8>, pos: int, found: Seq<IndexLocation>)
    requires
        0 <= pos,
        pos + 2 <= data.len(),
        data[pos] < 0xf0,
    ensures
        ({
            let k = le_u16(data.skip(pos));
            let a = pos + 2;
            let walk = field_list_walk(data, Some((pos, found)));
            let t = found.push(ty_at(a + 2));
            (k == LF_STMEMBER || k == LF_METHOD || k == LF_NESTEDTYPEEX || k == LF_FRIENDFCN || k
                == LF_NESTEDTYPE) ==> walk == field_list_walk(
                data,
                if a + 6 <= data.len() {
                    match strz_len(data.skip(a + 6)) {
                        Some(sl) => Some((a + 6 + sl, t)),
                        None => None,
                    }
                } else {
                    None
                },
            )
        }),
{
    let k = le_u16(data.skip(pos));
    assert(0 <= k < 0x10000);
    if k == LF_STMEMBER || k == LF_METHOD || k == LF_NESTEDTYPEEX {
        assert(member_fields(k as u16) == Some(seq![Field::U16, Field::Ty, Field::Strz]));
        lemma_member_unfold(data, pos, found);
        lemma_steps_named0(data, pos + 2, found);
    } else if k == LF_FRIENDFCN || k == LF_NESTEDTYPE {
        assert(member_fields(k as u16) == Some(seq![Field::Skip(2), Field::Ty, Field::Strz]));
        lemma_member_unfold(data, pos, found);
        lemma_steps_named1(data, pos + 2, found);
    }
}

/// The fields of `LF_MEMBER` within a field list.
proof fn lemma_member_member(data: Seq<u8>, pos: int, found: Seq<IndexLocation>)
    requires
        0 <= pos,
        pos + 2 <= data.len(),
        data[pos] < 0xf0,
    ensures
        ({
            let k = le_u16(data.skip(pos));
            let a = pos + 2;
            let walk = field_list_walk(data, Some((pos, found)));
            let t = found.push(ty_at(a + 2));
            k == LF_MEMBER ==> walk == field_list_walk(
                data,
                if a + 6 <= data.len() {
                    match number_len(data.skip(a + 6)) {
                        Some(nl) => match strz_len(data.skip(a + 6 + nl)) {
                            Some(sl) => Some((a + 6 + nl + sl, t)),
                            None => None,
                        },
                        None => None,
                    }
                } else {
                    None
                },
            )
        }),
{
    let k = le_u16(data.skip(pos));
    assert(0 <= k < 0x10000);
    if k == LF_MEMBER {
        assert(member_fields(k as u16) == Some(seq![Field::U16, Field::Ty, Field::Number, Field::Strz]));
        lemma_member_unfold(data, pos, found);
        lemma_steps_member(data, pos + 2, found);
    }
}

/// The fields of `LF_BCLASS` within a field list.
proof fn lemma_member_bclass(data: Seq<u8>, pos: int, found: Seq<IndexLocation>)
    requires
        0 <= pos,
        pos + 2 <= data.len(),
        data[pos] < 0xf0,
    ensures
        ({
            let k = le_u16(data.skip(pos));
            let a = pos + 2;
            let walk = field_list_walk(data, Some((pos, found)));
            let t = found.push(ty_at(a + 2));
            k == LF_BCLASS ==> walk == field_list_walk(
                data,
                if a + 6 <= data.len() {
                    match number_len(data.skip(a + 6)) {
                        Some(nl) => Some((a + 6 + nl, t)),
                        None => None,
                    }
                } else {
                    None
                },
            )
        }),
{
    let k = le_u16(data.skip(pos));
    assert(0 <= k < 0x10000);
    if k == LF_BCLASS {
        assert(member_fields(k as u16) == Some(seq![Field::U16, Field::Ty, Field::Number]));
        lemma_member_unfold(data, pos, found);
        lemma_steps_bclass(data, pos + 2, found);
    }
}

/// The fields of `LF_VBCLASS`, `LF_IVBCLASS` within a field list.
proof fn lemma_member_vbclass(data: Seq<u8>, pos: int, found: Seq<IndexLocation>)
    requires
        0 <= pos,
        pos + 2 <= data.len(),
        data[pos] < 0xf0,
    ensures
        ({
            let k = le_u16(data.skip(pos));
            let a = pos + 2;
            let walk = field_list_walk(data, Some((pos, found)));
            let t = found.push(ty_at(a + 2));
            (k == LF_VBCLASS || k == LF_IVBCLASS) ==> walk == field_list_walk(
                data,
                if a + 10 <= data.len() {
                    match number_len(data.skip(a + 10)) {
                        Some(n1) => match number_len(data.skip(a + 10 + n1)) {
                            Some(n2) => Some((a + 10 + n1 + n2, t.push(ty_at(a + 6)))),
                            None => None,
                        },
                        None => None,
                    }
                } else {
                    None
                },
            )
        }),
{
    let k = le_u16(data.skip(pos));
    assert(0 <= k < 0x10000);
    if k == LF_VBCLASS || k == LF_IVBCLASS {
        assert(member_fields(k as u16) == Some(seq![Field::U16, Field::Ty, Field::Ty, Field::Number, Field::Number]));
        lemma_member_unfold(data, pos, found);
        lemma_steps_vbclass(data, pos + 2, found);
    }
}

/// The fields of `LF_ENUMERATE` within a field list.
proof fn lemma_member_enumerate(data: Seq<u8>, pos: int, found: Seq<IndexLocation>)
    requires
        0 <= pos,
        pos + 2 <= data.len(),
        data[pos] < 0xf0,
    ensures
        ({
            let k = le_u16(data.skip(pos));
            let a = pos + 2;
            let walk = field_list_walk(data, Some((pos, found)));
            let t = found.push(ty_at(a + 2));
            k == LF_ENUMERATE ==> walk == field_list_walk(
                data,
                if a + 2 <= data.len() {
                    match number_len(data.skip(a + 2)) {
                        Some(nl) => match strz_len(data.skip(a + 2 + nl)) {
                            Some(sl) => Some((a + 2 + nl + sl, found)),
                            None => None,
                        },
                        None => None,
                    }
                } else {
                    None
                },
            )
        }),
{
    let k = le_u16(data.skip(pos));
    assert(0 <= k < 0x10000);
    if k == LF_ENUMERATE {
        assert(member_fields(k as u16) == Some(seq![Field::U16, Field::Number, Field::Strz]));
        lemma_member_unfold(data, pos, found);
        lemma_steps_enumerate(data, pos + 2, found);
    }
}

/// The fields of the members of a field list, as the CodeView format lays them out after the
/// 2-byte member kind (at `pos`):
/// - `LF_INDEX`, `LF_VFUNCTAB`, `LF_FRIENDCLS`: 2 bytes of padding and a type;
/// - `LF_VFUNCOFF`: 2 bytes, a type and a 4-byte offset;
/// - `LF_STMEMBER`, `LF_METHOD`, `LF_NESTEDTYPEEX`: 2 bytes (attributes or a count), a type and a
///   name; `LF_FRIENDFCN`, `LF_NESTEDTYPE`: 2 bytes of padding, a type and a name;
/// - `LF_MEMBER`: attributes, the type, the offset (a numeric leaf) and the name;
/// - `LF_BCLASS`: attributes, the base class and its offset (a numeric leaf);
/// - `LF_VBCLASS`, `LF_IVBCLASS`: attributes, the base class, the virtual base pointer type and
///   two numeric leaves;
/// - `LF_ENUMERATE`: attributes, the value (a numeric leaf) and the name, and no index.
///
/// Each member adds its type indexes, and the walk goes on after it; a member that does not fit
/// makes the record malformed.
pub proof fn lemma_field_list_members(data: Seq<u8>, pos: int, found: Seq<IndexLocation>)
    requires
        0 <= pos,
        pos + 2 <= data.len(),
        data[pos] < 0xf0,
    ensures
        ({
            let k = le_u16(data.skip(pos));
            let a = pos + 2;
            let walk = field_list_walk(data, Some((pos, found)));
            let t = found.push(ty_at(a + 2));
            &&& (k == LF_INDEX || k == LF_VFUNCTAB || k == LF_FRIENDCLS) ==> walk == field_list_walk(
                data,
                if a + 6 <= data.len() {
                    Some((a + 6, t))
                } else {
                    None
                },
            )
            &&& k == LF_VFUNCOFF ==> walk == field_list_walk(
                data,
                if a + 10 <= data.len() {
                    Some((a + 10, t))
                } else {
                    None
                },
            )
            &&& (k == LF_STMEMBER || k == LF_METHOD || k == LF_NESTEDTYPEEX || k == LF_FRIENDFCN || k
                == LF_NESTEDTYPE) ==> walk == field_list_walk(
                data,
                if a + 6 <= data.len() {
                    match strz_len(data.skip(a + 6)) {
                        Some(sl) => Some((a + 6 + sl, t)),
                        None => None,
                    }
                } else {
                    None
                },
            )
            &&& k == LF_MEMBER ==> walk == field_list_walk(
                data,
                if a + 6 <= data.len() {
                    match number_len(data.skip(a + 6)) {
                        Some(nl) => match strz_len(data.skip(a + 6 + nl)) {
                            Some(sl) => Some((a + 6 + nl + sl, t)),
                            None => None,
                        },
                        None => None,
                    }
                } else {
                    None
                },
            )
            &&& k == LF_BCLASS ==> walk == field_list_walk(
                data,
                if a + 6 <= data.len() {
                    match number_len(data.skip(a + 6)) {
                        Some(nl) => Some((a + 6 + nl, t)),
                        None => None,
                    }
                } else {
                    None
                },
            )
            &&& (k == LF_VBCLASS || k == LF_IVBCLASS) ==> walk == field_list_walk(
                data,
                if a + 10 <= data.len() {
                    match number_len(data.skip(a + 10)) {
                        Some(n1) => match number_len(data.skip(a + 10 + n1)) {
                            Some(n2) => Some((a + 10 + n1 + n2, t.push(ty_at(a + 6)))),
                            None => None,
                        },
                        None => None,
                    }
                } else {
                    None
                },
            )
            &&& k == LF_ENUMERATE ==> walk == field_list_walk(
                data,
                if a + 2 <= data.len() {
                    match number_len(data.skip(a + 2)) {
                        Some(nl) => match strz_len(data.skip(a + 2 + nl)) {
                            Some(sl) => Some((a + 2 + nl + sl, found)),
                            None => None,
                        },
                        None => None,
                    }
                } else {
                    None
                },
            )
        }),
{
    lemma_member_pad_type(data, pos, found);
    lemma_member_vfuncoff(data, pos, found);
    lemma_member_named(data, pos, found);
    lemma_member_member(data, pos, found);
    lemma_member_bclass(data, pos, found);
    lemma_member_vbclass(data, pos, found);
    lemma_member_enumerate(data, pos, found);
}

/// `LF_DIMVARU`: a 4-byte rank, the index type, then an upper bound (a type) for each dimension.
pub proof fn lemma_dimvaru_record_indexes(data: Seq<u8>)
    ensures
        ({
            let rank = le_u32(data);
            record_index_locations(LF_DIMVARU, data) == if 8 <= data.len() && 8 + 4 * rank
                <= data.len() {
                Some(seq![ty_at(4)] + Seq::new(rank as nat, |i: int| ty_at(8 + 4 * i)))
            } else {
                None
            }
        }),
{
    let e = Seq::<IndexLocation>::empty();
    assert(fixed_fields(LF_DIMVARU) is None);
    assert(counted_fields(LF_DIMVARU) is None);
    assert(data.skip(0) =~= data);
    let rank = le_u32(data);
    assert(0 <= rank);
    lemma_repeat_failed(data, Field::Ty, rank as nat);
    if 8 <= data.len() {
        let w = step(data, step(data, Some((0, e)), Field::U32), Field::Ty);
        assert(e.push(ty_at(4)) =~= seq![ty_at(4)]);
        assert(w == Some((8int, seq![ty_at(4)])));
        lemma_repeat_indexes_after(data, 8, seq![ty_at(4)], Field::Ty, IndexKind::Type, rank as nat);
        assert(Seq::new(rank as nat, |i: int| index_at(IndexKind::Type, 8 + 4 * i)) =~= Seq::new(
            rank as nat,
            |i: int| ty_at(8 + 4 * i),
        ));
    } else if 4 <= data.len() {
        assert(step(data, step(data, Some((0, e)), Field::U32), Field::Ty) is None);
    }
}

/// Whether a method with attributes `attr` introduces a new virtual function slot: its method
/// property (bits 2 to 5) is "introducing virtual" (4) or "pure introducing virtual" (6).
pub open spec fn method_introduces_slot(attr: int) -> bool {
    (attr / 4) % 16 == 4 || (attr / 4) % 16 == 6
}

/// `LF_ONEMETHOD` within a field list (its kind at `pos`): attributes, the method type, a 4-byte
/// vtable offset when the method introduces a virtual slot, and the name.
pub proof fn lemma_field_list_one_method(data: Seq<u8>, pos: int, found: Seq<IndexLocation>)
    requires
        0 <= pos,
        pos + 2 <= data.len(),
        data[pos] < 0xf0,
        le_u16(data.skip(pos)) == LF_ONEMETHOD,
    ensures
        ({
            let a = pos + 2;
            let name_pos = if a + 2 <= data.len() && method_introduces_slot(le_u16(data.skip(a))) {
                a + 10
            } else {
                a + 6
            };
            field_list_walk(data, Some((pos, found))) == field_list_walk(
                data,
                if a + 6 <= data.len() && name_pos <= data.len() {
                    match strz_len(data.skip(name_pos)) {
                        Some(sl) => Some((name_pos + sl, found.push(ty_at(a + 2)))),
                        None => None,
                    }
                } else {
                    None
                },
            )
        }),
{
    let a = pos + 2;
    assert(pad_len(data.skip(pos)) == 0);
    assert(member_fields(LF_ONEMETHOD) is None);
    let w1: Walk = Some((a, found));
    assert(step(data, Some((pos, found)), Field::U16) == w1);
    if a + 2 <= data.len() {
        let attr = le_u16(data.skip(a));
        assert(0 <= attr < 0x10000);
        assert(spec_introduces_virtual(attr as u16) == method_introduces_slot(attr));
    }
}

/// `LF_METHODLIST`: entries until the end of the record; each holds attributes, 2 bytes of
/// padding, the method type, and a 4-byte vtable offset when the method introduces a virtual
/// slot. A list that ends within an entry is malformed.
pub proof fn lemma_method_list_entry(data: Seq<u8>, pos: int, found: Seq<IndexLocation>)
    requires
        0 <= pos,
    ensures
        pos >= data.len() ==> method_list_walk(data, Some((pos, found))) == Some((pos, found)),
        pos < data.len() ==> ({
            let end = if pos + 2 <= data.len() && method_introduces_slot(le_u16(data.skip(pos))) {
                pos + 12
            } else {
                pos + 8
            };
            method_list_walk(data, Some((pos, found))) == method_list_walk(
                data,
                if pos + 8 <= data.len() && end <= data.len() {
                    Some((end, found.push(ty_at(pos + 4))))
                } else {
                    None
                },
            )
        }),
{
    if pos < data.len() && pos + 2 <= data.len() {
        let attr = le_u16(data.skip(pos));
        assert(0 <= attr < 0x10000);
        assert(spec_introduces_virtual(attr as u16) == method_introduces_slot(attr));
    }
}

/// Reads the fields of a record and reports the indexes within it. The traversal in
/// `visit_type_indexes_in_record` drives a `RecordVisitor`; implementations decide what to do at
/// each index (collect its location, hand its value to an `IndexVisitor`, ...).
///
/// The spec functions describe the visitor as a walk over `record()`: `position()` is the offset
/// of the next byte and `visited()` the indexes reported so far.
pub trait RecordVisitor {
    /// The bytes of the record being visited.
    spec fn record(&self) -> Seq<u8>;

    /// The offset of the next unread byte within the record.
    spec fn position(&self) -> int;

    /// The indexes that have been reported so far.
    spec fn visited(&self) -> Seq<IndexLocation>;

    /// The visitor's internal consistency.
    spec fn inv(&self) -> bool;

    /// Whether the visitor's reporting of an index never fails.
    spec fn infallible(&self) -> bool;

    /// The index calls that the visitor's consumer had received before the walk began.
    /// Reading the record leaves them as they are.
    spec fn prior_calls(&self) -> Seq<IndexCall>;

    /// The position stays within the record.
    proof fn lemma_inv(&self)
        requires
            self.inv(),
        ensures
            0 <= self.position() <= self.record().len() <= usize::MAX,
    ;

    /// True if the whole record has been read.
    fn is_empty(&self) -> (b: bool)
        requires
            self.inv(),
        ensures
            b <==> self.position() == self.record().len(),
    ;

    /// The bytes of the record that have not been read.
    fn peek_rest(&self) -> (r: &[u8])
        requires
            self.inv(),
        ensures
            r@ == self.record().skip(self.position()),
    ;

    /// Reads a `u16` value.
    fn u16(&mut self) -> (r: Result<u16, ParserError>)
        requires
            old(self).inv(),
        ensures
            final(self).inv(),
            final(self).record() == old(self).record(),
            final(self).infallible() == old(self).infallible(),
            final(self).prior_calls() == old(self).prior_calls(),
            final(self).visited() == old(self).visited(),
            r is Ok <==> old(self).position() + 2 <= old(self).record().len(),
            r matches Ok(v) ==> v == le_u16(old(self).record().skip(old(self).position()))
                && final(self).position() == old(self).position() + 2,
    ;

    /// Reads a `u32` value.
    fn u32(&mut self) -> (r: Result<u32, ParserError>)
        requires
            old(self).inv(),
        ensures
            final(self).inv(),
            final(self).record() == old(self).record(),
            final(self).infallible() == old(self).infallible(),
            final(self).prior_calls() == old(self).prior_calls(),
            final(self).visited() == old(self).visited(),
            r is Ok <==> old(self).position() + 4 <= old(self).record().len(),
            r matches Ok(v) ==> v == le_u32(old(self).record().skip(old(self).position()))
                && final(self).position() == old(self).position() + 4,
    ;

    /// Skips `n` bytes.
    fn skip(&mut self, n: usize) -> (r: Result<(), ParserError>)
        requires
            old(self).inv(),
        ensures
            final(self).inv(),
            final(self).record() == old(self).record(),
            final(self).infallible() == old(self).infallible(),
            final(self).prior_calls() == old(self).prior_calls(),
            final(self).visited() == old(self).visited(),
            r is Ok <==> old(self).position() + n <= old(self).record().len(),
            r is Ok ==> final(self).position() == old(self).position() + n,
    ;

    /// Reads an item id and reports it.
    fn item(&mut self) -> (r: Result<(), ParserError>)
        requires
            old(self).inv(),
        ensures
            final(self).inv(),
            final(self).record() == old(self).record(),
            final(self).infallible() == old(self).infallible(),
            final(self).prior_calls() == old(self).prior_calls(),
            old(self).position() + 4 > old(self).record().len() ==> r is Err,
            old(self).infallible() && old(self).position() + 4 <= old(self).record().len()
                ==> r is Ok,
            r is Ok ==> final(self).position() == old(self).position() + 4 && final(self).visited()
                == old(self).visited().push(
                IndexLocation { kind: IndexKind::Item, offset: old(self).position() as usize },
            ),
    ;

    /// Reads a type index and reports it.
    fn ty(&mut self) -> (r: Result<(), ParserError>)
        requires
            old(self).inv(),
        ensures
            final(self).inv(),
            final(self).record() == old(self).record(),
            final(self).infallible() == old(self).infallible(),
            final(self).prior_calls() == old(self).prior_calls(),
            old(self).position() + 4 > old(self).record().len() ==> r is Err,
            old(self).infallible() && old(self).position() + 4 <= old(self).record().len()
                ==> r is Ok,
            r is Ok ==> final(self).position() == old(self).position() + 4 && final(self).visited()
                == old(self).visited().push(
                IndexLocation { kind: IndexKind::Type, offset: old(self).position() as usize },
            ),
    ;

    /// Reads a name index and reports it.
    fn name_index(&mut self) -> (r: Result<(), ParserError>)
        requires
            old(self).inv(),
        ensures
            final(self).inv(),
            final(self).record() == old(self).record(),
            final(self).infallible() == old(self).infallible(),
            final(self).prior_calls() == old(self).prior_calls(),
            old(self).position() + 4 > old(self).record().len() ==> r is Err,
            old(self).infallible() && old(self).position() + 4 <= old(self).record().len()
                ==> r is Ok,
            r is Ok ==> final(self).position() == old(self).position() + 4 && final(self).visited()
                == old(self).visited().push(
                IndexLocation { kind: IndexKind::Name, offset: old(self).position() as usize },
            ),
    ;

    /// Skips a numeric leaf.
    fn number(&mut self) -> (r: Result<(), ParserError>)
        requires
            old(self).inv(),
        ensures
            final(self).inv(),
            final(self).record() == old(self).record(),
            final(self).infallible() == old(self).infallible(),
            final(self).prior_calls() == old(self).prior_calls(),
            final(self).visited() == old(self).visited(),
            r is Ok <==> number_len(old(self).record().skip(old(self).position())) is Some,
            r is Ok ==> final(self).position() == old(self).position() + number_len(
                old(self).record().skip(old(self).position()),
            )->0,
    ;

    /// Skips a NUL-terminated string.
    fn strz(&mut self) -> (r: Result<(), ParserError>)
        requires
            old(self).inv(),
        ensures
            final(self).inv(),
            final(self).record() == old(self).record(),
            final(self).infallible() == old(self).infallible(),
            final(self).prior_calls() == old(self).prior_calls(),
            final(self).visited() == old(self).visited(),
            r is Ok <==> strz_len(old(self).record().skip(old(self).position())) is Some,
            r is Ok ==> final(self).position() == old(self).position() + strz_len(
                old(self).record().skip(old(self).position()),
            )->0,
    ;
}

/// The walk that a visitor has made so far.
pub open spec fn walk_of<V: RecordVisitor>(v: &V) -> Walk {
    Some((v.position(), v.visited()))
}

/// What stays the same while a visitor reads.
pub open spec fn same_record<V: RecordVisitor>(a: &V, b: &V) -> bool {
    &&& b.inv()
    &&& b.record() == a.record()
    &&& b.infallible() == a.infallible()
    &&& b.prior_calls() == a.prior_calls()
}

/// Once a walk has failed, reading more fields does not revive it.
proof fn lemma_steps_none(data: Seq<u8>, w: Walk, fs: Seq<Field>, i: int)
    requires
        0 <= i <= fs.len(),
        steps(data, w, fs.take(i)) is None,
    ensures
        steps(data, w, fs) is None,
    decreases fs.len() - i,
{
    if i < fs.len() {
        assert(fs.take(i + 1).drop_last() =~= fs.take(i));
        lemma_steps_none(data, w, fs, i + 1);
    } else {
        assert(fs.take(i) =~= fs);
    }
}

/// Once a walk has failed, repeating a field does not revive it.
proof fn lemma_repeat_none(data: Seq<u8>, w: Walk, f: Field, i: nat, n: nat)
    requires
        i <= n,
        repeat(data, w, f, i) is None,
    ensures
        repeat(data, w, f, n) is None,
    decreases n - i,
{
    if i < n {
        lemma_repeat_none(data, w, f, i + 1, n);
    }
}

/// A failed walk stays failed however often a field is repeated.
proof fn lemma_repeat_of_none(data: Seq<u8>, f: Field, n: nat)
    ensures
        repeat(data, None, f, n) is None,
    decreases n,
{
    if n > 0 {
        lemma_repeat_of_none(data, f, (n - 1) as nat);
    }
}

/// Reads one field through a visitor.
fn visit_field<V: RecordVisitor>(p: &mut V, f: Field) -> (r: Result<(), ParserError>)
    requires
        old(p).inv(),
    ensures
        same_record(old(p), final(p)),
        r is Ok ==> walk_of(final(p)) == step(old(p).record(), walk_of(old(p)), f),
        old(p).infallible() && step(old(p).record(), walk_of(old(p)), f) is Some ==> r is Ok,
{
    proof {
        p.lemma_inv();
    }
    match f {
        Field::U16 => match p.u16() {
            Ok(_) => Ok(()),
            Err(e) => Err(e),
        },
        Field::U32 => match p.u32() {
            Ok(_) => Ok(()),
            Err(e) => Err(e),
        },
        Field::Skip(n) => p.skip(n),
        Field::Ty => p.ty(),
        Field::Item => p.item(),
        Field::NameIndex => p.name_index(),
        Field::Number => p.number(),
        Field::Strz => p.strz(),
    }
}

/// Reads a sequence of fields through a visitor.
fn visit_fields<V: RecordVisitor>(p: &mut V, fs: &Vec<Field>) -> (r: Result<(), ParserError>)
    requires
        old(p).inv(),
    ensures
        same_record(old(p), final(p)),
        r is Ok ==> walk_of(final(p)) == steps(old(p).record(), walk_of(old(p)), fs@),
        old(p).infallible() && steps(old(p).record(), walk_of(old(p)), fs@) is Some ==> r is Ok,
{
    let ghost data = p.record();
    let ghost w0 = walk_of(p);
    let mut i: usize = 0;
    while i < fs.len()
        invariant
            same_record(old(p), p),
            data == old(p).record(),
            w0 == walk_of(old(p)),
            0 <= i <= fs@.len(),
            walk_of(p) == steps(data, w0, fs@.take(i as int)),
        decreases fs@.len() - i,
    {
        proof {
            assert(fs@.take(i + 1).drop_last() =~= fs@.take(i as int));
        }
        match visit_field(p, fs[i]) {
            Ok(()) => {},
            Err(e) => {
                proof {
                    if old(p).infallible() {
                        lemma_steps_none(data, w0, fs@, i + 1);
                    }
                }
                return Err(e);
            },
        }
        i = i + 1;
    }
    proof {
        assert(fs@.take(fs@.len() as int) =~= fs@);
    }
    Ok(())
}

/// Reads the same field `n` times through a visitor.
fn visit_repeat<V: RecordVisitor>(p: &mut V, f: Field, n: u32) -> (r: Result<(), ParserError>)
    requires
        old(p).inv(),
    ensures
        same_record(old(p), final(p)),
        r is Ok ==> walk_of(final(p)) == repeat(old(p).record(), walk_of(old(p)), f, n as nat),
        old(p).infallible() && repeat(old(p).record(), walk_of(old(p)), f, n as nat) is Some
            ==> r is Ok,
{
    let ghost data = p.record();
    let ghost w0 = walk_of(p);
    let mut i: u32 = 0;
    while i < n
        invariant
            same_record(old(p), p),
            data == old(p).record(),
            w0 == walk_of(old(p)),
            i <= n,
            walk_of(p) == repeat(data, w0, f, i as nat),
        decreases n - i,
    {
        match visit_field(p, f) {
            Ok(()) => {},
            Err(e) => {
                proof {
                    if old(p).infallible() {
                        lemma_repeat_none(data, w0, f, (i + 1) as nat, n as nat);
                    }
                }
                return Err(e);
            },
        }
        i = i + 1;
    }
    Ok(())
}

/// The fields of the record kinds whose layout does not depend on their contents.
fn fixed_fields_of(kind: u16) -> (r: Option<Vec<Field>>)
    ensures
        r matches Some(v) ==> fixed_fields(kind) == Some(v@),
        r is None ==> fixed_fields(kind) is None,
{
    if kind == LF_LABEL || kind == LF_VTSHAPE || kind == LF_PRECOMP || kind == LF_ENDPRECOMP
        || kind == LF_SKIP {
        Some(Vec::new())
    } else if kind == LF_MODIFIER || kind == LF_ALIAS || kind == LF_BITFIELD || kind == LF_DIMCONU
        || kind == LF_DIMCONLU {
        Some(vec![Field::Ty])
    } else if kind == LF_ARRAY || kind == LF_VFTABLE || kind == LF_MFUNC_ID {
        Some(vec![Field::Ty, Field::Ty])
    } else if kind == LF_CLASS || kind == LF_STRUCTURE {
        Some(vec![Field::U16, Field::Skip(2), Field::Ty, Field::Ty, Field::Ty])
    } else if kind == LF_ENUM {
        Some(vec![Field::U16, Field::Skip(2), Field::Ty, Field::Ty])
    } else if kind == LF_UNION {
        Some(vec![Field::U16, Field::Skip(2), Field::Ty])
    } else if kind == LF_PROCEDURE {
        Some(vec![Field::Ty, Field::Skip(4), Field::Ty])
    } else if kind == LF_MFUNCTION {
        Some(vec![Field::Ty, Field::Ty, Field::Ty, Field::Skip(4), Field::Ty])
    } else if kind == LF_CLASS2 || kind == LF_STRUCTURE2 || kind == LF_UNION2 || kind
        == LF_INTERFACE2 {
        Some(vec![Field::Skip(4), Field::Ty, Field::Ty, Field::Ty])
    } else if kind == LF_FUNC_ID {
        Some(vec![Field::Item, Field::Ty])
    } else if kind == LF_STRING_ID {
        Some(vec![Field::Item])
    } else if kind == LF_UDT_SRC_LINE || kind == LF_UDT_MOD_SRC_LINE {
        Some(vec![Field::Ty, Field::NameIndex])
    } else {
        None
    }
}

/// The count field and repeated field of the counted record kinds.
fn counted_fields_of(kind: u16) -> (r: Option<(Field, Field)>)
    ensures
        r == counted_fields(kind),
{
    if kind == LF_ARGLIST || kind == LF_DERIVED || kind == LF_VFTPATH {
        Some((Field::U32, Field::Ty))
    } else if kind == LF_SUBSTR_LIST {
        Some((Field::U32, Field::Item))
    } else if kind == LF_BUILDINFO {
        Some((Field::U16, Field::Item))
    } else {
        None
    }
}

/// The fields of the field list members whose layout does not depend on their contents.
fn member_fields_of(kind: u16) -> (r: Option<Vec<Field>>)
    ensures
        r matches Some(v) ==> member_fields(kind) == Some(v@),
        r is None ==> member_fields(kind) is None,
{
    if kind == LF_BCLASS {
        Some(vec![Field::U16, Field::Ty, Field::Number])
    } else if kind == LF_VBCLASS || kind == LF_IVBCLASS {
        Some(vec![Field::U16, Field::Ty, Field::Ty, Field::Number, Field::Number])
    } else if kind == LF_ENUMERATE {
        Some(vec![Field::U16, Field::Number, Field::Strz])
    } else if kind == LF_FRIENDFCN || kind == LF_NESTEDTYPE {
        Some(vec![Field::Skip(2), Field::Ty, Field::Strz])
    } else if kind == LF_INDEX || kind == LF_VFUNCTAB || kind == LF_FRIENDCLS {
        Some(vec![Field::Skip(2), Field::Ty])
    } else if kind == LF_MEMBER {
        Some(vec![Field::U16, Field::Ty, Field::Number, Field::Strz])
    } else if kind == LF_STMEMBER || kind == LF_METHOD || kind == LF_NESTEDTYPEEX {
        Some(vec![Field::U16, Field::Ty, Field::Strz])
    } else if kind == LF_VFUNCOFF {
        Some(vec![Field::U16, Field::Ty, Field::U32])
    } else {
        None
    }
}


/// A count field followed by that many repetitions of a field.
fn visit_counted<V: RecordVisitor>(p: &mut V, count: Field, item: Field) -> (r: Result<(), ParserError>)
    requires
        old(p).inv(),
        count == Field::U16 || count == Field::U32,
    ensures
        same_record(old(p), final(p)),
        r is Ok ==> walk_of(final(p)) == counted_walk(old(p).record(), walk_of(old(p)), count, item),
        old(p).infallible() && counted_walk(old(p).record(), walk_of(old(p)), count, item) is Some
            ==> r is Ok,
{
    let ghost data = p.record();
    let n: u32 = if count == Field::U16 {
        match p.u16() {
            Ok(v) => v as u32,
            Err(e) => {
                proof {
                    lemma_repeat_of_none(data, item, le_u16(data.skip(old(p).position())) as nat);
                }
                return Err(e);
            },
        }
    } else {
        match p.u32() {
            Ok(v) => v,
            Err(e) => {
                proof {
                    lemma_repeat_of_none(data, item, le_u32(data.skip(old(p).position())) as nat);
                }
                return Err(e);
            },
        }
    };
    visit_repeat(p, item, n)
}

/// `LF_POINTER`.
fn visit_pointer<V: RecordVisitor>(p: &mut V) -> (r: Result<(), ParserError>)
    requires
        old(p).inv(),
    ensures
        same_record(old(p), final(p)),
        r is Ok ==> walk_of(final(p)) == pointer_walk(old(p).record(), walk_of(old(p))),
        old(p).infallible() && pointer_walk(old(p).record(), walk_of(old(p))) is Some ==> r is Ok,
{
    proof {
        p.lemma_inv();
    }
    let ghost data = p.record();
    let ghost pos = p.position();
    match p.ty() {
        Ok(()) => {},
        Err(e) => {
            return Err(e);
        },
    }
    let attr = match p.u32() {
        Ok(v) => PointerFlags::from_bits(v),
        Err(e) => {
            return Err(e);
        },
    };
    assert(data.skip(pos).skip(4) =~= data.skip(pos + 4));
    let mode = attr.mode();
    if mode == 2 || mode == 3 {
        p.ty()
    } else {
        Ok(())
    }
}

/// `LF_DIMVARU`.
fn visit_dimvaru<V: RecordVisitor>(p: &mut V) -> (r: Result<(), ParserError>)
    requires
        old(p).inv(),
    ensures
        same_record(old(p), final(p)),
        r is Ok ==> walk_of(final(p)) == dimvaru_walk(old(p).record(), walk_of(old(p))),
        old(p).infallible() && dimvaru_walk(old(p).record(), walk_of(old(p))) is Some ==> r is Ok,
{
    let ghost data = p.record();
    let ghost n = le_u32(data.skip(old(p).position())) as nat;
    let rank = match p.u32() {
        Ok(v) => v,
        Err(e) => {
            proof {
                lemma_repeat_of_none(data, Field::Ty, n);
            }
            return Err(e);
        },
    };
    match p.ty() {
        Ok(()) => {},
        Err(e) => {
            proof {
                lemma_repeat_of_none(data, Field::Ty, n);
            }
            return Err(e);
        },
    }
    visit_repeat(p, Field::Ty, rank)
}

/// One entry of a `LF_METHODLIST` record.
fn visit_method_entry<V: RecordVisitor>(p: &mut V) -> (r: Result<(), ParserError>)
    requires
        old(p).inv(),
    ensures
        same_record(old(p), final(p)),
        r is Ok ==> walk_of(final(p)) == method_entry_walk(old(p).record(), walk_of(old(p))),
        old(p).infallible() && method_entry_walk(old(p).record(), walk_of(old(p))) is Some
            ==> r is Ok,
{
    let attr = match p.u16() {
        Ok(v) => v,
        Err(e) => {
            return Err(e);
        },
    };
    match p.skip(2) {
        Ok(()) => {},
        Err(e) => {
            return Err(e);
        },
    }
    match p.ty() {
        Ok(()) => {},
        Err(e) => {
            return Err(e);
        },
    }
    if introduces_virtual(attr) {
        p.skip(4)
    } else {
        Ok(())
    }
}

/// `LF_METHODLIST`.
fn visit_method_list<V: RecordVisitor>(p: &mut V) -> (r: Result<(), ParserError>)
    requires
        old(p).inv(),
    ensures
        same_record(old(p), final(p)),
        r is Ok ==> walk_of(final(p)) == method_list_walk(old(p).record(), walk_of(old(p))),
        old(p).infallible() && method_list_walk(old(p).record(), walk_of(old(p))) is Some
            ==> r is Ok,
{
    let ghost data = p.record();
    loop
        invariant
            same_record(old(p), p),
            data == old(p).record(),
            method_list_walk(data, walk_of(p)) == method_list_walk(data, walk_of(old(p))),
        decreases data.len() - p.position(),
    {
        proof {
            p.lemma_inv();
        }
        if p.is_empty() {
            return Ok(());
        }
        let ghost w = walk_of(p);
        let ghost pos = p.position();
        assert(method_list_walk(data, w) == method_list_walk(data, method_entry_walk(data, w)));
        let r = visit_method_entry(p);
        match r {
            Ok(()) => {},
            Err(e) => {
                return Err(e);
            },
        }
    }
}

/// Counts the padding bytes (`0xf0` and above) at the start of `s`.
fn count_padding(s: &[u8]) -> (n: usize)
    ensures
        n == pad_len(s@),
        n <= s@.len(),
{
    let mut i: usize = 0;
    assert(s@.skip(0) =~= s@);
    while i < s.len() && s[i] >= 0xf0
        invariant
            i <= s@.len(),
            pad_len(s@) == i + pad_len(s@.skip(i as int)),
        decreases s@.len() - i,
    {
        assert(s@.skip(i as int).drop_first() =~= s@.skip(i + 1));
        i = i + 1;
    }
    i
}

/// `LF_ONEMETHOD` within a field list, after its kind.
fn visit_one_method<V: RecordVisitor>(p: &mut V) -> (r: Result<(), ParserError>)
    requires
        old(p).inv(),
    ensures
        same_record(old(p), final(p)),
        r is Ok ==> walk_of(final(p)) == one_method_walk(old(p).record(), walk_of(old(p))),
        old(p).infallible() && one_method_walk(old(p).record(), walk_of(old(p))) is Some ==> r is Ok,
{
    let attr = match p.u16() {
        Ok(v) => v,
        Err(e) => {
            return Err(e);
        },
    };
    match p.ty() {
        Ok(()) => {},
        Err(e) => {
            return Err(e);
        },
    }
    if introduces_virtual(attr) {
        match p.u32() {
            Ok(_) => {},
            Err(e) => {
                return Err(e);
            },
        }
    }
    p.strz()
}

/// One member of a field list whose kind has been read. `Ok(false)` for a kind that is not
/// recognized, in which case nothing more is read.
fn visit_member<V: RecordVisitor>(p: &mut V, kind: u16) -> (r: Result<bool, ParserError>)
    requires
        old(p).inv(),
    ensures
        same_record(old(p), final(p)),
        r == Ok::<bool, ParserError>(false) <==> member_walk(old(p).record(), walk_of(old(p)), kind) is None,
        r == Ok::<bool, ParserError>(false) ==> walk_of(final(p)) == walk_of(old(p)),
        r == Ok::<bool, ParserError>(true) ==> walk_of(final(p)) == member_walk(old(p).record(), walk_of(old(p)), kind)->0,
        (member_walk(old(p).record(), walk_of(old(p)), kind) matches Some(w2) && w2 is None) ==> r is Err,
        old(p).infallible() && (member_walk(old(p).record(), walk_of(old(p)), kind) matches Some(w2)
            && w2 is Some) ==> r is Ok,
{
    match member_fields_of(kind) {
        Some(fs) => match visit_fields(p, &fs) {
            Ok(()) => Ok(true),
            Err(e) => Err(e),
        },
        None => if kind == LF_ONEMETHOD {
            match visit_one_method(p) {
                Ok(()) => Ok(true),
                Err(e) => Err(e),
            }
        } else {
            Ok(false)
        },
    }
}

/// `LF_FIELDLIST`.
fn visit_field_list<V: RecordVisitor>(p: &mut V) -> (r: Result<(), ParserError>)
    requires
        old(p).inv(),
    ensures
        same_record(old(p), final(p)),
        r is Ok ==> walk_of(final(p)) == field_list_walk(old(p).record(), walk_of(old(p))),
        old(p).infallible() && field_list_walk(old(p).record(), walk_of(old(p))) is Some
            ==> r is Ok,
{
    let ghost data = p.record();
    loop
        invariant
            same_record(old(p), p),
            data == old(p).record(),
            field_list_walk(data, walk_of(p)) == field_list_walk(data, walk_of(old(p))),
        decreases data.len() - p.position(),
    {
        proof {
            p.lemma_inv();
        }
        if p.is_empty() {
            return Ok(());
        }
        let ghost w = walk_of(p);
        let ghost pos = p.position();
        let ghost found = p.visited();
        let padding_len = count_padding(p.peek_rest());
        if padding_len > 0 {
            match p.skip(padding_len) {
                Ok(()) => {},
                Err(e) => {
                    return Err(e);
                },
            }
        }
        proof {
            p.lemma_inv();
        }
        if p.is_empty() {
            return Ok(());
        }
        let ghost p1 = p.position();
        let kind = match p.u16() {
            Ok(v) => v,
            Err(e) => {
                return Err(e);
            },
        };
        let ghost w1 = walk_of(p);
        assert(w1 == step(data, Some((p1, found)), Field::U16));
        match visit_member(p, kind) {
            Ok(true) => {
                proof {
                    lemma_member_advances(data, w1, kind);
                }
            },
            Ok(false) => {
                return Ok(());
            },
            Err(e) => {
                return Err(e);
            },
        }
    }
}

/// This function examines a type record and traverses the indexes within it: the type indexes,
/// item ids and name indexes that a record of this kind holds, in the order in which they occur.
///
/// The caller provides the visitor, which reads the fields of the record and is told where each
/// index is. A record of an unknown kind is an error.
pub fn visit_type_indexes_in_record<V: RecordVisitor>(type_kind: Leaf, p: &mut V) -> (r: Result<(), ParserError>)
    requires
        old(p).inv(),
    ensures
        same_record(old(p), final(p)),
        r is Ok ==> walk_of(final(p)) == visit_record(type_kind.0, old(p).record(), walk_of(old(p))),
        old(p).infallible() && visit_record(type_kind.0, old(p).record(), walk_of(old(p))) is Some
            ==> r is Ok,
{
    let kind = type_kind.0;
    match fixed_fields_of(kind) {
        Some(fs) => visit_fields(p, &fs),
        None => match counted_fields_of(kind) {
            Some((count, item)) => visit_counted(p, count, item),
            None => if kind == LF_POINTER {
                visit_pointer(p)
            } else if kind == LF_DIMVARU {
                visit_dimvaru(p)
            } else if kind == LF_METHODLIST {
                visit_method_list(p)
            } else if kind == LF_FIELDLIST {
                visit_field_list(p)
            } else {
                Err(ParserError::new())
            },
        },
    }
}


/// A visitor that records where each index is.
pub struct IndexCollector<'a> {
    parser: Parser<'a>,
    original_len: usize,
    found: Vec<IndexLocation>,
    data: Ghost<Seq<u8>>,
}

impl<'a> IndexCollector<'a> {
    /// Reads a 4-byte index and records its location.
    fn index(&mut self, kind: IndexKind) -> (r: Result<(), ParserError>)
        requires
            old(self).inv(),
        ensures
            final(self).inv(),
            final(self).record() == old(self).record(),
            r is Ok <==> old(self).position() + 4 <= old(self).record().len(),
            r is Ok ==> final(self).position() == old(self).position() + 4 && final(self).visited()
                == old(self).visited().push(IndexLocation { kind, offset: old(self).position() as usize }),
    {
        let offset = self.original_len - self.parser.len();
        match self.parser.u32() {
            Ok(_) => {
                self.found.push(IndexLocation { kind, offset });
                proof {
                    let d = self.data@;
                    assert(d.skip(offset as int).skip(4) =~= d.skip(offset + 4));
                }
                Ok(())
            },
            Err(e) => Err(e),
        }
    }
}

impl<'a> RecordVisitor for IndexCollector<'a> {
    closed spec fn record(&self) -> Seq<u8> {
        self.data@
    }

    closed spec fn position(&self) -> int {
        self.original_len - self.parser@.len()
    }

    closed spec fn visited(&self) -> Seq<IndexLocation> {
        self.found@
    }

    closed spec fn inv(&self) -> bool {
        &&& self.data@.len() == self.original_len
        &&& self.parser@.len() <= self.original_len
        &&& self.parser@ == self.data@.skip(self.original_len - self.parser@.len())
    }

    closed spec fn infallible(&self) -> bool {
        true
    }

    closed spec fn prior_calls(&self) -> Seq<IndexCall> {
        Seq::empty()
    }

    proof fn lemma_inv(&self) {
    }

    fn is_empty(&self) -> (b: bool) {
        self.parser.is_empty()
    }

    fn peek_rest(&self) -> (r: &[u8]) {
        self.parser.peek_rest()
    }

    fn u16(&mut self) -> (r: Result<u16, ParserError>) {
        let r = self.parser.u16();
        proof {
            let d = self.data@;
            let pos = old(self).position();
            if r is Ok {
                assert(d.skip(pos).skip(2) =~= d.skip(pos + 2));
            }
        }
        r
    }

    fn u32(&mut self) -> (r: Result<u32, ParserError>) {
        let r = self.parser.u32();
        proof {
            let d = self.data@;
            let pos = old(self).position();
            if r is Ok {
                assert(d.skip(pos).skip(4) =~= d.skip(pos + 4));
            }
        }
        r
    }

    fn skip(&mut self, n: usize) -> (r: Result<(), ParserError>) {
        let r = self.parser.skip(n);
        proof {
            let d = self.data@;
            let pos = old(self).position();
            if r is Ok {
                assert(d.skip(pos).skip(n as int) =~= d.skip(pos + n));
            }
        }
        r
    }

    fn item(&mut self) -> (r: Result<(), ParserError>) {
        self.index(IndexKind::Item)
    }

    fn ty(&mut self) -> (r: Result<(), ParserError>) {
        self.index(IndexKind::Type)
    }

    fn name_index(&mut self) -> (r: Result<(), ParserError>) {
        self.index(IndexKind::Name)
    }

    fn number(&mut self) -> (r: Result<(), ParserError>) {
        let r = self.parser.number();
        proof {
            let d = self.data@;
            let pos = old(self).position();
            if r is Ok {
                let n = number_len(d.skip(pos))->0;
                assert(d.skip(pos).skip(n) =~= d.skip(pos + n));
            }
        }
        match r {
            Ok(_) => Ok(()),
            Err(e) => Err(e),
        }
    }

    fn strz(&mut self) -> (r: Result<(), ParserError>) {
        let r = self.parser.skip_strz();
        proof {
            let d = self.data@;
            let pos = old(self).position();
            if r is Ok {
                let n = choose|n: int| nul_terminated_len(d.skip(pos), n);
                assert(nul_terminated_len(d.skip(pos), n));
                assert(d.skip(pos).skip(n + 1) =~= d.skip(pos + n + 1));
            }
        }
        r
    }
}

/// Finds the indexes within a type record: the type indexes, item ids and name indexes that it
/// holds, with their byte offsets, in the order in which they occur.
pub fn type_index_locations(type_kind: Leaf, record_data: &[u8]) -> (r: Result<Vec<IndexLocation>, ParserError>)
    ensures
        r is Ok <==> record_index_locations(type_kind.0, record_data@) is Some,
        r matches Ok(v) ==> record_index_locations(type_kind.0, record_data@) == Some(v@),
{
    let mut c = IndexCollector {
        parser: Parser::new(record_data),
        original_len: record_data.len(),
        found: Vec::new(),
        data: Ghost(record_data@),
    };
    assert(record_data@.skip(0) =~= record_data@);
    assert(walk_of(&c) == Some((0int, Seq::<IndexLocation>::empty())));
    match visit_type_indexes_in_record(type_kind, &mut c) {
        Ok(()) => Ok(c.found),
        Err(e) => Err(e),
    }
}

/// One call that an `IndexVisitor` receives: the kind of index, its byte offset within the
/// record, and its value.
#[derive(Copy, Clone, Debug, PartialEq, Eq, Structural)]
pub struct IndexCall {
    /// What the index refers to.
    pub kind: IndexKind,
    /// The byte offset of the index within the record.
    pub offset: usize,
    /// The value of the index.
    pub value: u32,
}

/// The calls that the indexes at `locs` of the record `data` give: each location with the
/// little-endian value of the four bytes there.
pub open spec fn calls_for(data: Seq<u8>, locs: Seq<IndexLocation>) -> Seq<IndexCall> {
    locs.map_values(
        |l: IndexLocation|
            IndexCall { kind: l.kind, offset: l.offset, value: le_u32(data.skip(l.offset as int)) as u32 },
    )
}

/// Receives the indexes found within a record, with their byte offsets within the record.
/// Each method may stop the traversal by returning an error.
///
/// An implementation that keeps a record of the calls it receives says so with
/// `records_calls`, and describes the record with `calls`; one that accepts every index says so
/// with `accepts_all`.
pub trait IndexVisitor {
    /// Whether `calls` describes the calls that this visitor has received.
    open spec fn records_calls() -> bool {
        false
    }

    /// The calls that this visitor has received, in order (when `records_calls` holds).
    open spec fn calls(&self) -> Seq<IndexCall> {
        Seq::empty()
    }

    /// Whether every call succeeds.
    open spec fn accepts_all() -> bool {
        false
    }

    /// Called for each `TypeIndex`.
    fn type_index(&mut self, offset: usize, value: TypeIndex) -> (r: Result<(), ParserError>)
        ensures
            Self::records_calls() ==> final(self).calls() == old(self).calls().push(
                IndexCall { kind: IndexKind::Type, offset, value: value.0 },
            ),
            Self::accepts_all() ==> r is Ok,
    ;

    /// Called for each `ItemId`.
    fn item_id(&mut self, offset: usize, value: u32) -> (r: Result<(), ParserError>)
        ensures
            Self::records_calls() ==> final(self).calls() == old(self).calls().push(
                IndexCall { kind: IndexKind::Item, offset, value },
            ),
            Self::accepts_all() ==> r is Ok,
    ;

    /// Called for each `NameIndex`.
    fn name_index(&mut self, offset: usize, value: u32) -> (r: Result<(), ParserError>)
        ensures
            Self::records_calls() ==> final(self).calls() == old(self).calls().push(
                IndexCall { kind: IndexKind::Name, offset, value },
            ),
            Self::accepts_all() ==> r is Ok,
    ;
}

/// A visitor that hands each index, with its value, to an `IndexVisitor`.
struct RefVisitor<'a, IV: IndexVisitor> {
    parser: Parser<'a>,
    original_len: usize,
    index_visitor: IV,
    data: Ghost<Seq<u8>>,
    log: Ghost<Seq<IndexLocation>>,
    base: Ghost<Seq<IndexCall>>,
}

impl<'a, IV: IndexVisitor> RecordVisitor for RefVisitor<'a, IV> {
    closed spec fn record(&self) -> Seq<u8> {
        self.data@
    }

    closed spec fn position(&self) -> int {
        self.original_len - self.parser@.len()
    }

    closed spec fn visited(&self) -> Seq<IndexLocation> {
        self.log@
    }

    closed spec fn inv(&self) -> bool {
        &&& self.data@.len() == self.original_len
        &&& self.parser@.len() <= self.original_len
        &&& self.parser@ == self.data@.skip(self.original_len - self.parser@.len())
        &&& IV::records_calls() ==> self.index_visitor.calls() == self.base@ + calls_for(
            self.data@,
            self.log@,
        )
    }

    closed spec fn infallible(&self) -> bool {
        IV::accepts_all()
    }

    closed spec fn prior_calls(&self) -> Seq<IndexCall> {
        self.base@
    }

    proof fn lemma_inv(&self) {
    }

    fn is_empty(&self) -> (b: bool) {
        self.parser.is_empty()
    }

    fn peek_rest(&self) -> (r: &[u8]) {
        self.parser.peek_rest()
    }

    fn u16(&mut self) -> (r: Result<u16, ParserError>) {
        let r = self.parser.u16();
        proof {
            let d = self.data@;
            let pos = old(self).position();
            if r is Ok {
                assert(d.skip(pos).skip(2) =~= d.skip(pos + 2));
            }
        }
        r
    }

    fn u32(&mut self) -> (r: Result<u32, ParserError>) {
        let r = self.parser.u32();
        proof {
            let d = self.data@;
            let pos = old(self).position();
            if r is Ok {
                assert(d.skip(pos).skip(4) =~= d.skip(pos + 4));
            }
        }
        r
    }

    fn skip(&mut self, n: usize) -> (r: Result<(), ParserError>) {
        let r = self.parser.skip(n);
        proof {
            let d = self.data@;
            let pos = old(self).position();
            if r is Ok {
                assert(d.skip(pos).skip(n as int) =~= d.skip(pos + n));
            }
        }
        r
    }

    fn item(&mut self) -> (r: Result<(), ParserError>) {
        let offset = self.original_len - self.parser.len();
        let value = match self.parser.u32() {
            Ok(v) => v,
            Err(e) => {
                return Err(e);
            },
        };
        let ghost d = self.data@;
        let ghost log0 = self.log@;
        proof {
            assert(d.skip(offset as int).skip(4) =~= d.skip(offset + 4));
        }
        let r = self.index_visitor.item_id(offset, value);
        let loc = IndexLocation { kind: IndexKind::Item, offset };
        self.log = Ghost(self.log@.push(loc));
        proof {
            assert(calls_for(d, log0.push(loc)) =~= calls_for(d, log0).push(
                IndexCall { kind: IndexKind::Item, offset, value: value },
            ));
        }
        match r {
            Ok(()) => Ok(()),
            Err(e) => Err(e),
        }
    }

    fn ty(&mut self) -> (r: Result<(), ParserError>) {
        let offset = self.original_len - self.parser.len();
        let value = match self.parser.type_index() {
            Ok(v) => v,
            Err(e) => {
                return Err(e);
            },
        };
        let ghost d = self.data@;
        let ghost log0 = self.log@;
        proof {
            assert(d.skip(offset as int).skip(4) =~= d.skip(offset + 4));
        }
        let r = self.index_visitor.type_index(offset, value);
        let loc = IndexLocation { kind: IndexKind::Type, offset };
        self.log = Ghost(self.log@.push(loc));
        proof {
            assert(calls_for(d, log0.push(loc)) =~= calls_for(d, log0).push(
                IndexCall { kind: IndexKind::Type, offset, value: value.0 },
            ));
        }
        match r {
            Ok(()) => Ok(()),
            Err(e) => Err(e),
        }
    }

    fn name_index(&mut self) -> (r: Result<(), ParserError>) {
        let offset = self.original_len - self.parser.len();
        let value = match self.parser.u32() {
            Ok(v) => v,
            Err(e) => {
                return Err(e);
            },
        };
        let ghost d = self.data@;
        let ghost log0 = self.log@;
        proof {
            assert(d.skip(offset as int).skip(4) =~= d.skip(offset + 4));
        }
        let r = self.index_visitor.name_index(offset, value);
        let loc = IndexLocation { kind: IndexKind::Name, offset };
        self.log = Ghost(self.log@.push(loc));
        proof {
            assert(calls_for(d, log0.push(loc)) =~= calls_for(d, log0).push(
                IndexCall { kind: IndexKind::Name, offset, value: value },
            ));
        }
        match r {
            Ok(()) => Ok(()),
            Err(e) => Err(e),
        }
    }

    fn number(&mut self) -> (r: Result<(), ParserError>) {
        let r = self.parser.number();
        proof {
            let d = self.data@;
            let pos = old(self).position();
            if r is Ok {
                let n = number_len(d.skip(pos))->0;
                assert(d.skip(pos).skip(n) =~= d.skip(pos + n));
            }
        }
        match r {
            Ok(_) => Ok(()),
            Err(e) => Err(e),
        }
    }

    fn strz(&mut self) -> (r: Result<(), ParserError>) {
        let r = self.parser.skip_strz();
        proof {
            let d = self.data@;
            let pos = old(self).position();
            if r is Ok {
                let n = choose|n: int| nul_terminated_len(d.skip(pos), n);
                assert(nul_terminated_len(d.skip(pos), n));
                assert(d.skip(pos).skip(n + 1) =~= d.skip(pos + n + 1));
            }
        }
        r
    }
}

/// Scans the indexes within a type record and hands each one, with its byte offset and value,
/// to `index_visitor`, in the order in which they occur. This function can only read data.
///
/// Fails when the record kind is not recognized or the record is malformed, and when the
/// visitor fails. A well-formed record that holds no index succeeds, since the visitor is not
/// called. On success the visitor is handed back, having received one call for each index of
/// the record, in order, with its offset and value.
pub fn visit_type_indexes_in_record_slice<IV: IndexVisitor>(
    type_kind: Leaf,
    record_data: &[u8],
    index_visitor: IV,
) -> (r: Result<IV, ParserError>)
    ensures
        record_index_locations(type_kind.0, record_data@) is None ==> r is Err,
        r is Ok ==> record_index_locations(type_kind.0, record_data@) is Some,
        record_index_locations(type_kind.0, record_data@) == Some(Seq::<IndexLocation>::empty())
            ==> r == Ok::<IV, ParserError>(index_visitor),
        IV::accepts_all() && record_index_locations(type_kind.0, record_data@) is Some ==> r is Ok,
        IV::records_calls() && r is Ok ==> r->Ok_0.calls() == index_visitor.calls() + calls_for(
            record_data@,
            record_index_locations(type_kind.0, record_data@)->0,
        ),
{
    match type_index_locations(type_kind, record_data) {
        Err(e) => {
            return Err(e);
        },
        Ok(locations) => {
            if locations.len() == 0 {
                assert(locations@ =~= Seq::<IndexLocation>::empty());
                return Ok(index_visitor);
            }
        },
    }
    let ghost base = index_visitor.calls();
    let mut v = RefVisitor {
        parser: Parser::new(record_data),
        original_len: record_data.len(),
        index_visitor,
        data: Ghost(record_data@),
        log: Ghost(Seq::empty()),
        base: Ghost(base),
    };
    assert(record_data@.skip(0) =~= record_data@);
    assert(calls_for(record_data@, Seq::<IndexLocation>::empty()) =~= Seq::<IndexCall>::empty());
    assert(base + Seq::<IndexCall>::empty() =~= base);
    let r = visit_type_indexes_in_record(type_kind, &mut v);
    proof {
        if r is Ok {
            assert(v.log@ == record_index_locations(type_kind.0, record_data@)->0);
        }
    }
    match r {
        Ok(()) => Ok(v.index_visitor),
        Err(e) => Err(e),
    }
}

} // verus!
