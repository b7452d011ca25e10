//! Checks invariants of symbols and symbol streams.

use vstd::prelude::*;
use crate::diag::{num_recorded_errors, Diags, DiagRef};
use crate::le::le_u32;
use crate::record::{has_record, record_kind, record_payload, record_size};
use crate::syms::iter::SymIter;
use crate::syms::kind::{
    spec_ends_scope, spec_starts_block, sym_kind_debug, SymKind, S_GPROC32_ID, S_LPROC32_DPC_ID,
};
use crate::text::{hex_padded, push_hex, push_str};
use crate::utils::iter::HasRestLen;

verus! {

/// The kinds of symbol streams.
#[derive(Clone, Copy, Debug, PartialEq, Eq, Structural)]
pub enum SymbolStreamKind {
    /// The symbols of a Module Stream, which follow the stream's 4-byte CodeView signature.
    Module,
    /// The Global Symbol Stream, whose symbols start at offset 0.
    Global,
}

impl SymbolStreamKind {
    /// The offset within its stream at which the symbol data begins.
    pub open spec fn offset_spec(self) -> u32 {
        match self {
            SymbolStreamKind::Module => 4,
            SymbolStreamKind::Global => 0,
        }
    }

    /// The offset within its stream at which the symbol data begins.
    pub fn stream_offset(self) -> (r: u32)
        ensures
            r == self.offset_spec(),
    {
        match self {
            SymbolStreamKind::Module => 4,
            SymbolStreamKind::Global => 0,
        }
    }
}

/// A symbol scope that is open.
#[derive(Clone, Copy, Debug, PartialEq, Eq, Structural)]
pub struct SymScope {
    /// The offset within the symbol data of the record that started this scope.
    pub start_offset: u32,
    /// The kind of symbol that started this scope.
    pub kind: SymKind,
    /// The offset of the record that should close this scope, from the record that started it.
    pub end_offset: u32,
}

/// Why a symbol stream is invalid.
#[derive(Clone, Copy, Debug, PartialEq, Eq, Structural)]
pub enum SymCheckError {
    /// A record ends a scope, but no scope is open; at this offset within the stream.
    EndWithoutScope(u32),
    /// The stream ended with a scope still open.
    UnclosedScope,
    /// A record that starts a block is too short to hold the block header.
    BlockHeaderTruncated(u32),
}

/// The description of an error that checking a symbol stream gives.
pub open spec fn sym_check_error_text(e: SymCheckError) -> Seq<char> {
    match e {
        SymCheckError::EndWithoutScope(pos) => "(at 0x"@ + hex_padded(pos as nat, 0)
            + ") symbol ends a scope, but we're not inside a scope"@,
        SymCheckError::UnclosedScope => "Symbol stream ended without closing a symbol scope"@,
        SymCheckError::BlockHeaderTruncated(pos) => "(at 0x"@ + hex_padded(pos as nat, 0)
            + ") the block header is truncated"@,
    }
}

impl SymCheckError {
    /// A description of the error.
    pub fn to_string(&self) -> (s: String)
        ensures
            s@ == sym_check_error_text(*self),
    {
        let mut s = String::new();
        match self {
            SymCheckError::EndWithoutScope(pos) => {
                push_str(&mut s, "(at 0x");
                push_hex(&mut s, *pos as u64, 0);
                push_str(&mut s, ") symbol ends a scope, but we're not inside a scope");
            },
            SymCheckError::UnclosedScope => push_str(&mut s, "Symbol stream ended without closing a symbol scope"),
            SymCheckError::BlockHeaderTruncated(pos) => {
                push_str(&mut s, "(at 0x");
                push_hex(&mut s, *pos as u64, 0);
                push_str(&mut s, ") the block header is truncated");
            },
        }
        assert(s@ =~= sym_check_error_text(*self));
        s
    }
}

/// The texts of a list of errors (each a text and an offset).
pub open spec fn err_texts(es: Seq<(String, u32)>) -> Seq<Seq<char>> {
    es.map_values(|e: (String, u32)| e.0@)
}

/// A list of one message if `cond` holds, else none.
pub open spec fn msg_when(cond: bool, m: Seq<char>) -> Seq<Seq<char>> {
    if cond {
        seq![m]
    } else {
        Seq::empty()
    }
}

/// The message about a record that is embedded in scope `outer` with a wrong parent pointer.
pub open spec fn embedded_msg(kind: SymKind, outer: SymKind, parent_index: u32, parent_field: u32) -> Seq<char> {
    "Found symbol kind "@ + sym_kind_debug(kind) + " embedded in another symbol scope ("@ + sym_kind_debug(outer)
        + "), with an incorrect parent index.\nIndex of parent record: 0x"@ + hex_padded(parent_index as nat, 0)
        + "\nParent pointer field of this record: 0x"@ + hex_padded(parent_field as nat, 0)
}

/// What checking the record at `pos` of the symbol data `s` finds, given the open scopes: the
/// error messages, and either the open scopes after it or the error that ends the check.
/// `so` is the offset of the symbol data within its stream.
pub open spec fn sym_check_step(s: Seq<u8>, so: u32, pos: int, scopes: Seq<SymScope>) -> (Seq<Seq<char>>, Result<Seq<SymScope>, SymCheckError>) {
    let r = s.skip(pos);
    let kind = SymKind(record_kind(r));
    let payload = record_payload(r);
    let pis = (so + pos) as u32;
    let e1 = msg_when(record_size(r) % 4 != 0, "Record length is not 4-byte aligned"@);
    let e2 = msg_when(
        kind.0 == S_LPROC32_DPC_ID || kind.0 == S_GPROC32_ID,
        "Found symbol using "@ + sym_kind_debug(kind) + ", which is not understood / supported."@,
    );
    if spec_starts_block(kind) {
        if payload.len() < 8 {
            (e1 + e2, Err(SymCheckError::BlockHeaderTruncated(pis)))
        } else {
            let parent = le_u32(payload) as u32;
            let end = le_u32(payload.skip(4)) as u32;
            let e3 = if scopes.len() > 0 {
                let last = scopes.last();
                msg_when(
                    parent != last.start_offset + so,
                    embedded_msg(kind, last.kind, (last.start_offset + so) as u32, parent),
                )
            } else {
                msg_when(
                    parent != 0,
                    "Found symbol "@ + sym_kind_debug(kind) + " at root scope with a non-zero pparent value"@,
                )
            };
            (e1 + e2 + e3, Ok(scopes.push(SymScope { start_offset: pos as u32, kind, end_offset: end })))
        }
    } else if spec_ends_scope(kind) {
        if scopes.len() == 0 {
            (e1 + e2, Err(SymCheckError::EndWithoutScope(pis)))
        } else {
            (e1 + e2, Ok(scopes.drop_last()))
        }
    } else {
        (e1 + e2, Ok(scopes))
    }
}

/// What checking the symbol data `s` from `pos` on finds, given the open scopes and room for
/// `budget` more errors: the error messages, and the outcome. Checking stops at the end of the
/// records, at an error, or when the error limit has been reached; scopes still open then are
/// an error.
pub open spec fn check_syms_from(s: Seq<u8>, so: u32, pos: int, scopes: Seq<SymScope>, budget: int) -> (Seq<Seq<char>>, Result<(), SymCheckError>)
    decreases s.len() - pos,
{
    if budget <= 0 || !(0 <= pos < s.len() && has_record(s.skip(pos))) {
        (Seq::empty(), if scopes.len() == 0 {
            Ok(())
        } else {
            Err(SymCheckError::UnclosedScope)
        })
    } else {
        let (errs, next) = sym_check_step(s, so, pos, scopes);
        match next {
            Err(e) => (errs, Err(e)),
            Ok(sc) => {
                let (rest, res) = check_syms_from(
                    s,
                    so,
                    pos + record_size(s.skip(pos)),
                    sc,
                    budget - errs.len(),
                );
                (errs + rest, res)
            },
        }
    }
}

/// "Found symbol ", the kind, then `text`.
fn kind_msg(prefix: &str, kind: SymKind, text: &str) -> (s: String)
    ensures
        s@ == prefix@ + sym_kind_debug(kind) + text@,
{
    let mut s = String::new();
    push_str(&mut s, prefix);
    let k = kind.to_debug_string();
    push_str(&mut s, k.as_str());
    push_str(&mut s, text);
    s
}

/// Checks the record at `pos` (whose kind and payload are given), appending the errors it finds
/// to `errs` (each with its offset within the stream), and updating the open scopes.
fn check_one_sym(
    s: &[u8],
    so: u32,
    pos: u32,
    kind: SymKind,
    payload: &[u8],
    scopes: &mut Vec<SymScope>,
    errs: &mut Vec<(String, u32)>,
) -> (r: Result<(), SymCheckError>)
    requires
        0 <= pos < s@.len(),
        has_record(s@.skip(pos as int)),
        kind.0 == record_kind(s@.skip(pos as int)),
        payload@ == record_payload(s@.skip(pos as int)),
        s@.len() + so <= u32::MAX,
        forall|i: int| 0 <= i < old(scopes)@.len() ==> (#[trigger] old(scopes)@[i]).start_offset < s@.len(),
    ensures
        forall|i: int| 0 <= i < final(scopes)@.len() ==> (#[trigger] final(scopes)@[i]).start_offset < s@.len(),
        final(errs)@.len() <= old(errs)@.len() + 3,
        ({
            let (es, next) = sym_check_step(s@, so, pos as int, old(scopes)@);
            &&& final(errs)@.len() == old(errs)@.len() + es.len()
            &&& final(errs)@.take(old(errs)@.len() as int) == old(errs)@
            &&& forall|j: int|
                0 <= j < es.len() ==> (#[trigger] final(errs)@[old(errs)@.len() + j]).0@ == es[j]
                    && final(errs)@[old(errs)@.len() + j].1 == so + pos
            &&& match next {
                Ok(sc) => r is Ok && final(scopes)@ == sc,
                Err(e) => r == Err::<(), SymCheckError>(e),
            }
        }),
{
    let ghost es0 = errs@;
    let pis = so + pos;
    let size = payload.len() + 4;
    if size % 4 != 0 {
        let mut m = String::new();
        push_str(&mut m, "Record length is not 4-byte aligned");
        errs.push((m, pis));
    }
    if kind.0 == S_LPROC32_DPC_ID || kind.0 == S_GPROC32_ID {
        let m = kind_msg("Found symbol using ", kind, ", which is not understood / supported.");
        errs.push((m, pis));
    }
    let ghost e12 = msg_when(record_size(s@.skip(pos as int)) % 4 != 0, "Record length is not 4-byte aligned"@)
        + msg_when(
        kind.0 == S_LPROC32_DPC_ID || kind.0 == S_GPROC32_ID,
        "Found symbol using "@ + sym_kind_debug(kind) + ", which is not understood / supported."@,
    );
    proof {
        assert(errs@.len() == es0.len() + e12.len());
        assert(errs@.take(es0.len() as int) =~= es0);
        assert forall|j: int| 0 <= j < e12.len() implies (#[trigger] errs@[es0.len() + j]).0@ == e12[j]
            && errs@[es0.len() + j].1 == so + pos by {}
    }
    if kind.starts_block() {
        if payload.len() < 8 {
            return Err(SymCheckError::BlockHeaderTruncated(pis));
        }
        let parent = crate::le::read_u32_at(payload, 0);
        let end = crate::le::read_u32_at(payload, 4);
        let ghost before3 = errs@;
        if scopes.len() > 0 {
            let last = scopes[scopes.len() - 1];
            if parent != last.start_offset + so {
                let mut m = kind_msg("Found symbol kind ", kind, " embedded in another symbol scope (");
                let outer = last.kind.to_debug_string();
                push_str(&mut m, outer.as_str());
                push_str(&mut m, "), with an incorrect parent index.\nIndex of parent record: 0x");
                push_hex(&mut m, (last.start_offset + so) as u64, 0);
                push_str(&mut m, "\nParent pointer field of this record: 0x");
                push_hex(&mut m, parent as u64, 0);
                proof {
                    assert(m@ =~= embedded_msg(kind, last.kind, (last.start_offset + so) as u32, parent));
                }
                errs.push((m, pis));
            }
        } else {
            if parent != 0 {
                let m = kind_msg("Found symbol ", kind, " at root scope with a non-zero pparent value");
                errs.push((m, pis));
            }
        }
        proof {
            assert(errs@.take(es0.len() as int) =~= es0);
            assert(errs@.take(before3.len() as int) =~= before3);
        }
        scopes.push(SymScope { start_offset: pos, kind, end_offset: end });
        return Ok(());
    }
    if kind.ends_scope() {
        if scopes.len() == 0 {
            return Err(SymCheckError::EndWithoutScope(pis));
        }
        let _ = scopes.pop();
        return Ok(());
    }
    Ok(())
}

/// Checks the invariants of a symbol stream, and records what is wrong in `diags`: each record's
/// length must be a multiple of 4; `S_LPROC32_DPC_ID` and `S_GPROC32_ID` are not supported; the
/// parent pointer of a record that starts a block must point to the record that opened the
/// enclosing scope (or be 0 at the root); and every scope must be closed, and only open scopes
/// closed. The check stops once the error limit has been reached. `stream` is the stream that
/// holds `syms_data`, which the diagnostics refer to.
pub fn check_symbol_stream(
    diags: &mut Diags,
    stream_kind: SymbolStreamKind,
    stream: u32,
    syms_data: &[u8],
) -> (r: Result<(), SymCheckError>)
    requires
        syms_data@.len() + 4 <= u32::MAX,
    ensures
        ({
            let budget = old(diags).max_errors - old(diags).num_errors;
            let (es, res) = check_syms_from(
                syms_data@,
                stream_kind.offset_spec(),
                0,
                Seq::empty(),
                budget,
            );
            let k = num_recorded_errors(
                old(diags).num_errors as int,
                old(diags).max_errors as int,
                es.len() as int,
            );
            let n0 = old(diags).diags@.len();
            &&& r == res
            &&& final(diags).num_errors == old(diags).num_errors + k
            &&& final(diags).num_warnings == old(diags).num_warnings
            &&& final(diags).max_errors == old(diags).max_errors
            &&& final(diags).diags@.len() == n0 + k
            &&& final(diags).diags@.take(n0 as int) == old(diags).diags@
            &&& forall|j: int|
                0 <= j < k ==> {
                    let d = #[trigger] final(diags).diags@[n0 + j];
                    &&& d.message@ == es[j]
                    &&& d.is_error
                    &&& d.refs@.len() == 1
                    &&& d.refs@[0] matches DiagRef::StreamAt(st, _) && st == stream
                }
        }),
{
    let so = stream_kind.stream_offset();
    let budget: i64 = diags.max_errors as i64 - diags.num_errors as i64;
    let len = syms_data.len();
    let mut scopes: Vec<SymScope> = Vec::new();
    let mut errs: Vec<(String, u32)> = Vec::new();
    let mut pos: usize = 0;
    let mut it = SymIter::new(syms_data);
    let ghost whole = check_syms_from(syms_data@, so, 0, Seq::empty(), budget as int);
    let mut result: Result<(), SymCheckError> = Ok(());
    loop
        invariant_except_break
            pos <= len,
            len == syms_data@.len(),
            len + 4 <= u32::MAX,
            so == stream_kind.offset_spec(),
            so <= 4,
            budget == old(diags).max_errors - old(diags).num_errors,
            errs@.len() <= pos,
            result == Ok::<(), SymCheckError>(()),
            forall|i: int| 0 <= i < scopes@.len() ==> (#[trigger] scopes@[i]).start_offset < len,
            it@ == syms_data@.skip(pos as int),
            whole == check_syms_from(syms_data@, so, 0, Seq::empty(), budget as int),
            ({
                let (rest, res) = check_syms_from(
                    syms_data@,
                    so,
                    pos as int,
                    scopes@,
                    budget - errs@.len(),
                );
                &&& whole.0 == err_texts(errs@) + rest
                &&& whole.1 == res
            }),
        ensures
            whole.0 == err_texts(errs@),
            whole.1 == result,
        decreases len - pos,
    {
        let ghost errs_before = errs@;
        let ghost scopes_before = scopes@;
        if budget <= errs.len() as i64 {
            proof {
                assert(err_texts(errs@) + Seq::<Seq<char>>::empty() =~= err_texts(errs@));
            }
            if scopes.len() != 0 {
                result = Err(SymCheckError::UnclosedScope);
            }
            break;
        }
        let rec_pos = pos;
        match it.next() {
            None => {
                proof {
                    assert(err_texts(errs@) + Seq::<Seq<char>>::empty() =~= err_texts(errs@));
                }
                if scopes.len() != 0 {
                    result = Err(SymCheckError::UnclosedScope);
                }
                break;
            },
            Some(sym) => {
                let ghost r = syms_data@.skip(pos as int);
                let step = check_one_sym(syms_data, so, pos as u32, sym.kind, sym.data, &mut scopes, &mut errs);
                let ghost step_spec = sym_check_step(syms_data@, so, pos as int, scopes_before);
                proof {
                    let es = step_spec.0;
                    assert forall|j: int| 0 <= j < errs@.len() implies #[trigger] err_texts(errs@)[j] == (
                    err_texts(errs_before) + es)[j] by {
                        if j < errs_before.len() {
                            assert(errs@.take(errs_before.len() as int)[j] == errs_before[j]);
                        } else {
                            let q = j - errs_before.len();
                            assert(errs@[errs_before.len() + q].0@ == es[q]);
                        }
                    }
                    assert(err_texts(errs@) =~= err_texts(errs_before) + es);
                }
                match step {
                    Err(e) => {
                        result = Err(e);
                        proof {
                            assert(err_texts(errs@) + Seq::<Seq<char>>::empty()
                                =~= err_texts(errs@));
                        }
                        break;
                    },
                    Ok(()) => {
                        proof {
                            let next_pos = pos + record_size(r);
                            assert(it@ =~= syms_data@.skip(next_pos));
                            let (rest, res) = check_syms_from(
                                syms_data@,
                                so,
                                next_pos,
                                scopes@,
                                budget - errs_before.len() - step_spec.0.len(),
                            );
                            assert(err_texts(errs_before) + (step_spec.0 + rest)
                                =~= err_texts(errs@) + rest);
                        }
                        proof {
                            it.lemma_rest_len();
                        }
                        pos = len - it.rest_len();
                    },
                }
            },
        }
    }
    let ghost n0 = diags.diags@.len();
    diags.report_errors_at(stream, &errs);
    proof {
        let k = num_recorded_errors(old(diags).num_errors as int, old(diags).max_errors as int, errs@.len() as int);
        assert forall|j: int| 0 <= j < k implies {
            let d = #[trigger] diags.diags@[n0 + j];
            &&& d.message@ == whole.0[j]
            &&& d.is_error
            &&& d.refs@.len() == 1
            &&& d.refs@[0] matches DiagRef::StreamAt(st, _) && st == stream
        } by {
            assert(err_texts(errs@)[j] == errs@[j].0@);
        }
    }
    result
}

} // verus!
