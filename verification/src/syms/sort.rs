//! Sorting the records of symbol streams.
//!
//! Sorting must use information that is stable: the kind of a record, its name (for the kinds
//! that this library decodes) and its encoded bytes. The records of the Global Symbol Stream do
//! not form scopes, so they are sorted one by one, and identical records that end up next to each
//! other are written once. Module symbol streams are sorted scope by scope: a top-level record
//! that starts a scope is moved together with all the records nested in it, and the `p_parent`
//! and `p_end` pointers inside the moved records are adjusted to the new positions.
//!
//! Sorting produces a table that maps the byte offsets of records in the old stream to the byte
//! offsets of the same records in the new stream.

use vstd::prelude::*;
use crate::le::{le_u16, le_u32, put_le_u32, read_u16_at, read_u32_at, write_u32_at};
use crate::lines::check::bytes_equal;
use crate::parser::{nul_terminated_len, ParserError};
use crate::record::{has_record, lemma_record_starts_from, record_kind, record_payload, record_size, record_starts_from, split_record};
use crate::sort_utils::{
    identity_permutation_u32, is_permutation, lemma_lex_le_antisym, lemma_lex_le_total,
    lemma_lex_le_trans, lemma_lens_sum_permutation, lemma_permutation_onto, lex_le, lex_le_slices,
    record_at, record_lens_sum, valid_starts,
};
use crate::syms::iter::Sym;
use crate::syms::kind::{
    spec_ends_scope, spec_is_refsym_target, spec_starts_block,
    SymKind, S_BUILDINFO, S_UDT, S_UNAMESPACE,
};
use crate::types::iter::build_types_starts;

verus! {

/// Represents one symbol record (or one scope of records) that has been moved by sorting.
#[derive(Clone, Copy, Debug, PartialEq, Eq, Structural)]
pub struct RemappedSymbolEntry {
    /// The byte offset in the symbol stream before records were sorted.
    pub old_offset: u32,
    /// The byte offset in the symbol stream after records were sorted.
    pub new_offset: u32,
}

/// Provides a mapping from old symbol record offsets to new symbol record offsets.
pub struct RemappedSymbolTable {
    /// Sorted by increasing `old_offset`. This allows for binary search to find an entry, then
    /// using the entry found to compute the new offset.
    pub vec: Vec<RemappedSymbolEntry>,
}

/// The entries are listed by strictly increasing `old_offset`.
pub open spec fn old_offsets_increasing(v: Seq<RemappedSymbolEntry>) -> bool {
    forall|i: int, j: int| 0 <= i < j < v.len() ==> v[i].old_offset < v[j].old_offset
}

/// Entry `i` is the last entry whose `old_offset` is at or below `x`.
pub open spec fn last_at_or_below(v: Seq<RemappedSymbolEntry>, i: int, x: u32) -> bool {
    &&& 0 <= i < v.len()
    &&& v[i].old_offset <= x
    &&& (i + 1 == v.len() || x < v[i + 1].old_offset)
}

impl RemappedSymbolTable {
    /// The index of the first entry whose `old_offset` is not below `x`.
    fn lower_bound(&self, x: u32) -> (i: usize)
        requires
            old_offsets_increasing(self.vec@),
        ensures
            i <= self.vec@.len(),
            forall|j: int| 0 <= j < i ==> self.vec@[j].old_offset < x,
            forall|j: int| i <= j < self.vec@.len() ==> self.vec@[j].old_offset >= x,
    {
        let mut lo: usize = 0;
        let mut hi: usize = self.vec.len();
        while lo < hi
            invariant
                lo <= hi <= self.vec@.len(),
                old_offsets_increasing(self.vec@),
                forall|j: int| 0 <= j < lo ==> self.vec@[j].old_offset < x,
                forall|j: int| hi <= j < self.vec@.len() ==> self.vec@[j].old_offset >= x,
            decreases hi - lo,
        {
            let mid = lo + (hi - lo) / 2;
            if self.vec[mid].old_offset < x {
                lo = mid + 1;
            } else {
                hi = mid;
            }
        }
        lo
    }

    /// Maps a byte offset in the old stream to a byte offset in the new stream. The offset may
    /// point inside a moved record or scope: the entry with the greatest `old_offset` at or
    /// below it is used, and the distance from that entry is kept. Returns `None` when the
    /// offset is below every entry.
    pub fn remap_with_delta(&self, old_offset: u32) -> (r: Option<u32>)
        requires
            old_offsets_increasing(self.vec@),
            forall|i: int|
                #[trigger] last_at_or_below(self.vec@, i, old_offset) ==> self.vec@[i].new_offset + (
                old_offset - self.vec@[i].old_offset) <= u32::MAX,
        ensures
            r is None <==> (self.vec@.len() == 0 || old_offset < self.vec@[0].old_offset),
            forall|i: int|
                #[trigger] last_at_or_below(self.vec@, i, old_offset) ==> r == Some(
                    (self.vec@[i].new_offset + (old_offset - self.vec@[i].old_offset)) as u32,
                ),
    {
        let i = self.lower_bound(old_offset);
        if i < self.vec.len() && self.vec[i].old_offset == old_offset {
            assert(last_at_or_below(self.vec@, i as int, old_offset));
            return Some(self.vec[i].new_offset);
        }
        if i == 0 {
            return None;
        }
        let previous = &self.vec[i - 1];
        assert(last_at_or_below(self.vec@, i - 1, old_offset));
        let delta_within_scope = old_offset - previous.old_offset;
        Some(previous.new_offset + delta_within_scope)
    }

    /// Maps a byte offset in the old stream to a byte offset in the new stream. The offset must
    /// be that of an entry: of a moved record or of the record that starts a moved scope;
    /// records nested within a scope are not found.
    pub fn remap_exact(&self, old_offset: u32) -> (r: Option<u32>)
        requires
            old_offsets_increasing(self.vec@),
        ensures
            r is None <==> forall|i: int|
                0 <= i < self.vec@.len() ==> #[trigger] self.vec@[i].old_offset != old_offset,
            forall|i: int|
                0 <= i < self.vec@.len() && #[trigger] self.vec@[i].old_offset == old_offset ==> r
                    == Some(self.vec@[i].new_offset),
    {
        let i = self.lower_bound(old_offset);
        if i < self.vec.len() && self.vec[i].old_offset == old_offset {
            Some(self.vec[i].new_offset)
        } else {
            None
        }
    }
}

/// Describes the relocation of the target of a REFSYM symbol.
///
/// Several kinds of symbol records found in the Global Symbol Stream point into per-module symbol
/// streams (`S_PROCREF`, `S_DATAREF`, `S_ANNOTATIONREF`). All contain a module index and a byte
/// offset within that module's symbol stream. When the records of a module's symbol stream are
/// reordered, these mappings are accumulated, so that the references can be fixed up later.
#[derive(Clone, Copy, Debug, PartialEq, Eq, PartialOrd, Ord, Structural)]
pub struct ModuleRefSymMapping {
    /// zero-based module index
    pub old_module: u16,
    /// old byte offset of this symbol from start of module symbol stream
    pub old_offset: u32,
    /// zero-based module index
    pub new_module: u16,
    /// new byte offset of this symbol from start of module symbol stream
    pub new_offset: u32,
}

/// Specifies sorting modes used by `sort_module_syms` and `sort_global_syms`.
#[derive(Clone, Copy, Debug, PartialEq, Eq, Structural)]
pub enum SymbolSortingMode {
    /// Sorts records by their encoded byte representation.
    Bytes,
    /// Sorts records by their kind, then by their byte representation.
    KindBytes,
    /// Sorts records by their kind, then by their name (for the kinds that have one), then by the
    /// encoded bytes of their payload.
    KindName,
}

impl Default for SymbolSortingMode {
    fn default() -> (r: Self)
        ensures
            r == SymbolSortingMode::KindName,
    {
        SymbolSortingMode::KindName
    }
}

/// Specifies options for sorting module symbols.
#[derive(Clone, Copy, Debug)]
pub struct SortModuleSymsOptions {
    /// How to sort symbols
    pub sorting_mode: SymbolSortingMode,
    /// Do not treat `S_UDT` records at the top level as starting a scope of their own. (Such a
    /// record is then carried along with the scope before it.)
    pub remove_udt: bool,
}

impl Default for SortModuleSymsOptions {
    fn default() -> (r: Self)
        ensures
            r.sorting_mode == SymbolSortingMode::KindName,
            !r.remove_udt,
    {
        SortModuleSymsOptions { sorting_mode: SymbolSortingMode::KindName, remove_udt: false }
    }
}

/// A sort key: a symbol kind, a name and the bytes that break ties.
pub type SymSortKey<'a> = (u16, &'a [u8], &'a [u8]);

/// The value of a sort key.
pub open spec fn key_view(k: SymSortKey) -> (u16, Seq<u8>, Seq<u8>) {
    (k.0, k.1@, k.2@)
}

/// The order of sort keys: by kind, then by name, then by the remaining bytes, names and bytes
/// compared lexicographically.
pub open spec fn sym_key_le(a: (u16, Seq<u8>, Seq<u8>), b: (u16, Seq<u8>, Seq<u8>)) -> bool {
    if a.0 != b.0 {
        a.0 < b.0
    } else if a.1 != b.1 {
        lex_le(a.1, b.1)
    } else {
        lex_le(a.2, b.2)
    }
}

/// Sort keys are totally ordered.
pub proof fn lemma_sym_key_le_total(a: (u16, Seq<u8>, Seq<u8>), b: (u16, Seq<u8>, Seq<u8>))
    ensures
        sym_key_le(a, b) || sym_key_le(b, a),
{
    lemma_lex_le_total(a.1, b.1);
    lemma_lex_le_total(a.2, b.2);
}

/// The order of sort keys is transitive.
pub proof fn lemma_sym_key_le_trans(
    a: (u16, Seq<u8>, Seq<u8>),
    b: (u16, Seq<u8>, Seq<u8>),
    c: (u16, Seq<u8>, Seq<u8>),
)
    requires
        sym_key_le(a, b),
        sym_key_le(b, c),
    ensures
        sym_key_le(a, c),
{
    if a.0 == b.0 && b.0 == c.0 {
        if a.1 != b.1 && b.1 != c.1 {
            lemma_lex_le_trans(a.1, b.1, c.1);
            if a.1 == c.1 {
                lemma_lex_le_antisym(a.1, b.1);
            }
        } else if a.1 == b.1 && b.1 == c.1 {
            lemma_lex_le_trans(a.2, b.2, c.2);
        }
    }
}

/// Compares two sort keys.
fn sym_key_le_exec(a: &SymSortKey, b: &SymSortKey) -> (r: bool)
    ensures
        r == sym_key_le(key_view(*a), key_view(*b)),
{
    if a.0 != b.0 {
        return a.0 < b.0;
    }
    let ab = lex_le_slices(a.1, b.1);
    let ba = lex_le_slices(b.1, a.1);
    if ab && ba {
        proof {
            lemma_lex_le_antisym(a.1@, b.1@);
        }
        lex_le_slices(a.2, b.2)
    } else {
        proof {
            if a.1@ == b.1@ {
                lemma_lex_le_total(a.1@, a.1@);
            }
        }
        ab
    }
}

/// The value of key `i` of `keys`.
pub open spec fn key_at(keys: Seq<SymSortKey>, i: int) -> (u16, Seq<u8>, Seq<u8>) {
    key_view(keys[i])
}

/// The keys listed in `order` are in order.
pub open spec fn keys_sorted(keys: Seq<SymSortKey>, order: Seq<u32>) -> bool {
    forall|a: int, b: int|
        0 <= a < b < order.len() ==> sym_key_le(
            key_at(keys, order[a] as int),
            key_at(keys, order[b] as int),
        )
}

/// Sorts a list of sort keys. Returns a permutation vector: the indexes of the keys, in order.
pub fn sort_sym_keys(keys: &Vec<SymSortKey>) -> (order: Vec<u32>)
    requires
        keys@.len() <= u32::MAX,
    ensures
        is_permutation(order@, keys@.len() as int),
        keys_sorted(keys@, order@),
{
    let n = keys.len();
    let mut order = identity_permutation_u32(n);
    let mut i: usize = 0;
    while i < n
        invariant
            n == keys@.len(),
            i <= n,
            is_permutation(order@, n as int),
            forall|a: int, b: int|
                0 <= a < b < i ==> sym_key_le(
                    key_at(keys@, order@[a] as int),
                    key_at(keys@, order@[b] as int),
                ),
            forall|a: int, k: int|
                0 <= a < i <= k < n ==> sym_key_le(
                    key_at(keys@, order@[a] as int),
                    key_at(keys@, order@[k] as int),
                ),
        decreases n - i,
    {
        let mut m: usize = i;
        let mut j: usize = i + 1;
        proof {
            let ki = key_at(keys@, order@[i as int] as int);
            lemma_sym_key_le_total(ki, ki);
        }
        while j < n
            invariant
                n == keys@.len(),
                i <= m < n,
                i < j <= n,
                m < j,
                is_permutation(order@, n as int),
                forall|k: int|
                    i <= k < j ==> sym_key_le(
                        key_at(keys@, order@[m as int] as int),
                        key_at(keys@, order@[k] as int),
                    ),
            decreases n - j,
        {
            let om = order[m];
            let oj = order[j];
            if !sym_key_le_exec(&keys[om as usize], &keys[oj as usize]) {
                proof {
                    let km = key_at(keys@, order@[m as int] as int);
                    let kj = key_at(keys@, order@[j as int] as int);
                    lemma_sym_key_le_total(km, kj);
                    assert forall|k: int| i <= k < j + 1 implies sym_key_le(
                        kj,
                        key_at(keys@, order@[k] as int),
                    ) by {
                        if k < j {
                            lemma_sym_key_le_trans(kj, km, key_at(keys@, order@[k] as int));
                        } else {
                            lemma_sym_key_le_total(kj, kj);
                        }
                    }
                }
                m = j;
            }
            j = j + 1;
        }
        let ghost old_order = order@;
        let oi = order[i];
        let om = order[m];
        order.set(i, om);
        order.set(m, oi);
        proof {
            assert forall|a: int| 0 <= a < n implies order@[a] == (if a == i {
                old_order[m as int]
            } else if a == m {
                old_order[i as int]
            } else {
                old_order[a]
            }) by {}
            assert forall|a: int, b: int| 0 <= a < b < n implies order@[a] != order@[b] by {}
            assert forall|a: int, b: int| 0 <= a < b < i + 1 implies sym_key_le(
                key_at(keys@, order@[a] as int),
                key_at(keys@, order@[b] as int),
            ) by {
                if b == i {
                    assert(order@[b] == old_order[m as int]);
                }
            }
            assert forall|a: int, k: int| 0 <= a < i + 1 <= k < n implies sym_key_le(
                key_at(keys@, order@[a] as int),
                key_at(keys@, order@[k] as int),
            ) by {
                if k == m {
                    assert(order@[k] == old_order[i as int]);
                }
            }
        }
        i = i + 1;
    }
    order
}

/// The offsets at which the records of a symbol stream begin, followed by the length of the
/// stream. Bytes that follow the last complete record belong to the last record.
pub open spec fn sym_record_bounds(s: Seq<u8>) -> Seq<u32> {
    record_starts_from(s, 0).drop_last().map_values(|x: int| x as u32).push(s.len() as u32)
}

/// The number of records in a symbol stream.
pub open spec fn num_sym_records(s: Seq<u8>) -> int {
    sym_record_bounds(s).len() - 1
}

/// The bounds of the records of a symbol stream divide it, and each record is complete.
pub proof fn lemma_sym_record_bounds(s: Seq<u8>)
    requires
        s.len() <= u32::MAX,
    ensures
        valid_starts(sym_record_bounds(s), s.len() as int),
        forall|i: int|
            0 <= i < num_sym_records(s) ==> #[trigger] sym_record_bounds(s)[i] < sym_record_bounds(
                s,
            )[i + 1],
        forall|i: int|
            0 <= i < num_sym_records(s) ==> {
                let r = #[trigger] record_at(s, sym_record_bounds(s), i);
                &&& sym_record_bounds(s)[i] < sym_record_bounds(s)[i + 1]
                &&& has_record(r)
                &&& r.take(record_size(r)) == s.skip(sym_record_bounds(s)[i] as int).take(record_size(r))
            },
{
    lemma_record_starts_from(s, 0);
    let st = record_starts_from(s, 0);
    let b = sym_record_bounds(s);
    let n = st.len() - 1;
    assert(b.len() == st.len());
    assert forall|i: int| 0 <= i < n implies b[i] as int == st[i] by {}
    assert(b[n] == s.len());
    assert forall|i: int| 0 <= i < n implies b[i] < b[i + 1] && b[i] + record_size(s.skip(b[i] as int))
        <= b[i + 1] by {
        if i + 1 < n {
            assert(b[i + 1] as int == st[i + 1]);
        } else {
            assert(st[i + 1] <= s.len());
        }
    }
    assert forall|i: int, j: int| 0 <= i <= j < b.len() implies b[i] <= b[j] by {
        if i < j {
            assert forall|k: int| i <= k <= j implies b[i] <= b[k] by {
                lemma_bounds_mono(b, i, k);
            }
        }
    }
    assert forall|i: int| 0 <= i < n implies {
        let r = #[trigger] record_at(s, b, i);
        &&& b[i] < b[i + 1]
        &&& has_record(r)
        &&& r.take(record_size(r)) == s.skip(b[i] as int).take(record_size(r))
    } by {
        let r = record_at(s, b, i);
        let t = s.skip(b[i] as int);
        assert(r[0] == t[0] && r[1] == t[1]);
        assert(le_u16(r) == le_u16(t));
        assert(r.take(record_size(r)) =~= t.take(record_size(r)));
    }
}

/// Bounds that increase step by step increase over any distance.
proof fn lemma_bounds_mono(b: Seq<u32>, i: int, k: int)
    requires
        0 <= i <= k < b.len(),
        forall|q: int| 0 <= q < b.len() - 1 ==> #[trigger] b[q] < b[q + 1],
    ensures
        b[i] <= b[k],
    decreases k - i,
{
    if i < k {
        lemma_bounds_mono(b, i, k - 1);
        assert(b[k - 1] < b[k]);
    }
}

/// Whether the payload of a symbol of kind `kind` can be decoded.
pub open spec fn sym_decodes(kind: u16, payload: Seq<u8>) -> bool {
    &&& kind == S_BUILDINFO ==> payload.len() >= 4
    &&& kind == S_UNAMESPACE ==> exists|n: int| nul_terminated_len(payload, n)
}

/// The name of a symbol of kind `kind`, or an empty name for the kinds that have none.
pub open spec fn sym_name(kind: u16, payload: Seq<u8>) -> Seq<u8> {
    if kind == S_UNAMESPACE {
        payload.take(choose|n: int| nul_terminated_len(payload, n))
    } else {
        Seq::empty()
    }
}

/// A NUL-terminated string has one length.
proof fn lemma_nul_terminated_unique(s: Seq<u8>, a: int, b: int)
    requires
        nul_terminated_len(s, a),
        nul_terminated_len(s, b),
    ensures
        a == b,
{
    if a < b {
        assert(s[a] == 0);
    } else if b < a {
        assert(s[b] == 0);
    }
}

/// The sort key of one record of the Global Symbol Stream.
pub open spec fn global_key(mode: SymbolSortingMode, rec: Seq<u8>) -> (u16, Seq<u8>, Seq<u8>) {
    match mode {
        SymbolSortingMode::Bytes => (0u16, Seq::empty(), rec),
        SymbolSortingMode::KindBytes => (record_kind(rec), Seq::empty(), rec),
        SymbolSortingMode::KindName => (
            record_kind(rec),
            sym_name(record_kind(rec), record_payload(rec)),
            record_payload(rec),
        ),
    }
}

/// Record `order[k]` of the stream.
pub open spec fn rec_in_order(s: Seq<u8>, order: Seq<u32>, k: int) -> Seq<u8> {
    record_at(s, sym_record_bounds(s), order[k] as int)
}

/// Record `order[k]` is identical to the record before it in `order`.
pub open spec fn repeats_previous(s: Seq<u8>, order: Seq<u32>, k: int) -> bool {
    k > 0 && rec_in_order(s, order, k) == rec_in_order(s, order, k - 1)
}

/// The first `k` records listed in `order`, concatenated, where a record identical to the
/// record before it is left out.
pub open spec fn dedup_concat(s: Seq<u8>, order: Seq<u32>, k: int) -> Seq<u8>
    decreases k,
{
    if k <= 0 {
        Seq::empty()
    } else if repeats_previous(s, order, k - 1) {
        dedup_concat(s, order, k - 1)
    } else {
        dedup_concat(s, order, k - 1) + rec_in_order(s, order, k - 1)
    }
}

/// The offset in the output of the copy of record `order[k]`: a record that is left out shares
/// the copy of the identical record before it.
pub open spec fn dedup_offset(s: Seq<u8>, order: Seq<u32>, k: int) -> int
    decreases k,
{
    if 0 < k && repeats_previous(s, order, k) {
        dedup_offset(s, order, k - 1)
    } else {
        dedup_concat(s, order, k).len() as int
    }
}

/// What sorting the Global Symbol Stream `s` produces, given the order in which the records are
/// written: the records are in key order, the output is their deduplicated concatenation, and
/// the table has one entry per record, listed by old offset.
pub open spec fn global_sort_output(
    mode: SymbolSortingMode,
    s: Seq<u8>,
    order: Seq<u32>,
    data: Seq<u8>,
    table: Seq<RemappedSymbolEntry>,
) -> bool {
    let b = sym_record_bounds(s);
    let n = num_sym_records(s);
    &&& is_permutation(order, n)
    &&& forall|x: int, y: int|
        0 <= x < y < n ==> sym_key_le(
            global_key(mode, rec_in_order(s, order, x)),
            global_key(mode, rec_in_order(s, order, y)),
        )
    &&& data == dedup_concat(s, order, n)
    &&& table.len() == n
    &&& forall|i: int| 0 <= i < n ==> (#[trigger] table[i]).old_offset == b[i]
    &&& forall|k: int|
        0 <= k < n ==> (#[trigger] table[order[k] as int]).new_offset == dedup_offset(s, order, k)
}

/// `data` and `table` are what sorting the Global Symbol Stream `s` produces, for some order of
/// the records that sorts them.
pub open spec fn is_global_sort_of(
    mode: SymbolSortingMode,
    s: Seq<u8>,
    data: Seq<u8>,
    table: Seq<RemappedSymbolEntry>,
) -> bool {
    exists|order: Seq<u32>| #[trigger] global_sort_output(mode, s, order, data, table)
}

/// The output written for the first `j` records is a prefix of the output written for the
/// first `m`.
proof fn lemma_dedup_concat_prefix(s: Seq<u8>, order: Seq<u32>, j: int, m: int)
    requires
        0 <= j <= m,
    ensures
        dedup_concat(s, order, j).len() <= dedup_concat(s, order, m).len(),
        dedup_concat(s, order, m).subrange(0, dedup_concat(s, order, j).len() as int)
            == dedup_concat(s, order, j),
    decreases m - j,
{
    if j < m {
        lemma_dedup_concat_prefix(s, order, j, m - 1);
        let a = dedup_concat(s, order, j);
        let b = dedup_concat(s, order, m - 1);
        let c = dedup_concat(s, order, m);
        assert(c.subrange(0, b.len() as int) =~= b);
        assert(c.subrange(0, a.len() as int) =~= b.subrange(0, a.len() as int));
    } else {
        assert(dedup_concat(s, order, m).subrange(0, dedup_concat(s, order, m).len() as int)
            =~= dedup_concat(s, order, m));
    }
}

/// The copy of the `k`-th record listed in `order` is at its offset in the output written for
/// the first `k + 1` records.
proof fn lemma_dedup_offset_copy(s: Seq<u8>, order: Seq<u32>, k: int)
    requires
        0 <= k,
    ensures
        dedup_offset(s, order, k) + rec_in_order(s, order, k).len() <= dedup_concat(s, order, k + 1).len(),
        dedup_concat(s, order, k + 1).subrange(
            dedup_offset(s, order, k),
            dedup_offset(s, order, k) + rec_in_order(s, order, k).len(),
        ) == rec_in_order(s, order, k),
    decreases k,
{
    let off = dedup_offset(s, order, k);
    let r = rec_in_order(s, order, k);
    if repeats_previous(s, order, k) {
        lemma_dedup_offset_copy(s, order, k - 1);
        assert(dedup_concat(s, order, k + 1) == dedup_concat(s, order, k));
    } else {
        let prev = dedup_concat(s, order, k);
        assert(dedup_concat(s, order, k + 1) == prev + r);
        assert((prev + r).subrange(prev.len() as int, (prev.len() + r.len()) as int) =~= r);
    }
}

/// Sorting the Global Symbol Stream keeps every record: the table maps the offset of each record
/// of the old stream to an offset at which the new stream holds an identical copy of it.
pub proof fn lemma_global_sort_keeps_records(
    mode: SymbolSortingMode,
    s: Seq<u8>,
    data: Seq<u8>,
    table: Seq<RemappedSymbolEntry>,
)
    requires
        s.len() <= u32::MAX,
        is_global_sort_of(mode, s, data, table),
    ensures
        forall|i: int|
            0 <= i < num_sym_records(s) ==> {
                let r = #[trigger] record_at(s, sym_record_bounds(s), i);
                &&& table[i].old_offset == sym_record_bounds(s)[i]
                &&& table[i].new_offset + r.len() <= data.len()
                &&& data.subrange(table[i].new_offset as int, table[i].new_offset + r.len()) == r
            },
{
    let order = choose|order: Seq<u32>| #[trigger] global_sort_output(mode, s, order, data, table);
    let n = num_sym_records(s);
    assert forall|i: int| 0 <= i < n implies {
        let r = #[trigger] record_at(s, sym_record_bounds(s), i);
        &&& table[i].old_offset == sym_record_bounds(s)[i]
        &&& table[i].new_offset + r.len() <= data.len()
        &&& data.subrange(table[i].new_offset as int, table[i].new_offset + r.len()) == r
    } by {
        lemma_permutation_onto(order, n, i);
        let k = choose|k: int| 0 <= k < n && order[k] == i;
        assert(table[order[k] as int].new_offset == dedup_offset(s, order, k));
        lemma_dedup_offset_copy(s, order, k);
        lemma_dedup_concat_prefix(s, order, k + 1, n);
        let off = dedup_offset(s, order, k);
        let r = rec_in_order(s, order, k);
        let big = dedup_concat(s, order, n);
        let small = dedup_concat(s, order, k + 1);
        assert(big.subrange(off, off + r.len()) =~= small.subrange(off, off + r.len()));
    }
}

/// Whether sorting a symbol stream in mode `mode` can decode every record that it must.
pub open spec fn global_sort_decodes(mode: SymbolSortingMode, s: Seq<u8>) -> bool {
    mode == SymbolSortingMode::KindName ==> forall|i: int|
        0 <= i < num_sym_records(s) ==> {
            let r = #[trigger] record_at(s, sym_record_bounds(s), i);
            sym_decodes(record_kind(r), record_payload(r))
        }
}

/// Builds the bounds of the records of a symbol stream.
fn build_sym_record_bounds(syms_data: &[u8]) -> (b: Vec<u32>)
    requires
        syms_data@.len() <= u32::MAX,
    ensures
        b@ == sym_record_bounds(syms_data@),
{
    let mut b = build_types_starts(0, syms_data);
    proof {
        lemma_record_starts_from(syms_data@, 0);
        assert(b@.len() >= 1);
    }
    let ghost st = record_starts_from(syms_data@, 0);
    let _ = b.pop();
    b.push(syms_data.len() as u32);
    proof {
        assert forall|i: int| 0 <= i < b@.len() - 1 implies b@[i] == st[i] as u32 by {
            assert(b@[i] as int == st[i]);
        }
        assert(b@ =~= sym_record_bounds(syms_data@));
    }
    b
}

/// Builds the sort key of record `i` of a symbol stream.
fn global_sort_key<'a>(mode: SymbolSortingMode, rec: &'a [u8]) -> (r: Result<SymSortKey<'a>, ParserError>)
    requires
        has_record(rec@),
    ensures
        r is Ok <==> (mode == SymbolSortingMode::KindName ==> sym_decodes(record_kind(rec@), record_payload(rec@))),
        r matches Ok(k) ==> key_view(k) == global_key(mode, rec@),
{
    let empty: &'a [u8] = vstd::slice::slice_subrange(rec, 0, 0);
    match mode {
        SymbolSortingMode::Bytes => {
            assert(empty@ =~= Seq::<u8>::empty());
            Ok((0u16, empty, rec))
        },
        SymbolSortingMode::KindBytes => {
            let (kind, _payload, _rest) = split_record(rec).unwrap();
            assert(empty@ =~= Seq::<u8>::empty());
            Ok((kind, empty, rec))
        },
        SymbolSortingMode::KindName => {
            let (kind, payload, _rest) = split_record(rec).unwrap();
            let sym = Sym { kind: SymKind(kind), data: payload };
            let sym_data = match sym.parse() {
                Ok(d) => d,
                Err(e) => {
                    assert(kind == S_BUILDINFO || kind == S_UNAMESPACE);
                    if kind == S_BUILDINFO {
                        assert(payload@.len() < 4);
                    } else {
                        assert(sym.kind.0 == S_UNAMESPACE);
                        assert(sym.data@ == payload@);
                        assert(!(exists|n: int| crate::parser::nul_terminated_len(sym.data@, n)));
                        assert(!(exists|n: int| nul_terminated_len(payload@, n)));
                    }
                    assert(!sym_decodes(kind, payload@));
                    return Err(e);
                },
            };
            let name: &'a [u8] = match sym_data.name() {
                Some(n) => n,
                None => empty,
            };
            proof {
                if kind == S_UNAMESPACE {
                    let c = choose|n: int| nul_terminated_len(payload@, n);
                    lemma_nul_terminated_unique(payload@, c, name@.len() as int);
                } else {
                    assert(empty@ =~= Seq::<u8>::empty());
                }
            }
            Ok((kind, name, payload))
        },
    }
}

/// Each record of a stream takes at least one byte, so the bounds are at least their index.
proof fn lemma_bounds_ge_index(b: Seq<u32>, n: int, i: int)
    requires
        0 <= i <= n < b.len(),
        b[0] >= 0,
        forall|q: int| 0 <= q < n ==> #[trigger] b[q] < b[q + 1],
    ensures
        b[i] >= i,
    decreases i,
{
    if i > 0 {
        lemma_bounds_ge_index(b, n, i - 1);
        assert(b[i - 1] < b[i]);
    }
}

/// The records listed in the first `k` entries of `order` take no more room than all of them.
proof fn lemma_lens_sum_prefix(b: Seq<u32>, order: Seq<u32>, k: int)
    requires
        0 <= k <= order.len(),
        forall|i: int, j: int| 0 <= i <= j < b.len() ==> b[i] <= b[j],
        forall|q: int| 0 <= q < order.len() ==> order[q] < b.len() - 1,
    ensures
        record_lens_sum(b, order.take(k)) <= record_lens_sum(b, order),
    decreases order.len() - k,
{
    if k < order.len() {
        lemma_lens_sum_prefix(b, order, k + 1);
        assert(order.take(k + 1).drop_last() =~= order.take(k));
        assert(order.take(k + 1).last() == order[k]);
        assert(b[order[k] as int] <= b[order[k] + 1]);
    } else {
        assert(order.take(k) =~= order);
    }
}

/// Sorts the records of the Global Symbol Stream (GSS).
///
/// The GSS holds no records that start symbol scopes, so each record is sorted on its own. Once
/// sorted, a record that is identical to the record before it is not written again: it is mapped
/// to the copy already written.
///
/// Returns the new stream and a table that maps the byte offset of each record in the old stream
/// to the byte offset of its copy in the new stream, listed by old offset. In the `KindName`
/// mode, a record whose payload cannot be decoded is an error.
#[verifier::spinoff_prover]
pub fn sort_global_syms(sorting_mode: SymbolSortingMode, syms_data: &[u8]) -> (r: Result<
    (Vec<u8>, RemappedSymbolTable),
    ParserError,
>)
    requires
        syms_data@.len() <= u32::MAX,
    ensures
        r is Ok <==> global_sort_decodes(sorting_mode, syms_data@),
        r matches Ok(res) ==> old_offsets_increasing(res.1.vec@),
        r matches Ok(res) ==> is_global_sort_of(sorting_mode, syms_data@, res.0@, res.1.vec@),
{
    let ghost s = syms_data@;
    let bounds = build_sym_record_bounds(syms_data);
    proof {
        lemma_sym_record_bounds(s);
    }
    let n = bounds.len() - 1;
    proof {
        lemma_bounds_ge_index(bounds@, n as int, n as int);
    }
    let mut keys: Vec<SymSortKey> = Vec::new();
    let mut i: usize = 0;
    while i < n
        invariant
            s == syms_data@,
            s.len() <= u32::MAX,
            bounds@ == sym_record_bounds(s),
            n == num_sym_records(s),
            i <= n,
            keys@.len() == i,
            forall|j: int|
                0 <= j < i ==> key_at(keys@, j) == global_key(
                    sorting_mode,
                    #[trigger] record_at(s, bounds@, j),
                ),
            forall|j: int|
                0 <= j < i ==> (sorting_mode == SymbolSortingMode::KindName ==> {
                    let rj = #[trigger] record_at(s, bounds@, j);
                    sym_decodes(record_kind(rj), record_payload(rj))
                }),
        decreases n - i,
    {
        proof {
            lemma_sym_record_bounds(s);
            assert(bounds@[i as int] <= bounds@[i + 1] <= s.len());
        }
        let rec = vstd::slice::slice_subrange(syms_data, bounds[i] as usize, bounds[i + 1] as usize);
        assert(rec@ == record_at(s, bounds@, i as int));
        let key = match global_sort_key(sorting_mode, rec) {
            Ok(k) => k,
            Err(e) => {
                return Err(e);
            },
        };
        keys.push(key);
        proof {
            assert(key_at(keys@, i as int) == key_view(key));
        }
        i = i + 1;
    }
    let order = sort_sym_keys(&keys);
    let mut table_vec: Vec<RemappedSymbolEntry> = Vec::new();
    let mut q: usize = 0;
    while q < n
        invariant
            bounds@ == sym_record_bounds(s),
            n == num_sym_records(s),
            q <= n,
            table_vec@.len() == q,
            forall|j: int| 0 <= j < q ==> (#[trigger] table_vec@[j]).old_offset == bounds@[j],
        decreases n - q,
    {
        table_vec.push(RemappedSymbolEntry { old_offset: bounds[q], new_offset: 0 });
        q = q + 1;
    }
    proof {
        lemma_lens_sum_permutation(bounds@, order@, n as int);
    }
    let mut data: Vec<u8> = Vec::new();
    let mut last_offset: u32 = 0xffff_ffff;
    let mut k: usize = 0;
    while k < n
        invariant
            s == syms_data@,
            s.len() <= u32::MAX,
            bounds@ == sym_record_bounds(s),
            n == num_sym_records(s),
            valid_starts(bounds@, s.len() as int),
            is_permutation(order@, n as int),
            k <= n,
            data@ == dedup_concat(s, order@, k as int),
            data@.len() <= record_lens_sum(bounds@, order@.take(k as int)),
            record_lens_sum(bounds@, order@) == bounds@[n as int] - bounds@[0],
            k > 0 ==> last_offset == dedup_offset(s, order@, k - 1),
            table_vec@.len() == n,
            forall|j: int| 0 <= j < n ==> (#[trigger] table_vec@[j]).old_offset == bounds@[j],
            forall|j: int|
                0 <= j < k ==> (#[trigger] table_vec@[order@[j] as int]).new_offset == dedup_offset(
                    s,
                    order@,
                    j,
                ),
        decreases n - k,
    {
        let idx = order[k] as usize;
        proof {
            assert(bounds@[idx as int] <= bounds@[idx + 1] <= s.len());
            lemma_lens_sum_prefix(bounds@, order@, k + 1);
            assert(order@.take(k + 1).drop_last() =~= order@.take(k as int));
            assert(order@.take(k + 1).last() == order@[k as int]);
        }
        let rec = vstd::slice::slice_subrange(syms_data, bounds[idx] as usize, bounds[idx + 1] as usize);
        assert(rec@ == rec_in_order(s, order@, k as int));
        let mut repeat = false;
        if k > 0 {
            let pidx = order[k - 1] as usize;
            proof {
                assert(bounds@[pidx as int] <= bounds@[pidx + 1] <= s.len());
            }
            let prev = vstd::slice::slice_subrange(
                syms_data,
                bounds[pidx] as usize,
                bounds[pidx + 1] as usize,
            );
            assert(prev@ == rec_in_order(s, order@, k - 1));
            repeat = bytes_equal(rec, prev);
        }
        assert(repeat == repeats_previous(s, order@, k as int));
        let ghost old_table = table_vec@;
        if repeat {
            table_vec.set(idx, RemappedSymbolEntry { old_offset: bounds[idx], new_offset: last_offset });
        } else {
            let new_offset = data.len() as u32;
            table_vec.set(idx, RemappedSymbolEntry { old_offset: bounds[idx], new_offset });
            last_offset = new_offset;
            data.extend_from_slice(rec);
            proof {
                assert(data@ =~= dedup_concat(s, order@, k as int) + rec_in_order(s, order@, k as int));
            }
        }
        proof {
            assert forall|j: int| 0 <= j < k + 1 implies (#[trigger] table_vec@[order@[j] as int]).new_offset
                == dedup_offset(s, order@, j) by {
                if j < k {
                    assert(order@[j] != order@[k as int]);
                    assert(table_vec@[order@[j] as int] == old_table[order@[j] as int]);
                }
            }
        }
        k = k + 1;
    }
    proof {
        assert forall|x: int, y: int| 0 <= x < y < n implies sym_key_le(
            global_key(sorting_mode, rec_in_order(s, order@, x)),
            global_key(sorting_mode, rec_in_order(s, order@, y)),
        ) by {
            assert(key_at(keys@, order@[x] as int) == global_key(sorting_mode, record_at(s, bounds@, order@[x] as int)));
            assert(key_at(keys@, order@[y] as int) == global_key(sorting_mode, record_at(s, bounds@, order@[y] as int)));
        }
        assert(global_sort_output(sorting_mode, s, order@, data@, table_vec@));
        assert forall|a: int, b: int| 0 <= a < b < table_vec@.len() implies table_vec@[a].old_offset
            < table_vec@[b].old_offset by {
            assert(bounds@[a] < bounds@[a + 1]);
            assert(bounds@[a + 1] <= bounds@[b]);
        }
        assert forall|j: int| 0 <= j < n implies (sorting_mode == SymbolSortingMode::KindName ==> {
            let rj = #[trigger] record_at(s, bounds@, j);
            sym_decodes(record_kind(rj), record_payload(rj))
        }) by {}
    }
    let table = RemappedSymbolTable { vec: table_vec };
    assert(old_offsets_increasing(table.vec@));
    let res = (data, table);
    assert(global_sort_output(sorting_mode, syms_data@, order@, res.0@, res.1.vec@));
    assert(is_global_sort_of(sorting_mode, syms_data@, res.0@, res.1.vec@));
    Ok(res)
}

/// Why the records of a module symbol stream could not be sorted.
#[derive(Clone, Copy, Debug, PartialEq, Eq, Structural)]
pub enum SortModuleSymsError {
    /// The stream is shorter than its 4-byte signature.
    MissingSignature,
    /// A record that starts a block is too short to hold the block header; at this offset.
    BlockHeaderTooShort { pos: u32 },
    /// A record that starts a block has a `p_end` value that is less than its own position.
    EndBeforeSymbol { kind: SymKind, p_end: u32, pos: u32 },
    /// A nested record that starts a block has a `p_parent` value that is not before its own
    /// position.
    ParentNotBeforeSymbol { kind: SymKind, p_parent: u32, pos: u32 },
    /// A top-level record that starts a block has a non-zero `p_parent` value.
    TopLevelParent { kind: SymKind, p_parent: u32 },
    /// A record ends a scope, but no scope is open; at this offset.
    EndOutsideScope { pos: u32 },
    /// The stream ended without all symbol scopes being closed.
    UnclosedScopes,
    /// The first record of a scope could not be decoded, in the `KindName` mode.
    Undecodable,
    /// Adjusting a `p_parent` or `p_end` pointer of the record at this new offset gives a value
    /// outside the range of 32-bit offsets.
    PointerOutOfRange { pos: u32 },
    /// While the moved records were adjusted, a record at this new offset ended a scope that is
    /// not open within its top-level scope.
    ScopeMismatch { pos: u32 },
}

/// The outcome of one step of the first pass over a module symbol stream.
pub enum Pass1Step {
    /// Go on with the record at `next`, at nesting depth `depth`, with these scope starts and
    /// this (edited) stream.
    Continue { b: Seq<u8>, next: int, depth: int, starts: Seq<u32> },
    /// Stop with this error; the stream as edited so far.
    Stop { b: Seq<u8>, err: SortModuleSymsError },
}

/// One step of the first pass over a module symbol stream `b`: the record at `pos` (which
/// must begin a complete record), at scope nesting depth `depth`, having found the top-level
/// scopes that begin at `starts`.
///
/// The step records where a top-level scope begins and converts the `p_end` pointer of a record
/// that starts a block, and the `p_parent` pointer of a nested one, to distances from the
/// record, so that the contents of the records do not depend on their positions. (When `udt` is
/// set, `S_UDT` records are passed over.)
pub open spec fn module_pass1_step(udt: bool, b: Seq<u8>, pos: int, depth: int, starts: Seq<u32>) -> Pass1Step {
    let r = b.skip(pos);
    let kind = SymKind(record_kind(r));
    let next = pos + record_size(r);
    if udt && kind.0 == S_UDT {
        Pass1Step::Continue { b, next, depth, starts }
    } else {
        let starts2 = if depth == 0 {
            starts.push(pos as u32)
        } else {
            starts
        };
        if spec_starts_block(kind) {
            if record_size(r) < 12 {
                Pass1Step::Stop { b, err: SortModuleSymsError::BlockHeaderTooShort { pos: pos as u32 } }
            } else {
                let p_parent = le_u32(b.skip(pos + 4)) as u32;
                let p_end = le_u32(b.skip(pos + 8)) as u32;
                if p_end < pos {
                    Pass1Step::Stop {
                        b,
                        err: SortModuleSymsError::EndBeforeSymbol { kind, p_end, pos: pos as u32 },
                    }
                } else {
                    let b2 = put_le_u32(b, pos + 8, (p_end - pos) as u32);
                    if depth != 0 {
                        if p_parent >= pos {
                            Pass1Step::Stop {
                                b: b2,
                                err: SortModuleSymsError::ParentNotBeforeSymbol {
                                    kind,
                                    p_parent,
                                    pos: pos as u32,
                                },
                            }
                        } else {
                            Pass1Step::Continue {
                                b: put_le_u32(b2, pos + 4, (pos - p_parent) as u32),
                                next,
                                depth: depth + 1,
                                starts: starts2,
                            }
                        }
                    } else if p_parent != 0 {
                        Pass1Step::Stop { b: b2, err: SortModuleSymsError::TopLevelParent { kind, p_parent } }
                    } else {
                        Pass1Step::Continue { b: b2, next, depth: depth + 1, starts: starts2 }
                    }
                }
            }
        } else if spec_ends_scope(kind) {
            if depth == 0 {
                Pass1Step::Stop { b, err: SortModuleSymsError::EndOutsideScope { pos: pos as u32 } }
            } else {
                Pass1Step::Continue { b, next, depth: depth - 1, starts: starts2 }
            }
        } else {
            Pass1Step::Continue { b, next, depth, starts: starts2 }
        }
    }
}

/// The first pass over a module symbol stream `b`, from the record at `pos` (see
/// `module_pass1_step`), until no complete record begins. Returns the edited stream, and the
/// starts of the top-level scopes or the error found; the edits made before an error are kept.
/// Scopes that are left open are an error.
pub open spec fn module_pass1(udt: bool, b: Seq<u8>, pos: int, depth: int, starts: Seq<u32>) -> (
    Seq<u8>,
    Result<Seq<u32>, SortModuleSymsError>,
)
    decreases b.len() - pos,
{
    if !(0 <= pos < b.len() && has_record(b.skip(pos))) {
        if depth != 0 {
            (b, Err(SortModuleSymsError::UnclosedScopes))
        } else {
            (b, Ok(starts))
        }
    } else {
        match module_pass1_step(udt, b, pos, depth, starts) {
            Pass1Step::Continue { b: b2, next, depth: d2, starts: st2 } => {
                if b2.len() == b.len() && next > pos {
                    module_pass1(udt, b2, next, d2, st2)
                } else {
                    (b2, Ok(st2))
                }
            },
            Pass1Step::Stop { b: b2, err } => (b2, Err(err)),
        }
    }
}

/// Whether the record at the start of `s` is complete (when its header can be read and its
/// length field is at least 2).
pub(crate) fn record_at_pos(b: &[u8], pos: usize) -> (r: Option<(u16, usize)>)
    requires
        pos <= b@.len(),
    ensures
        r is Some <==> has_record(b@.skip(pos as int)),
        r matches Some((kind, size)) ==> kind == record_kind(b@.skip(pos as int)) && size
            == record_size(b@.skip(pos as int)),
{
    if b.len() - pos < 4 {
        return None;
    }
    let len = read_u16_at(b, pos);
    if len < 2 || (len as usize) + 2 > b.len() - pos {
        return None;
    }
    let kind = read_u16_at(b, pos + 2);
    proof {
        assert(b@.skip(pos as int).skip(2) =~= b@.skip(pos + 2));
    }
    Some((kind, len as usize + 2))
}

/// Editing bytes at `at` or later keeps the records that end at or before `at`, and editing the
/// payload of a record keeps its header.
proof fn lemma_put_keeps_record(b: Seq<u8>, off: int, v: u32, q: int)
    requires
        0 <= q,
        q + 2 <= off,
        off + 4 <= b.len(),
    ensures
        put_le_u32(b, off, v).len() == b.len(),
        has_record(put_le_u32(b, off, v).skip(q)) == has_record(b.skip(q)),
        record_size(put_le_u32(b, off, v).skip(q)) == record_size(b.skip(q)),
        q + 4 <= off ==> record_kind(put_le_u32(b, off, v).skip(q)) == record_kind(b.skip(q)),
{
    let b2 = put_le_u32(b, off, v);
    assert(b2[q] == b[q]);
    assert(b2[q + 1] == b[q + 1]);
    if q + 4 <= off {
        assert(b2[q + 2] == b[q + 2]);
        assert(b2[q + 3] == b[q + 3]);
    }
}

/// The scope starts found by the first pass: offsets after the signature, each of the first
/// record of a scope, each scope starting after the first record of the one before ends, and
/// the first record of the last one ending by `end`.
pub open spec fn valid_scope_starts(e: Seq<u8>, st: Seq<u32>, end: int) -> bool {
    &&& forall|i: int|
        0 <= i < st.len() ==> 4 <= #[trigger] st[i] < e.len() && has_record(e.skip(st[i] as int))
    &&& forall|i: int, j: int|
        0 <= i < j < st.len() ==> #[trigger] st[i] + record_size(e.skip(st[i] as int)) <= #[trigger] st[j]
    &&& st.len() > 0 ==> st.last() + record_size(e.skip(st.last() as int)) <= end
}

/// A result with the scope starts viewed as a sequence.
pub open spec fn starts_result_view(r: Result<Vec<u32>, SortModuleSymsError>) -> Result<
    Seq<u32>,
    SortModuleSymsError,
> {
    match r {
        Ok(v) => Ok(v@),
        Err(e) => Err(e),
    }
}

/// Scope starts stay valid when the bytes at `off` are edited, past their first records'
/// headers.
proof fn lemma_scope_starts_put(b: Seq<u8>, st: Seq<u32>, end: int, off: int, v: u32)
    requires
        valid_scope_starts(b, st, end),
        forall|i: int| 0 <= i < st.len() ==> #[trigger] st[i] + 2 <= off,
        off + 4 <= b.len(),
    ensures
        valid_scope_starts(put_le_u32(b, off, v), st, end),
{
    let b2 = put_le_u32(b, off, v);
    assert forall|i: int| 0 <= i < st.len() implies {
        &&& has_record(b2.skip(#[trigger] st[i] as int)) == has_record(b.skip(st[i] as int))
        &&& record_size(b2.skip(st[i] as int)) == record_size(b.skip(st[i] as int))
    } by {
        lemma_put_keeps_record(b, off, v, st[i] as int);
    }
    if st.len() > 0 {
        assert(st.last() == st[st.len() - 1]);
    }
}

/// `st` with `pos` added at the end when `push` is set.
pub open spec fn maybe_push(st: Seq<u32>, pos: int, push: bool) -> Seq<u32> {
    if push {
        st.push(pos as u32)
    } else {
        st
    }
}

/// Scope starts valid up to `pos` stay valid up to the end of the record at `pos`, with or
/// without `pos` added.
proof fn lemma_scope_starts_extend(b: Seq<u8>, st: Seq<u32>, pos: int, push: bool)
    requires
        valid_scope_starts(b, st, pos),
        4 <= pos < b.len() <= u32::MAX,
        has_record(b.skip(pos)),
    ensures
        valid_scope_starts(b, maybe_push(st, pos, push), pos + record_size(b.skip(pos))),
        forall|i: int|
            0 <= i < maybe_push(st, pos, push).len() ==> #[trigger] maybe_push(st, pos, push)[i]
                <= pos,
{
    let st2 = maybe_push(st, pos, push);
    if st.len() > 0 {
        assert(st.last() == st[st.len() - 1]);
    }
    assert forall|i: int| 0 <= i < st2.len() implies 4 <= #[trigger] st2[i] < b.len() && has_record(
        b.skip(st2[i] as int),
    ) by {
        if i < st.len() {
            assert(st2[i] == st[i]);
        }
    }
    assert forall|i: int, j: int| 0 <= i < j < st2.len() implies #[trigger] st2[i] + record_size(
        b.skip(st2[i] as int),
    ) <= #[trigger] st2[j] by {
        assert(st2[i] == st[i]);
        if j < st.len() {
            assert(st2[j] == st[j]);
        } else {
            if i < st.len() - 1 {
                assert(st[i] + record_size(b.skip(st[i] as int)) <= st[st.len() - 1]);
            }
        }
    }
    assert forall|i: int| 0 <= i < st2.len() implies #[trigger] st2[i] <= pos by {
        if i < st.len() {
            assert(st2[i] == st[i]);
            if i < st.len() - 1 {
                assert(st[i] + record_size(b.skip(st[i] as int)) <= st[st.len() - 1]);
            }
        }
    }
}

/// One step of the first pass (see `module_pass1_step`): the record at `pos`.
#[verifier::spinoff_prover]
fn module_pass1_step_exec(
    udt: bool,
    syms_data: &mut [u8],
    pos: usize,
    depth: u32,
    starts: &mut Vec<u32>,
) -> (r: Result<u32, SortModuleSymsError>)
    requires
        4 <= pos < old(syms_data)@.len(),
        old(syms_data)@.len() <= u32::MAX,
        has_record(old(syms_data)@.skip(pos as int)),
        depth <= pos,
        valid_scope_starts(old(syms_data)@, old(starts)@, pos as int),
    ensures
        ({
            let next = pos + record_size(old(syms_data)@.skip(pos as int));
            &&& r matches Ok(d) ==> module_pass1_step(
                udt,
                old(syms_data)@,
                pos as int,
                depth as int,
                old(starts)@,
            ) == (Pass1Step::Continue {
                b: final(syms_data)@,
                next,
                depth: d as int,
                starts: final(starts)@,
            }) && d <= next && valid_scope_starts(final(syms_data)@, final(starts)@, next)
            &&& r matches Err(e) ==> module_pass1_step(
                udt,
                old(syms_data)@,
                pos as int,
                depth as int,
                old(starts)@,
            ) == (Pass1Step::Stop { b: final(syms_data)@, err: e })
            &&& final(syms_data)@.skip(next) == old(syms_data)@.skip(next)
        }),
        final(syms_data)@.len() == old(syms_data)@.len(),
        final(syms_data)@.take(4) == old(syms_data)@.take(4),
{
    let ghost cur = syms_data@;
    let (kind16, size) = record_at_pos(syms_data, pos).unwrap();
    let kind = SymKind(kind16);
    let next = pos + size;
    if udt && kind16 == S_UDT {
        proof {
            lemma_scope_starts_extend(cur, starts@, pos as int, false);
        }
        return Ok(depth);
    }
    let push = depth == 0;
    proof {
        lemma_scope_starts_extend(cur, starts@, pos as int, push);
    }
    if push {
        starts.push(pos as u32);
    }
    assert(starts@ == maybe_push(old(starts)@, pos as int, push));
    if kind.starts_block() {
        if size < 12 {
            return Err(SortModuleSymsError::BlockHeaderTooShort { pos: pos as u32 });
        }
        let p_parent = read_u32_at(syms_data, pos + 4);
        let p_end = read_u32_at(syms_data, pos + 8);
        if (p_end as usize) < pos {
            return Err(SortModuleSymsError::EndBeforeSymbol { kind, p_end, pos: pos as u32 });
        }
        write_u32_at(syms_data, pos + 8, p_end - pos as u32);
        proof {
            lemma_scope_starts_put(cur, starts@, next as int, pos + 8, (p_end - pos) as u32);
            assert(syms_data@.skip(next as int) =~= cur.skip(next as int));
            assert(syms_data@.take(4) =~= cur.take(4));
        }
        if depth != 0 {
            if p_parent as usize >= pos {
                return Err(
                    SortModuleSymsError::ParentNotBeforeSymbol { kind, p_parent, pos: pos as u32 },
                );
            }
            let ghost mid = syms_data@;
            write_u32_at(syms_data, pos + 4, pos as u32 - p_parent);
            proof {
                lemma_scope_starts_put(mid, starts@, next as int, pos + 4, (pos - p_parent) as u32);
                assert(syms_data@.skip(next as int) =~= cur.skip(next as int));
                assert(syms_data@.take(4) =~= cur.take(4));
            }
        } else if p_parent != 0 {
            return Err(SortModuleSymsError::TopLevelParent { kind, p_parent });
        }
        Ok(depth + 1)
    } else if kind.ends_scope() {
        if depth == 0 {
            return Err(SortModuleSymsError::EndOutsideScope { pos: pos as u32 });
        }
        Ok(depth - 1)
    } else {
        Ok(depth)
    }
}

/// Runs the first pass (see `module_pass1`) over `syms_data`, after its 4-byte signature.
fn module_pass1_exec(udt: bool, syms_data: &mut [u8]) -> (r: Result<Vec<u32>, SortModuleSymsError>)
    requires
        old(syms_data)@.len() >= 4,
        old(syms_data)@.len() <= u32::MAX,
    ensures
        module_pass1(udt, old(syms_data)@, 4, 0, Seq::empty()) == (
            final(syms_data)@,
            starts_result_view(r),
        ),
        final(syms_data)@.len() == old(syms_data)@.len(),
        final(syms_data)@.take(4) == old(syms_data)@.take(4),
        r matches Ok(st) ==> valid_scope_starts(final(syms_data)@, st@, final(syms_data)@.len() as int),
{
    let ghost s = syms_data@;
    let mut starts: Vec<u32> = Vec::new();
    let mut pos: usize = 4;
    let mut depth: u32 = 0;
    let mut err: Option<SortModuleSymsError> = None;
    loop
        invariant_except_break
            err is None,
            valid_scope_starts(syms_data@, starts@, pos as int),
        invariant
            syms_data@.len() == s.len(),
            s.len() <= u32::MAX,
            4 <= pos <= s.len(),
            depth <= pos,
            syms_data@.take(4) == s.take(4),
            err is None ==> module_pass1(udt, s, 4, 0, Seq::empty()) == module_pass1(
                udt,
                syms_data@,
                pos as int,
                depth as int,
                starts@,
            ),
            err matches Some(e) ==> module_pass1(udt, s, 4, 0, Seq::empty()) == (
                syms_data@,
                Err::<Seq<u32>, SortModuleSymsError>(e),
            ),
        ensures
            err is None ==> !(pos < syms_data@.len() && has_record(syms_data@.skip(pos as int)))
                && valid_scope_starts(syms_data@, starts@, pos as int),
        decreases s.len() - pos,
    {
        let at_pos = record_at_pos(syms_data, pos);
        if at_pos.is_none() {
            break;
        }
        let ghost cur = syms_data@;
        match module_pass1_step_exec(udt, syms_data, pos, depth, &mut starts) {
            Ok(d) => {
                depth = d;
                pos = pos + at_pos.unwrap().1;
                proof {
                    assert(syms_data@.take(4) =~= s.take(4));
                }
            },
            Err(e) => {
                err = Some(e);
                break;
            },
        }
    }
    if let Some(e) = err {
        return Err(e);
    }
    if depth != 0 {
        Err(SortModuleSymsError::UnclosedScopes)
    } else {
        Ok(starts)
    }
}

/// The outcome of one step of adjusting the records of a moved scope.
pub enum FixStep {
    /// Go on with the record at `next`, at nesting depth `depth`; the scope as adjusted so far
    /// and the mappings found by this step.
    Continue { d: Seq<u8>, next: int, depth: int, maps: Seq<ModuleRefSymMapping> },
    /// Stop with this error; the mappings found by this step.
    Stop { maps: Seq<ModuleRefSymMapping>, err: SortModuleSymsError },
}

/// One step of adjusting the records of a scope that has been moved from `old_base` to
/// `new_base`: the record at `pos` of the scope `d` (which must begin a complete record), at
/// nesting depth `depth`.
///
/// A record that can be the target of a reference from the Global Symbol Stream gives a mapping
/// from its old offset to its new one. A record that starts a block gets its `p_end` pointer,
/// and when nested its `p_parent` pointer, converted back from distances to offsets in the new
/// stream.
#[verifier::opaque]
pub open spec fn module_fix_step(
    d: Seq<u8>,
    pos: int,
    depth: int,
    new_base: int,
    old_base: int,
    old_module: u16,
    new_module: u16,
) -> FixStep {
    let r = d.skip(pos);
    let kind = SymKind(record_kind(r));
    let next = pos + record_size(r);
    let new_off = new_base + pos;
    let maps = if spec_is_refsym_target(kind) {
        seq![
            ModuleRefSymMapping {
                old_module,
                old_offset: (old_base + pos) as u32,
                new_module,
                new_offset: new_off as u32,
            },
        ]
    } else {
        Seq::empty()
    };
    if spec_starts_block(kind) {
        if record_size(r) < 12 {
            FixStep::Stop { maps, err: SortModuleSymsError::BlockHeaderTooShort { pos: new_off as u32 } }
        } else {
            let rel_parent = le_u32(d.skip(pos + 4));
            let rel_end = le_u32(d.skip(pos + 8));
            if (depth != 0 && new_off < rel_parent) || new_off + rel_end > u32::MAX {
                FixStep::Stop { maps, err: SortModuleSymsError::PointerOutOfRange { pos: new_off as u32 } }
            } else {
                let d2 = if depth != 0 {
                    put_le_u32(d, pos + 4, (new_off - rel_parent) as u32)
                } else {
                    d
                };
                FixStep::Continue {
                    d: put_le_u32(d2, pos + 8, (new_off + rel_end) as u32),
                    next,
                    depth: depth + 1,
                    maps,
                }
            }
        }
    } else if spec_ends_scope(kind) {
        if depth == 0 {
            FixStep::Stop { maps, err: SortModuleSymsError::ScopeMismatch { pos: new_off as u32 } }
        } else {
            FixStep::Continue { d, next, depth: depth - 1, maps }
        }
    } else {
        FixStep::Continue { d, next, depth, maps }
    }
}

/// Adjusts the records of a scope `d` that has been moved from `old_base` to `new_base` (see
/// `module_fix_step`), from the record at `pos`, until no complete record begins. Returns the
/// adjusted scope, the mappings found, and the error found, if any.
pub open spec fn module_fix_scope(
    d: Seq<u8>,
    pos: int,
    depth: int,
    new_base: int,
    old_base: int,
    old_module: u16,
    new_module: u16,
) -> (Seq<u8>, Seq<ModuleRefSymMapping>, Option<SortModuleSymsError>)
    decreases d.len() - pos,
{
    if !(0 <= pos < d.len() && has_record(d.skip(pos))) {
        (d, Seq::empty(), None)
    } else {
        match module_fix_step(d, pos, depth, new_base, old_base, old_module, new_module) {
            FixStep::Continue { d: d2, next, depth: depth2, maps } => {
                if d2.len() == d.len() && pos < next <= d.len() {
                    let rest = module_fix_scope(
                        d2,
                        next,
                        depth2,
                        new_base,
                        old_base,
                        old_module,
                        new_module,
                    );
                    (rest.0, maps + rest.1, rest.2)
                } else {
                    (d2, maps, None)
                }
            },
            FixStep::Stop { maps, err } => (d, maps, Some(err)),
        }
    }
}

/// The new module symbol stream: the signature, then the scopes listed in `order` (the first
/// `k` of them), each adjusted for its new position; with the mappings found and the first error
/// found. `e` is the stream after the first pass, and `bounds` the starts of its top-level
/// scopes followed by its length.
pub open spec fn module_assemble(
    e: Seq<u8>,
    bounds: Seq<u32>,
    order: Seq<u32>,
    k: int,
    old_module: u16,
    new_module: u16,
) -> (Seq<u8>, Seq<ModuleRefSymMapping>, Option<SortModuleSymsError>)
    decreases k,
{
    if k <= 0 {
        (e.take(4), Seq::empty(), None)
    } else {
        let prev = module_assemble(e, bounds, order, k - 1, old_module, new_module);
        if prev.2 is Some {
            prev
        } else {
            let idx = order[k - 1] as int;
            let fixed = module_fix_scope(
                record_at(e, bounds, idx),
                0,
                0,
                prev.0.len() as int,
                bounds[idx] as int,
                old_module,
                new_module,
            );
            (prev.0 + fixed.0, prev.1 + fixed.1, fixed.2)
        }
    }
}

/// One step of adjusting a moved scope (see `module_fix_step`): the scope is the part of `out`
/// from `base` on, and the record is at `pos` within it.
#[verifier::spinoff_prover]
#[verifier::rlimit(100)]
fn module_fix_step_exec(
    out: &mut Vec<u8>,
    base: usize,
    pos: usize,
    depth: u32,
    old_base: u32,
    old_module: u16,
    new_module: u16,
    remapping: &mut Vec<ModuleRefSymMapping>,
) -> (r: Result<u32, SortModuleSymsError>)
    requires
        base + pos < old(out)@.len() <= u32::MAX,
        old_base + (old(out)@.len() - base) <= u32::MAX,
        has_record(old(out)@.skip(base + pos)),
        depth <= pos,
    ensures
        final(out)@.len() == old(out)@.len(),
        final(out)@.take(base as int) == old(out)@.take(base as int),
        ({
            let step = module_fix_step(
                old(out)@.skip(base as int),
                pos as int,
                depth as int,
                base as int,
                old_base as int,
                old_module,
                new_module,
            );
            &&& r matches Ok(d) ==> (step matches FixStep::Continue { d: d2, next, depth: depth2, maps }
                && d2 == final(out)@.skip(base as int) && depth2 == d && next == pos + record_size(
                old(out)@.skip(base + pos)) && final(remapping)@ == old(remapping)@ + maps && d <= next)
            &&& r matches Err(e) ==> (step matches FixStep::Stop { maps, err } && err == e
                && final(remapping)@ == old(remapping)@ + maps)
        }),
{
    let ghost d0 = out@.skip(base as int);
    proof {
        reveal(module_fix_step);
        assert(d0.skip(pos as int) =~= out@.skip(base + pos));
    }
    let (kind16, size) = record_at_pos(out.as_slice(), base + pos).unwrap();
    let kind = SymKind(kind16);
    let new_off = (base + pos) as u32;
    if kind.is_refsym_target() {
        remapping.push(
            ModuleRefSymMapping {
                new_module,
                old_module,
                old_offset: old_base + pos as u32,
                new_offset: new_off,
            },
        );
    }
    if kind.starts_block() {
        if size < 12 {
            return Err(SortModuleSymsError::BlockHeaderTooShort { pos: new_off });
        }
        let rel_parent = read_u32_at(out.as_slice(), base + pos + 4);
        let rel_end = read_u32_at(out.as_slice(), base + pos + 8);
        proof {
            assert(d0.skip(pos + 4) =~= out@.skip(base + pos + 4));
            assert(d0.skip(pos + 8) =~= out@.skip(base + pos + 8));
        }
        if (depth != 0 && new_off < rel_parent) || rel_end > u32::MAX - new_off {
            return Err(SortModuleSymsError::PointerOutOfRange { pos: new_off });
        }
        if depth != 0 {
            let ghost before = out@;
            write_u32_at(out.as_mut_slice(), base + pos + 4, new_off - rel_parent);
            proof {
                assert(out@.skip(base as int) =~= put_le_u32(before.skip(base as int), pos + 4, (new_off - rel_parent) as u32));
            }
        }
        let ghost before2 = out@;
        write_u32_at(out.as_mut_slice(), base + pos + 8, new_off + rel_end);
        proof {
            assert(out@.skip(base as int) =~= put_le_u32(before2.skip(base as int), pos + 8, (new_off + rel_end) as u32));
            assert(out@.take(base as int) =~= old(out)@.take(base as int));
        }
        Ok(depth + 1)
    } else if kind.ends_scope() {
        if depth == 0 {
            return Err(SortModuleSymsError::ScopeMismatch { pos: new_off });
        }
        Ok(depth - 1)
    } else {
        Ok(depth)
    }
}

/// Adjusts the records of a moved scope (see `module_fix_scope`): the scope is the part of `out`
/// from `base` on, and it was at `old_base` in the old stream.
fn module_fix_scope_exec(
    out: &mut Vec<u8>,
    base: usize,
    old_base: u32,
    old_module: u16,
    new_module: u16,
    remapping: &mut Vec<ModuleRefSymMapping>,
) -> (r: Result<(), SortModuleSymsError>)
    requires
        base <= old(out)@.len() <= u32::MAX,
        old_base + (old(out)@.len() - base) <= u32::MAX,
    ensures
        final(out)@.len() == old(out)@.len(),
        ({
            let f = module_fix_scope(
                old(out)@.skip(base as int),
                0,
                0,
                base as int,
                old_base as int,
                old_module,
                new_module,
            );
            &&& final(remapping)@ == old(remapping)@ + f.1
            &&& r is Ok ==> f.2 is None && final(out)@ == old(out)@.take(base as int) + f.0
            &&& r matches Err(e) ==> f.2 == Some(e)
        }),
{
    let ghost d0 = out@.skip(base as int);
    let ghost f = module_fix_scope(d0, 0, 0, base as int, old_base as int, old_module, new_module);
    let ghost r0 = remapping@;
    let ghost prefix = out@.take(base as int);
    let ghost mut acc: Seq<ModuleRefSymMapping> = Seq::empty();
    let mut pos: usize = 0;
    let mut depth: u32 = 0;
    let mut err: Option<SortModuleSymsError> = None;
    let len = out.len();
    loop
        invariant_except_break
            err is None,
            ({
                let rest = module_fix_scope(
                    out@.skip(base as int),
                    pos as int,
                    depth as int,
                    base as int,
                    old_base as int,
                    old_module,
                    new_module,
                );
                f == (rest.0, acc + rest.1, rest.2)
            }),
        invariant
            out@.len() == len,
            base <= len <= u32::MAX,
            old_base + (len - base) <= u32::MAX,
            base + pos <= len,
            depth <= pos,
            out@.take(base as int) == prefix,
            remapping@ == r0 + acc,
        ensures
            err is None ==> !(pos < len - base && has_record(out@.skip(base as int).skip(pos as int)))
                && ({
                let rest = module_fix_scope(
                    out@.skip(base as int),
                    pos as int,
                    depth as int,
                    base as int,
                    old_base as int,
                    old_module,
                    new_module,
                );
                f == (rest.0, acc + rest.1, rest.2)
            }),
            err matches Some(e) ==> f.1 == acc && f.2 == Some(e),
        decreases len - base - pos,
    {
        proof {
            assert(out@.skip(base as int).skip(pos as int) =~= out@.skip(base + pos));
        }
        let at_pos = record_at_pos(out.as_slice(), base + pos);
        if at_pos.is_none() {
            break;
        }
        let ghost d = out@.skip(base as int);
        let ghost acc_before = acc;
        let ghost rem_before = remapping@;
        match module_fix_step_exec(out, base, pos, depth, old_base, old_module, new_module, remapping) {
            Ok(dd) => {
                proof {
                    let step = module_fix_step(d, pos as int, depth as int, base as int, old_base as int, old_module, new_module);
                    acc = acc_before + (remapping@.skip(rem_before.len() as int));
                    assert(remapping@.skip(rem_before.len() as int) =~= step->Continue_maps);
                    assert(acc_before + step->Continue_maps + module_fix_scope(out@.skip(base as int), (pos + at_pos.unwrap().1) as int, dd as int, base as int, old_base as int, old_module, new_module).1 =~= acc_before + (step->Continue_maps + module_fix_scope(out@.skip(base as int), (pos + at_pos.unwrap().1) as int, dd as int, base as int, old_base as int, old_module, new_module).1));
                    assert(remapping@ =~= r0 + acc);
                }
                depth = dd;
                pos = pos + at_pos.unwrap().1;
            },
            Err(e) => {
                proof {
                    let step = module_fix_step(d, pos as int, depth as int, base as int, old_base as int, old_module, new_module);
                    acc = acc_before + step->Stop_maps;
                    assert(remapping@ =~= r0 + acc);
                    assert(module_fix_scope(d, pos as int, depth as int, base as int, old_base as int, old_module, new_module) == (d, step->Stop_maps, Some(e)));
                }
                err = Some(e);
                break;
            },
        }
    }
    if let Some(e) = err {
        return Err(e);
    }
    proof {
        assert(acc + Seq::<ModuleRefSymMapping>::empty() =~= acc);
        assert(out@ =~= prefix + out@.skip(base as int));
    }
    Ok(())
}

/// The scope starts, followed by the length of the stream, divide the stream into scopes that
/// each begin with a complete record.
proof fn lemma_scope_bounds(e: Seq<u8>, st: Seq<u32>)
    requires
        valid_scope_starts(e, st, e.len() as int),
        e.len() <= u32::MAX,
    ensures
        valid_starts(st.push(e.len() as u32), e.len() as int),
        forall|i: int, j: int|
            0 <= i < j < st.len() + 1 ==> #[trigger] st.push(e.len() as u32)[i] + record_size(
                e.skip(st[i] as int),
            ) <= #[trigger] st.push(e.len() as u32)[j],
        st.len() > 0 ==> st[0] >= 4,
        st.len() <= e.len(),
{
    let b = st.push(e.len() as u32);
    let n = st.len() as int;
    if n > 0 {
        assert(st.last() == st[n - 1]);
    }
    assert forall|i: int, j: int| 0 <= i < j < n + 1 implies #[trigger] b[i] + record_size(
        e.skip(st[i] as int),
    ) <= #[trigger] b[j] by {
        assert(b[i] == st[i]);
        if j < n {
            assert(b[j] == st[j]);
        } else if i < n - 1 {
            assert(st[i] + record_size(e.skip(st[i] as int)) <= st[n - 1]);
        }
    }
    assert forall|i: int, j: int| 0 <= i <= j < b.len() implies b[i] <= b[j] by {
        if i < j {
            assert(b[i] + record_size(e.skip(st[i] as int)) <= b[j]);
        }
    }
    assert forall|q: int| 0 <= q < n implies #[trigger] b[q] < b[q + 1] by {
        assert(b[q] + record_size(e.skip(st[q] as int)) <= b[q + 1]);
    }
    lemma_bounds_ge_index(b, n, n);
}

/// Whether the first record of every scope can be decoded, as sorting in mode `mode` needs.
pub open spec fn scope_keys_decode(mode: SymbolSortingMode, e: Seq<u8>, bounds: Seq<u32>) -> bool {
    mode == SymbolSortingMode::KindName ==> forall|i: int|
        0 <= i < bounds.len() - 1 ==> {
            let r = #[trigger] record_at(e, bounds, i);
            sym_decodes(record_kind(r), record_payload(r))
        }
}

/// A result with the output viewed as a sequence.
pub open spec fn bytes_result_view(r: Result<Vec<u8>, SortModuleSymsError>) -> Result<
    Seq<u8>,
    SortModuleSymsError,
> {
    match r {
        Ok(v) => Ok(v@),
        Err(e) => Err(e),
    }
}

/// What the second pass of sorting a module symbol stream produces, given the order in which
/// its scopes are written: the scopes are in key order, and the mappings and the result are
/// those of `module_assemble`.
pub open spec fn module_sort_output(
    mode: SymbolSortingMode,
    e: Seq<u8>,
    bounds: Seq<u32>,
    order: Seq<u32>,
    old_module: u16,
    new_module: u16,
    old_maps: Seq<ModuleRefSymMapping>,
    final_maps: Seq<ModuleRefSymMapping>,
    r: Result<Seq<u8>, SortModuleSymsError>,
) -> bool {
    let n = bounds.len() - 1;
    let a = module_assemble(e, bounds, order, n, old_module, new_module);
    &&& is_permutation(order, n)
    &&& forall|x: int, y: int|
        0 <= x < y < n ==> sym_key_le(
            global_key(mode, record_at(e, bounds, order[x] as int)),
            global_key(mode, record_at(e, bounds, order[y] as int)),
        )
    &&& final_maps == old_maps + a.1
    &&& r == (match a.2 {
        Some(err) => Err(err),
        None => Ok(a.0),
    })
}

/// What sorting the module symbol stream `s` does: `e` is the stream afterwards, `old_maps` and
/// `final_maps` the list of mappings before and after, and `r` the result.
pub open spec fn is_module_sort_of(
    options: SortModuleSymsOptions,
    s: Seq<u8>,
    e: Seq<u8>,
    old_maps: Seq<ModuleRefSymMapping>,
    final_maps: Seq<ModuleRefSymMapping>,
    r: Result<Seq<u8>, SortModuleSymsError>,
    old_module: u16,
    new_module: u16,
) -> bool {
    if s.len() < 4 {
        e == s && final_maps == old_maps && r == Err::<Seq<u8>, SortModuleSymsError>(
            SortModuleSymsError::MissingSignature,
        )
    } else {
        let p1 = module_pass1(options.remove_udt, s, 4, 0, Seq::empty());
        &&& e == p1.0
        &&& match p1.1 {
            Err(err) => final_maps == old_maps && r == Err::<Seq<u8>, SortModuleSymsError>(err),
            Ok(st) => {
                let bounds = st.push(s.len() as u32);
                if !scope_keys_decode(options.sorting_mode, e, bounds) {
                    final_maps == old_maps && r == Err::<Seq<u8>, SortModuleSymsError>(
                        SortModuleSymsError::Undecodable,
                    )
                } else {
                    exists|order: Seq<u32>|
                        #[trigger] module_sort_output(
                            options.sorting_mode,
                            e,
                            bounds,
                            order,
                            old_module,
                            new_module,
                            old_maps,
                            final_maps,
                            r,
                        )
                }
            },
        }
    }
}

/// Whether iterating the records of a module symbol stream stops without meeting a record that
/// runs past the end of the stream.
pub open spec fn module_syms_walkable(s: Seq<u8>) -> bool {
    s.len() >= 4 ==> crate::syms::iter::sym_mut_next_defined(
        s.skip(record_starts_from(s, 4).last()),
    )
}

/// Once assembling the new stream has failed, taking more scopes changes nothing.
proof fn lemma_assemble_err_stable(
    e: Seq<u8>,
    bounds: Seq<u32>,
    order: Seq<u32>,
    k: int,
    n: int,
    old_module: u16,
    new_module: u16,
)
    requires
        0 <= k <= n,
        module_assemble(e, bounds, order, k, old_module, new_module).2 is Some,
    ensures
        module_assemble(e, bounds, order, n, old_module, new_module) == module_assemble(
            e,
            bounds,
            order,
            k,
            old_module,
            new_module,
        ),
    decreases n - k,
{
    if k < n {
        lemma_assemble_err_stable(e, bounds, order, k, n - 1, old_module, new_module);
    }
}

/// Computes the sort key of each scope of a module symbol stream; `None` when the first record
/// of a scope cannot be decoded as the mode needs.
#[verifier::spinoff_prover]
#[verifier::rlimit(50)]
fn module_scope_keys<'a>(mode: SymbolSortingMode, data: &'a [u8], bounds: &Vec<u32>) -> (r: Option<
    Vec<SymSortKey<'a>>,
>)
    requires
        bounds@.len() >= 1,
        data@.len() <= u32::MAX,
        valid_scope_starts(data@, bounds@.drop_last(), data@.len() as int),
        bounds@.last() == data@.len(),
    ensures
        r is Some <==> scope_keys_decode(mode, data@, bounds@),
        r matches Some(keys) ==> keys@.len() == bounds@.len() - 1 && forall|j: int|
            0 <= j < keys@.len() ==> key_at(keys@, j) == global_key(
                mode,
                #[trigger] record_at(data@, bounds@, j),
            ),
{
    let ghost e = data@;
    let ghost st = bounds@.drop_last();
    proof {
        lemma_scope_bounds(e, st);
        assert(bounds@ =~= st.push(e.len() as u32));
    }
    let n = bounds.len() - 1;
    let mut keys: Vec<SymSortKey> = Vec::new();
    let mut i: usize = 0;
    while i < n
        invariant
            e == data@,
            e.len() <= u32::MAX,
            n + 1 == bounds@.len(),
            st == bounds@.drop_last(),
            bounds@ == st.push(e.len() as u32),
            valid_scope_starts(e, st, e.len() as int),
            forall|q: int, r: int|
                0 <= q < r < st.len() + 1 ==> #[trigger] st.push(e.len() as u32)[q] + record_size(
                    e.skip(st[q] as int),
                ) <= #[trigger] st.push(e.len() as u32)[r],
            i <= n,
            keys@.len() == i,
            forall|j: int|
                0 <= j < i ==> key_at(keys@, j) == global_key(
                    mode,
                    #[trigger] record_at(e, bounds@, j),
                ),
            forall|j: int|
                0 <= j < i ==> (mode == SymbolSortingMode::KindName ==> {
                    let rj = #[trigger] record_at(e, bounds@, j);
                    sym_decodes(record_kind(rj), record_payload(rj))
                }),
        decreases n - i,
    {
        proof {
            assert(bounds@[i as int] + record_size(e.skip(st[i as int] as int)) <= bounds@[i + 1]);
            assert(bounds@[i as int] == st[i as int]);
            assert(bounds@[i + 1] <= e.len());
        }
        let rec = vstd::slice::slice_subrange(data, bounds[i] as usize, bounds[i + 1] as usize);
        proof {
            let b0 = bounds@[i as int] as int;
            let rr = record_at(e, bounds@, i as int);
            assert(rec@ == rr);
            assert(rr[0] == e.skip(b0)[0] && rr[1] == e.skip(b0)[1]);
            assert(has_record(rr));
        }
        match global_sort_key(mode, rec) {
            Ok(k) => {
                keys.push(k);
                proof {
                    assert(key_at(keys@, i as int) == key_view(k));
                }
            },
            Err(_) => {
                proof {
                    assert(!({
                        let rj = record_at(e, bounds@, i as int);
                        sym_decodes(record_kind(rj), record_payload(rj))
                    }));
                }
                return None;
            },
        }
        i = i + 1;
    }
    Some(keys)
}

/// Builds the new module symbol stream (see `module_assemble`), adding the mappings found to
/// `remapping`.
fn module_assemble_exec(
    data: &[u8],
    bounds: &Vec<u32>,
    order: &Vec<u32>,
    old_module: u16,
    new_module: u16,
    remapping: &mut Vec<ModuleRefSymMapping>,
) -> (r: Result<Vec<u8>, SortModuleSymsError>)
    requires
        4 <= data@.len() <= u32::MAX,
        bounds@.len() >= 1,
        valid_starts(bounds@, data@.len() as int),
        bounds@.len() > 1 ==> bounds@[0] >= 4,
        is_permutation(order@, bounds@.len() - 1),
    ensures
        ({
            let a = module_assemble(data@, bounds@, order@, bounds@.len() - 1, old_module, new_module);
            &&& final(remapping)@ == old(remapping)@ + a.1
            &&& bytes_result_view(r) == (match a.2 {
                Some(err) => Err(err),
                None => Ok(a.0),
            })
        }),
{
    let ghost e = data@;
    let n = bounds.len() - 1;
    let len = data.len();
    proof {
        lemma_lens_sum_permutation(bounds@, order@, n as int);
        assert(order@.take(0) =~= Seq::<u32>::empty());
    }
    let mut out: Vec<u8> = Vec::new();
    out.extend_from_slice(vstd::slice::slice_subrange(data, 0, 4));
    proof {
        assert(out@ =~= e.take(4));
    }
    let ghost m0 = remapping@;
    let mut k: usize = 0;
    let mut fix_err: Option<SortModuleSymsError> = None;
    while k < n
        invariant_except_break
            fix_err is None,
            out@.len() == 4 + record_lens_sum(bounds@, order@.take(k as int)),
            ({
                let a = module_assemble(e, bounds@, order@, k as int, old_module, new_module);
                &&& out@ == a.0
                &&& remapping@ == m0 + a.1
                &&& a.2 is None
            }),
        invariant
            e == data@,
            len == e.len(),
            e.len() <= u32::MAX,
            n + 1 == bounds@.len(),
            valid_starts(bounds@, len as int),
            n > 0 ==> bounds@[0] >= 4,
            is_permutation(order@, n as int),
            k <= n,
            record_lens_sum(bounds@, order@) == bounds@[n as int] - bounds@[0],
        ensures
            fix_err is None ==> k == n && ({
                let a = module_assemble(e, bounds@, order@, k as int, old_module, new_module);
                &&& out@ == a.0
                &&& remapping@ == m0 + a.1
                &&& a.2 is None
            }),
            fix_err matches Some(err) ==> {
                let a = module_assemble(e, bounds@, order@, (k + 1) as int, old_module, new_module);
                &&& k < n
                &&& a.2 == Some(err)
                &&& remapping@ == m0 + a.1
            },
        decreases n - k,
    {
        let idx = order[k] as usize;
        proof {
            assert(bounds@[idx as int] <= bounds@[idx + 1] <= len);
            lemma_lens_sum_prefix(bounds@, order@, k + 1);
            assert(order@.take(k + 1).drop_last() =~= order@.take(k as int));
            assert(order@.take(k + 1).last() == order@[k as int]);
        }
        let data_k = vstd::slice::slice_subrange(data, bounds[idx] as usize, bounds[idx + 1] as usize);
        let base = out.len();
        out.extend_from_slice(data_k);
        proof {
            assert(out@.skip(base as int) =~= record_at(e, bounds@, idx as int));
            assert(out@.take(base as int) =~= module_assemble(
                e,
                bounds@,
                order@,
                k as int,
                old_module,
                new_module,
            ).0);
        }
        match module_fix_scope_exec(&mut out, base, bounds[idx], old_module, new_module, remapping) {
            Ok(()) => {},
            Err(err) => {
                fix_err = Some(err);
                break;
            },
        }
        k = k + 1;
    }
    if let Some(err) = fix_err {
        proof {
            lemma_assemble_err_stable(e, bounds@, order@, (k + 1) as int, n as int, old_module, new_module);
        }
        return Err(err);
    }
    Ok(out)
}

/// Sorts the records in `syms_data`, a module symbol stream (which includes the 4-byte signature
/// at the start). It should not be used with the Global Symbol Stream.
///
/// Some symbols "contain" other symbols; that is, they form a hierarchy of scopes. The records
/// are grouped into top-level scopes; the scopes are sorted, and the records within a scope are
/// not reordered. The `p_parent` and `p_end` pointers of the records that start blocks are
/// adjusted to the new positions.
///
/// As a side effect, the pointers in `syms_data` are converted to distances from their records.
/// For each record that can be the target of a reference from the Global Symbol Stream, a
/// mapping from its old offset to its new one is added to `module_refsym_remapping`.
pub fn sort_module_syms(
    options: &SortModuleSymsOptions,
    syms_data: &mut [u8],
    old_module: u16,
    new_module: u16,
    module_refsym_remapping: &mut Vec<ModuleRefSymMapping>,
) -> (r: Result<Vec<u8>, SortModuleSymsError>)
    requires
        old(syms_data)@.len() <= u32::MAX,
        module_syms_walkable(old(syms_data)@),
    ensures
        is_module_sort_of(
            *options,
            old(syms_data)@,
            final(syms_data)@,
            old(module_refsym_remapping)@,
            final(module_refsym_remapping)@,
            bytes_result_view(r),
            old_module,
            new_module,
        ),
{
    if syms_data.len() < 4 {
        return Err(SortModuleSymsError::MissingSignature);
    }
    let starts = match module_pass1_exec(options.remove_udt, syms_data) {
        Ok(st) => st,
        Err(e) => {
            return Err(e);
        },
    };
    let ghost e = syms_data@;
    let ghost st = starts@;
    let len = syms_data.len();
    let mut bounds = starts;
    bounds.push(len as u32);
    proof {
        lemma_scope_bounds(e, st);
        assert(bounds@ == st.push(len as u32));
        assert(bounds@.drop_last() =~= st);
    }
    let mode = options.sorting_mode;
    let keys = match module_scope_keys(mode, &*syms_data, &bounds) {
        Some(k) => k,
        None => {
            return Err(SortModuleSymsError::Undecodable);
        },
    };
    let order = sort_sym_keys(&keys);
    let ghost m0 = module_refsym_remapping@;
    let r = module_assemble_exec(&*syms_data, &bounds, &order, old_module, new_module, module_refsym_remapping);
    proof {
        let n = bounds@.len() - 1;
        assert forall|x: int, y: int| 0 <= x < y < n implies sym_key_le(
            global_key(mode, record_at(e, bounds@, order@[x] as int)),
            global_key(mode, record_at(e, bounds@, order@[y] as int)),
        ) by {
            assert(key_at(keys@, order@[x] as int) == global_key(mode, record_at(e, bounds@, order@[x] as int)));
            assert(key_at(keys@, order@[y] as int) == global_key(mode, record_at(e, bounds@, order@[y] as int)));
        }
        assert(module_sort_output(
            mode,
            e,
            bounds@,
            order@,
            old_module,
            new_module,
            m0,
            module_refsym_remapping@,
            bytes_result_view(r),
        ));
    }
    r
}

} // verus!
