//! Checking the invariants of C13 Line Data.

use vstd::prelude::*;
use crate::dbi::sources::{strz_at, DbiSourcesSubstream};
use crate::diag::{Diag, DiagRef, Diags, MAX_WARNINGS};
use crate::lines::blocks::{block_file_indexes, LinesSubsection};
use crate::lines::checksum::{checksum_names, checksum_rest, has_checksum, FileChecksumIter};
use crate::lines::subsection::{find_subsection, has_subsection, subsection_data, subsection_kind, subsection_rest, SubsectionIter};
use crate::lines::{
    LineData, DEBUG_S_COFF_SYMBOL_RVA, DEBUG_S_CROSSSCOPEEXPORTS, DEBUG_S_CROSSSCOPEIMPORTS,
    DEBUG_S_FILECHKSMS, DEBUG_S_FRAMEDATA, DEBUG_S_FUNC_MDTOKEN_MAP, DEBUG_S_IL_LINES,
    DEBUG_S_INLINEELINES, DEBUG_S_LINES, DEBUG_S_MERGED_ASSEMBLYINPUT, DEBUG_S_STRINGTABLE,
    DEBUG_S_SYMBOLS, DEBUG_S_TYPE_MDTOKEN_MAP,
};
use crate::names::NameIndex;
use crate::text::{dec_chars, hex_padded, push_dec, push_hex, push_str};

verus! {

/// A problem found in C13 Line Data.
pub enum LineFinding<'a> {
    /// A file checksum record names a different file than the DBI Sources Substream does at the
    /// same position: the name from the sources, then the name from the checksum record.
    NameMismatch(&'a [u8], &'a [u8]),
    /// There are more file checksum records than files of the module in the DBI Sources
    /// Substream.
    TooManyChecksums,
    /// A block of lines refers to a file index at which no file checksum record starts.
    UnknownFileIndex(u32),
    /// A block of lines exists, but there is no file checksums subsection.
    LinesWithoutChecksums,
    /// A `DEBUG_S_STRINGTABLE` subsection (a warning).
    StringTableSubsection,
    /// A `DEBUG_S_SYMBOLS` subsection (a warning).
    SymbolsSubsection,
    /// A subsection of an unknown kind (a warning).
    UnknownSubsection(u32),
}

/// A problem found in C13 Line Data, as a spec value.
pub enum Finding {
    NameMismatch(Seq<u8>, Seq<u8>),
    TooManyChecksums,
    UnknownFileIndex(u32),
    LinesWithoutChecksums,
    StringTableSubsection,
    SymbolsSubsection,
    UnknownSubsection(u32),
}

impl<'a> View for LineFinding<'a> {
    type V = Finding;

    open spec fn view(&self) -> Finding {
        match *self {
            LineFinding::NameMismatch(a, b) => Finding::NameMismatch(a@, b@),
            LineFinding::TooManyChecksums => Finding::TooManyChecksums,
            LineFinding::UnknownFileIndex(i) => Finding::UnknownFileIndex(i),
            LineFinding::LinesWithoutChecksums => Finding::LinesWithoutChecksums,
            LineFinding::StringTableSubsection => Finding::StringTableSubsection,
            LineFinding::SymbolsSubsection => Finding::SymbolsSubsection,
            LineFinding::UnknownSubsection(k) => Finding::UnknownSubsection(k),
        }
    }
}

/// The findings of the file name check, from checksum record `i` on, and whether the names
/// could all be read.
pub open spec fn name_findings(
    names: Seq<u8>,
    source_names: Seq<u8>,
    module_offsets: Seq<u32>,
    checksum_name_indexes: Seq<NameIndex>,
    i: int,
) -> (Seq<Finding>, bool)
    decreases checksum_name_indexes.len() - i,
{
    if i < 0 || i >= checksum_name_indexes.len() {
        (Seq::empty(), true)
    } else {
        match strz_at(names, checksum_name_indexes[i].0 as int) {
            None => (Seq::empty(), false),
            Some(from_checksum) => if i < module_offsets.len() {
                match strz_at(source_names, module_offsets[i] as int) {
                    None => (Seq::empty(), false),
                    Some(from_sources) => {
                        let rest = name_findings(
                            names,
                            source_names,
                            module_offsets,
                            checksum_name_indexes,
                            i + 1,
                        );
                        let here = if from_sources != from_checksum {
                            seq![Finding::NameMismatch(from_sources, from_checksum)]
                        } else {
                            Seq::empty()
                        };
                        (here + rest.0, rest.1)
                    },
                }
            } else {
                (seq![Finding::TooManyChecksums], true)
            },
        }
    }
}

/// The offsets (counted from `base`) at which the checksum records at the start of `s` begin.
pub open spec fn checksum_offsets(s: Seq<u8>, base: int) -> Seq<int>
    decreases s.len(),
{
    if has_checksum(s) {
        seq![base] + checksum_offsets(checksum_rest(s), base + (s.len() - checksum_rest(s).len()))
    } else {
        Seq::empty()
    }
}

/// The findings for the blocks of a `DEBUG_S_LINES` subsection, given their file indexes.
pub open spec fn block_findings(file_indexes: Seq<u32>, has_checksums: bool, starts: Seq<int>) -> Seq<Finding>
    decreases file_indexes.len(),
{
    if file_indexes.len() == 0 {
        Seq::empty()
    } else {
        let fi = file_indexes.last();
        let here = if !has_checksums {
            seq![Finding::LinesWithoutChecksums]
        } else if starts.contains(fi as int) {
            Seq::empty()
        } else {
            seq![Finding::UnknownFileIndex(fi)]
        };
        block_findings(file_indexes.drop_last(), has_checksums, starts) + here
    }
}

/// Whether a subsection kind is one that is known and needs no check.
pub open spec fn is_quiet_kind(k: u32) -> bool {
    k == DEBUG_S_FILECHKSMS || k == DEBUG_S_FRAMEDATA || k == DEBUG_S_INLINEELINES || k
        == DEBUG_S_CROSSSCOPEIMPORTS || k == DEBUG_S_CROSSSCOPEEXPORTS || k == DEBUG_S_IL_LINES || k
        == DEBUG_S_FUNC_MDTOKEN_MAP || k == DEBUG_S_TYPE_MDTOKEN_MAP || k
        == DEBUG_S_MERGED_ASSEMBLYINPUT || k == DEBUG_S_COFF_SYMBOL_RVA
}

/// The findings for one subsection, and whether it could be read.
pub open spec fn one_subsection_findings(k: u32, data: Seq<u8>, has_checksums: bool, starts: Seq<int>) -> (Seq<Finding>, bool) {
    if k == DEBUG_S_LINES {
        if data.len() < 12 {
            (Seq::empty(), false)
        } else {
            (block_findings(block_file_indexes(data.skip(12)), has_checksums, starts), true)
        }
    } else if is_quiet_kind(k) {
        (Seq::empty(), true)
    } else if k == DEBUG_S_STRINGTABLE {
        (seq![Finding::StringTableSubsection], true)
    } else if k == DEBUG_S_SYMBOLS {
        (seq![Finding::SymbolsSubsection], true)
    } else {
        (seq![Finding::UnknownSubsection(k)], true)
    }
}

/// The findings for the subsections at the start of `s`, and whether they could be read.
pub open spec fn subsection_findings(s: Seq<u8>, has_checksums: bool, starts: Seq<int>) -> (Seq<Finding>, bool)
    decreases s.len(),
{
    if has_subsection(s) {
        let here = one_subsection_findings(subsection_kind(s), subsection_data(s), has_checksums, starts);
        if !here.1 {
            (here.0, false)
        } else {
            let rest = subsection_findings(subsection_rest(s), has_checksums, starts);
            (here.0 + rest.0, rest.1)
        }
    } else {
        (Seq::empty(), true)
    }
}

/// All findings for the C13 Line Data of a module, and whether the data could be read: first
/// the file name check, then the subsections.
pub open spec fn line_data_findings(
    names: Seq<u8>,
    source_names: Seq<u8>,
    module_offsets: Seq<u32>,
    line_data: Seq<u8>,
) -> (Seq<Finding>, bool) {
    let ck = find_subsection(line_data, DEBUG_S_FILECHKSMS);
    let nf = match ck {
        Some(b) => name_findings(names, source_names, module_offsets, checksum_names(b), 0),
        None => (Seq::empty(), true),
    };
    if !nf.1 {
        nf
    } else {
        let starts = match ck {
            Some(b) => checksum_offsets(b, 0),
            None => Seq::empty(),
        };
        let sf = subsection_findings(line_data, ck is Some, starts);
        (nf.0 + sf.0, sf.1)
    }
}

/// Whether a finding is an error (rather than a warning).
pub open spec fn finding_is_error(f: Finding) -> bool {
    !(f is StringTableSubsection || f is SymbolsSubsection || f is UnknownSubsection)
}

/// The message of a finding.
pub open spec fn finding_message(f: Finding) -> Seq<char> {
    match f {
        Finding::NameMismatch(_, _) => "Invalid entry in DEBUG_S_FILE_CHECKSUMS. The file names do not match."@,
        Finding::TooManyChecksums => "Invalid entry in DEBUG_S_FILE_CHECKSUMS. There are more entries in this array than there are in the corresponding section of the DBI Sources Substream."@,
        Finding::UnknownFileIndex(fi) => "Invalid block entry in DEBUG_S_LINES. The block has file_index = 0x"@
            + dec_chars(fi as nat)
            + ",\nbut there is no entry in DEBUG_S_FILE_CHECKSUMS with that file_index."@,
        Finding::LinesWithoutChecksums => "DEBUG_S_LINES contains a block, but there is no DEBUG_S_FILE_CHECKSUMS subsection."@,
        Finding::StringTableSubsection => "Module has a DEBUG_S_STRINGTABLE section, which should not be true for a linked module."@,
        Finding::SymbolsSubsection => "Module has a DEBUG_S_SYMBOLS section, which should not be true for a linked module."@,
        Finding::UnknownSubsection(k) => "Module has a C13 Line Data subsection whose kind is not recognized. Kind: 0x"@
            + hex_padded(k as nat, 2),
    }
}

/// Whether a diagnostic records a finding: its kind and message, and, for a file name mismatch,
/// the two names as data.
pub open spec fn diag_records(d: Diag, f: Finding) -> bool {
    &&& d.is_error == finding_is_error(f)
    &&& d.message@ == finding_message(f)
    &&& match f {
        Finding::NameMismatch(a, b) => d.refs@.len() == 2 && (d.refs@[0] matches DiagRef::Bytes(
            x,
            o,
        ) && x@ == a && o == 0) && (d.refs@[1] matches DiagRef::Bytes(y, p) && y@ == b && p == 0),
        _ => d.refs@.len() == 0,
    }
}

/// Recording findings one after another: errors while the error limit has not been reached,
/// warnings while neither limit has. Gives the counts of errors and warnings after, and the
/// findings that were recorded.
pub open spec fn recorded(num_errors: int, num_warnings: int, max_errors: int, fs: Seq<Finding>) -> (int, int, Seq<Finding>)
    decreases fs.len(),
{
    if fs.len() == 0 {
        (num_errors, num_warnings, Seq::empty())
    } else {
        let prev = recorded(num_errors, num_warnings, max_errors, fs.drop_last());
        let f = fs.last();
        if finding_is_error(f) {
            if prev.0 < max_errors {
                (prev.0 + 1, prev.1, prev.2.push(f))
            } else {
                prev
            }
        } else {
            if prev.0 < max_errors && prev.1 < MAX_WARNINGS {
                (prev.0, prev.1 + 1, prev.2.push(f))
            } else {
                prev
            }
        }
    }
}

/// Why the C13 Line Data of a module could not be checked.
#[derive(Copy, Clone, Debug, PartialEq, Eq, Structural)]
pub enum LineCheckError {
    /// The module's range of file name offsets in the DBI Sources Substream is out of bounds.
    BadModuleFiles,
    /// A file name could not be read, or a `DEBUG_S_LINES` subsection is too short.
    Malformed,
}

/// The file name check, from checksum record `i` on.
fn check_names<'a>(
    names: &'a [u8],
    sources: &DbiSourcesSubstream<'a>,
    module_offsets: &[u32],
    cks: &Vec<NameIndex>,
    out: &mut Vec<LineFinding<'a>>,
) -> (ok: bool)
    ensures
        ({
            let nf = name_findings(names@, sources.names(), module_offsets@, cks@, 0);
            &&& final(out)@.map_values(|f: LineFinding<'a>| f@) == old(out)@.map_values(|f: LineFinding<'a>| f@) + nf.0
            &&& ok == nf.1
        }),
{
    let mut i: usize = 0;
    let ghost start = out@.map_values(|f: LineFinding<'a>| f@);
    while i < cks.len()
        invariant
            i <= cks@.len(),
            start == old(out)@.map_values(|f: LineFinding<'a>| f@),
            out@.map_values(|f: LineFinding<'a>| f@) + name_findings(names@, sources.names(), module_offsets@, cks@, i as int).0
                == start + name_findings(names@, sources.names(), module_offsets@, cks@, 0).0,
            name_findings(names@, sources.names(), module_offsets@, cks@, i as int).1
                == name_findings(names@, sources.names(), module_offsets@, cks@, 0).1,
        decreases cks@.len() - i,
    {
        let from_checksum = match strz_in(names, cks[i].0) {
            Some(n) => n,
            None => {
                assert(out@.map_values(|f: LineFinding<'a>| f@) =~= out@.map_values(|f: LineFinding<'a>| f@) + Seq::<Finding>::empty());
                return false;
            },
        };
        if i < module_offsets.len() {
            let from_sources = match sources.get_source_file_name_at(module_offsets[i]) {
                Ok(n) => n,
                Err(_) => {
                    assert(out@.map_values(|f: LineFinding<'a>| f@) =~= out@.map_values(|f: LineFinding<'a>| f@) + Seq::<Finding>::empty());
                    return false;
                },
            };
            if !bytes_equal(from_sources, from_checksum) {
                let ghost before = out@.map_values(|f: LineFinding<'a>| f@);
                out.push(LineFinding::NameMismatch(from_sources, from_checksum));
                assert(out@.map_values(|f: LineFinding<'a>| f@) =~= before.push(Finding::NameMismatch(from_sources@, from_checksum@)));
            }
        } else {
            let ghost before = out@.map_values(|f: LineFinding<'a>| f@);
            out.push(LineFinding::TooManyChecksums);
            assert(out@.map_values(|f: LineFinding<'a>| f@) =~= before.push(Finding::TooManyChecksums));
            return true;
        }
        i = i + 1;
    }
    assert(out@.map_values(|f: LineFinding<'a>| f@) =~= out@.map_values(|f: LineFinding<'a>| f@) + Seq::<Finding>::empty());
    true
}

/// Compares two byte strings.
pub(crate) fn bytes_equal(a: &[u8], b: &[u8]) -> (r: bool)
    ensures
        r == (a@ == b@),
{
    if a.len() != b.len() {
        return false;
    }
    let mut i: usize = 0;
    while i < a.len()
        invariant
            a@.len() == b@.len(),
            i <= a@.len(),
            forall|j: int| 0 <= j < i ==> a@[j] == b@[j],
        decreases a@.len() - i,
    {
        if a[i] != b[i] {
            return false;
        }
        i = i + 1;
    }
    assert(a@ =~= b@);
    true
}

/// The NUL-terminated string at `offset` within `buf`.
fn strz_in<'a>(buf: &'a [u8], offset: u32) -> (r: Option<&'a [u8]>)
    ensures
        r is Some <==> strz_at(buf@, offset as int) is Some,
        r matches Some(s) ==> strz_at(buf@, offset as int) == Some(s@),
{
    let off = offset as usize;
    if off > buf.len() {
        return None;
    }
    let tail = vstd::slice::slice_subrange(buf, off, buf.len());
    let mut p = crate::parser::Parser::new(tail);
    match p.strz() {
        Ok(s) => {
            proof {
                let t = buf@.skip(off as int);
                assert(tail@ =~= t);
                let n = choose|n: int| crate::parser::nul_terminated_len(t, n);
                if n < s@.len() {
                    assert(t[n] == 0);
                } else if n > s@.len() {
                    assert(t[s@.len() as int] == 0);
                }
            }
            Some(s)
        },
        Err(_) => None,
    }
}

/// The offsets at which the checksum records of a file checksums subsection begin.
fn checksum_record_offsets(b: &[u8]) -> (r: Vec<u32>)
    requires
        b@.len() <= u32::MAX,
    ensures
        r@.map_values(|x: u32| x as int) == checksum_offsets(b@, 0),
{
    let mut out: Vec<u32> = Vec::new();
    let mut it = FileChecksumIter::new(b);
    let total = b.len();
    assert(b@.skip(0) =~= b@);
    loop
        invariant
            total == b@.len(),
            total <= u32::MAX,
            it@.len() <= total,
            it@ == b@.skip(total - it@.len()),
            out@.map_values(|x: u32| x as int) + checksum_offsets(it@, total - it@.len()) == checksum_offsets(b@, 0),
        decreases it@.len(),
    {
        let before_len = it.bytes.len();
        let ghost before = it@;
        match it.next() {
            Some(_) => {
                proof {
                    crate::lines::checksum::lemma_checksum_rest_shorter(before);
                    let r = checksum_rest(before);
                    assert(r =~= b@.skip(total - r.len())) by {
                        assert(before.skip(before.len() - r.len()) =~= r);
                    }
                }
                let ghost old_out = out@.map_values(|x: u32| x as int);
                out.push((total - before_len) as u32);
                assert(out@.map_values(|x: u32| x as int) =~= old_out.push(total - before_len));
            },
            None => {
                assert(out@.map_values(|x: u32| x as int) + checksum_offsets(it@, total - it@.len()) =~= out@.map_values(|x: u32| x as int));
                return out;
            },
        }
    }
}


/// Whether `x` is among the values of `v`.
fn contains_u32(v: &Vec<u32>, x: u32) -> (r: bool)
    ensures
        r == v@.map_values(|y: u32| y as int).contains(x as int),
{
    let mut i: usize = 0;
    while i < v.len()
        invariant
            i <= v@.len(),
            forall|j: int| 0 <= j < i ==> v@[j] != x,
        decreases v@.len() - i,
    {
        if v[i] == x {
            assert(v@.map_values(|y: u32| y as int)[i as int] == x as int);
            return true;
        }
        i = i + 1;
    }
    proof {
        if v@.map_values(|y: u32| y as int).contains(x as int) {
            let m = v@.map_values(|y: u32| y as int);
            let j = choose|j: int| 0 <= j < m.len() && #[trigger] m[j] == x as int;
            assert(v@[j] == x);
        }
    }
    false
}

/// The findings for the blocks of a `DEBUG_S_LINES` subsection.
fn check_blocks<'a>(
    file_indexes: &Vec<u32>,
    has_checksums: bool,
    starts: &Vec<u32>,
    out: &mut Vec<LineFinding<'a>>,
)
    ensures
        final(out)@.map_values(|f: LineFinding<'a>| f@) == old(out)@.map_values(|f: LineFinding<'a>| f@)
            + block_findings(file_indexes@, has_checksums, starts@.map_values(|y: u32| y as int)),
{
    let ghost start = old(out)@.map_values(|f: LineFinding<'a>| f@);
    let ghost st = starts@.map_values(|y: u32| y as int);
    let mut i: usize = 0;
    assert(file_indexes@.take(0) =~= Seq::<u32>::empty());
    while i < file_indexes.len()
        invariant
            i <= file_indexes@.len(),
            start == old(out)@.map_values(|f: LineFinding<'a>| f@),
            st == starts@.map_values(|y: u32| y as int),
            out@.map_values(|f: LineFinding<'a>| f@) == start + block_findings(file_indexes@.take(i as int), has_checksums, st),
        decreases file_indexes@.len() - i,
    {
        let fi = file_indexes[i];
        let ghost before = out@.map_values(|f: LineFinding<'a>| f@);
        assert(file_indexes@.take(i + 1).drop_last() =~= file_indexes@.take(i as int));
        if !has_checksums {
            out.push(LineFinding::LinesWithoutChecksums);
            assert(out@.map_values(|f: LineFinding<'a>| f@) =~= before.push(Finding::LinesWithoutChecksums));
        } else if !contains_u32(starts, fi) {
            out.push(LineFinding::UnknownFileIndex(fi));
            assert(out@.map_values(|f: LineFinding<'a>| f@) =~= before.push(Finding::UnknownFileIndex(fi)));
        } else {
            assert(out@.map_values(|f: LineFinding<'a>| f@) =~= before + Seq::<Finding>::empty());
        }
        i = i + 1;
    }
    assert(file_indexes@.take(file_indexes@.len() as int) =~= file_indexes@);
}

/// The findings for the subsections.
fn check_subsections<'a>(
    line_data: &'a [u8],
    has_checksums: bool,
    starts: &Vec<u32>,
    out: &mut Vec<LineFinding<'a>>,
) -> (ok: bool)
    ensures
        ({
            let sf = subsection_findings(line_data@, has_checksums, starts@.map_values(|y: u32| y as int));
            &&& final(out)@.map_values(|f: LineFinding<'a>| f@) == old(out)@.map_values(|f: LineFinding<'a>| f@) + sf.0
            &&& ok == sf.1
        }),
{
    let ghost start = old(out)@.map_values(|f: LineFinding<'a>| f@);
    let ghost st = starts@.map_values(|y: u32| y as int);
    let mut it = SubsectionIter::new(line_data);
    loop
        invariant
            start == old(out)@.map_values(|f: LineFinding<'a>| f@),
            st == starts@.map_values(|y: u32| y as int),
            out@.map_values(|f: LineFinding<'a>| f@) + subsection_findings(it@, has_checksums, st).0
                == start + subsection_findings(line_data@, has_checksums, st).0,
            subsection_findings(it@, has_checksums, st).1 == subsection_findings(line_data@, has_checksums, st).1,
        decreases it@.len(),
    {
        let ghost s = it@;
        let sub = match it.next() {
            Some(sub) => sub,
            None => {
                assert(out@.map_values(|f: LineFinding<'a>| f@) =~= out@.map_values(|f: LineFinding<'a>| f@) + Seq::<Finding>::empty());
                return true;
            },
        };
        let k = sub.kind.0;
        let ghost before = out@.map_values(|f: LineFinding<'a>| f@);
        if k == DEBUG_S_LINES {
            let lines = match LinesSubsection::parse(sub.data) {
                Ok(l) => l,
                Err(_) => {
                    assert(out@.map_values(|f: LineFinding<'a>| f@) =~= out@.map_values(|f: LineFinding<'a>| f@) + Seq::<Finding>::empty());
                    return false;
                },
            };
            let fis = lines.block_file_indexes();
            check_blocks(&fis, has_checksums, starts, out);
        } else if k == DEBUG_S_FILECHKSMS || k == DEBUG_S_FRAMEDATA || k == DEBUG_S_INLINEELINES || k
            == DEBUG_S_CROSSSCOPEIMPORTS || k == DEBUG_S_CROSSSCOPEEXPORTS || k == DEBUG_S_IL_LINES
            || k == DEBUG_S_FUNC_MDTOKEN_MAP || k == DEBUG_S_TYPE_MDTOKEN_MAP || k
            == DEBUG_S_MERGED_ASSEMBLYINPUT || k == DEBUG_S_COFF_SYMBOL_RVA {
            assert(out@.map_values(|f: LineFinding<'a>| f@) =~= before + Seq::<Finding>::empty());
        } else if k == DEBUG_S_STRINGTABLE {
            out.push(LineFinding::StringTableSubsection);
            assert(out@.map_values(|f: LineFinding<'a>| f@) =~= before + seq![Finding::StringTableSubsection]);
        } else if k == DEBUG_S_SYMBOLS {
            out.push(LineFinding::SymbolsSubsection);
            assert(out@.map_values(|f: LineFinding<'a>| f@) =~= before + seq![Finding::SymbolsSubsection]);
        } else {
            out.push(LineFinding::UnknownSubsection(k));
            assert(out@.map_values(|f: LineFinding<'a>| f@) =~= before + seq![Finding::UnknownSubsection(k)]);
        }
        assert(out@.map_values(|f: LineFinding<'a>| f@) == before + one_subsection_findings(subsection_kind(s), subsection_data(s), has_checksums, st).0);
    }
}

/// Whether recording a finding, with the given counts of errors and warnings so far, records it.
pub open spec fn accepts(num_errors: int, num_warnings: int, max_errors: int, f: Finding) -> bool {
    if finding_is_error(f) {
        num_errors < max_errors
    } else {
        num_errors < max_errors && num_warnings < MAX_WARNINGS
    }
}

/// Recording one more finding continues from the counts that the earlier findings left.
proof fn lemma_recorded_step(e: int, w: int, m: int, s: Seq<Finding>, f: Finding)
    ensures
        ({
            let p = recorded(e, w, m, s);
            let all = recorded(e, w, m, s.push(f));
            if accepts(p.0, p.1, m, f) {
                &&& all.0 == p.0 + (if finding_is_error(f) { 1int } else { 0int })
                &&& all.1 == p.1 + (if finding_is_error(f) { 0int } else { 1int })
                &&& all.2 == p.2.push(f)
            } else {
                all == p
            }
        }),
{
    assert(s.push(f).drop_last() =~= s);
}

/// Records one finding.
fn record_finding<'a>(diags: &mut Diags, f: &LineFinding<'a>)
    ensures
        final(diags).max_errors == old(diags).max_errors,
        final(diags).diags@.take(old(diags).diags@.len() as int) == old(diags).diags@,
        if accepts(old(diags).num_errors as int, old(diags).num_warnings as int, old(diags).max_errors as int, f@) {
            &&& final(diags).num_errors == old(diags).num_errors + (if finding_is_error(f@) { 1int } else { 0int })
            &&& final(diags).num_warnings == old(diags).num_warnings + (if finding_is_error(f@) { 0int } else { 1int })
            &&& final(diags).diags@.len() == old(diags).diags@.len() + 1
            &&& diag_records(final(diags).diags@.last(), f@)
        } else {
            &&& final(diags).num_errors == old(diags).num_errors
            &&& final(diags).num_warnings == old(diags).num_warnings
            &&& final(diags).diags@.len() == old(diags).diags@.len()
        },
{
    let ghost n0 = diags.diags@.len();
    match f {
        LineFinding::NameMismatch(a, b) => {
            match diags.error_opt("Invalid entry in DEBUG_S_FILE_CHECKSUMS. The file names do not match.") {
                Some(d) => {
                    let d2 = d.bytes(a);
                    let d3 = d2.bytes(b);
                    assert(d3.refs@[0] == d2.refs@[0]);
                },
                None => {},
            }
            assert(diags.diags@.take(n0 as int) =~= old(diags).diags@);
        },
        LineFinding::TooManyChecksums => {
            diags.error("Invalid entry in DEBUG_S_FILE_CHECKSUMS. There are more entries in this array than there are in the corresponding section of the DBI Sources Substream.");
        },
        LineFinding::UnknownFileIndex(fi) => {
            let mut msg = String::new();
            push_str(&mut msg, "Invalid block entry in DEBUG_S_LINES. The block has file_index = 0x");
            push_dec(&mut msg, *fi as u64);
            push_str(&mut msg, ",\nbut there is no entry in DEBUG_S_FILE_CHECKSUMS with that file_index.");
            diags.error(msg.as_str());
        },
        LineFinding::LinesWithoutChecksums => {
            diags.error("DEBUG_S_LINES contains a block, but there is no DEBUG_S_FILE_CHECKSUMS subsection.");
        },
        LineFinding::StringTableSubsection => {
            let _ = diags.warning("Module has a DEBUG_S_STRINGTABLE section, which should not be true for a linked module.");
            assert(diags.diags@.take(n0 as int) =~= old(diags).diags@);
        },
        LineFinding::SymbolsSubsection => {
            let _ = diags.warning("Module has a DEBUG_S_SYMBOLS section, which should not be true for a linked module.");
            assert(diags.diags@.take(n0 as int) =~= old(diags).diags@);
        },
        LineFinding::UnknownSubsection(k) => {
            let mut msg = String::new();
            push_str(&mut msg, "Module has a C13 Line Data subsection whose kind is not recognized. Kind: 0x");
            push_hex(&mut msg, *k as u64, 2);
            let _ = diags.warning(msg.as_str());
            assert(diags.diags@.take(n0 as int) =~= old(diags).diags@);
        },
    }
}

/// Records findings in order.
fn record_findings<'a>(diags: &mut Diags, fs: &Vec<LineFinding<'a>>)
    ensures
        ({
            let r = recorded(old(diags).num_errors as int, old(diags).num_warnings as int, old(diags).max_errors as int, fs@.map_values(|f: LineFinding<'a>| f@));
            &&& final(diags).num_errors == r.0
            &&& final(diags).num_warnings == r.1
            &&& final(diags).max_errors == old(diags).max_errors
            &&& final(diags).diags@.len() == old(diags).diags@.len() + r.2.len()
            &&& final(diags).diags@.take(old(diags).diags@.len() as int) == old(diags).diags@
            &&& forall|j: int| 0 <= j < r.2.len() ==> diag_records(#[trigger] final(diags).diags@[old(diags).diags@.len() + j], r.2[j])
        }),
{
    let ghost e0 = diags.num_errors as int;
    let ghost w0 = diags.num_warnings as int;
    let ghost m0 = diags.max_errors as int;
    let ghost n0 = diags.diags@.len();
    let ghost fsv = fs@.map_values(|f: LineFinding<'a>| f@);
    let mut i: usize = 0;
    assert(fsv.take(0) =~= Seq::<Finding>::empty());
    while i < fs.len()
        invariant
            i <= fs@.len(),
            fsv == fs@.map_values(|f: LineFinding<'a>| f@),
            e0 == old(diags).num_errors,
            w0 == old(diags).num_warnings,
            m0 == old(diags).max_errors,
            n0 == old(diags).diags@.len(),
            diags.max_errors == m0,
            ({
                let r = recorded(e0, w0, m0, fsv.take(i as int));
                &&& diags.num_errors == r.0
                &&& diags.num_warnings == r.1
                &&& diags.diags@.len() == n0 + r.2.len()
                &&& diags.diags@.take(n0 as int) == old(diags).diags@
                &&& forall|j: int| 0 <= j < r.2.len() ==> diag_records(#[trigger] diags.diags@[n0 + j], r.2[j])
            }),
        decreases fs@.len() - i,
    {
        let ghost prev = recorded(e0, w0, m0, fsv.take(i as int));
        let ghost before = diags.diags@;
        record_finding(diags, &fs[i]);
        proof {
            assert(fsv.take(i + 1) =~= fsv.take(i as int).push(fs@[i as int]@));
            lemma_recorded_step(e0, w0, m0, fsv.take(i as int), fs@[i as int]@);
            assert(fsv[i as int] == fs@[i as int]@);
            let r = recorded(e0, w0, m0, fsv.take(i + 1));
            assert(diags.diags@.take(before.len() as int) == before);
            assert forall|j: int| 0 <= j < r.2.len() implies diag_records(#[trigger] diags.diags@[n0 + j], r.2[j]) by {
                if j < prev.2.len() {
                    assert(diags.diags@[n0 + j] == before[n0 + j]);
                } else {
                    assert(r.2[j] == fs@[i as int]@);
                    assert(n0 + j == diags.diags@.len() - 1);
                }
            }
            assert(diags.diags@.take(n0 as int) =~= old(diags).diags@) by {
                assert forall|k: int| 0 <= k < n0 implies diags.diags@[k] == before[k] by {}
            }
        }
        i = i + 1;
    }
    assert(fsv.take(fs@.len() as int) =~= fsv);
}

/// Checks the C13 Line Data of a module, and records what is wrong with it in `diags`.
///
/// The files named by the file checksum records must be those of the module in the DBI Sources
/// Substream, in the same order (`names` holds the strings of the names stream, which the
/// checksum records point into); every block of lines must refer to the offset of a checksum
/// record; string table and symbol subsections, and subsections of unknown kinds, are warned
/// about. Nothing is checked once the error limit has been reached.
pub fn check_line_data(
    diags: &mut Diags,
    module_index: usize,
    names: &[u8],
    sources: &DbiSourcesSubstream<'_>,
    c13_line_data_bytes: &[u8],
) -> (r: Result<(), LineCheckError>)
    requires
        module_index < sources.starts().len(),
        sources.starts().len() == sources.counts().len(),
        c13_line_data_bytes@.len() <= u32::MAX,
    ensures
        old(diags).num_errors >= old(diags).max_errors ==> r is Ok && *final(diags) == *old(diags),
        old(diags).num_errors < old(diags).max_errors ==> {
            let start = sources.starts()[module_index as int] as int;
            let count = sources.counts()[module_index as int] as int;
            if start + count > sources.offsets().len() {
                r == Err::<(), LineCheckError>(LineCheckError::BadModuleFiles) && *final(diags) == *old(diags)
            } else {
                let fs = line_data_findings(names@, sources.names(), sources.offsets().subrange(start, start + count), c13_line_data_bytes@);
                let rec = recorded(old(diags).num_errors as int, old(diags).num_warnings as int, old(diags).max_errors as int, fs.0);
                &&& (r is Ok <==> fs.1)
                &&& r is Err ==> r == Err::<(), LineCheckError>(LineCheckError::Malformed)
                &&& final(diags).num_errors == rec.0
                &&& final(diags).num_warnings == rec.1
                &&& final(diags).max_errors == old(diags).max_errors
                &&& final(diags).diags@.len() == old(diags).diags@.len() + rec.2.len()
                &&& final(diags).diags@.take(old(diags).diags@.len() as int) == old(diags).diags@
                &&& forall|j: int| 0 <= j < rec.2.len() ==> diag_records(#[trigger] final(diags).diags@[old(diags).diags@.len() + j], rec.2[j])
            }
        },
{
    if !diags.wants_error() {
        return Ok(());
    }
    let module_offsets = match sources.name_offsets_for_module(module_index) {
        Ok(s) => s,
        Err(_) => {
            return Err(LineCheckError::BadModuleFiles);
        },
    };
    let c13_line_data = LineData::new(c13_line_data_bytes);
    let checksums = c13_line_data.find_checksums_bytes();
    let ghost ck = find_subsection(c13_line_data_bytes@, DEBUG_S_FILECHKSMS);
    let ghost mo = module_offsets@;
    let mut findings: Vec<LineFinding> = Vec::new();
    assert(findings@.map_values(|f: LineFinding| f@) =~= Seq::<Finding>::empty());
    let mut ok = true;
    let mut starts: Vec<u32> = Vec::new();
    match checksums {
        Some(b) => {
            let mut it = FileChecksumIter::new(b);
            let cks = it.names();
            ok = check_names(names, sources, module_offsets, &cks, &mut findings);
            proof {
                crate::lines::subsection::lemma_find_subsection_len(c13_line_data_bytes@, DEBUG_S_FILECHKSMS);
            }
            starts = checksum_record_offsets(b);
            assert(findings@.map_values(|f: LineFinding| f@) =~= name_findings(names@, sources.names(), mo, checksum_names(b@), 0).0);
        },
        None => {
            assert(starts@.map_values(|y: u32| y as int) =~= Seq::<int>::empty());
        },
    }
    let ghost nf = match ck {
        Some(b) => name_findings(names@, sources.names(), mo, checksum_names(b), 0),
        None => (Seq::<Finding>::empty(), true),
    };
    assert(findings@.map_values(|f: LineFinding| f@) == nf.0);
    assert(ok == nf.1);
    if ok {
        let ghost before = findings@.map_values(|f: LineFinding| f@);
        let ok2 = check_subsections(c13_line_data_bytes, checksums.is_some(), &starts, &mut findings);
        ok = ok2;
    }
    assert(findings@.map_values(|f: LineFinding| f@) == line_data_findings(names@, sources.names(), mo, c13_line_data_bytes@).0);
    assert(ok == line_data_findings(names@, sources.names(), mo, c13_line_data_bytes@).1);
    record_findings(diags, &findings);
    if ok {
        Ok(())
    } else {
        Err(LineCheckError::Malformed)
    }
}

} // verus!
