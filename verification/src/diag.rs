//! Diagnostics (warnings and errors)

use vstd::prelude::*;
use crate::dump_utils::{hex_dump_text, HexDump, HexDumpSettings, HexDumpStyle};
use crate::text::{dec_chars, hex_padded, push_dec, push_hex, push_str};

verus! {

/// The number of warnings after which no more are recorded.
pub const MAX_WARNINGS: u32 = 100;

/// A place that a diagnostic refers to.
pub enum DiagRef {
    /// A stream, by its index.
    Stream(u32),
    /// A byte offset within a stream.
    StreamAt(u32, u32),
    /// A module, by its index and name.
    Module { module_index: u32, name: String },
    /// Some data, and the offset at which it starts.
    Bytes(Vec<u8>, usize),
}

/// One error or warning, with the places that it refers to.
pub struct Diag {
    /// The text of the diagnostic.
    pub message: String,
    /// Whether this is an error (rather than a warning).
    pub is_error: bool,
    /// The places that the diagnostic refers to.
    pub refs: Vec<DiagRef>,
}

/// A collection of diagnostics, with a limit on the number of errors and warnings recorded.
pub struct Diags {
    /// The number of errors recorded.
    pub num_errors: u32,
    /// The number of warnings recorded.
    pub num_warnings: u32,
    /// The number of errors after which no more are recorded.
    pub max_errors: u32,
    /// The diagnostics, in the order in which they were recorded.
    pub diags: Vec<Diag>,
}

/// A new diagnostic without references.
pub open spec fn fresh_diag(message: Seq<char>, is_error: bool, d: Diag) -> bool {
    &&& d.message@ == message
    &&& d.is_error == is_error
    &&& d.refs@.len() == 0
}

impl Diags {
    /// No diagnostics yet, and room for 20 errors.
    pub fn new() -> (d: Self)
        ensures
            d.num_errors == 0,
            d.num_warnings == 0,
            d.max_errors == 20,
            d.diags@.len() == 0,
    {
        Diags { num_errors: 0, num_warnings: 0, max_errors: 20, diags: Vec::new() }
    }

    /// True if an error has been recorded.
    pub fn has_errors(&self) -> (b: bool)
        ensures
            b == (self.num_errors != 0),
    {
        self.num_errors != 0
    }

    /// True if a warning has been recorded.
    pub fn has_warnings(&self) -> (b: bool)
        ensures
            b == (self.num_warnings != 0),
    {
        self.num_warnings != 0
    }

    /// True if another error would be recorded.
    pub fn wants_error(&self) -> (b: bool)
        ensures
            b == (self.num_errors < self.max_errors),
    {
        self.num_errors < self.max_errors
    }

    /// True if another warning would be recorded: the error limit has not been reached and
    /// fewer than 100 warnings have been recorded.
    pub fn wants_warning(&self) -> (b: bool)
        ensures
            b == (self.num_errors < self.max_errors && self.num_warnings < MAX_WARNINGS),
    {
        self.num_errors < self.max_errors && self.num_warnings < MAX_WARNINGS
    }

    /// Records an error, unless the error limit has been reached.
    pub fn error(&mut self, msg: &str)
        ensures
            final(self).max_errors == old(self).max_errors,
            final(self).num_warnings == old(self).num_warnings,
            old(self).num_errors < old(self).max_errors ==> {
                &&& final(self).num_errors == old(self).num_errors + 1
                &&& final(self).diags@.len() == old(self).diags@.len() + 1
                &&& final(self).diags@.take(old(self).diags@.len() as int) == old(self).diags@
                &&& fresh_diag(msg@, true, final(self).diags@.last())
            },
            old(self).num_errors >= old(self).max_errors ==> final(self).num_errors == old(self).num_errors
                && final(self).diags@ == old(self).diags@,
    {
        if !self.wants_error() {
            return;
        }
        self.num_errors = self.num_errors + 1;
        self.diags.push(Diag { message: msg.to_owned(), is_error: true, refs: Vec::new() });
        assert(self.diags@.take(old(self).diags@.len() as int) =~= old(self).diags@);
    }

    /// Records an error, whatever the error limit, and gives access to it so that references can
    /// be added.
    pub fn error_with(&mut self, msg: &str) -> (d: &mut Diag)
        requires
            old(self).num_errors < u32::MAX,
        ensures
            fresh_diag(msg@, true, *d),
            final(self).num_errors == old(self).num_errors + 1,
            final(self).num_warnings == old(self).num_warnings,
            final(self).max_errors == old(self).max_errors,
            final(self).diags@ == old(self).diags@.push(*final(d)),
    {
        self.num_errors = self.num_errors + 1;
        self.diags.push(Diag { message: msg.to_owned(), is_error: true, refs: Vec::new() });
        let n = self.diags.len();
        &mut self.diags[n - 1]
    }

    /// Records an error and gives access to it, unless the error limit has been reached.
    pub fn error_opt(&mut self, msg: &str) -> (r: Option<&mut Diag>)
        ensures
            final(self).num_warnings == old(self).num_warnings,
            final(self).max_errors == old(self).max_errors,
            old(self).num_errors < old(self).max_errors ==> (r matches Some(d) && fresh_diag(msg@, true, *d)
                && final(self).num_errors == old(self).num_errors + 1
                && final(self).diags@ == old(self).diags@.push(*final(d))),
            old(self).num_errors >= old(self).max_errors ==> r is None && final(self).num_errors
                == old(self).num_errors && final(self).diags@ == old(self).diags@,
    {
        if self.wants_error() {
            Some(self.error_with(msg))
        } else {
            None
        }
    }

    /// Records a warning and gives access to it, unless the error limit or the warning limit has
    /// been reached.
    pub fn warning(&mut self, msg: &str) -> (r: Option<&mut Diag>)
        ensures
            final(self).num_errors == old(self).num_errors,
            final(self).max_errors == old(self).max_errors,
            (old(self).num_errors < old(self).max_errors && old(self).num_warnings < MAX_WARNINGS)
                ==> (r matches Some(d) && fresh_diag(msg@, false, *d) && final(self).num_warnings
                == old(self).num_warnings + 1 && final(self).diags@ == old(self).diags@.push(
                *final(d),
            )),
            !(old(self).num_errors < old(self).max_errors && old(self).num_warnings < MAX_WARNINGS)
                ==> r is None && final(self).num_warnings == old(self).num_warnings
                && final(self).diags@ == old(self).diags@,
    {
        if !self.wants_warning() {
            return None;
        }
        self.num_warnings = self.num_warnings + 1;
        self.diags.push(Diag { message: msg.to_owned(), is_error: false, refs: Vec::new() });
        let n = self.diags.len();
        Some(&mut self.diags[n - 1])
    }

    /// The text of all diagnostics, one after another.
    pub fn to_string(&self) -> (s: String)
        requires
            forall|i: int| 0 <= i < self.diags@.len() ==> (#[trigger] self.diags@[i]).printable(),
        ensures
            s@ == diags_text(self.diags@),
    {
        let mut s = String::new();
        let mut i: usize = 0;
        assert(self.diags@.take(0) =~= Seq::<Diag>::empty());
        while i < self.diags.len()
            invariant
                i <= self.diags@.len(),
                forall|j: int| 0 <= j < self.diags@.len() ==> (#[trigger] self.diags@[j]).printable(),
                s@ == diags_text(self.diags@.take(i as int)),
            decreases self.diags@.len() - i,
        {
            let t = self.diags[i].to_string();
            push_str(&mut s, t.as_str());
            assert(self.diags@.take(i + 1).drop_last() =~= self.diags@.take(i as int));
            i = i + 1;
        }
        assert(self.diags@.take(self.diags@.len() as int) =~= self.diags@);
        s
    }
}

/// Recording the messages `ms` (each an error or a warning, with its text), one after another,
/// on diagnostics that hold `num_errors` errors and `num_warnings` warnings: the new counts, and
/// the messages that were kept (the others were dropped by the limits).
pub open spec fn kept_messages(num_errors: int, num_warnings: int, max_errors: int, ms: Seq<(bool, Seq<char>)>) -> (int, int, Seq<(bool, Seq<char>)>)
    decreases ms.len(),
{
    if ms.len() == 0 {
        (num_errors, num_warnings, Seq::empty())
    } else {
        let prev = kept_messages(num_errors, num_warnings, max_errors, ms.drop_last());
        let m = ms.last();
        if m.0 {
            if prev.0 < max_errors {
                (prev.0 + 1, prev.1, prev.2.push(m))
            } else {
                prev
            }
        } else {
            if prev.0 < max_errors && prev.1 < MAX_WARNINGS {
                (prev.0, prev.1 + 1, prev.2.push(m))
            } else {
                prev
            }
        }
    }
}

/// The view of a list of messages.
pub open spec fn messages_view(ms: Seq<(bool, String)>) -> Seq<(bool, Seq<char>)> {
    ms.map_values(|m: (bool, String)| (m.0, m.1@))
}

/// `ds` holds, after `before`, a fresh diagnostic for each of the messages `kept`.
pub open spec fn records_messages(ds: Seq<Diag>, before: Seq<Diag>, kept: Seq<(bool, Seq<char>)>) -> bool {
    &&& ds.len() == before.len() + kept.len()
    &&& ds.take(before.len() as int) == before
    &&& forall|j: int|
        0 <= j < kept.len() ==> fresh_diag(kept[j].1, kept[j].0, #[trigger] ds[before.len() + j])
}

impl Diags {
    /// Records each of the messages `ms` in turn, as an error or as a warning, within the
    /// limits.
    pub fn report_all(&mut self, ms: &Vec<(bool, String)>)
        ensures
            ({
                let k = kept_messages(
                    old(self).num_errors as int,
                    old(self).num_warnings as int,
                    old(self).max_errors as int,
                    messages_view(ms@),
                );
                &&& final(self).num_errors == k.0
                &&& final(self).num_warnings == k.1
                &&& final(self).max_errors == old(self).max_errors
                &&& records_messages(final(self).diags@, old(self).diags@, k.2)
            }),
    {
        let ghost e0 = self.num_errors as int;
        let ghost w0 = self.num_warnings as int;
        let ghost m0 = self.max_errors as int;
        let ghost d0 = self.diags@;
        let ghost msv = messages_view(ms@);
        let mut i: usize = 0;
        assert(msv.take(0) =~= Seq::<(bool, Seq<char>)>::empty());
        assert(self.diags@.take(d0.len() as int) =~= d0);
        while i < ms.len()
            invariant
                i <= ms@.len(),
                msv == messages_view(ms@),
                e0 == old(self).num_errors,
                w0 == old(self).num_warnings,
                m0 == old(self).max_errors,
                d0 == old(self).diags@,
                self.max_errors == m0,
                ({
                    let k = kept_messages(e0, w0, m0, msv.take(i as int));
                    &&& self.num_errors == k.0
                    &&& self.num_warnings == k.1
                    &&& records_messages(self.diags@, d0, k.2)
                }),
            decreases ms@.len() - i,
        {
            let ghost prev = kept_messages(e0, w0, m0, msv.take(i as int));
            let ghost before = self.diags@;
            let is_error = ms[i].0;
            if is_error {
                self.error(ms[i].1.as_str());
            } else {
                let _ = self.warning(ms[i].1.as_str());
            }
            proof {
                assert(msv.take(i + 1) =~= msv.take(i as int).push(msv[i as int]));
                assert(msv.take(i + 1).drop_last() =~= msv.take(i as int));
                let k = kept_messages(e0, w0, m0, msv.take(i + 1));
                assert(self.diags@.take(before.len() as int) == before);
                assert forall|j: int| 0 <= j < k.2.len() implies fresh_diag(
                    k.2[j].1,
                    k.2[j].0,
                    #[trigger] self.diags@[d0.len() + j],
                ) by {
                    if j < prev.2.len() {
                        assert(self.diags@[d0.len() + j] == before[d0.len() + j]);
                    }
                }
                assert(self.diags@.take(d0.len() as int) =~= d0) by {
                    assert forall|q: int| 0 <= q < d0.len() implies self.diags@[q] == before[q] by {}
                }
            }
            i = i + 1;
        }
        assert(msv.take(ms@.len() as int) =~= msv);
    }
}

/// The number of errors among `n` that are recorded when `num_errors` have been recorded and the
/// limit is `max_errors`.
pub open spec fn num_recorded_errors(num_errors: int, max_errors: int, n: int) -> int {
    if num_errors >= max_errors {
        0
    } else if n < max_errors - num_errors {
        n
    } else {
        max_errors - num_errors
    }
}

impl Diags {
    /// Records each of the errors `es` in turn, within the error limit; each refers to a byte
    /// offset of stream `stream`.
    pub fn report_errors_at(&mut self, stream: u32, es: &Vec<(String, u32)>)
        ensures
            ({
                let k = num_recorded_errors(
                    old(self).num_errors as int,
                    old(self).max_errors as int,
                    es@.len() as int,
                );
                let n0 = old(self).diags@.len();
                &&& final(self).num_errors == old(self).num_errors + k
                &&& final(self).num_warnings == old(self).num_warnings
                &&& final(self).max_errors == old(self).max_errors
                &&& final(self).diags@.len() == n0 + k
                &&& final(self).diags@.take(n0 as int) == old(self).diags@
                &&& forall|j: int|
                    0 <= j < k ==> {
                        let d = #[trigger] final(self).diags@[n0 + j];
                        &&& d.message@ == es@[j].0@
                        &&& d.is_error
                        &&& d.refs@ == seq![DiagRef::StreamAt(stream, es@[j].1)]
                    }
            }),
    {
        let ghost e0 = self.num_errors as int;
        let ghost d0 = self.diags@;
        let mut i: usize = 0;
        assert(self.diags@.take(d0.len() as int) =~= d0);
        while i < es.len()
            invariant
                i <= es@.len(),
                e0 == old(self).num_errors,
                d0 == old(self).diags@,
                self.max_errors == old(self).max_errors,
                self.num_warnings == old(self).num_warnings,
                self.num_errors == e0 + num_recorded_errors(e0, self.max_errors as int, i as int),
                self.diags@.len() == d0.len() + num_recorded_errors(e0, self.max_errors as int, i as int),
                self.diags@.take(d0.len() as int) == d0,
                forall|j: int|
                    0 <= j < num_recorded_errors(e0, self.max_errors as int, i as int) ==> {
                        let d = #[trigger] self.diags@[d0.len() + j];
                        &&& d.message@ == es@[j].0@
                        &&& d.is_error
                        &&& d.refs@ == seq![DiagRef::StreamAt(stream, es@[j].1)]
                    },
            decreases es@.len() - i,
        {
            let ghost before = self.diags@;
            match self.error_opt(es[i].0.as_str()) {
                Some(d) => {
                    let _ = d.stream_at(stream, es[i].1);
                },
                None => {},
            }
            proof {
                assert(self.diags@.take(d0.len() as int) =~= d0) by {
                    assert forall|q: int| 0 <= q < d0.len() implies self.diags@[q] == before[q] by {}
                }
                let k = num_recorded_errors(e0, self.max_errors as int, i + 1);
                assert forall|j: int| 0 <= j < k implies {
                    let d = #[trigger] self.diags@[d0.len() + j];
                    &&& d.message@ == es@[j].0@
                    &&& d.is_error
                    &&& d.refs@ == seq![DiagRef::StreamAt(stream, es@[j].1)]
                } by {
                    if j < num_recorded_errors(e0, self.max_errors as int, i as int) {
                        assert(self.diags@[d0.len() + j] == before[d0.len() + j]);
                    } else {
                        assert(self.diags@[d0.len() + j].refs@ =~= seq![DiagRef::StreamAt(stream, es@[j].1)]);
                    }
                }
            }
            i = i + 1;
        }
    }
}

/// The text of a sequence of diagnostics.
pub open spec fn diags_text(ds: Seq<Diag>) -> Seq<char>
    decreases ds.len(),
{
    if ds.len() == 0 {
        Seq::empty()
    } else {
        diags_text(ds.drop_last()) + diag_text(ds.last())
    }
}

/// The settings of the dump of referenced bytes: at most 0x200 bytes, shown from `offset`.
pub open spec fn bytes_dump_settings(data: Seq<u8>, offset: usize) -> HexDumpSettings {
    HexDumpSettings {
        bytes: if data.len() <= 0x200 {
            data
        } else {
            data.take(0x200)
        },
        start: offset as nat,
        show_chars: true,
        show_header: false,
        row_len: 16,
        style: HexDumpStyle::Normal,
    }
}

/// The text of one reference.
pub open spec fn diag_ref_text(r: DiagRef) -> Seq<char> {
    match r {
        DiagRef::Bytes(data, offset) => "  bytes:\n"@ + hex_dump_text(bytes_dump_settings(data@, offset))
            + "\n"@,
        DiagRef::Module { module_index, name } => "  module: #"@ + dec_chars(module_index as nat)
            + " - "@ + name@ + "\n"@,
        DiagRef::Stream(stream) => "  stream: "@ + dec_chars(stream as nat) + "\n"@,
        DiagRef::StreamAt(stream, offset) => "  stream: "@ + dec_chars(stream as nat)
            + " at offset 0x"@ + hex_padded(offset as nat, 0) + "\n"@,
    }
}

/// The text of a sequence of references.
pub open spec fn diag_refs_text(refs: Seq<DiagRef>) -> Seq<char>
    decreases refs.len(),
{
    if refs.len() == 0 {
        Seq::empty()
    } else {
        diag_refs_text(refs.drop_last()) + diag_ref_text(refs.last())
    }
}

/// The text of a diagnostic: its kind and message, then one line per reference (the dump of
/// referenced bytes takes several).
pub open spec fn diag_text(d: Diag) -> Seq<char> {
    (if d.is_error {
        "error: "@
    } else {
        "warning: "@
    }) + d.message@ + "\n"@ + diag_refs_text(d.refs@)
}

/// Whether a referenced range of bytes can be dumped without reaching the end of the address
/// space.
pub open spec fn ref_printable(r: DiagRef) -> bool {
    match r {
        DiagRef::Bytes(data, offset) => offset + 0x200 + 32 <= usize::MAX,
        _ => true,
    }
}

impl DiagRef {
    /// The text of this reference.
    fn to_string(&self) -> (s: String)
        requires
            ref_printable(*self),
        ensures
            s@ == diag_ref_text(*self),
    {
        let mut s = String::new();
        match self {
            DiagRef::Bytes(data, offset) => {
                push_str(&mut s, "  bytes:\n");
                let dump = HexDump::new(data.as_slice()).at(*offset).max(0x200);
                let t = dump.to_string();
                push_str(&mut s, t.as_str());
                push_str(&mut s, "\n");
            },
            DiagRef::Module { module_index, name } => {
                push_str(&mut s, "  module: #");
                push_dec(&mut s, *module_index as u64);
                push_str(&mut s, " - ");
                push_str(&mut s, name.as_str());
                push_str(&mut s, "\n");
            },
            DiagRef::Stream(stream) => {
                push_str(&mut s, "  stream: ");
                push_dec(&mut s, *stream as u64);
                push_str(&mut s, "\n");
            },
            DiagRef::StreamAt(stream, offset) => {
                push_str(&mut s, "  stream: ");
                push_dec(&mut s, *stream as u64);
                push_str(&mut s, " at offset 0x");
                push_hex(&mut s, *offset as u64, 0);
                push_str(&mut s, "\n");
            },
        }
        s
    }
}

impl Diag {
    /// Whether every reference of this diagnostic can be shown.
    pub open spec fn printable(&self) -> bool {
        forall|i: int| 0 <= i < self.refs@.len() ==> ref_printable(#[trigger] self.refs@[i])
    }

    /// Adds a reference to a module.
    pub fn module(&mut self, module_index: u32, name: &str) -> (r: &mut Self)
        ensures
            r.message == old(self).message,
            r.is_error == old(self).is_error,
            r.refs@.len() == old(self).refs@.len() + 1,
            r.refs@.take(old(self).refs@.len() as int) == old(self).refs@,
            r.refs@.last() matches DiagRef::Module { module_index: m, name: n } && m == module_index
                && n@ == name@,
            *final(self) == *final(r),
    {
        self.refs.push(DiagRef::Module { module_index, name: name.to_owned() });
        assert(self.refs@.take(old(self).refs@.len() as int) =~= old(self).refs@);
        self
    }

    /// Adds a reference to a stream.
    pub fn stream(&mut self, stream: u32) -> (r: &mut Self)
        ensures
            r.message == old(self).message,
            r.is_error == old(self).is_error,
            r.refs@ == old(self).refs@.push(DiagRef::Stream(stream)),
            *final(self) == *final(r),
    {
        self.refs.push(DiagRef::Stream(stream));
        self
    }

    /// Adds a reference to a byte offset within a stream.
    pub fn stream_at(&mut self, stream: u32, offset: u32) -> (r: &mut Self)
        ensures
            r.message == old(self).message,
            r.is_error == old(self).is_error,
            r.refs@ == old(self).refs@.push(DiagRef::StreamAt(stream, offset)),
            *final(self) == *final(r),
    {
        self.refs.push(DiagRef::StreamAt(stream, offset));
        self
    }

    /// Adds a copy of some data, which starts at offset 0.
    pub fn bytes(&mut self, bytes: &[u8]) -> (r: &mut Self)
        ensures
            r.message == old(self).message,
            r.is_error == old(self).is_error,
            r.refs@.len() == old(self).refs@.len() + 1,
            r.refs@.take(old(self).refs@.len() as int) == old(self).refs@,
            r.refs@.last() matches DiagRef::Bytes(data, offset) && data@ == bytes@ && offset == 0,
            *final(self) == *final(r),
    {
        self.refs.push(DiagRef::Bytes(vstd::slice::slice_to_vec(bytes), 0));
        assert(self.refs@.take(old(self).refs@.len() as int) =~= old(self).refs@);
        self
    }

    /// Adds a copy of some data, which starts at `offset`.
    pub fn bytes_at(&mut self, offset: usize, bytes: &[u8]) -> (r: &mut Self)
        ensures
            r.message == old(self).message,
            r.is_error == old(self).is_error,
            r.refs@.len() == old(self).refs@.len() + 1,
            r.refs@.take(old(self).refs@.len() as int) == old(self).refs@,
            r.refs@.last() matches DiagRef::Bytes(data, o) && data@ == bytes@ && o == offset,
            *final(self) == *final(r),
    {
        self.refs.push(DiagRef::Bytes(vstd::slice::slice_to_vec(bytes), offset));
        assert(self.refs@.take(old(self).refs@.len() as int) =~= old(self).refs@);
        self
    }

    /// Appends a line to the message: the text of an error.
    pub fn err(&mut self, e: &str) -> (r: &mut Self)
        ensures
            r.message@ == old(self).message@ + "\n"@ + e@,
            r.is_error == old(self).is_error,
            r.refs@ == old(self).refs@,
            *final(self) == *final(r),
    {
        push_str(&mut self.message, "\n");
        push_str(&mut self.message, e);
        self
    }

    /// The text of this diagnostic.
    pub fn to_string(&self) -> (s: String)
        requires
            self.printable(),
        ensures
            s@ == diag_text(*self),
    {
        let mut s = String::new();
        if self.is_error {
            push_str(&mut s, "error: ");
        } else {
            push_str(&mut s, "warning: ");
        }
        push_str(&mut s, self.message.as_str());
        push_str(&mut s, "\n");
        let ghost head = s@;
        let mut i: usize = 0;
        assert(self.refs@.take(0) =~= Seq::<DiagRef>::empty());
        while i < self.refs.len()
            invariant
                i <= self.refs@.len(),
                self.printable(),
                s@ == head + diag_refs_text(self.refs@.take(i as int)),
            decreases self.refs@.len() - i,
        {
            let t = self.refs[i].to_string();
            push_str(&mut s, t.as_str());
            assert(self.refs@.take(i + 1).drop_last() =~= self.refs@.take(i as int));
            i = i + 1;
        }
        assert(self.refs@.take(self.refs@.len() as int) =~= self.refs@);
        s
    }
}

} // verus!
