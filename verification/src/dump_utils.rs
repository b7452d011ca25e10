//! Utilities for dumping byte slices as hex, and for displaying lists of integers with runs of
//! consecutive values collapsed into ranges.

use vstd::prelude::*;
use crate::text::{dec_chars, hex_padded, push_char, push_dec, push_hex, push_str};

verus! {

/// Specifies the style to use for `HexDump`
#[derive(Copy, Clone, PartialEq, Eq, Structural, Debug, PartialOrd, Ord)]
pub enum HexDumpStyle {
    /// No `0x` prefix, no comma
    Normal,
    /// Close to compilable Rust syntax
    Rust,
}

impl HexDumpStyle {
    /// The default style, `Normal`.
    pub fn default_style() -> (s: Self)
        ensures
            s == HexDumpStyle::Normal,
    {
        HexDumpStyle::Normal
    }
}

/// Dumps a byte slice. The bytes are formatted into rows, with a byte offset displayed on the
/// left, the byte values in hex in the center, and ASCII characters on the right.
pub struct HexDump<'a> {
    bytes: &'a [u8],
    start: usize,
    show_chars: bool,
    show_header: bool,
    row_len: usize,
    style: HexDumpStyle,
}

/// The settings of a `HexDump`, as spec values.
pub struct HexDumpSettings {
    pub bytes: Seq<u8>,
    pub start: nat,
    pub show_chars: bool,
    pub show_header: bool,
    pub row_len: nat,
    pub style: HexDumpStyle,
}

/// `n` copies of `c`.
pub open spec fn repeat_char(c: char, n: nat) -> Seq<char> {
    Seq::new(n, |i: int| c)
}

/// The character shown for a byte in the character column: printable ASCII as itself, anything
/// else as `.`.
pub open spec fn dump_char(b: u8) -> char {
    if 0x20 <= b && b <= 0x7e {
        b as char
    } else {
        '.'
    }
}

/// The offset label at the start of a row.
pub open spec fn offset_text(style: HexDumpStyle, pos: nat) -> Seq<char> {
    match style {
        HexDumpStyle::Normal => hex_padded(pos, 8) + " : "@,
        HexDumpStyle::Rust => "/* "@ + hex_padded(pos, 8) + " */ "@,
    }
}

/// The hex cells of a row.
pub open spec fn hex_cells(style: HexDumpStyle, row: Seq<u8>) -> Seq<char>
    decreases row.len(),
{
    if row.len() == 0 {
        Seq::empty()
    } else {
        hex_cells(style, row.drop_last()) + match style {
            HexDumpStyle::Normal => " "@ + hex_padded(row.last() as nat, 2),
            HexDumpStyle::Rust => " 0x"@ + hex_padded(row.last() as nat, 2) + ","@,
        }
    }
}

/// The character column of a row.
pub open spec fn char_cells(row: Seq<u8>) -> Seq<char> {
    Seq::new(row.len(), |i: int| dump_char(row[i]))
}

/// The width of one hex cell.
pub open spec fn col_size(style: HexDumpStyle) -> nat {
    match style {
        HexDumpStyle::Normal => 3,
        HexDumpStyle::Rust => 6,
    }
}

/// One printed row of the dump.
pub open spec fn row_text(d: HexDumpSettings, pos: nat, row: Seq<u8>) -> Seq<char> {
    offset_text(d.style, pos) + hex_cells(d.style, row) + repeat_char(
        ' ',
        ((d.row_len - row.len()) * col_size(d.style)) as nat,
    ) + (if d.show_chars {
        (match d.style {
            HexDumpStyle::Normal => " : "@,
            HexDumpStyle::Rust => " // "@,
        }) + char_cells(row)
    } else {
        Seq::empty()
    }) + "\n"@
}

/// The line that stands for a run of identical full rows.
pub open spec fn repeat_text(d: HexDumpSettings, repeat_start: nat, repeat_byte: u8) -> Seq<char> {
    offset_text(d.style, repeat_start) + "... "@ + hex_padded(repeat_byte as nat, 2)
        + " repeated ...\n"@
}

/// Every byte of `row` is `b`.
pub open spec fn all_equal(row: Seq<u8>, b: u8) -> bool {
    forall|i: int| 0 <= i < row.len() ==> row[i] == b
}

/// The rows of the dump, for the bytes that remain (`rest`), starting at offset `pos`, when a
/// run of `repeat_len` bytes of `repeat_byte` starting at `repeat_start` is pending
/// (`repeat_len == 0` when none is).
pub open spec fn rows_text(
    d: HexDumpSettings,
    rest: Seq<u8>,
    pos: nat,
    repeat_start: nat,
    repeat_len: nat,
    repeat_byte: u8,
) -> Seq<char>
    decreases rest.len(),
{
    if d.row_len == 0 {
        Seq::empty()
    } else if rest.len() == 0 {
        if repeat_len != 0 {
            repeat_text(d, repeat_start, repeat_byte) + offset_text(d.style, pos) + "(end)\n"@
        } else {
            Seq::empty()
        }
    } else {
        let n = if rest.len() < d.row_len {
            rest.len()
        } else {
            d.row_len
        };
        let row = rest.take(n as int);
        let next = rest.skip(n as int);
        if n == d.row_len && repeat_len != 0 && all_equal(row, repeat_byte) {
            rows_text(d, next, pos + d.row_len, repeat_start, repeat_len + d.row_len, repeat_byte)
        } else if n == d.row_len && repeat_len == 0 && all_equal(row, row[0]) {
            rows_text(d, next, pos + d.row_len, pos, d.row_len, row[0])
        } else {
            (if repeat_len != 0 {
                repeat_text(d, repeat_start, repeat_byte)
            } else {
                Seq::empty()
            }) + row_text(d, pos, row) + rows_text(d, next, pos + d.row_len, 0, 0, 0)
        }
    }
}

/// The whole text of a dump.
pub open spec fn hex_dump_text(d: HexDumpSettings) -> Seq<char> {
    (if d.show_header && d.style == HexDumpStyle::Normal {
        "________ : 00 01 02 03 04 05 06 07-08 09 0a 0b 0c 0d 0e 0f\n"@
    } else {
        Seq::empty()
    }) + rows_text(d, d.bytes, d.start, 0, 0, 0)
}

fn push_offset(s: &mut String, style: HexDumpStyle, pos: usize)
    ensures
        final(s)@ == old(s)@ + offset_text(style, pos as nat),
{
    match style {
        HexDumpStyle::Normal => {
            push_hex(s, pos as u64, 8);
            push_str(s, " : ");
        },
        HexDumpStyle::Rust => {
            push_str(s, "/* ");
            push_hex(s, pos as u64, 8);
            push_str(s, " */ ");
        },
    }
}

fn push_repeat_line(s: &mut String, d: &HexDump, repeat_start: usize, repeat_byte: u8)
    ensures
        final(s)@ == old(s)@ + repeat_text(d.settings(), repeat_start as nat, repeat_byte),
{
    push_offset(s, d.style, repeat_start);
    push_str(s, "... ");
    push_hex(s, repeat_byte as u64, 2);
    push_str(s, " repeated ...\n");
}

fn row_all_equal(row: &[u8], b: u8) -> (r: bool)
    ensures
        r == all_equal(row@, b),
{
    let mut i: usize = 0;
    while i < row.len()
        invariant
            i <= row@.len(),
            forall|k: int| 0 <= k < i ==> row@[k] == b,
        decreases row@.len() - i,
    {
        if row[i] != b {
            return false;
        }
        i = i + 1;
    }
    true
}

fn dump_char_exec(b: u8) -> (c: char)
    ensures
        c == dump_char(b),
{
    if 0x20 <= b && b <= 0x7e {
        b as char
    } else {
        '.'
    }
}

fn push_hex_cells(s: &mut String, style: HexDumpStyle, row: &[u8])
    ensures
        final(s)@ == old(s)@ + hex_cells(style, row@),
{
    let mut i: usize = 0;
    while i < row.len()
        invariant
            i <= row@.len(),
            s@ == old(s)@ + hex_cells(style, row@.take(i as int)),
        decreases row@.len() - i,
    {
        match style {
            HexDumpStyle::Normal => {
                push_str(s, " ");
                push_hex(s, row[i] as u64, 2);
            },
            HexDumpStyle::Rust => {
                push_str(s, " 0x");
                push_hex(s, row[i] as u64, 2);
                push_str(s, ",");
            },
        }
        proof {
            assert(row@.take(i + 1).drop_last() =~= row@.take(i as int));
        }
        i = i + 1;
    }
    assert(row@.take(row@.len() as int) =~= row@);
}

fn push_spaces(s: &mut String, n: usize)
    ensures
        final(s)@ == old(s)@ + repeat_char(' ', n as nat),
{
    let mut k: usize = 0;
    while k < n
        invariant
            k <= n,
            s@ == old(s)@ + repeat_char(' ', k as nat),
        decreases n - k,
    {
        push_char(s, ' ');
        k = k + 1;
        assert(s@ =~= old(s)@ + repeat_char(' ', k as nat));
    }
}

fn push_char_cells(s: &mut String, row: &[u8])
    ensures
        final(s)@ == old(s)@ + char_cells(row@),
{
    let mut j: usize = 0;
    while j < row.len()
        invariant
            j <= row@.len(),
            s@ == old(s)@ + char_cells(row@.take(j as int)),
        decreases row@.len() - j,
    {
        push_char(s, dump_char_exec(row[j]));
        j = j + 1;
        assert(s@ =~= old(s)@ + char_cells(row@.take(j as int)));
    }
    assert(row@.take(row@.len() as int) =~= row@);
}

fn pad_len(row_len: usize, n: usize, style: HexDumpStyle) -> (pad: usize)
    requires
        n <= row_len,
        row_len * 6 <= usize::MAX,
    ensures
        pad == (row_len - n) * col_size(style),
{
    let col: usize = match style {
        HexDumpStyle::Normal => 3,
        HexDumpStyle::Rust => 6,
    };
    let diff = row_len - n;
    assert(diff * col <= row_len * 6) by (nonlinear_arith)
        requires
            diff == row_len - n,
            col <= 6,
            n <= row_len,
    ;
    diff * col
}

fn push_row(s: &mut String, d: &HexDump, pos: usize, row: &[u8])
    requires
        row@.len() <= d.settings().row_len,
        d.settings().row_len * 6 <= usize::MAX,
    ensures
        final(s)@ == old(s)@ + row_text(d.settings(), pos as nat, row@),
{
    push_offset(s, d.style, pos);
    push_hex_cells(s, d.style, row);
    let pad = pad_len(d.row_len, row.len(), d.style);
    push_spaces(s, pad);
    if d.show_chars {
        match d.style {
            HexDumpStyle::Normal => push_str(s, " : "),
            HexDumpStyle::Rust => push_str(s, " // "),
        }
        push_char_cells(s, row);
    }
    push_str(s, "\n");
    assert(s@ =~= old(s)@ + row_text(d.settings(), pos as nat, row@));
}

impl<'a> HexDump<'a> {
    #[verifier::type_invariant]
    spec fn wf(self) -> bool {
        self.row_len > 0
    }

    /// The settings of this dump, as spec values.
    pub closed spec fn settings(&self) -> HexDumpSettings {
        HexDumpSettings {
            bytes: self.bytes@,
            start: self.start as nat,
            show_chars: self.show_chars,
            show_header: self.show_header,
            row_len: self.row_len as nat,
            style: self.style,
        }
    }

    /// Creates a `HexDump` over a byte slice with the default display settings: 16 bytes per
    /// row, offsets from 0, characters shown, no header, normal style.
    pub fn new(bytes: &'a [u8]) -> (d: Self)
        ensures
            d.settings() == (HexDumpSettings {
                bytes: bytes@,
                start: 0,
                show_chars: true,
                show_header: false,
                row_len: 16,
                style: HexDumpStyle::Normal,
            }),
    {
        Self {
            bytes,
            start: 0,
            show_chars: true,
            show_header: false,
            row_len: 16,
            style: HexDumpStyle::Normal,
        }
    }

    /// Limits the input to a maximum length.
    pub fn max(self, max: usize) -> (d: Self)
        ensures
            d.settings() == (HexDumpSettings {
                bytes: if self.settings().bytes.len() <= max {
                    self.settings().bytes
                } else {
                    self.settings().bytes.take(max as int)
                },
                ..self.settings()
            }),
    {
        let n = if self.bytes.len() <= max {
            self.bytes.len()
        } else {
            max
        };
        let b = vstd::slice::slice_subrange(self.bytes, 0, n);
        assert(self.bytes@.len() <= max ==> b@ =~= self.bytes@);
        proof {
            use_type_invariant(&self);
        }
        Self { bytes: b, ..self }
    }

    /// Sets the number of values to show per row.
    pub fn row_len(self, row_len: usize) -> (d: Self)
        requires
            row_len > 0,
        ensures
            d.settings() == (HexDumpSettings { row_len: row_len as nat, ..self.settings() }),
    {
        Self { row_len, ..self }
    }

    /// Sets the style to [`HexDumpStyle::Rust`].
    pub fn rust_style(self) -> (d: Self)
        ensures
            d.settings() == (HexDumpSettings { style: HexDumpStyle::Rust, ..self.settings() }),
    {
        proof {
            use_type_invariant(&self);
        }
        Self { style: HexDumpStyle::Rust, ..self }
    }

    /// Sets the displayed byte offset to a value.
    pub fn at(self, start: usize) -> (d: Self)
        ensures
            d.settings() == (HexDumpSettings { start: start as nat, ..self.settings() }),
    {
        proof {
            use_type_invariant(&self);
        }
        Self { start, ..self }
    }

    /// Specifies whether characters should be displayed or not.
    pub fn chars(self, show_chars: bool) -> (d: Self)
        ensures
            d.settings() == (HexDumpSettings { show_chars, ..self.settings() }),
    {
        proof {
            use_type_invariant(&self);
        }
        Self { show_chars, ..self }
    }

    /// Suppresses displaying ASCII characters.
    pub fn no_chars(self) -> (d: Self)
        ensures
            d.settings() == (HexDumpSettings { show_chars: false, ..self.settings() }),
    {
        proof {
            use_type_invariant(&self);
        }
        Self { show_chars: false, ..self }
    }

    /// Specifies whether to display the header line.
    pub fn header(self, show_header: bool) -> (d: Self)
        ensures
            d.settings() == (HexDumpSettings { show_header, ..self.settings() }),
    {
        proof {
            use_type_invariant(&self);
        }
        Self { show_header, ..self }
    }

    /// The text of the dump, as `Debug` and `Display` show it.
    pub fn to_string(&self) -> (s: String)
        requires
            self.settings().start + self.settings().bytes.len() + 2 * self.settings().row_len
                <= usize::MAX,
            self.settings().row_len * 6 <= usize::MAX,
        ensures
            s@ == hex_dump_text(self.settings()),
    {
        proof {
            use_type_invariant(self);
        }
        let mut s = String::new();
        if self.show_header && self.style == HexDumpStyle::Normal {
            push_str(&mut s, "________ : 00 01 02 03 04 05 06 07-08 09 0a 0b 0c 0d 0e 0f\n");
        }
        let ghost head = s@;
        let row_len = self.row_len;
        let mut pos: usize = self.start;
        let mut repeat_start: usize = 0;
        let mut repeat_len: usize = 0;
        let mut repeat_byte: u8 = 0;
        let mut rest: &[u8] = self.bytes;
        let ghost d = self.settings();
        while rest.len() > 0
            invariant
                d == self.settings(),
                row_len == d.row_len,
                row_len > 0,
                row_len * 6 <= usize::MAX,
                d.start + d.bytes.len() + 2 * row_len <= usize::MAX,
                rest@.len() <= d.bytes.len(),
                rest@.len() > 0 ==> pos == d.start + d.bytes.len() - rest@.len(),
                pos <= d.start + d.bytes.len() + row_len,
                repeat_start <= pos,
                repeat_len <= pos,
                head + rows_text(d, d.bytes, d.start, 0, 0, 0) == s@ + rows_text(
                    d,
                    rest@,
                    pos as nat,
                    repeat_start as nat,
                    repeat_len as nat,
                    repeat_byte,
                ),
            decreases rest@.len(),
        {
            let n = if rest.len() < row_len {
                rest.len()
            } else {
                row_len
            };
            let (row, next) = rest.split_at(n);
            let ghost old_s = s@;
            let ghost old_rest = rest@;
            let ghost old_pos = pos;
            let ghost old_rs = repeat_start;
            let ghost old_rl = repeat_len;
            let ghost old_rb = repeat_byte;
            proof {
                assert(rows_text(d, old_rest, old_pos as nat, old_rs as nat, old_rl as nat, old_rb)
                    == (if n == d.row_len && old_rl != 0 && all_equal(row@, old_rb) {
                    rows_text(d, next@, (old_pos + d.row_len) as nat, old_rs as nat, (old_rl + d.row_len) as nat, old_rb)
                } else if n == d.row_len && old_rl == 0 && all_equal(row@, row@[0]) {
                    rows_text(d, next@, (old_pos + d.row_len) as nat, old_pos as nat, d.row_len, row@[0])
                } else {
                    (if old_rl != 0 {
                        repeat_text(d, old_rs as nat, old_rb)
                    } else {
                        Seq::empty()
                    }) + row_text(d, old_pos as nat, row@) + rows_text(d, next@, (old_pos + d.row_len) as nat, 0, 0, 0)
                }));
            }
            if n == row_len && repeat_len != 0 && row_all_equal(row, repeat_byte) {
                repeat_len = repeat_len + row_len;
                pos = pos + row_len;
                rest = next;
                continue;
            }
            if n == row_len && repeat_len == 0 && row_all_equal(row, row[0]) {
                repeat_byte = row[0];
                repeat_start = pos;
                repeat_len = row_len;
                pos = pos + row_len;
                rest = next;
                continue;
            }
            if repeat_len != 0 {
                push_repeat_line(&mut s, self, repeat_start, repeat_byte);
                repeat_len = 0;
                repeat_start = 0;
                repeat_byte = 0;
            }
            push_row(&mut s, self, pos, row);
            pos = pos + row_len;
            rest = next;
            proof {
                assert(s@ + rows_text(d, rest@, pos as nat, 0, 0, 0) =~= old_s + (if old_rl != 0 {
                    repeat_text(d, old_rs as nat, old_rb)
                } else {
                    Seq::empty()
                }) + row_text(d, old_pos as nat, row@) + rows_text(d, next@, (old_pos + d.row_len) as nat, 0, 0, 0));
            }
        }
        if repeat_len != 0 {
            push_repeat_line(&mut s, self, repeat_start, repeat_byte);
            push_offset(&mut s, self.style, pos);
            push_str(&mut s, "(end)\n");
        }
        s
    }
}

/// The text of a `HexStr`: each byte as two hex digits, separated by spaces unless packed.
pub open spec fn hex_str_text(bytes: Seq<u8>, packed: bool) -> Seq<char>
    decreases bytes.len(),
{
    if bytes.len() == 0 {
        Seq::empty()
    } else {
        hex_str_text(bytes.drop_last(), packed) + (if bytes.len() > 1 && !packed {
            " "@
        } else {
            Seq::empty()
        }) + hex_padded(bytes.last() as nat, 2)
    }
}

/// Displays a byte slice in hexadecimal.
pub struct HexStr<'a> {
    bytes: &'a [u8],
    packed: bool,
}

impl<'a> HexStr<'a> {
    /// The bytes shown, as a spec value.
    pub closed spec fn spec_bytes(&self) -> Seq<u8> {
        self.bytes@
    }

    /// Whether the bytes are shown without spaces, as a spec value.
    pub closed spec fn spec_packed(&self) -> bool {
        self.packed
    }

    /// Creates a new `HexStr` over a slice with the default display settings.
    pub fn new(bytes: &'a [u8]) -> (h: Self)
        ensures
            h.spec_bytes() == bytes@,
            !h.spec_packed(),
    {
        Self { bytes, packed: false }
    }

    /// Limits the input to a maximum length. (This also turns packing off.)
    pub fn max(self, max: usize) -> (h: Self)
        ensures
            h.spec_bytes() == (if self.spec_bytes().len() <= max {
                self.spec_bytes()
            } else {
                self.spec_bytes().take(max as int)
            }),
            !h.spec_packed(),
    {
        let n = if self.bytes.len() <= max {
            self.bytes.len()
        } else {
            max
        };
        let b = vstd::slice::slice_subrange(self.bytes, 0, n);
        assert(self.bytes@.len() <= max ==> b@ =~= self.bytes@);
        Self { bytes: b, packed: false }
    }

    /// Specifies that the hex string should be displayed without spaces between the bytes.
    pub fn packed(self) -> (h: Self)
        ensures
            h.spec_bytes() == self.spec_bytes(),
            h.spec_packed(),
    {
        Self { packed: true, ..self }
    }

    /// The text of the hex string, as `Debug` shows it.
    pub fn to_string(&self) -> (s: String)
        ensures
            s@ == hex_str_text(self.spec_bytes(), self.spec_packed()),
    {
        let mut s = String::new();
        let mut i: usize = 0;
        while i < self.bytes.len()
            invariant
                i <= self.bytes@.len(),
                s@ == hex_str_text(self.bytes@.take(i as int), self.packed),
            decreases self.bytes@.len() - i,
        {
            if i != 0 && !self.packed {
                push_str(&mut s, " ");
            }
            push_hex(&mut s, self.bytes[i] as u64, 2);
            proof {
                assert(self.bytes@.take(i + 1).drop_last() =~= self.bytes@.take(i as int));
            }
            i = i + 1;
        }
        assert(self.bytes@.take(self.bytes@.len() as int) =~= self.bytes@);
        s
    }
}

/// Where the run of items that starts at `i` ends: `adj[k]` says whether items `k` and `k + 1`
/// are adjacent.
pub open spec fn run_end(adj: Seq<bool>, len: int, i: int) -> int
    decreases len - i,
{
    if i + 1 < len && adj[i] {
        run_end(adj, len, i + 1)
    } else {
        i
    }
}

/// The text of a list with runs collapsed: items from `i` on, where `adj[k]` says whether items
/// `k` and `k + 1` are adjacent, and runs are shown as `first-last`, separated by `, `.
pub open spec fn ranges_text(items: Seq<u32>, adj: Seq<bool>, i: int) -> Seq<char>
    decreases items.len() - i,
{
    if i < 0 || i >= items.len() {
        Seq::empty()
    } else {
        let e = run_end(adj, items.len() as int, i);
        (if i > 0 {
            ", "@
        } else {
            Seq::empty()
        }) + (if e == i {
            dec_chars(items[i] as nat)
        } else {
            dec_chars(items[i] as nat) + "-"@ + dec_chars(items[e] as nat)
        }) + if i <= e < items.len() {
            ranges_text(items, adj, e + 1)
        } else {
            Seq::empty()
        }
    }
}

/// The run that starts at `i` ends at or after `i`, and before the end.
pub proof fn lemma_run_end_bounds(adj: Seq<bool>, len: int, i: int)
    requires
        0 <= i < len,
    ensures
        i <= run_end(adj, len, i) < len,
    decreases len - i,
{
    if i + 1 < len && adj[i] {
        lemma_run_end_bounds(adj, len, i + 1);
    }
}

/// Displays a list of integers. If the list contains sequences of contiguous (increasing)
/// values, then these are displayed using `start-end` notation, rather than each value.
///
/// The user of this type provides a function which indicates whether items are "adjacent" or not.
pub struct DumpRanges<'a, T, F> where F: Fn(&T, &T) -> bool {
    items: &'a [T],
    is_adjacent: F,
}

impl<'a, T, F> DumpRanges<'a, T, F> where F: Fn(&T, &T) -> bool {
    /// Creates a new one
    pub fn new(items: &'a [T], is_adjacent: F) -> (d: Self)
        ensures
            d.spec_items() == items@,
            d.spec_is_adjacent() == is_adjacent,
    {
        Self { items, is_adjacent }
    }

    /// The items shown, as a spec value.
    pub closed spec fn spec_items(&self) -> Seq<T> {
        self.items@
    }

    /// The adjacency function, as a spec value.
    pub closed spec fn spec_is_adjacent(&self) -> F {
        self.is_adjacent
    }
}

/// Writes `items` with runs collapsed, where `adj[k]` says whether items `k` and `k + 1` are
/// adjacent.
pub fn format_runs(items: &[u32], adj: &Vec<bool>) -> (s: String)
    requires
        adj@.len() + 1 >= items@.len(),
    ensures
        s@ == ranges_text(items@, adj@, 0),
{
    let n = items.len();
    let mut s = String::new();
    let mut i: usize = 0;
    while i < n
        invariant
            n == items@.len(),
            adj@.len() + 1 >= n,
            i <= n,
            ranges_text(items@, adj@, 0) == s@ + ranges_text(items@, adj@, i as int),
        decreases n - i,
    {
        let ghost s0 = s@;
        if i > 0 {
            push_str(&mut s, ", ");
        }
        let mut last: usize = i;
        while last + 1 < n && adj[last]
            invariant
                n == items@.len(),
                adj@.len() + 1 >= n,
                i <= last < n,
                run_end(adj@, n as int, last as int) == run_end(adj@, n as int, i as int),
            decreases n - last,
        {
            last = last + 1;
        }
        assert(run_end(adj@, n as int, last as int) == last);
        push_dec(&mut s, items[i] as u64);
        if last > i {
            push_str(&mut s, "-");
            push_dec(&mut s, items[last] as u64);
        }
        proof {
            lemma_run_end_bounds(adj@, n as int, i as int);
            assert(s@ + ranges_text(items@, adj@, last + 1) =~= s0 + ranges_text(
                items@,
                adj@,
                i as int,
            ));
        }
        i = last + 1;
    }
    s
}

impl<'a, F> DumpRanges<'a, u32, F> where F: Fn(&u32, &u32) -> bool {
    /// The text of the list, as `Debug` shows it: the adjacency function is asked once about
    /// each pair of neighboring items, and the runs of adjacent items are collapsed according
    /// to its answers `adj`.
    pub fn to_string(&self) -> (s: String)
        requires
            forall|a: &u32, b: &u32| #[trigger] call_requires(self.spec_is_adjacent(), (a, b)),
        ensures
            exists|adj: Seq<bool>|
                {
                    &&& adj.len() + 1 >= self.spec_items().len()
                    &&& forall|k: int|
                        0 <= k < self.spec_items().len() - 1 ==> call_ensures(
                            self.spec_is_adjacent(),
                            (&self.spec_items()[k], &self.spec_items()[k + 1]),
                            #[trigger] adj[k],
                        )
                    &&& s@ == ranges_text(self.spec_items(), adj, 0)
                },
    {
        let items = self.items;
        let n = items.len();
        assert(self.spec_is_adjacent() == self.is_adjacent);
        let mut adj: Vec<bool> = Vec::new();
        let mut k: usize = 0;
        let m: usize = if n > 0 {
            n - 1
        } else {
            0
        };
        while k < m
            invariant
                n == items@.len(),
                m == (if n > 0 { n - 1 } else { 0 }),
                items@ == self.spec_items(),
                forall|a: &u32, b: &u32| #[trigger] call_requires(self.is_adjacent, (a, b)),
                adj@.len() == k,
                k <= m,
                forall|q: int|
                    0 <= q < k ==> call_ensures(
                        self.spec_is_adjacent(),
                        (&items@[q], &items@[q + 1]),
                        #[trigger] adj@[q],
                    ),
            decreases n - k,
        {
            assert(call_requires(self.is_adjacent, (&items[k as int], &items[k + 1])));
            let a = (self.is_adjacent)(&items[k], &items[k + 1]);
            adj.push(a);
            k = k + 1;
        }
        let s = format_runs(items, &adj);
        assert(adj@.len() + 1 >= n);
        s
    }
}

/// Returns the next item in a sequence.
pub trait Successor: Sized {
    /// Returns the next item in a sequence.
    fn successor(&self) -> Self;
}

impl Successor for u8 {
    fn successor(&self) -> (r: u8)
        ensures
            r == (if *self == u8::MAX { 0 } else { *self + 1 }),
    {
        self.wrapping_add(1)
    }
}

impl Successor for u16 {
    fn successor(&self) -> (r: u16)
        ensures
            r == (if *self == u16::MAX { 0 } else { *self + 1 }),
    {
        self.wrapping_add(1)
    }
}

impl Successor for u32 {
    fn successor(&self) -> (r: u32)
        ensures
            r == (if *self == u32::MAX { 0 } else { *self + 1 }),
    {
        self.wrapping_add(1)
    }
}

impl Successor for u64 {
    fn successor(&self) -> (r: u64)
        ensures
            r == (if *self == u64::MAX { 0 } else { *self + 1 }),
    {
        self.wrapping_add(1)
    }
}

/// Shows values with ranges collapsed, using a `Successor` implementation.
pub struct DumpRangesSucc<'a, T> {
    items: &'a [T],
}

impl<'a, T> DumpRangesSucc<'a, T> {
    /// Creates a new one
    pub fn new(items: &'a [T]) -> (d: Self)
        ensures
            d.spec_items() == items@,
    {
        Self { items }
    }

    /// The items shown, as a spec value.
    pub closed spec fn spec_items(&self) -> Seq<T> {
        self.items@
    }
}

/// Whether `b` follows `a`, as `u32::successor` counts.
pub open spec fn follows_u32(a: u32, b: u32) -> bool {
    b == (if a == u32::MAX { 0 } else { a + 1 })
}

impl<'a> DumpRangesSucc<'a, u32> {
    /// The text of the list, as `Debug` shows it: runs of items in which each item is the
    /// successor of the one before are collapsed to `first-last`.
    pub fn to_string(&self) -> (s: String)
        ensures
            s@ == ranges_text(
                self.spec_items(),
                Seq::new(
                    (if self.spec_items().len() > 0 {
                        self.spec_items().len() - 1
                    } else {
                        0
                    }) as nat,
                    |k: int| follows_u32(self.spec_items()[k], self.spec_items()[k + 1]),
                ),
                0,
            ),
    {
        let items = self.items;
        let n = items.len();
        let mut adj: Vec<bool> = Vec::new();
        let mut k: usize = 0;
        let m: usize = if n > 0 {
            n - 1
        } else {
            0
        };
        while k < m
            invariant
                n == items@.len(),
                m == (if n > 0 { n - 1 } else { 0 }),
                adj@.len() == k,
                k <= m,
                forall|q: int| 0 <= q < k ==> adj@[q] == follows_u32(items@[q], items@[q + 1]),
            decreases n - k,
        {
            adj.push(items[k + 1] == items[k].successor());
            k = k + 1;
        }
        assert(adj@ =~= Seq::new(
            (if n > 0 {
                n - 1
            } else {
                0
            }) as nat,
            |q: int| follows_u32(items@[q], items@[q + 1]),
        ));
        format_runs(items, &adj)
    }
}

/// Helps display indentation in debug output
#[derive(Copy, Clone)]
pub struct Indent(pub u32);

impl Indent {
    /// The indentation: `self.0` spaces.
    pub fn to_string(&self) -> (s: String)
        ensures
            s@ == repeat_char(' ', self.0 as nat),
    {
        let mut s = String::new();
        let mut i: u32 = 0;
        while i < self.0
            invariant
                i <= self.0,
                s@ == repeat_char(' ', i as nat),
            decreases self.0 - i,
        {
            push_char(&mut s, ' ');
            i = i + 1;
            assert(s@ =~= repeat_char(' ', i as nat));
        }
        s
    }
}

/// Creates an `Indent`.
pub fn indent(n: u32) -> (i: Indent)
    ensures
        i.0 == n,
{
    Indent(n)
}

} // verus!
