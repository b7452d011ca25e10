//! Multi-Stream Files (MSF): the container format of PDB files.
//!
//! MSF files contain a set of numbered _streams_. Each stream is like a file; a stream is a
//! sequence of bytes. The bytes of a stream are stored in _pages_ of the MSF file, which need not
//! be consecutive; the Stream Directory records the size and the pages of each stream.
//!
//! This module holds the parts of MSF handling that decide: recognizing and decoding the file
//! header, decoding the Stream Directory, mapping stream offsets to file offsets, and grouping
//! pages into runs.

pub mod pages;

use vstd::prelude::*;
use vstd::arithmetic::power2::pow2;
use crate::encoder::Encoder;
use crate::le::{le_bytes_u32, le_u16, le_u32, lemma_u32_roundtrip, read_u16_at, read_u32_at};
use crate::parser::Parser;

verus! {

/// The value of `magic` for "big" MSF files.
pub const MSF_BIG_MAGIC: [u8; 32] = [
    0x4d, 0x69, 0x63, 0x72, 0x6f, 0x73, 0x6f, 0x66, 0x74, 0x20, 0x43, 0x2f, 0x43, 0x2b, 0x2b, 0x20,
    0x4d, 0x53, 0x46, 0x20, 0x37, 0x2e, 0x30, 0x30, 0x0d, 0x0a, 0x1a, 0x44, 0x53, 0x00, 0x00, 0x00,
];

/// This identifies MSF files before the transition to "big" MSF files.
pub const MSF_SMALL_MAGIC: [u8; 44] = [
    0x4d, 0x69, 0x63, 0x72, 0x6f, 0x73, 0x6f, 0x66, 0x74, 0x20, 0x43, 0x2f, 0x43, 0x2b, 0x2b, 0x20,
    0x70, 0x72, 0x6f, 0x67, 0x72, 0x61, 0x6d, 0x20, 0x64, 0x61, 0x74, 0x61, 0x62, 0x61, 0x73, 0x65,
    0x20, 0x32, 0x2e, 0x30, 0x30, 0x0d, 0x0a, 0x1a, 0x4a, 0x47, 0x00, 0x00,
];

/// The signature of a Portable PDB, found at offset 16.
pub const PORTABLE_PDB_SIGNATURE: [u8; 8] = [0x50, 0x44, 0x42, 0x20, 0x76, 0x31, 0x2e, 0x30];

/// The length of the (big) MSF File Header.
pub const MSF_HEADER_LEN: usize = 52;

/// The length of the "small" MSF File Header.
pub const SMALL_MSF_HEADER_LEN: usize = 60;

/// This size is used to mark a stream as "invalid". An invalid stream is different from a
/// stream with a length of zero bytes.
pub const NIL_STREAM_SIZE: u32 = 0xffff_ffff;

/// The stream index of the Stream Directory stream. This is reserved and cannot be used by
/// applications.
pub const STREAM_DIR_STREAM: u32 = 0;

/// The exponent of the minimum page size.
pub const MIN_PAGE_SIZE_EXPONENT: u32 = 9;

/// The exponent of the default page size.
pub const DEFAULT_PAGE_SIZE_EXPONENT: u32 = 12;

/// The exponent of a large page size. This is less than the largest supported page size.
pub const LARGE_PAGE_SIZE_EXPONENT: u32 = 13;

/// The exponent of the largest supported page size.
pub const MAX_PAGE_SIZE_EXPONENT: u32 = 16;

/// The absolute minimum size of a slice that could contain a valid MSF file header, as tested by
/// [`is_file_header_msf`].
///
/// This does not specify the minimum valid size of an MSF file. It is only a recommended minimum
/// for callers of [`is_file_header_msf`].
pub const MIN_FILE_HEADER_SIZE: usize = 0x100;

/// Specifies the versions used for the MSF.
#[derive(Copy, Clone, Eq, PartialEq, Debug, Structural)]
pub enum MsfKind {
    /// The obsolete, pre-Big MSF encoding
    Small,
    /// The fancy new modern Big MSF encoding
    Big,
}

/// `s` begins with `prefix`.
pub open spec fn has_prefix(s: Seq<u8>, prefix: Seq<u8>) -> bool {
    prefix.len() <= s.len() && s.take(prefix.len() as int) == prefix
}

/// Tests whether `s` begins with `prefix`.
pub fn starts_with(s: &[u8], prefix: &[u8]) -> (r: bool)
    ensures
        r == has_prefix(s@, prefix@),
{
    if prefix.len() > s.len() {
        return false;
    }
    let mut i: usize = 0;
    while i < prefix.len()
        invariant
            prefix@.len() <= s@.len(),
            i <= prefix@.len(),
            forall|j: int| 0 <= j < i ==> s@[j] == prefix@[j],
        decreases prefix@.len() - i,
    {
        if s[i] != prefix[i] {
            return false;
        }
        i = i + 1;
    }
    assert(s@.take(prefix@.len() as int) =~= prefix@);
    true
}

/// Checks whether the header of a file appears to be a valid MSF file.
///
/// This only looks at the signature; it does not read anything else in the file. This is useful
/// for quickly determining whether a file could be an MSF file, but without any validation.
pub fn is_file_header_msf(header: &[u8]) -> (r: bool)
    ensures
        r == (has_prefix(header@, MSF_BIG_MAGIC@) || has_prefix(header@, MSF_SMALL_MAGIC@)),
{
    starts_with(header, &MSF_BIG_MAGIC) || starts_with(header, &MSF_SMALL_MAGIC)
}

/// Specifies a page size used in an MSF file. This value is always a power of 2; it is held as
/// its exponent.
#[derive(Copy, Clone, Debug, PartialEq, Eq, Structural)]
pub struct PageSize {
    exponent: u32,
}

impl View for PageSize {
    type V = nat;

    /// The exponent: the page size is `2^exponent`.
    closed spec fn view(&self) -> nat {
        self.exponent as nat
    }
}

impl PageSize {
    /// The exponent is small enough for the page size to fit in a `u32`.
    #[verifier::type_invariant]
    spec fn exponent_in_range(self) -> bool {
        self.exponent < 32
    }

    /// The page size `2^exponent`.
    pub fn from_exponent(exponent: u32) -> (p: Self)
        requires
            exponent < 32,
        ensures
            p@ == exponent,
    {
        PageSize { exponent }
    }

    /// The page size `size`, if it is a power of 2.
    pub fn try_from_u32(size: u32) -> (r: Option<Self>)
        ensures
            r matches Some(p) ==> pow2(p@) == size && p@ < 32,
            r is None ==> forall|e: nat| e < 32 ==> pow2(e) != size,
    {
        let mut e: u32 = 0;
        while e < 32
            invariant
                e <= 32,
                forall|k: nat| k < e ==> pow2(k) != size,
            decreases 32 - e,
        {
            let v = Self::from_exponent(e).bytes();
            if v == size {
                return Some(PageSize { exponent: e });
            }
            e = e + 1;
        }
        proof {
            assert forall|k: nat| k < 32 implies pow2(k) != size by {}
        }
        None
    }

    /// The exponent of the page size.
    pub fn exponent(&self) -> (e: u32)
        ensures
            e == self@,
            e < 32,
    {
        proof {
            use_type_invariant(self);
        }
        self.exponent
    }

    /// The page size in bytes.
    pub fn bytes(&self) -> (n: u32)
        ensures
            n == pow2(self@),
            n > 0,
    {
        proof {
            use_type_invariant(self);
            vstd::bits::lemma_u32_pow2_no_overflow(self.exponent as nat);
            vstd::bits::lemma_u32_shl_is_mul(1, self.exponent);
        }
        1u32 << self.exponent
    }

    /// The number of pages that `size` bytes take: `size` divided by the page size, rounded up.
    pub fn div_round_up(&self, size: u32) -> (n: u32)
        ensures
            n == (size + pow2(self@) - 1) / pow2(self@) as int,
    {
        let ps = self.bytes();
        let q = size / ps;
        let r = size % ps;
        proof {
            vstd::arithmetic::div_mod::lemma_fundamental_div_mod(size as int, ps as int);
            vstd::arithmetic::div_mod::lemma_div_pos_is_pos(size as int, ps as int);
            assert(size == ps * q + r);
            assert((q + 1) * ps == q * ps + ps) by (nonlinear_arith);
            assert(ps * q == q * ps) by (nonlinear_arith);
            if r != 0 {
                assert(q < u32::MAX) by (nonlinear_arith)
                    requires
                        size == ps * q + r,
                        0 < r < ps,
                        size <= u32::MAX,
                ;
            }
            if r == 0 {
                vstd::arithmetic::div_mod::lemma_fundamental_div_mod_converse(
                    size + ps - 1,
                    ps as int,
                    q as int,
                    ps - 1,
                );
            } else {
                vstd::arithmetic::div_mod::lemma_fundamental_div_mod_converse(
                    size + ps - 1,
                    ps as int,
                    q + 1,
                    r - 1,
                );
            }
        }
        if r == 0 {
            q
        } else {
            q + 1
        }
    }
}

/// The number of pages needed to store a stream of `stream_size` bytes; a nil stream needs none.
pub open spec fn pages_for_stream_size(stream_size: u32, exponent: nat) -> int {
    if stream_size == NIL_STREAM_SIZE {
        0
    } else {
        (stream_size + pow2(exponent) - 1) / pow2(exponent) as int
    }
}

/// Given the size of a stream in bytes, returns the number of pages needed to store it.
///
/// This function correctly handles the case where the stream size is [`NIL_STREAM_SIZE`].
/// In this case, it returns 0.
pub fn num_pages_for_stream_size(stream_size: u32, page_size: PageSize) -> (n: u32)
    ensures
        n == pages_for_stream_size(stream_size, page_size@),
{
    if stream_size == NIL_STREAM_SIZE {
        0
    } else {
        page_size.div_round_up(stream_size)
    }
}

/// Gets the byte offset within a page, for a given offset within a stream.
pub fn offset_within_page(offset: u32, page_size: PageSize) -> (r: u32)
    ensures
        r == (offset as int) % (pow2(page_size@) as int),
{
    let ps = page_size.bytes();
    offset % ps
}

/// Converts a page number to a file offset.
pub fn page_to_offset(page: u32, page_size: PageSize) -> (r: u64)
    ensures
        r == page * pow2(page_size@),
{
    let ps = page_size.bytes() as u64;
    proof {
        vstd::arithmetic::mul::lemma_mul_upper_bound(page as int, u32::MAX as int, ps as int, u32::MAX as int);
    }
    page as u64 * ps
}

/// The page index within its interval: each interval is as many pages long as a page has bytes.
pub open spec fn page_within_interval(page: u32, exponent: nat) -> int {
    (page as int) % (pow2(exponent) as int)
}

/// Tests whether `page` contributes to either FPM1 or FPM2: the second and third pages of each
/// interval.
pub fn is_fpm_page_big_msf(page_size: PageSize, page: u32) -> (r: bool)
    ensures
        r == (page_within_interval(page, page_size@) == 1 || page_within_interval(page, page_size@) == 2),
{
    let p = offset_within_page(page, page_size);
    p == 1 || p == 2
}

/// Tests whether `page` is one of the special pages (Page 0, FPM1, or FPM2).
pub fn is_special_page_big_msf(page_size: PageSize, page: u32) -> (r: bool)
    ensures
        r == (page == 0 || page_within_interval(page, page_size@) == 1 || page_within_interval(
            page,
            page_size@,
        ) == 2),
{
    page == 0 || is_fpm_page_big_msf(page_size, page)
}

/// The length of the run of sequentially numbered pages at the start of `pages`.
pub open spec fn page_run_len(pages: Seq<u32>) -> int
    decreases pages.len(),
{
    if pages.len() == 0 {
        0
    } else if pages.len() >= 2 && pages[1] == pages[0] + 1 {
        1 + page_run_len(pages.drop_first())
    } else {
        1
    }
}

/// Finds the length of the prefix of pages in `pages` that are numbered sequentially.
///
/// This function assumes that there are no entries with the value 0xffff_ffff. (That would cause
/// overflow.)
pub fn find_longest_page_run(pages: &[u32]) -> (n: usize)
    requires
        forall|i: int| 0 <= i < pages@.len() ==> pages@[i] != u32::MAX,
    ensures
        n == page_run_len(pages@),
{
    if pages.len() == 0 {
        0
    } else {
        let mut prev = pages[0];
        let mut i: usize = 1;
        proof {
            lemma_page_run_len_shift(pages@, 0);
            assert(pages@.skip(0) =~= pages@);
        }
        while i < pages.len() && pages[i] == prev + 1
            invariant
                1 <= i <= pages@.len(),
                prev == pages@[i - 1],
                forall|k: int| 0 <= k < pages@.len() ==> pages@[k] != u32::MAX,
                page_run_len(pages@) == (i - 1) + page_run_len(pages@.skip(i - 1)),
            decreases pages@.len() - i,
        {
            proof {
                lemma_page_run_len_shift(pages@, i as int);
                assert(pages@.skip(i - 1).drop_first() =~= pages@.skip(i as int));
            }
            prev = pages[i];
            i = i + 1;
        }
        proof {
            let t = pages@.skip(i - 1);
            if i < pages.len() {
                assert(t[1] == pages@[i as int]);
            }
        }
        i
    }
}

/// Unfolding `page_run_len` at position `i` of `pages`.
proof fn lemma_page_run_len_shift(pages: Seq<u32>, i: int)
    requires
        0 <= i <= pages.len(),
    ensures
        pages.skip(i).len() == pages.len() - i,
        i < pages.len() ==> pages.skip(i)[0] == pages[i],
        i + 1 < pages.len() ==> pages.skip(i)[1] == pages[i + 1],
{
}

/// The size in bytes of the minimum page size; the first this many bytes of an MSF file hold its
/// header.
pub const MIN_PAGE_SIZE_BYTES: usize = 512;

/// Why an MSF file could not be opened.
#[derive(Clone, Copy, Debug, PartialEq, Eq, Structural)]
pub enum MsfOpenError {
    /// The file is a Portable PDB, which is not supported.
    PortablePdb,
    /// The file does not begin with an MSF signature.
    WrongMagic,
    /// The active FPM of a big MSF file is neither 1 nor 2.
    InvalidActiveFpm,
    /// The page size is not a power of 2.
    PageSizeNotPow2(u32),
    /// The header says that the file has no pages.
    ZeroPages,
    /// The size of the Stream Directory of a big MSF file is not a multiple of 4.
    StreamDirSizeNotAligned,
    /// The page map of the Stream Directory does not fit in the first page.
    StreamDirTooLarge,
    /// The Stream Directory uses Page 0 or an FPM page.
    InvalidStreamDirPage(u32),
    /// The Stream Directory is empty.
    EmptyStreamDir,
    /// The Stream Directory says that there are no streams.
    ZeroStreams,
    /// The Stream Directory is too short for the number of streams it states.
    NumStreamsInconsistent,
    /// The pages of a stream run past the end of the Stream Directory.
    StreamExceedsStreamDir { stream: u32, size: u32 },
    /// The page pointers of a small MSF Stream Directory do not fit in the first page.
    SmallPagePointersExceedPage,
    /// A small MSF Stream Directory is too short.
    SmallStreamDirTooSmall,
}

/// The description of an error that opening an MSF file gives.
pub open spec fn msf_open_error_text(e: MsfOpenError) -> Seq<char> {
    match e {
        MsfOpenError::PortablePdb => "This file is a Portable PDB, which is not supported."@,
        MsfOpenError::WrongMagic => "PDB file does not have the correct header (magic is wrong)."@,
        MsfOpenError::InvalidActiveFpm => "The PDB header is invalid.  The active FPM is invalid."@,
        MsfOpenError::PageSizeNotPow2(ps) => "The PDB header is invalid. The page size ("@
            + crate::text::dec_chars(ps as nat) + ") is not a power of 2."@,
        MsfOpenError::ZeroPages => "PDB specifies invalid value for num_pages (zero)."@,
        MsfOpenError::StreamDirSizeNotAligned => "MSF Stream Directory has an invalid size; it is not a multiple of 4."@,
        MsfOpenError::StreamDirTooLarge => "Stream dir size is invalid (exceeds design limits)"@,
        MsfOpenError::InvalidStreamDirPage(p) => "Stream dir contains invalid page number: "@
            + crate::text::dec_chars(p as nat) + ". Page points to Page 0 or to an FPM page."@,
        MsfOpenError::EmptyStreamDir => "Stream directory is invalid (zero-length)"@,
        MsfOpenError::ZeroStreams => "MSF file is invalid, because num_streams = 0."@,
        MsfOpenError::NumStreamsInconsistent => "Stream directory is invalid (num_streams is not consistent with size)"@,
        MsfOpenError::StreamExceedsStreamDir { stream, size } => "Stream directory is invalid.  Stream "@
            + crate::text::dec_chars(stream as nat) + " has size "@ + crate::text::dec_chars(size as nat)
            + ", which exceeds the size of the stream directory."@,
        MsfOpenError::SmallPagePointersExceedPage => "The MSF header is invalid. The page pointers for the stream directory exceed the range of the first page."@,
        MsfOpenError::SmallStreamDirTooSmall => "Invalid stream directory: too small"@,
    }
}

impl MsfOpenError {
    /// A description of the error.
    pub fn to_string(&self) -> (s: String)
        ensures
            s@ == msf_open_error_text(*self),
    {
        let mut s = String::new();
        match self {
            MsfOpenError::PortablePdb => crate::text::push_str(&mut s, "This file is a Portable PDB, which is not supported."),
            MsfOpenError::WrongMagic => crate::text::push_str(&mut s, "PDB file does not have the correct header (magic is wrong)."),
            MsfOpenError::InvalidActiveFpm => crate::text::push_str(&mut s, "The PDB header is invalid.  The active FPM is invalid."),
            MsfOpenError::PageSizeNotPow2(ps) => {
                crate::text::push_str(&mut s, "The PDB header is invalid. The page size (");
                crate::text::push_dec(&mut s, *ps as u64);
                crate::text::push_str(&mut s, ") is not a power of 2.");
            },
            MsfOpenError::ZeroPages => crate::text::push_str(&mut s, "PDB specifies invalid value for num_pages (zero)."),
            MsfOpenError::StreamDirSizeNotAligned => crate::text::push_str(&mut s, "MSF Stream Directory has an invalid size; it is not a multiple of 4."),
            MsfOpenError::StreamDirTooLarge => crate::text::push_str(&mut s, "Stream dir size is invalid (exceeds design limits)"),
            MsfOpenError::InvalidStreamDirPage(p) => {
                crate::text::push_str(&mut s, "Stream dir contains invalid page number: ");
                crate::text::push_dec(&mut s, *p as u64);
                crate::text::push_str(&mut s, ". Page points to Page 0 or to an FPM page.");
            },
            MsfOpenError::EmptyStreamDir => crate::text::push_str(&mut s, "Stream directory is invalid (zero-length)"),
            MsfOpenError::ZeroStreams => crate::text::push_str(&mut s, "MSF file is invalid, because num_streams = 0."),
            MsfOpenError::NumStreamsInconsistent => crate::text::push_str(&mut s, "Stream directory is invalid (num_streams is not consistent with size)"),
            MsfOpenError::StreamExceedsStreamDir { stream, size } => {
                crate::text::push_str(&mut s, "Stream directory is invalid.  Stream ");
                crate::text::push_dec(&mut s, *stream as u64);
                crate::text::push_str(&mut s, " has size ");
                crate::text::push_dec(&mut s, *size as u64);
                crate::text::push_str(&mut s, ", which exceeds the size of the stream directory.");
            },
            MsfOpenError::SmallPagePointersExceedPage => crate::text::push_str(&mut s, "The MSF header is invalid. The page pointers for the stream directory exceed the range of the first page."),
            MsfOpenError::SmallStreamDirTooSmall => crate::text::push_str(&mut s, "Invalid stream directory: too small"),
        }
        assert(s@ =~= msf_open_error_text(*self));
        s
    }
}

/// What the MSF File Header says.
#[derive(Clone, Copy, Debug)]
pub struct MsfHeaderInfo {
    /// Big or small MSF.
    pub kind: MsfKind,
    /// The size of each page.
    pub page_size: PageSize,
    /// The page number of the active FPM.
    pub active_fpm: u32,
    /// The number of pages in the file.
    pub num_pages: u32,
    /// The size of the Stream Directory, in bytes.
    pub stream_dir_size: u32,
}

/// The header fields that the first page `p` holds, if it has an MSF signature: the kind, the page
/// size, the active FPM, the number of pages and the size of the Stream Directory.
pub open spec fn msf_header_fields(p: Seq<u8>) -> Option<(MsfKind, u32, u32, u32, u32)> {
    if has_prefix(p, MSF_BIG_MAGIC@) {
        Some(
            (
                MsfKind::Big,
                le_u32(p.skip(32)) as u32,
                le_u32(p.skip(36)) as u32,
                le_u32(p.skip(40)) as u32,
                le_u32(p.skip(44)) as u32,
            ),
        )
    } else if has_prefix(p, MSF_SMALL_MAGIC@) {
        Some(
            (
                MsfKind::Small,
                le_u32(p.skip(0x2c)) as u32,
                le_u16(p.skip(0x30)) as u32,
                le_u16(p.skip(0x32)) as u32,
                le_u32(p.skip(0x34)) as u32,
            ),
        )
    } else {
        None
    }
}

/// Decodes and checks the MSF File Header, which is held in the first 512 bytes of the file.
pub fn parse_msf_header(page0: &[u8]) -> (r: Result<MsfHeaderInfo, MsfOpenError>)
    requires
        page0@.len() == MIN_PAGE_SIZE_BYTES,
    ensures
        match msf_header_fields(page0@) {
            None => if page0@.subrange(16, 24) == PORTABLE_PDB_SIGNATURE@ {
                r == Err::<MsfHeaderInfo, MsfOpenError>(MsfOpenError::PortablePdb)
            } else {
                r == Err::<MsfHeaderInfo, MsfOpenError>(MsfOpenError::WrongMagic)
            },
            Some((kind, page_size, active_fpm, num_pages, stream_dir_size)) => {
                if kind == MsfKind::Big && active_fpm != 1 && active_fpm != 2 {
                    r == Err::<MsfHeaderInfo, MsfOpenError>(MsfOpenError::InvalidActiveFpm)
                } else if forall|e: nat| e < 32 ==> pow2(e) != page_size {
                    r == Err::<MsfHeaderInfo, MsfOpenError>(MsfOpenError::PageSizeNotPow2(page_size))
                } else if num_pages == 0 {
                    r == Err::<MsfHeaderInfo, MsfOpenError>(MsfOpenError::ZeroPages)
                } else {
                    r matches Ok(h) && h.kind == kind && pow2(h.page_size@) == page_size
                        && h.active_fpm == active_fpm && h.num_pages == num_pages
                        && h.stream_dir_size == stream_dir_size
                }
            },
        },
{
    let kind: MsfKind;
    let page_size: u32;
    let active_fpm: u32;
    let num_pages: u32;
    let stream_dir_size: u32;
    if starts_with(page0, &MSF_BIG_MAGIC) {
        page_size = read_u32_at(page0, 32);
        active_fpm = read_u32_at(page0, 36);
        num_pages = read_u32_at(page0, 40);
        stream_dir_size = read_u32_at(page0, 44);
        kind = MsfKind::Big;
        if !(active_fpm == 1 || active_fpm == 2) {
            return Err(MsfOpenError::InvalidActiveFpm);
        }
    } else if starts_with(page0, &MSF_SMALL_MAGIC) {
        page_size = read_u32_at(page0, 0x2c);
        active_fpm = read_u16_at(page0, 0x30) as u32;
        num_pages = read_u16_at(page0, 0x32) as u32;
        stream_dir_size = read_u32_at(page0, 0x34);
        kind = MsfKind::Small;
    } else {
        let sig = vstd::slice::slice_subrange(page0, 16, 24);
        if starts_with(sig, &PORTABLE_PDB_SIGNATURE) {
            assert(sig@.take(8) =~= sig@);
            return Err(MsfOpenError::PortablePdb);
        }
        proof {
            if page0@.subrange(16, 24) == PORTABLE_PDB_SIGNATURE@ {
                assert(sig@.take(8) =~= sig@);
            }
        }
        return Err(MsfOpenError::WrongMagic);
    }
    let page_size_pow2 = match PageSize::try_from_u32(page_size) {
        Some(p) => p,
        None => return Err(MsfOpenError::PageSizeNotPow2(page_size)),
    };
    assert(pow2(page_size_pow2@) == page_size);
    if num_pages == 0 {
        return Err(MsfOpenError::ZeroPages);
    }
    Ok(MsfHeaderInfo { kind, page_size: page_size_pow2, active_fpm, num_pages, stream_dir_size })
}

/// The little-endian encodings of `v`, one value after another.
pub open spec fn u32s_bytes(v: Seq<u32>) -> Seq<u8>
    decreases v.len(),
{
    if v.len() == 0 {
        Seq::empty()
    } else {
        u32s_bytes(v.drop_last()) + le_bytes_u32(v.last())
    }
}

/// The first page of a big MSF file of `page_len`-byte pages: the signature, the page size, the
/// active FPM, the number of pages, the size of the Stream Directory, a 0, and the page map of the
/// Stream Directory; the rest of the page is zero.
pub open spec fn big_page0(
    page_len: int,
    page_size: u32,
    active_fpm: u32,
    num_pages: u32,
    stream_dir_size: u32,
    page_map: Seq<u32>,
) -> Seq<u8> {
    let head = MSF_BIG_MAGIC@ + le_bytes_u32(page_size) + le_bytes_u32(active_fpm) + le_bytes_u32(
        num_pages,
    ) + le_bytes_u32(stream_dir_size) + le_bytes_u32(0) + u32s_bytes(page_map);
    head + Seq::new((page_len - head.len()) as nat, |i: int| 0u8)
}

/// Builds the first page of a big MSF file, which holds its header: the page size, the active
/// FPM, the number of pages, the size of the Stream Directory and the pages of its page map.
/// The page map must fit within the page.
pub fn build_big_page0(
    page_size: PageSize,
    active_fpm: u32,
    num_pages: u32,
    stream_dir_size: u32,
    page_map: &[u32],
) -> (page0: Vec<u8>)
    requires
        MSF_HEADER_LEN + 4 * page_map@.len() <= pow2(page_size@),
    ensures
        page0@ == big_page0(
            pow2(page_size@) as int,
            pow2(page_size@) as u32,
            active_fpm,
            num_pages,
            stream_dir_size,
            page_map@,
        ),
{
    let page_len = page_size.bytes();
    let mut page0: Vec<u8> = Vec::new();
    {
        let mut e = Encoder::new(&mut page0);
        e.bytes(&MSF_BIG_MAGIC);
        e.u32(page_len);
        e.u32(active_fpm);
        e.u32(num_pages);
        e.u32(stream_dir_size);
        e.u32(0);
        let ghost head0 = e@;
        let ghost fin = *final(e.buf);
        let mut i: usize = 0;
        while i < page_map.len()
            invariant
                i <= page_map@.len(),
                e@ == head0 + u32s_bytes(page_map@.take(i as int)),
                *final(e.buf) == fin,
            decreases page_map@.len() - i,
        {
            e.u32(page_map[i]);
            assert(page_map@.take(i + 1).drop_last() =~= page_map@.take(i as int));
            i = i + 1;
        }
        assert(page_map@.take(page_map@.len() as int) =~= page_map@);
        proof {
            lemma_u32s_bytes_len(page_map@);
        }
        let ghost head = e@;
        while e.len() < page_len as usize
            invariant
                e@.len() <= page_len,
                head.len() <= page_len,
                e@ == head + Seq::new((e@.len() - head.len()) as nat, |k: int| 0u8),
                *final(e.buf) == fin,
            decreases page_len - e@.len(),
        {
            e.u8(0);
            assert(e@ =~= head + Seq::new((e@.len() - head.len()) as nat, |k: int| 0u8));
        }
    }
    page0
}

/// The little-endian bytes of a list of `u32` values, one value after another.
pub fn u32s_to_bytes(words: &[u32]) -> (out: Vec<u8>)
    ensures
        out@ == u32s_bytes(words@),
{
    let mut out: Vec<u8> = Vec::new();
    let mut i: usize = 0;
    while i < words.len()
        invariant
            i <= words@.len(),
            out@ == u32s_bytes(words@.take(i as int)),
        decreases words@.len() - i,
    {
        let mut e = Encoder::new(&mut out);
        e.u32(words[i]);
        assert(words@.take(i + 1).drop_last() =~= words@.take(i as int));
        i = i + 1;
    }
    assert(words@.take(words@.len() as int) =~= words@);
    out
}

/// Page `i` of `bytes` laid out in pages of `page_len` bytes: the bytes from `i * page_len`,
/// padded with zeros to a whole page.
pub open spec fn page_contents(bytes: Seq<u8>, page_len: int, i: int) -> Seq<u8> {
    let start = i * page_len;
    let end = if start + page_len <= bytes.len() {
        start + page_len
    } else {
        bytes.len() as int
    };
    bytes.subrange(start, end) + Seq::new((page_len - (end - start)) as nat, |k: int| 0u8)
}

/// Lays `bytes` out in pages of `page_len` bytes; the last page is padded with zeros.
pub fn split_into_pages(bytes: &[u8], page_len: usize) -> (pages: Vec<Vec<u8>>)
    requires
        page_len > 0,
        bytes@.len() + page_len <= usize::MAX,
    ensures
        pages@.len() == (bytes@.len() + page_len - 1) / page_len as int,
        forall|i: int| 0 <= i < pages@.len() ==> (#[trigger] pages@[i])@ == page_contents(bytes@, page_len as int, i),
{
    let mut pages: Vec<Vec<u8>> = Vec::new();
    let mut start: usize = 0;
    let n = bytes.len();
    while start < n
        invariant
            n == bytes@.len(),
            n + page_len <= usize::MAX,
            page_len > 0,
            start == pages@.len() * page_len,
            start <= n + page_len,
            pages@.len() > 0 ==> start - page_len < n,
            forall|i: int| 0 <= i < pages@.len() ==> (#[trigger] pages@[i])@ == page_contents(bytes@, page_len as int, i),
        decreases n + page_len - start,
    {
        let end = if start + page_len <= n { start + page_len } else { n };
        let mut page: Vec<u8> = Vec::new();
        let mut k: usize = start;
        while k < end
            invariant
                start <= k <= end <= n,
                n == bytes@.len(),
                page@ == bytes@.subrange(start as int, k as int),
            decreases end - k,
        {
            page.push(bytes[k]);
            assert(bytes@.subrange(start as int, k + 1) =~= bytes@.subrange(start as int, k as int).push(bytes@[k as int]));
            k = k + 1;
        }
        let ghost data = page@;
        while page.len() < page_len
            invariant
                page@.len() <= page_len,
                data.len() <= page_len,
                page@ == data + Seq::new((page@.len() - data.len()) as nat, |j: int| 0u8),
            decreases page_len - page@.len(),
        {
            page.push(0);
            assert(page@ =~= data + Seq::new((page@.len() - data.len()) as nat, |j: int| 0u8));
        }
        let ghost idx = pages@.len() as int;
        assert(page@ =~= page_contents(bytes@, page_len as int, idx)) by {
            assert(idx * page_len == start);
        }
        pages.push(page);
        proof {
            assert((idx + 1) * page_len == start + page_len) by (nonlinear_arith)
                requires idx * page_len == start;
        }
        start = start + page_len;
    }
    proof {
        let c = pages@.len() as int;
        let pl = page_len as int;
        let nn = n as int;
        assert(c == (nn + pl - 1) / pl) by (nonlinear_arith)
            requires
                c * pl >= nn,
                c > 0 ==> c * pl - pl < nn,
                c == 0 ==> nn == 0,
                pl > 0,
                nn >= 0,
        {
            vstd::arithmetic::div_mod::lemma_fundamental_div_mod(nn + pl - 1, pl);
        }
    }
    pages
}

/// The encodings of `v` take four bytes each.
proof fn lemma_u32s_bytes_len(v: Seq<u32>)
    ensures
        u32s_bytes(v).len() == 4 * v.len(),
    decreases v.len(),
{
    if v.len() > 0 {
        lemma_u32s_bytes_len(v.drop_last());
    }
}

/// Value `i` of `v` is encoded at byte `4 * i`.
proof fn lemma_u32s_bytes_at(v: Seq<u32>, i: int)
    requires
        0 <= i < v.len(),
    ensures
        u32s_bytes(v).len() == 4 * v.len(),
        u32s_bytes(v).subrange(4 * i, 4 * i + 4) == le_bytes_u32(v[i]),
    decreases v.len(),
{
    lemma_u32s_bytes_len(v);
    lemma_u32s_bytes_len(v.drop_last());
    if i < v.len() - 1 {
        lemma_u32s_bytes_at(v.drop_last(), i);
        assert(u32s_bytes(v).subrange(4 * i, 4 * i + 4) =~= u32s_bytes(v.drop_last()).subrange(4 * i, 4 * i + 4));
    } else {
        assert(u32s_bytes(v).subrange(4 * i, 4 * i + 4) =~= le_bytes_u32(v[i]));
    }
}

/// The first page that `build_big_page0` writes reads back: its first 512 bytes hold a big MSF
/// signature with the page size, active FPM, number of pages and Stream Directory size that were
/// written, and, where the page map fits within those bytes, the page map that was written.
pub proof fn lemma_big_page0_reads_back(
    page_len: int,
    page_size: u32,
    active_fpm: u32,
    num_pages: u32,
    stream_dir_size: u32,
    page_map: Seq<u32>,
)
    requires
        page_len >= MIN_PAGE_SIZE_BYTES,
        page_len >= MSF_HEADER_LEN + 4 * page_map.len(),
    ensures
        ({
            let p = big_page0(page_len, page_size, active_fpm, num_pages, stream_dir_size, page_map).take(
                MIN_PAGE_SIZE_BYTES as int,
            );
            &&& msf_header_fields(p) == Some(
                (MsfKind::Big, page_size, active_fpm, num_pages, stream_dir_size),
            )
            &&& MSF_HEADER_LEN + 4 * page_map.len() <= MIN_PAGE_SIZE_BYTES ==> Parser::u32_list(
                p.skip(MSF_HEADER_LEN as int),
                page_map.len() as int,
            ) == page_map
        }),
{
    let whole = big_page0(page_len, page_size, active_fpm, num_pages, stream_dir_size, page_map);
    let p = whole.take(MIN_PAGE_SIZE_BYTES as int);
    let m = u32s_bytes(page_map);
    lemma_u32s_bytes_len(page_map);
    let head = MSF_BIG_MAGIC@ + le_bytes_u32(page_size) + le_bytes_u32(active_fpm) + le_bytes_u32(
        num_pages,
    ) + le_bytes_u32(stream_dir_size) + le_bytes_u32(0) + m;
    assert(head.len() == 52 + 4 * page_map.len());
    assert(p.take(32) =~= MSF_BIG_MAGIC@);
    assert(has_prefix(p, MSF_BIG_MAGIC@));
    assert(p.skip(32).take(4) =~= le_bytes_u32(page_size));
    assert(p.skip(36).take(4) =~= le_bytes_u32(active_fpm));
    assert(p.skip(40).take(4) =~= le_bytes_u32(num_pages));
    assert(p.skip(44).take(4) =~= le_bytes_u32(stream_dir_size));
    lemma_u32_roundtrip(page_size);
    lemma_u32_roundtrip(active_fpm);
    lemma_u32_roundtrip(num_pages);
    lemma_u32_roundtrip(stream_dir_size);
    assert(le_u32(p.skip(32)) == le_u32(le_bytes_u32(page_size)));
    assert(le_u32(p.skip(36)) == le_u32(le_bytes_u32(active_fpm)));
    assert(le_u32(p.skip(40)) == le_u32(le_bytes_u32(num_pages)));
    assert(le_u32(p.skip(44)) == le_u32(le_bytes_u32(stream_dir_size)));
    if MSF_HEADER_LEN + 4 * page_map.len() <= MIN_PAGE_SIZE_BYTES {
        let q = p.skip(MSF_HEADER_LEN as int);
        assert forall|i: int| 0 <= i < page_map.len() implies #[trigger] Parser::u32_list(q, page_map.len() as int)[i]
            == page_map[i] by {
            lemma_u32s_bytes_at(page_map, i);
            assert(q.skip(4 * i).take(4) =~= m.subrange(4 * i, 4 * i + 4));
            lemma_u32_roundtrip(page_map[i]);
            assert(le_u32(q.skip(4 * i)) == le_u32(le_bytes_u32(page_map[i])));
        }
        assert(Parser::u32_list(q, page_map.len() as int) =~= page_map);
    }
}

/// `x` divided by `2^exponent`, rounded up.
pub open spec fn div_round_up_spec(x: int, exponent: nat) -> int {
    (x + pow2(exponent) - 1) / pow2(exponent) as int
}

/// The page numbers of the pages that hold the page map of a big MSF Stream Directory. The page
/// map lists the pages that hold the Stream Directory; the page numbers of its pages follow the
/// header in the first page of the file.
pub fn big_stream_dir_map_pages(page0: &[u8], header: &MsfHeaderInfo) -> (r: Result<Vec<u32>, MsfOpenError>)
    requires
        page0@.len() == MIN_PAGE_SIZE_BYTES,
        4 * div_round_up_spec(header.stream_dir_size as int, header.page_size@) <= u32::MAX,
    ensures
        ({
            let dir_pages = div_round_up_spec(header.stream_dir_size as int, header.page_size@);
            let map_pages = div_round_up_spec(4 * dir_pages, header.page_size@);
            if header.stream_dir_size % 4 != 0 {
                r == Err::<Vec<u32>, MsfOpenError>(MsfOpenError::StreamDirSizeNotAligned)
            } else if MSF_HEADER_LEN + 4 * map_pages > MIN_PAGE_SIZE_BYTES {
                r == Err::<Vec<u32>, MsfOpenError>(MsfOpenError::StreamDirTooLarge)
            } else {
                r matches Ok(v) && v@ == Parser::u32_list(page0@.skip(MSF_HEADER_LEN as int), map_pages)
            }
        }),
{
    if header.stream_dir_size % 4 != 0 {
        return Err(MsfOpenError::StreamDirSizeNotAligned);
    }
    let dir_pages = header.page_size.div_round_up(header.stream_dir_size);
    let map_pages = header.page_size.div_round_up(4 * dir_pages);
    let rest = vstd::slice::slice_subrange(page0, MSF_HEADER_LEN, page0.len());
    let mut p = Parser::new(rest);
    match p.u32_array(map_pages as usize) {
        Ok(v) => {
            assert(rest@ =~= page0@.skip(MSF_HEADER_LEN as int));
            Ok(v)
        },
        Err(_) => Err(MsfOpenError::StreamDirTooLarge),
    }
}

/// Checks a page of the Stream Directory (or of its page map): it may not be Page 0 or an FPM
/// page.
pub fn check_stream_dir_page(page_size: PageSize, page: u32) -> (r: Result<(), MsfOpenError>)
    ensures
        r is Err <==> (page == 0 || page_within_interval(page, page_size@) == 1 || page_within_interval(
            page,
            page_size@,
        ) == 2),
        r matches Err(e) ==> e == MsfOpenError::InvalidStreamDirPage(page),
{
    if is_special_page_big_msf(page_size, page) {
        Err(MsfOpenError::InvalidStreamDirPage(page))
    } else {
        Ok(())
    }
}

/// The sizes of the streams, and where their pages are: the pages of stream `i` are
/// `committed_stream_pages[committed_stream_page_starts[i]..committed_stream_page_starts[i + 1]]`.
pub struct StreamDirectory {
    /// The size of each stream, or [`NIL_STREAM_SIZE`] for a nil stream.
    pub stream_sizes: Vec<u32>,
    /// The page numbers of all streams, one stream after another.
    pub committed_stream_pages: Vec<u32>,
    /// Where the pages of each stream start in `committed_stream_pages`, and a last entry for the
    /// end.
    pub committed_stream_page_starts: Vec<u32>,
}

/// The number of pages that the streams before stream `i` take.
pub open spec fn pages_before(sizes: Seq<u32>, exponent: nat, i: int) -> int
    decreases i,
{
    if i <= 0 {
        0
    } else {
        pages_before(sizes, exponent, i - 1) + pages_for_stream_size(sizes[i - 1], exponent)
    }
}

/// The first stream `i` whose pages run past `avail` pages (the pages of streams `0..i` are laid
/// out one after another).
pub open spec fn first_overflowing_stream(sizes: Seq<u32>, exponent: nat, avail: int, i: int) -> bool {
    &&& 0 <= i < sizes.len()
    &&& pages_before(sizes, exponent, i + 1) > avail
    &&& pages_before(sizes, exponent, i) <= avail
}

/// The page counts add up: `pages_before` does not decrease.
proof fn lemma_pages_before_mono(sizes: Seq<u32>, exponent: nat, i: int, j: int)
    requires
        0 <= i <= j,
    ensures
        pages_before(sizes, exponent, i) <= pages_before(sizes, exponent, j),
    decreases j - i,
{
    if i < j {
        lemma_pages_before_mono(sizes, exponent, i, j - 1);
        assert(pages_for_stream_size(sizes[j - 1], exponent) >= 0) by {
            vstd::arithmetic::power2::lemma_pow2_pos(exponent);
            if sizes[j - 1] != NIL_STREAM_SIZE {
                vstd::arithmetic::div_mod::lemma_div_pos_is_pos(
                    sizes[j - 1] + pow2(exponent) - 1,
                    pow2(exponent) as int,
                );
            }
        }
    }
}

/// Lays out the pages of the streams whose sizes are `sizes`, taking them from `pages` in order.
fn lay_out_stream_pages(sizes: &[u32], pages: &[u32], page_size: PageSize) -> (r: Result<StreamDirectory, MsfOpenError>)
    requires
        pages@.len() <= u32::MAX,
        sizes@.len() <= u32::MAX,
    ensures
        match r {
            Err(e) => exists|i: int|
                #[trigger] first_overflowing_stream(sizes@, page_size@, pages@.len() as int, i)
                    && e == MsfOpenError::StreamExceedsStreamDir { stream: i as u32, size: sizes@[i] },
            Ok(d) => {
                &&& pages_before(sizes@, page_size@, sizes@.len() as int) <= pages@.len()
                &&& d.stream_sizes@ == sizes@
                &&& d.committed_stream_page_starts@.len() == sizes@.len() + 1
                &&& forall|i: int|
                    0 <= i <= sizes@.len() ==> #[trigger] d.committed_stream_page_starts@[i] == pages_before(
                        sizes@,
                        page_size@,
                        i,
                    )
                &&& d.committed_stream_pages@ == pages@.take(
                    pages_before(sizes@, page_size@, sizes@.len() as int),
                )
            },
        },
        (forall|i: int| 0 <= i < sizes@.len() ==> !first_overflowing_stream(sizes@, page_size@, pages@.len() as int, i))
            ==> r is Ok,
{
    let mut committed_stream_pages: Vec<u32> = Vec::new();
    let mut starts: Vec<u32> = Vec::new();
    let mut i: usize = 0;
    while i < sizes.len()
        invariant
            i <= sizes@.len(),
            pages@.len() <= u32::MAX,
            sizes@.len() <= u32::MAX,
            committed_stream_pages@.len() == pages_before(sizes@, page_size@, i as int),
            committed_stream_pages@.len() <= pages@.len(),
            committed_stream_pages@ == pages@.take(committed_stream_pages@.len() as int),
            starts@.len() == i,
            forall|k: int| 0 <= k < i ==> #[trigger] starts@[k] == pages_before(sizes@, page_size@, k),
        decreases sizes@.len() - i,
    {
        let done = committed_stream_pages.len();
        starts.push(done as u32);
        let stream_size = sizes[i];
        let n = num_pages_for_stream_size(stream_size, page_size) as usize;
        if n > pages.len() - done {
            proof {
                assert(first_overflowing_stream(sizes@, page_size@, pages@.len() as int, i as int));
            }
            return Err(MsfOpenError::StreamExceedsStreamDir { stream: i as u32, size: stream_size });
        }
        let ghost before = committed_stream_pages@;
        let mut k: usize = 0;
        while k < n
            invariant
                k <= n,
                pages@.len() <= u32::MAX,
                done + n <= pages@.len(),
                done == before.len(),
                committed_stream_pages@ == pages@.take(done + k),
            decreases n - k,
        {
            committed_stream_pages.push(pages[done + k]);
            assert(committed_stream_pages@ =~= pages@.take(done + k + 1));
            k = k + 1;
        }
        i = i + 1;
    }
    let total = committed_stream_pages.len();
    starts.push(total as u32);
    proof {
        assert forall|q: int| 0 <= q < sizes@.len() implies !first_overflowing_stream(
            sizes@,
            page_size@,
            pages@.len() as int,
            q,
        ) by {
            lemma_pages_before_mono(sizes@, page_size@, q + 1, sizes@.len() as int);
        }
    }
    Ok(StreamDirectory {
        stream_sizes: vstd::slice::slice_to_vec(sizes),
        committed_stream_pages,
        committed_stream_page_starts: starts,
    })
}

/// Decodes the Stream Directory of a big MSF file, given as its little-endian `u32` words: the
/// number of streams, the size of each stream, then the pages of each stream in turn.
///
/// Stream 0 (the old Stream Directory) is given a size of 0: nothing reads it, and nothing is
/// written for it.
pub fn decode_big_stream_dir(stream_dir: &[u32], page_size: PageSize) -> (r: Result<StreamDirectory, MsfOpenError>)
    requires
        stream_dir@.len() <= u32::MAX,
    ensures
        ({
            let d = stream_dir@;
            if d.len() == 0 {
                r == Err::<StreamDirectory, MsfOpenError>(MsfOpenError::EmptyStreamDir)
            } else if d[0] == 0 {
                r == Err::<StreamDirectory, MsfOpenError>(MsfOpenError::ZeroStreams)
            } else if 1 + d[0] > d.len() {
                r == Err::<StreamDirectory, MsfOpenError>(MsfOpenError::NumStreamsInconsistent)
            } else {
                let n = d[0] as int;
                let sizes = d.subrange(1, 1 + n);
                let pages = d.skip(1 + n);
                let total = pages_before(sizes, page_size@, n);
                &&& ((forall|i: int| 0 <= i < n ==> !first_overflowing_stream(sizes, page_size@, pages.len() as int, i))
                    ==> r is Ok)
                &&& match r {
                    Err(e) => exists|i: int|
                        #[trigger] first_overflowing_stream(sizes, page_size@, pages.len() as int, i)
                            && e == MsfOpenError::StreamExceedsStreamDir { stream: i as u32, size: sizes[i] },
                    Ok(sd) => {
                        &&& total <= pages.len()
                        &&& sd.stream_sizes@ == sizes.update(0, 0)
                        &&& sd.committed_stream_page_starts@.len() == n + 1
                        &&& forall|i: int|
                            0 <= i <= n ==> #[trigger] sd.committed_stream_page_starts@[i]
                                == pages_before(sizes, page_size@, i)
                        &&& sd.committed_stream_pages@ == pages.take(total)
                    },
                }
            }
        }),
{
    if stream_dir.len() == 0 {
        return Err(MsfOpenError::EmptyStreamDir);
    }
    let num_streams = stream_dir[0] as usize;
    if num_streams == 0 {
        return Err(MsfOpenError::ZeroStreams);
    }
    if num_streams > stream_dir.len() - 1 {
        return Err(MsfOpenError::NumStreamsInconsistent);
    }
    let sizes = vstd::slice::slice_subrange(stream_dir, 1, 1 + num_streams);
    let pages = vstd::slice::slice_subrange(stream_dir, 1 + num_streams, stream_dir.len());
    assert(pages@ =~= stream_dir@.skip(1 + num_streams));
    let mut sd = lay_out_stream_pages(sizes, pages, page_size)?;
    sd.stream_sizes.set(0, 0);
    Ok(sd)
}

/// The pages of the non-nil streams among the first `i`, one stream after another.
pub open spec fn dir_pages(sizes: Seq<u32>, pages: Seq<Seq<u32>>, i: int) -> Seq<u32>
    decreases i,
{
    if i <= 0 {
        Seq::empty()
    } else {
        dir_pages(sizes, pages, i - 1) + if sizes[i - 1] == NIL_STREAM_SIZE {
            Seq::<u32>::empty()
        } else {
            pages[i - 1]
        }
    }
}

/// The Stream Directory that is written for streams of sizes `sizes` whose pages are `pages`:
/// the number of streams, the size of each stream (0 for Stream 0), then the pages of each
/// non-nil stream in turn.
pub open spec fn new_stream_dir(sizes: Seq<u32>, pages: Seq<Seq<u32>>) -> Seq<u32> {
    seq![sizes.len() as u32, 0u32] + sizes.skip(1) + dir_pages(sizes, pages, sizes.len() as int)
}

/// Whether each non-nil stream has as many pages as its size needs.
pub open spec fn pages_fit_sizes(sizes: Seq<u32>, pages: Seq<Seq<u32>>, exponent: nat) -> bool {
    &&& pages.len() == sizes.len()
    &&& forall|i: int|
        0 <= i < sizes.len() && sizes[i] != NIL_STREAM_SIZE ==> (#[trigger] pages[i]).len()
            == pages_for_stream_size(sizes[i], exponent)
}

/// The page lists of a set of streams, as sequences.
pub open spec fn page_lists(stream_pages: Seq<Vec<u32>>) -> Seq<Seq<u32>> {
    stream_pages.map_values(|v: Vec<u32>| v@)
}

/// Builds the new Stream Directory: the number of streams, the size of each stream (Stream 0,
/// the old Stream Directory, gets a size of 0), then the pages of each non-nil stream in turn.
/// Each non-nil stream must have as many pages as its size needs.
pub fn build_new_stream_dir(stream_sizes: &[u32], stream_pages: &[Vec<u32>], page_size: PageSize) -> (dir: Vec<u32>)
    requires
        1 <= stream_sizes@.len() <= u32::MAX,
        pages_fit_sizes(stream_sizes@, page_lists(stream_pages@), page_size@),
    ensures
        dir@ == new_stream_dir(stream_sizes@, page_lists(stream_pages@)),
{
    let ghost sizes = stream_sizes@;
    let ghost pages = page_lists(stream_pages@);
    let num_streams = stream_sizes.len();
    let mut stream_dir: Vec<u32> = Vec::new();
    stream_dir.push(num_streams as u32);
    stream_dir.push(0);
    let mut i: usize = 1;
    while i < num_streams
        invariant
            1 <= i <= num_streams,
            num_streams == sizes.len(),
            sizes == stream_sizes@,
            stream_dir@ == seq![num_streams as u32, 0u32] + sizes.subrange(1, i as int),
        decreases num_streams - i,
    {
        stream_dir.push(stream_sizes[i]);
        assert(sizes.subrange(1, i + 1) =~= sizes.subrange(1, i as int).push(sizes[i as int]));
        i = i + 1;
    }
    assert(sizes.subrange(1, num_streams as int) =~= sizes.skip(1));
    let ghost head = stream_dir@;
    let mut stream: usize = 0;
    while stream < num_streams
        invariant
            stream <= num_streams,
            num_streams == sizes.len(),
            sizes == stream_sizes@,
            pages == page_lists(stream_pages@),
            stream_pages@.len() == num_streams,
            stream_dir@ == head + dir_pages(sizes, pages, stream as int),
        decreases num_streams - stream,
    {
        if stream_sizes[stream] != NIL_STREAM_SIZE {
            let list: &Vec<u32> = &stream_pages[stream];
            assert(list@ == pages[stream as int]);
            let ghost start = stream_dir@;
            let mut k: usize = 0;
            while k < list.len()
                invariant
                    k <= list@.len(),
                    stream_dir@ == start + list@.take(k as int),
                decreases list@.len() - k,
            {
                stream_dir.push(list[k]);
                assert(list@.take(k + 1) =~= list@.take(k as int).push(list@[k as int]));
                k = k + 1;
            }
            assert(list@.take(list@.len() as int) =~= list@);
        }
        assert(stream_dir@ =~= head + dir_pages(sizes, pages, stream + 1));
        stream = stream + 1;
    }
    stream_dir
}

impl StreamDirectory {
    /// The in-memory Stream Directory of a set of streams (as it stands after a commit): their
    /// sizes, the pages of the non-nil streams one stream after another, and where each
    /// stream's pages start. Each non-nil stream must have as many pages as its size needs.
    pub fn from_stream_pages(stream_sizes: &[u32], stream_pages: &[Vec<u32>], page_size: PageSize) -> (d: Self)
        requires
            stream_sizes@.len() <= u32::MAX,
            pages_fit_sizes(stream_sizes@, page_lists(stream_pages@), page_size@),
            pages_before(stream_sizes@, page_size@, stream_sizes@.len() as int) <= u32::MAX,
        ensures
            d.stream_sizes@ == stream_sizes@,
            d.committed_stream_pages@ == dir_pages(
                stream_sizes@,
                page_lists(stream_pages@),
                stream_sizes@.len() as int,
            ),
            d.committed_stream_page_starts@.len() == stream_sizes@.len() + 1,
            forall|i: int|
                0 <= i <= stream_sizes@.len() ==> #[trigger] d.committed_stream_page_starts@[i]
                    == pages_before(stream_sizes@, page_size@, i),
            d.wf(page_size),
    {
        let ghost sizes = stream_sizes@;
        let ghost pages = page_lists(stream_pages@);
        let ghost e = page_size@;
        let n = stream_sizes.len();
        let mut all: Vec<u32> = Vec::new();
        let mut starts: Vec<u32> = Vec::new();
        let mut stream: usize = 0;
        proof {
            lemma_dir_pages_len(sizes, pages, e, n as int);
        }
        while stream < n
            invariant
                stream <= n,
                n == sizes.len(),
                sizes == stream_sizes@,
                pages == page_lists(stream_pages@),
                pages_fit_sizes(sizes, pages, e),
                e == page_size@,
                pages_before(sizes, e, n as int) <= u32::MAX,
                all@ == dir_pages(sizes, pages, stream as int),
                starts@.len() == stream,
                forall|k: int| 0 <= k < stream ==> #[trigger] starts@[k] == pages_before(sizes, e, k),
            decreases n - stream,
        {
            proof {
                lemma_dir_pages_len(sizes, pages, e, stream as int);
                lemma_pages_before_mono(sizes, e, stream as int, n as int);
            }
            starts.push(all.len() as u32);
            if stream_sizes[stream] != NIL_STREAM_SIZE {
                let list: &Vec<u32> = &stream_pages[stream];
                assert(list@ == pages[stream as int]);
                let ghost start = all@;
                let mut k: usize = 0;
                while k < list.len()
                    invariant
                        k <= list@.len(),
                        all@ == start + list@.take(k as int),
                    decreases list@.len() - k,
                {
                    all.push(list[k]);
                    assert(list@.take(k + 1) =~= list@.take(k as int).push(list@[k as int]));
                    k = k + 1;
                }
                assert(list@.take(list@.len() as int) =~= list@);
            }
            assert(all@ =~= dir_pages(sizes, pages, stream + 1));
            stream = stream + 1;
        }
        proof {
            lemma_dir_pages_len(sizes, pages, e, n as int);
        }
        starts.push(all.len() as u32);
        let d = StreamDirectory {
            stream_sizes: vstd::slice::slice_to_vec(stream_sizes),
            committed_stream_pages: all,
            committed_stream_page_starts: starts,
        };
        proof {
            assert forall|i: int| 0 <= i < sizes.len() implies #[trigger] d.committed_stream_page_starts@[i]
                + pages_for_stream_size(d.stream_sizes@[i], e) <= d.committed_stream_pages@.len() by {
                lemma_pages_before_mono(sizes, e, i + 1, n as int);
            }
        }
        d
    }
}

/// The pages of a nil stream, or of a stream of size 0, number 0.
proof fn lemma_pages_for_zero(exponent: nat)
    ensures
        pages_for_stream_size(0, exponent) == 0,
        pages_for_stream_size(NIL_STREAM_SIZE, exponent) == 0,
{
    vstd::arithmetic::power2::lemma_pow2_pos(exponent);
    vstd::arithmetic::div_mod::lemma_basic_div(pow2(exponent) - 1, pow2(exponent) as int);
}

/// The pages of the streams, laid one after another, number as many as their sizes need.
proof fn lemma_dir_pages_len(sizes: Seq<u32>, pages: Seq<Seq<u32>>, exponent: nat, i: int)
    requires
        pages_fit_sizes(sizes, pages, exponent),
        0 <= i <= sizes.len(),
    ensures
        dir_pages(sizes, pages, i).len() == pages_before(sizes, exponent, i),
    decreases i,
{
    if i > 0 {
        lemma_dir_pages_len(sizes, pages, exponent, i - 1);
        lemma_pages_for_zero(exponent);
    }
}

/// Laying out more streams only adds pages at the end.
proof fn lemma_dir_pages_prefix(sizes: Seq<u32>, pages: Seq<Seq<u32>>, i: int, j: int)
    requires
        0 <= i <= j,
    ensures
        dir_pages(sizes, pages, j).take(dir_pages(sizes, pages, i).len() as int) == dir_pages(sizes, pages, i),
        dir_pages(sizes, pages, i).len() <= dir_pages(sizes, pages, j).len(),
    decreases j - i,
{
    if i < j {
        lemma_dir_pages_prefix(sizes, pages, i, j - 1);
        let a = dir_pages(sizes, pages, i);
        let b = dir_pages(sizes, pages, j - 1);
        assert(dir_pages(sizes, pages, j).take(a.len() as int) =~= b.take(a.len() as int));
    } else {
        assert(dir_pages(sizes, pages, j).take(dir_pages(sizes, pages, i).len() as int) =~= dir_pages(sizes, pages, i));
    }
}

/// Giving Stream 0 a size of 0 changes no page count, when it had no pages.
proof fn lemma_pages_before_stream0(sizes: Seq<u32>, exponent: nat, i: int)
    requires
        sizes.len() >= 1,
        pages_for_stream_size(sizes[0], exponent) == 0,
        0 <= i <= sizes.len(),
    ensures
        pages_before(sizes.update(0, 0), exponent, i) == pages_before(sizes, exponent, i),
    decreases i,
{
    if i > 0 {
        lemma_pages_before_stream0(sizes, exponent, i - 1);
        lemma_pages_for_zero(exponent);
    }
}

/// A Stream Directory that `build_new_stream_dir` writes decodes to the same streams: it holds
/// the stated number of streams, the sizes (with 0 for Stream 0), no stream's pages run past its
/// end, and the pages found for each non-nil stream are the ones it was written with. Stream 0
/// must have no pages, since its size is written as 0.
pub proof fn lemma_new_stream_dir_decodes(sizes: Seq<u32>, pages: Seq<Seq<u32>>, exponent: nat)
    requires
        1 <= sizes.len() <= u32::MAX,
        pages_fit_sizes(sizes, pages, exponent),
        pages_for_stream_size(sizes[0], exponent) == 0,
    ensures
        ({
            let d = new_stream_dir(sizes, pages);
            let n = sizes.len() as int;
            let decoded = d.subrange(1, 1 + n);
            let rest = d.skip(1 + n);
            &&& d.len() > 0
            &&& d[0] == n
            &&& 1 + n <= d.len()
            &&& decoded == sizes.update(0, 0)
            &&& pages_before(decoded, exponent, n) == rest.len()
            &&& forall|i: int| 0 <= i < n ==> !first_overflowing_stream(decoded, exponent, rest.len() as int, i)
            &&& forall|i: int|
                0 <= i < n && sizes[i] != NIL_STREAM_SIZE ==> rest.subrange(
                    pages_before(decoded, exponent, i),
                    pages_before(decoded, exponent, i) + pages_for_stream_size(decoded[i], exponent),
                ) == #[trigger] pages[i]
        }),
{
    let d = new_stream_dir(sizes, pages);
    let n = sizes.len() as int;
    let decoded = d.subrange(1, 1 + n);
    let rest = d.skip(1 + n);
    let all = dir_pages(sizes, pages, n);
    assert(decoded =~= sizes.update(0, 0));
    assert(rest =~= all);
    lemma_dir_pages_len(sizes, pages, exponent, n);
    lemma_pages_before_stream0(sizes, exponent, n);
    lemma_pages_for_zero(exponent);
    assert forall|i: int| 0 <= i < n implies !first_overflowing_stream(decoded, exponent, rest.len() as int, i) by {
        lemma_pages_before_mono(decoded, exponent, i + 1, n);
    }
    assert forall|i: int| 0 <= i < n && sizes[i] != NIL_STREAM_SIZE implies rest.subrange(
        pages_before(decoded, exponent, i),
        pages_before(decoded, exponent, i) + pages_for_stream_size(decoded[i], exponent),
    ) == #[trigger] pages[i] by {
        lemma_pages_before_stream0(sizes, exponent, i);
        lemma_dir_pages_len(sizes, pages, exponent, i);
        lemma_dir_pages_len(sizes, pages, exponent, i + 1);
        lemma_dir_pages_prefix(sizes, pages, i + 1, n);
        let a = dir_pages(sizes, pages, i);
        let b = dir_pages(sizes, pages, i + 1);
        assert(b == a + pages[i]);
        if i == 0 {
            assert(pages[0].len() == 0);
        }
        assert(decoded[i] == sizes[i] || (i == 0 && decoded[i] == 0));
        assert(pages_for_stream_size(decoded[i], exponent) == pages[i].len());
        assert(all.subrange(a.len() as int, b.len() as int) =~= pages[i]) by {
            assert(all.take(b.len() as int) == b);
            assert forall|k: int| 0 <= k < pages[i].len() implies all.subrange(a.len() as int, b.len() as int)[k] == pages[i][k] by {
                assert(all.take(b.len() as int)[a.len() + k] == b[a.len() + k]);
            }
        }
    }
}

/// The number of page pointers (16-bit page numbers, which follow the header in the first page)
/// that list the pages of the Stream Directory of a small MSF file.
pub fn small_stream_dir_num_pages(header: &MsfHeaderInfo) -> (r: Result<u32, MsfOpenError>)
    requires
        2 * div_round_up_spec(header.stream_dir_size as int, header.page_size@) + SMALL_MSF_HEADER_LEN
            <= u32::MAX,
    ensures
        ({
            let n = div_round_up_spec(header.stream_dir_size as int, header.page_size@);
            if 2 * n + SMALL_MSF_HEADER_LEN > pow2(header.page_size@) {
                r == Err::<u32, MsfOpenError>(MsfOpenError::SmallPagePointersExceedPage)
            } else {
                r == Ok::<u32, MsfOpenError>(n as u32)
            }
        }),
{
    let n = header.page_size.div_round_up(header.stream_dir_size);
    if n * 2 + SMALL_MSF_HEADER_LEN as u32 > header.page_size.bytes() {
        return Err(MsfOpenError::SmallPagePointersExceedPage);
    }
    Ok(n)
}

/// The number of pages that the streams listed in `sizes` take, computed without overflow.
fn total_stream_pages(sizes: &[u32], page_size: PageSize) -> (t: u64)
    requires
        sizes@.len() <= 0x1_0000,
    ensures
        t == pages_before(sizes@, page_size@, sizes@.len() as int),
{
    let mut t: u64 = 0;
    let mut i: usize = 0;
    while i < sizes.len()
        invariant
            i <= sizes@.len(),
            sizes@.len() <= 0x1_0000,
            t == pages_before(sizes@, page_size@, i as int),
            t <= i * 0x1_0000_0000,
        decreases sizes@.len() - i,
    {
        let n = num_pages_for_stream_size(sizes[i], page_size);
        t = t + n as u64;
        i = i + 1;
    }
    t
}

/// Decodes the Stream Directory of a small MSF file: a 16-bit number of streams (and 16 unused
/// bits), an 8-byte entry for each stream (its 32-bit size and 32 unused bits), then the 16-bit
/// page numbers of each stream in turn.
pub fn decode_small_stream_dir(bytes: &[u8], page_size: PageSize) -> (r: Result<StreamDirectory, MsfOpenError>)
    requires
        bytes@.len() <= u32::MAX,
    ensures
        ({
            let b = bytes@;
            let n = le_u16(b);
            let sizes = Seq::new(n as nat, |i: int| le_u32(b.skip(4 + 8 * i)) as u32);
            let rest = b.skip(4 + 8 * n);
            let total = pages_before(sizes, page_size@, n);
            if b.len() < 4 || 4 + 8 * n > b.len() || 2 * total > rest.len() {
                r == Err::<StreamDirectory, MsfOpenError>(MsfOpenError::SmallStreamDirTooSmall)
            } else {
                r matches Ok(sd) && sd.stream_sizes@ == sizes
                    && sd.committed_stream_page_starts@.len() == n + 1
                    && (forall|i: int|
                    0 <= i <= n ==> #[trigger] sd.committed_stream_page_starts@[i] == pages_before(
                        sizes,
                        page_size@,
                        i,
                    )) && sd.committed_stream_pages@ == Parser::u16_list(rest, total).map_values(
                    |p: u16| p as u32,
                )
            }
        }),
{
    if bytes.len() < 4 {
        return Err(MsfOpenError::SmallStreamDirTooSmall);
    }
    let n = read_u16_at(bytes, 0) as usize;
    if 4 + 8 * n > bytes.len() {
        return Err(MsfOpenError::SmallStreamDirTooSmall);
    }
    let mut sizes: Vec<u32> = Vec::new();
    let mut i: usize = 0;
    while i < n
        invariant
            i <= n,
            n == le_u16(bytes@),
            4 + 8 * n <= bytes@.len(),
            sizes@.len() == i,
            forall|k: int| 0 <= k < i ==> #[trigger] sizes@[k] == le_u32(bytes@.skip(4 + 8 * k)) as u32,
        decreases n - i,
    {
        sizes.push(read_u32_at(bytes, 4 + 8 * i));
        i = i + 1;
    }
    let ghost spec_sizes = Seq::new(n as nat, |k: int| le_u32(bytes@.skip(4 + 8 * k)) as u32);
    assert(sizes@ =~= spec_sizes);
    let total = total_stream_pages(sizes.as_slice(), page_size);
    let rest = vstd::slice::slice_subrange(bytes, 4 + 8 * n, bytes.len());
    assert(rest@ =~= bytes@.skip(4 + 8 * n));
    if total > (rest.len() / 2) as u64 {
        return Err(MsfOpenError::SmallStreamDirTooSmall);
    }
    let mut p = Parser::new(rest);
    let pages16 = match p.u16_array(total as usize) {
        Ok(v) => v,
        Err(_) => return Err(MsfOpenError::SmallStreamDirTooSmall),
    };
    let mut pages: Vec<u32> = Vec::new();
    let mut k: usize = 0;
    while k < pages16.len()
        invariant
            k <= pages16@.len(),
            pages@.len() == k,
            forall|j: int| 0 <= j < k ==> #[trigger] pages@[j] == pages16@[j] as u32,
        decreases pages16@.len() - k,
    {
        pages.push(pages16[k] as u32);
        k = k + 1;
    }
    assert(pages@ =~= pages16@.map_values(|p: u16| p as u32));
    let r = lay_out_stream_pages(sizes.as_slice(), pages.as_slice(), page_size);
    proof {
        assert forall|q: int| 0 <= q < n implies !first_overflowing_stream(
            sizes@,
            page_size@,
            pages@.len() as int,
            q,
        ) by {
            lemma_pages_before_mono(sizes@, page_size@, q + 1, n as int);
        }
        assert(pages@.take(total as int) =~= pages@);
    }
    r
}

impl StreamDirectory {
    /// The page lists of the streams lie within `committed_stream_pages`.
    pub open spec fn wf(&self, page_size: PageSize) -> bool {
        &&& self.committed_stream_page_starts@.len() == self.stream_sizes@.len() + 1
        &&& self.committed_stream_pages@.len() <= u32::MAX
        &&& forall|i: int|
            0 <= i < self.stream_sizes@.len() ==> #[trigger] self.committed_stream_page_starts@[i]
                + pages_for_stream_size(self.stream_sizes@[i], page_size@) <= self.committed_stream_pages@.len()
    }

    /// The total number of streams, including nil streams.
    pub fn num_streams(&self) -> (n: usize)
        ensures
            n == self.stream_sizes@.len(),
    {
        self.stream_sizes.len()
    }

    /// Indicates whether a given stream index is valid.
    pub fn is_valid_stream_index(&self, stream: u32) -> (b: bool)
        ensures
            b == (stream < self.stream_sizes@.len()),
    {
        (stream as usize) < self.stream_sizes.len()
    }

    /// Indicates that a stream index is valid, and that the stream is not nil.
    pub fn is_stream_valid(&self, stream: u32) -> (b: bool)
        ensures
            b == (stream < self.stream_sizes@.len() && self.stream_sizes@[stream as int] != NIL_STREAM_SIZE),
    {
        if (stream as usize) < self.stream_sizes.len() {
            self.stream_sizes[stream as usize] != NIL_STREAM_SIZE
        } else {
            false
        }
    }

    /// Gets the size of a given stream, in bytes. A nil stream has size 0.
    pub fn stream_size(&self, stream: u32) -> (n: u32)
        requires
            stream < self.stream_sizes@.len(),
        ensures
            n == if self.stream_sizes@[stream as int] == NIL_STREAM_SIZE {
                0
            } else {
                self.stream_sizes@[stream as int]
            },
    {
        let stream_size = self.stream_sizes[stream as usize];
        if stream_size == NIL_STREAM_SIZE {
            0
        } else {
            stream_size
        }
    }

    /// The size of a stream and its pages. A nil stream gives `(NIL_STREAM_SIZE, [])`; a stream
    /// index out of range gives `None`.
    pub fn stream_size_and_pages(&self, stream: u32, page_size: PageSize) -> (r: Option<(u32, &[u32])>)
        requires
            self.wf(page_size),
        ensures
            stream >= self.stream_sizes@.len() ==> r is None,
            stream < self.stream_sizes@.len() ==> (r matches Some((size, pages)) && size
                == self.stream_sizes@[stream as int] && pages@ == (if size == NIL_STREAM_SIZE {
                Seq::empty()
            } else {
                self.committed_stream_pages@.subrange(
                    self.committed_stream_page_starts@[stream as int] as int,
                    self.committed_stream_page_starts@[stream as int] + pages_for_stream_size(
                        size,
                        page_size@,
                    ),
                )
            })),
    {
        if (stream as usize) >= self.stream_sizes.len() {
            return None;
        }
        let stream_size = self.stream_sizes[stream as usize];
        if stream_size == NIL_STREAM_SIZE {
            let empty: &[u32] = &[];
            assert(empty@ =~= Seq::<u32>::empty());
            return Some((NIL_STREAM_SIZE, empty));
        }
        let n = num_pages_for_stream_size(stream_size, page_size) as usize;
        assert(self.committed_stream_page_starts@[stream as int] + pages_for_stream_size(
            self.stream_sizes@[stream as int],
            page_size@,
        ) <= self.committed_stream_pages@.len());
        let start = self.committed_stream_page_starts[stream as usize] as usize;
        let pages = vstd::slice::slice_subrange(self.committed_stream_pages.as_slice(), start, start + n);
        Some((stream_size, pages))
    }
}

} // verus!
