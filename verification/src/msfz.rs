//! Multi-Stream File - Compressed (MSFZ, also known as PDZ).
//!
//! MSFZ files are similar to MSF files: they contain a set of numbered streams, each a sequence
//! of bytes. The data of a stream is stored in _fragments_, each of which lies either in a
//! compressed chunk or directly in the file. This module holds the parts of MSFZ handling that
//! decide: recognizing and decoding the file header, decoding the Stream Directory and the Chunk
//! Table, and the stream queries.

use vstd::prelude::*;
use crate::le::{encode_u32, le_bytes_u32, le_u32, le_u64, lemma_u32_roundtrip, read_u32_at};
use crate::msf::has_prefix;

verus! {

/// The special value used for stream size to indicate a nil stream.
pub const NIL_STREAM_SIZE: u32 = 0xffff_ffff;

/// Indicates that no compression is used.
pub const COMPRESSION_NONE: u32 = 0;

/// Identifies the Zstd compression algorithm.
pub const COMPRESSION_ZSTD: u32 = 1;

/// Identifies the Deflate compression algorithm.
///
/// This uses the "raw" Deflate stream. It _does not_ use the GZIP encapsulation header.
pub const COMPRESSION_DEFLATE: u32 = 2;

/// The signature of a MSFZ/PDZ file.
pub const MSFZ_FILE_SIGNATURE: [u8; 32] = [
    0x4d, 0x69, 0x63, 0x72, 0x6f, 0x73, 0x6f, 0x66, 0x74, 0x20, 0x4d, 0x53, 0x46, 0x5a, 0x20, 0x43,
    0x6f, 0x6e, 0x74, 0x61, 0x69, 0x6e, 0x65, 0x72, 0x0d, 0x0a, 0x1a, 0x41, 0x4c, 0x44, 0x00, 0x00,
];

/// The current version of the PDZ specification being developed.
pub const MSFZ_FILE_VERSION_V0: u64 = 0;

/// The size in bytes of the MSFZ file header.
pub const MSFZ_FILE_HEADER_SIZE: usize = 80;

/// The size in bytes of an entry of the Chunk Table.
pub const CHUNK_ENTRY_SIZE: usize = 20;

/// This is the minimum file size that is guaranteed to avoid triggering a bug in the first
/// version of the PDZ decoder compiled into DIA (and other MSVC-derived tools).
pub const MIN_FILE_SIZE_16K: u64 = 0x4000;

/// The bit of a fragment location that says that the fragment lies in a compressed chunk.
pub const FRAGMENT_LOCATION_CHUNK_MASK: u64 = 0x8000_0000_0000_0000;

/// Checks whether the header of a file appears to be a valid MSFZ/PDZ file.
///
/// This only looks at the signature; it doesn't read anything else in the file.
pub fn is_header_msfz(header: &[u8]) -> (r: bool)
    ensures
        r == has_prefix(header@, MSFZ_FILE_SIGNATURE@),
{
    crate::msf::starts_with(header, &MSFZ_FILE_SIGNATURE)
}

/// Specifies the compression algorithms that are supported by this library.
#[derive(Copy, Clone, Eq, PartialEq, Debug, Structural)]
pub enum Compression {
    /// Identifies the Zstd compression algorithm.
    Zstd,
    /// Identifies the Deflate compression algorithm.
    Deflate,
}

/// The specified compression mode is not recognized or supported.
#[derive(Copy, Clone, Debug, PartialEq, Eq, Structural)]
pub struct UnsupportedCompressionError;

impl UnsupportedCompressionError {
    /// A description of the error.
    pub fn to_string(&self) -> (s: &'static str) {
        "The specified compression mode is not recognized or supported."
    }
}

impl Compression {
    /// The code that identifies this algorithm in MSFZ files.
    pub fn to_code(self) -> (c: u32)
        ensures
            c == (match self {
                Compression::Zstd => COMPRESSION_ZSTD,
                Compression::Deflate => COMPRESSION_DEFLATE,
            }),
    {
        match self {
            Compression::Zstd => COMPRESSION_ZSTD,
            Compression::Deflate => COMPRESSION_DEFLATE,
        }
    }

    /// The algorithm that `code` identifies.
    pub fn try_from_code(code: u32) -> (r: Result<Self, UnsupportedCompressionError>)
        ensures
            code == COMPRESSION_ZSTD ==> r == Ok::<Self, UnsupportedCompressionError>(Compression::Zstd),
            code == COMPRESSION_DEFLATE ==> r == Ok::<Self, UnsupportedCompressionError>(Compression::Deflate),
            code != COMPRESSION_ZSTD && code != COMPRESSION_DEFLATE ==> r is Err,
            r matches Ok(c) ==> c.to_code_spec() == code,
    {
        if code == COMPRESSION_ZSTD {
            Ok(Compression::Zstd)
        } else if code == COMPRESSION_DEFLATE {
            Ok(Compression::Deflate)
        } else {
            Err(UnsupportedCompressionError)
        }
    }

    /// The algorithm that `code` identifies, or `None` for no compression.
    pub fn try_from_code_opt(code: u32) -> (r: Result<Option<Self>, UnsupportedCompressionError>)
        ensures
            code == COMPRESSION_NONE ==> r == Ok::<Option<Self>, UnsupportedCompressionError>(None),
            code == COMPRESSION_ZSTD ==> r == Ok::<Option<Self>, UnsupportedCompressionError>(Some(Compression::Zstd)),
            code == COMPRESSION_DEFLATE ==> r == Ok::<Option<Self>, UnsupportedCompressionError>(Some(Compression::Deflate)),
            code != COMPRESSION_NONE && code != COMPRESSION_ZSTD && code != COMPRESSION_DEFLATE ==> r is Err,
    {
        if code != COMPRESSION_NONE {
            match Self::try_from_code(code) {
                Ok(c) => Ok(Some(c)),
                Err(e) => Err(e),
            }
        } else {
            Ok(None)
        }
    }

    /// The code that identifies this algorithm in MSFZ files.
    pub open spec fn to_code_spec(self) -> u32 {
        match self {
            Compression::Zstd => COMPRESSION_ZSTD,
            Compression::Deflate => COMPRESSION_DEFLATE,
        }
    }
}

/// Contains the contents of an entire stream.
///
/// Either an owned buffer, or a range of a shared buffer (such as a decompressed chunk).
pub enum StreamData {
    /// Owned contents of stream data.
    Box(Vec<u8>),
    /// Shared contents of stream data: the bytes from `start` up to `end` of the buffer.
    ArcSlice(std::sync::Arc<Vec<u8>>, usize, usize),
}

impl View for StreamData {
    type V = Seq<u8>;

    /// The bytes of the stream.
    open spec fn view(&self) -> Seq<u8> {
        match self {
            StreamData::Box(v) => v@,
            StreamData::ArcSlice(a, start, end) => (*a)@.subrange(*start as int, *end as int),
        }
    }
}

impl StreamData {
    /// The range of an `ArcSlice` lies within its buffer.
    pub open spec fn wf(&self) -> bool {
        match self {
            StreamData::Box(_) => true,
            StreamData::ArcSlice(a, start, end) => *start <= *end <= (*a)@.len(),
        }
    }

    /// Gets a slice over the contained stream data.
    pub fn as_slice(&self) -> (s: &[u8])
        requires
            self.wf(),
        ensures
            s@ == self@,
    {
        match self {
            StreamData::Box(v) => v.as_slice(),
            StreamData::ArcSlice(a, start, end) => vstd::slice::slice_subrange(a.as_slice(), *start, *end),
        }
    }

    /// Returns `true` if the stream contains no data.
    pub fn is_empty(&self) -> (b: bool)
        requires
            self.wf(),
        ensures
            b == (self@.len() == 0),
    {
        self.as_slice().len() == 0
    }

    /// Converts this `StreamData` into an owned `Vec<u8>`.
    pub fn into_vec(self) -> (v: Vec<u8>)
        requires
            self.wf(),
        ensures
            v@ == self@,
    {
        match self {
            StreamData::Box(v) => v,
            StreamData::ArcSlice(a, start, end) => {
                vstd::slice::slice_to_vec(vstd::slice::slice_subrange(a.as_slice(), start, end))
            },
        }
    }

    /// An empty value for `StreamData`.
    pub fn empty() -> (d: Self)
        ensures
            d@.len() == 0,
            d.wf(),
    {
        StreamData::Box(Vec::new())
    }
}

/// Describes the results of writing an MSFZ file.
pub struct Summary {
    /// Number of chunks
    pub num_chunks: u32,
    /// Number of streams
    pub num_streams: u32,
}

impl Summary {
    /// The text of the summary: the number of chunks, then the number of streams, each on a line
    /// of its own.
    pub fn to_string(&self) -> (s: String)
        ensures
            s@ == "Number of chunks: "@ + crate::text::dec_chars(self.num_chunks as nat) + "\n"@
                + "Number of streams: "@ + crate::text::dec_chars(self.num_streams as nat) + "\n"@,
    {
        let mut s = String::new();
        crate::text::push_str(&mut s, "Number of chunks: ");
        crate::text::push_dec(&mut s, self.num_chunks as u64);
        crate::text::push_str(&mut s, "\n");
        crate::text::push_str(&mut s, "Number of streams: ");
        crate::text::push_dec(&mut s, self.num_streams as u64);
        crate::text::push_str(&mut s, "\n");
        s
    }
}

/// Defines options for finishing an MSFZ file.
#[derive(Clone, Copy, Debug)]
pub struct MsfzFinishOptions {
    /// The minimum output file size. Use `MIN_FILE_SIZE_16K` to guarantee compatibility with
    /// MSVC tools that can read PDZ files.
    pub min_file_size: u64,
    /// If `Some`, then the Stream Directory will be compressed.
    pub stream_dir_compression: Option<Compression>,
}

impl MsfzFinishOptions {
    /// No minimum file size, and no compression of the Stream Directory.
    pub fn default_options() -> (o: Self)
        ensures
            o.min_file_size == 0,
            o.stream_dir_compression is None,
    {
        MsfzFinishOptions { min_file_size: 0, stream_dir_compression: None }
    }
}

/// Where the data of a fragment lies.
#[derive(Clone, Copy, Debug, PartialEq, Eq, Structural)]
pub enum FragmentLocation {
    /// Directly in the file, at this offset.
    Uncompressed { file_offset: u64 },
    /// In a compressed chunk, at this offset within the decompressed chunk.
    Compressed { chunk_index: u32, offset_within_chunk: u32 },
}

/// A piece of a stream.
#[derive(Clone, Copy, Debug, PartialEq, Eq, Structural)]
pub struct Fragment {
    /// The size of the fragment, in bytes.
    pub size: u32,
    /// Where its data lies.
    pub location: FragmentLocation,
}

/// The fragments of a (non-nil) stream.
pub struct MsfzStream {
    /// The fragments, in stream order.
    pub fragments: Vec<Fragment>,
}

/// The location that the 64-bit value `bits` encodes: with the top bit set, a chunk index (the
/// other bits of the upper half) and an offset within the chunk (the lower half); otherwise a file
/// offset.
pub open spec fn decode_location(bits: u64) -> FragmentLocation {
    if bits >= FRAGMENT_LOCATION_CHUNK_MASK {
        FragmentLocation::Compressed {
            chunk_index: ((bits - FRAGMENT_LOCATION_CHUNK_MASK) / 0x1_0000_0000) as u32,
            offset_within_chunk: (bits % 0x1_0000_0000) as u32,
        }
    } else {
        FragmentLocation::Uncompressed { file_offset: bits }
    }
}

/// Why a Stream Directory could not be decoded.
#[derive(Clone, Copy, Debug, PartialEq, Eq, Structural)]
pub enum StreamDirError {
    /// The Stream Directory ended in the middle of an entry.
    OutOfBytes,
    /// A fragment other than the first of its stream has size `NIL_STREAM_SIZE`.
    NonInitialNilFragment,
}

/// The fragment list at `pos` of `b`, whose first fragment has size `size` (already read): each
/// fragment is its 64-bit location followed by the size of the next fragment; a size of 0 ends
/// the list. Gives the fragments and the position after the list.
pub open spec fn parse_fragments(b: Seq<u8>, pos: int, size: u32) -> Result<(Seq<Fragment>, int), StreamDirError>
    decreases b.len() - pos,
{
    if size == 0 {
        Ok((Seq::empty(), pos))
    } else if pos < 0 || pos + 8 > b.len() {
        Err(StreamDirError::OutOfBytes)
    } else if pos + 12 > b.len() {
        Err(StreamDirError::OutOfBytes)
    } else {
        let f = Fragment { size, location: decode_location(le_u64(b.skip(pos)) as u64) };
        let next = le_u32(b.skip(pos + 8)) as u32;
        if next == NIL_STREAM_SIZE {
            Err(StreamDirError::NonInitialNilFragment)
        } else {
            match parse_fragments(b, pos + 12, next) {
                Ok((rest, end)) => Ok((seq![f] + rest, end)),
                Err(e) => Err(e),
            }
        }
    }
}

/// The `n` stream entries at `pos` of `b`: for each, `None` for a nil stream, or its fragments.
pub open spec fn parse_streams(b: Seq<u8>, pos: int, n: nat) -> Result<Seq<Option<Seq<Fragment>>>, StreamDirError>
    decreases n,
{
    if n == 0 {
        Ok(Seq::empty())
    } else if pos < 0 || pos + 4 > b.len() {
        Err(StreamDirError::OutOfBytes)
    } else {
        let size = le_u32(b.skip(pos)) as u32;
        if size == NIL_STREAM_SIZE {
            match parse_streams(b, pos + 4, (n - 1) as nat) {
                Ok(rest) => Ok(seq![None::<Seq<Fragment>>] + rest),
                Err(e) => Err(e),
            }
        } else {
            match parse_fragments(b, pos + 4, size) {
                Err(e) => Err(e),
                Ok((frags, end)) => match parse_streams(b, end, (n - 1) as nat) {
                    Ok(rest) => Ok(seq![Some(frags)] + rest),
                    Err(e) => Err(e),
                },
            }
        }
    }
}

/// `acc` followed by the fragments of `r`, if `r` succeeded.
pub open spec fn prepend_fragments(acc: Seq<Fragment>, r: Result<(Seq<Fragment>, int), StreamDirError>) -> Result<(Seq<Fragment>, int), StreamDirError> {
    match r {
        Ok((fs, end)) => Ok((acc + fs, end)),
        Err(e) => Err(e),
    }
}

/// `acc` followed by the stream entries of `r`, if `r` succeeded.
pub open spec fn prepend_streams(acc: Seq<Option<Seq<Fragment>>>, r: Result<Seq<Option<Seq<Fragment>>>, StreamDirError>) -> Result<Seq<Option<Seq<Fragment>>>, StreamDirError> {
    match r {
        Ok(ss) => Ok(acc + ss),
        Err(e) => Err(e),
    }
}

/// The view of decoded stream entries.
pub open spec fn streams_view(v: Seq<Option<MsfzStream>>) -> Seq<Option<Seq<Fragment>>> {
    v.map_values(|o: Option<MsfzStream>| match o {
        Some(s) => Some(s.fragments@),
        None => None,
    })
}

/// Reads the little-endian 64-bit value at `pos` within `b`.
fn read_u64_at(b: &[u8], pos: usize) -> (v: u64)
    requires
        pos + 8 <= b@.len(),
    ensures
        v == le_u64(b@.skip(pos as int)),
{
    let _len = b.len();
    let s = vstd::slice::slice_subrange(b, pos, pos + 8);
    let v = crate::le::decode_u64(s);
    proof {
        let t = b@.skip(pos as int);
        assert(s@.subrange(4, 8) =~= t.subrange(4, 8));
        assert(s@[0] == t[0] && s@[1] == t[1] && s@[2] == t[2] && s@[3] == t[3]);
    }
    v
}

/// Decodes a fragment location.
pub fn decode_fragment_location(bits: u64) -> (l: FragmentLocation)
    ensures
        l == decode_location(bits),
{
    if bits >= FRAGMENT_LOCATION_CHUNK_MASK {
        FragmentLocation::Compressed {
            chunk_index: ((bits - FRAGMENT_LOCATION_CHUNK_MASK) / 0x1_0000_0000) as u32,
            offset_within_chunk: (bits % 0x1_0000_0000) as u32,
        }
    } else {
        FragmentLocation::Uncompressed { file_offset: bits }
    }
}

/// Decodes the fragment list at `pos`, whose first fragment has size `size`.
fn decode_fragments(b: &[u8], pos: usize, size: u32) -> (r: Result<(Vec<Fragment>, usize), StreamDirError>)
    requires
        pos <= b@.len(),
    ensures
        match parse_fragments(b@, pos as int, size) {
            Ok((fs, end)) => r matches Ok((v, e)) && v@ == fs && e == end,
            Err(e) => r == Err::<(Vec<Fragment>, usize), StreamDirError>(e),
        },
        r matches Ok((_, e)) ==> e <= b@.len(),
{
    let len = b.len();
    let mut acc: Vec<Fragment> = Vec::new();
    let mut cur_pos = pos;
    let mut cur_size = size;
    let ghost whole = parse_fragments(b@, pos as int, size);
    assert(prepend_fragments(acc@, whole) =~= whole) by {
        match whole {
            Ok((fs, end)) => assert(acc@ + fs =~= fs),
            Err(_) => {},
        }
    }
    while cur_size != 0
        invariant
            cur_pos <= len,
            len == b@.len(),
            whole == parse_fragments(b@, pos as int, size),
            whole == prepend_fragments(acc@, parse_fragments(b@, cur_pos as int, cur_size)),
        decreases len - cur_pos,
    {
        if len - cur_pos < 12 {
            return Err(StreamDirError::OutOfBytes);
        }
        let bits = read_u64_at(b, cur_pos);
        let f = Fragment { size: cur_size, location: decode_fragment_location(bits) };
        let next = read_u32_at(b, cur_pos + 8);
        if next == NIL_STREAM_SIZE {
            return Err(StreamDirError::NonInitialNilFragment);
        }
        let ghost old_acc = acc@;
        acc.push(f);
        proof {
            match parse_fragments(b@, cur_pos + 12, next) {
                Ok((rest, end)) => {
                    assert(old_acc + (seq![f] + rest) =~= acc@ + rest);
                },
                Err(_) => {},
            }
        }
        cur_pos = cur_pos + 12;
        cur_size = next;
    }
    assert(acc@ + Seq::<Fragment>::empty() =~= acc@);
    Ok((acc, cur_pos))
}

/// Decodes the Stream Directory of an MSFZ file, which describes `num_streams` streams: for each
/// stream, either `NIL_STREAM_SIZE`, or its list of fragments (see `parse_fragments`).
pub fn decode_stream_dir(bytes: &[u8], num_streams: u32) -> (r: Result<Vec<Option<MsfzStream>>, StreamDirError>)
    ensures
        match parse_streams(bytes@, 0, num_streams as nat) {
            Ok(ss) => r matches Ok(v) && streams_view(v@) == ss,
            Err(e) => r matches Err(e2) && e2 == e,
        },
{
    let len = bytes.len();
    let mut streams: Vec<Option<MsfzStream>> = Vec::new();
    let mut pos: usize = 0;
    let mut i: u32 = 0;
    let ghost whole = parse_streams(bytes@, 0, num_streams as nat);
    assert(prepend_streams(streams_view(streams@), whole) =~= whole) by {
        match whole {
            Ok(ss) => assert(streams_view(streams@) + ss =~= ss),
            Err(_) => {},
        }
    }
    while i < num_streams
        invariant
            pos <= len,
            len == bytes@.len(),
            i <= num_streams,
            whole == parse_streams(bytes@, 0, num_streams as nat),
            whole == prepend_streams(streams_view(streams@), parse_streams(bytes@, pos as int, (num_streams - i) as nat)),
        decreases num_streams - i,
    {
        if len - pos < 4 {
            return Err(StreamDirError::OutOfBytes);
        }
        let size = read_u32_at(bytes, pos);
        let ghost old_view = streams_view(streams@);
        if size == NIL_STREAM_SIZE {
            streams.push(None);
            proof {
                assert(streams_view(streams@) =~= old_view.push(None));
                match parse_streams(bytes@, pos + 4, (num_streams - i - 1) as nat) {
                    Ok(rest) => assert(old_view + (seq![None::<Seq<Fragment>>] + rest) =~= streams_view(streams@) + rest),
                    Err(_) => {},
                }
            }
            pos = pos + 4;
        } else {
            let (fragments, end) = decode_fragments(bytes, pos + 4, size)?;
            let ghost frags = fragments@;
            streams.push(Some(MsfzStream { fragments }));
            proof {
                assert(streams_view(streams@) =~= old_view.push(Some(frags)));
                match parse_streams(bytes@, end as int, (num_streams - i - 1) as nat) {
                    Ok(rest) => assert(old_view + (seq![Some(frags)] + rest) =~= streams_view(streams@) + rest),
                    Err(_) => {},
                }
            }
            pos = end;
        }
        i = i + 1;
    }
    assert(streams_view(streams@) + Seq::<Option<Seq<Fragment>>>::empty() =~= streams_view(streams@));
    Ok(streams)
}

/// The 64-bit value that encodes a fragment location: for a location in a compressed chunk, the
/// chunk index in the upper half and the offset in the lower half, with the top bit set;
/// otherwise the file offset.
pub open spec fn encode_location(l: FragmentLocation) -> u64 {
    match l {
        FragmentLocation::Compressed { chunk_index, offset_within_chunk } => ((chunk_index as u64)
            << 32u64) | (offset_within_chunk as u64) | FRAGMENT_LOCATION_CHUNK_MASK,
        FragmentLocation::Uncompressed { file_offset } => file_offset,
    }
}

/// Encodes a fragment location.
pub fn encode_fragment_location(l: FragmentLocation) -> (bits: u64)
    ensures
        bits == encode_location(l),
{
    match l {
        FragmentLocation::Compressed { chunk_index, offset_within_chunk } => ((chunk_index as u64)
            << 32u64) | (offset_within_chunk as u64) | FRAGMENT_LOCATION_CHUNK_MASK,
        FragmentLocation::Uncompressed { file_offset } => file_offset,
    }
}

/// A location can be encoded and decoded back: a chunk index below `2^31`, or a file offset
/// below `2^63`.
pub open spec fn location_encodable(l: FragmentLocation) -> bool {
    match l {
        FragmentLocation::Compressed { chunk_index, .. } => chunk_index < 0x8000_0000,
        FragmentLocation::Uncompressed { file_offset } => file_offset < FRAGMENT_LOCATION_CHUNK_MASK,
    }
}

/// Decoding an encoded location gives it back.
pub proof fn lemma_location_roundtrip(l: FragmentLocation)
    requires
        location_encodable(l),
    ensures
        decode_location(encode_location(l)) == l,
{
    match l {
        FragmentLocation::Compressed { chunk_index: c, offset_within_chunk: o } => {
            let bits = encode_location(l);
            assert(bits >= 0x8000_0000_0000_0000u64 && ((bits - 0x8000_0000_0000_0000u64) as u64)
                / 0x1_0000_0000u64 == c as u64 && bits % 0x1_0000_0000u64 == o as u64) by (bit_vector)
                requires
                    bits == ((c as u64) << 32u64) | (o as u64) | 0x8000_0000_0000_0000u64,
                    c < 0x8000_0000u32,
            ;
        },
        FragmentLocation::Uncompressed { .. } => {},
    }
}

/// The little-endian encoding of a 64-bit value.
pub open spec fn le_bytes_u64(x: u64) -> Seq<u8> {
    le_bytes_u32((x % 0x1_0000_0000) as u32) + le_bytes_u32((x / 0x1_0000_0000) as u32)
}

/// The encoding of one fragment: its size, then its location.
pub open spec fn encode_fragment(f: Fragment) -> Seq<u8> {
    le_bytes_u32(f.size) + le_bytes_u64(encode_location(f.location))
}

/// The encodings of the fragments of a list, one after another.
pub open spec fn fragment_entries(fs: Seq<Fragment>) -> Seq<u8>
    decreases fs.len(),
{
    if fs.len() == 0 {
        Seq::empty()
    } else {
        encode_fragment(fs[0]) + fragment_entries(fs.drop_first())
    }
}

/// The encoding of a fragment list: its fragments, then a size of 0 that ends the list.
pub open spec fn encode_fragments(fs: Seq<Fragment>) -> Seq<u8> {
    fragment_entries(fs) + le_bytes_u32(0)
}

/// The size of the first fragment of a list, or 0 (which ends a list) for an empty list.
pub open spec fn first_fragment_size(fs: Seq<Fragment>) -> u32 {
    if fs.len() == 0 {
        0
    } else {
        fs[0].size
    }
}

/// The encoding of a Stream Directory: for each stream, `NIL_STREAM_SIZE` for a nil stream, or
/// the encoding of its fragment list.
pub open spec fn encode_streams(ss: Seq<Option<Seq<Fragment>>>) -> Seq<u8>
    decreases ss.len(),
{
    if ss.len() == 0 {
        Seq::empty()
    } else {
        (match ss[0] {
            None => le_bytes_u32(NIL_STREAM_SIZE),
            Some(fs) => encode_fragments(fs),
        }) + encode_streams(ss.drop_first())
    }
}

/// The fragments of the (non-nil) streams can be written: each has a size that is neither 0 nor
/// `NIL_STREAM_SIZE`.
pub open spec fn fragments_valid(fs: Seq<Fragment>) -> bool {
    forall|j: int| 0 <= j < fs.len() ==> (#[trigger] fs[j]).size != 0 && fs[j].size != NIL_STREAM_SIZE
}

/// Each stream's fragments can be written.
pub open spec fn stream_fragments_valid(ss: Seq<Option<Seq<Fragment>>>) -> bool {
    forall|i: int| 0 <= i < ss.len() && (#[trigger] ss[i]) is Some ==> fragments_valid(ss[i]->0)
}

/// Appends the little-endian encoding of `v`.
fn push_u32(out: &mut Vec<u8>, v: u32)
    ensures
        final(out)@ == old(out)@ + le_bytes_u32(v),
{
    let b = encode_u32(v);
    out.push(b[0]);
    out.push(b[1]);
    out.push(b[2]);
    out.push(b[3]);
    assert(out@ =~= old(out)@ + le_bytes_u32(v));
}

/// Appends the little-endian encoding of `v`.
fn push_u64(out: &mut Vec<u8>, v: u64)
    ensures
        final(out)@ == old(out)@ + le_bytes_u64(v),
{
    push_u32(out, (v % 0x1_0000_0000) as u32);
    push_u32(out, (v / 0x1_0000_0000) as u32);
    assert(out@ =~= old(out)@ + le_bytes_u64(v));
}

/// Encodes a Stream Directory to its byte representation (see `encode_streams`). Every fragment
/// must have a size that is neither 0 nor `NIL_STREAM_SIZE`.
pub fn encode_stream_dir(streams: &[Option<MsfzStream>]) -> (out: Vec<u8>)
    requires
        stream_fragments_valid(streams_view(streams@)),
    ensures
        out@ == encode_streams(streams_view(streams@)),
{
    let ghost sv = streams_view(streams@);
    let mut out: Vec<u8> = Vec::new();
    let mut i: usize = 0;
    assert(sv.skip(0) =~= sv);
    assert(out@ + encode_streams(sv) =~= encode_streams(sv));
    while i < streams.len()
        invariant
            sv == streams_view(streams@),
            i <= streams@.len(),
            out@ + encode_streams(sv.skip(i as int)) == encode_streams(sv),
        decreases streams@.len() - i,
    {
        let ghost before = out@;
        proof {
            assert(sv.skip(i as int).drop_first() =~= sv.skip(i + 1));
            assert(sv.skip(i as int)[0] == sv[i as int]);
        }
        match &streams[i] {
            Some(stream) => {
                let ghost fs = stream.fragments@;
                assert(sv[i as int] == Some(fs));
                let mut k: usize = 0;
                assert(fs.skip(0) =~= fs);
                assert(before + fragment_entries(fs) =~= out@ + fragment_entries(fs.skip(0)));
                while k < stream.fragments.len()
                    invariant
                        fs == stream.fragments@,
                        k <= fs.len(),
                        out@ + fragment_entries(fs.skip(k as int)) == before + fragment_entries(fs),
                    decreases fs.len() - k,
                {
                    let f = stream.fragments[k];
                    proof {
                        assert(fs.skip(k as int).drop_first() =~= fs.skip(k + 1));
                        assert(fs.skip(k as int)[0] == f);
                    }
                    let ghost o1 = out@;
                    push_u32(&mut out, f.size);
                    push_u64(&mut out, encode_fragment_location(f.location));
                    proof {
                        assert(out@ =~= o1 + encode_fragment(f));
                        assert(o1 + fragment_entries(fs.skip(k as int)) =~= out@ + fragment_entries(
                            fs.skip(k + 1),
                        ));
                    }
                    k = k + 1;
                }
                push_u32(&mut out, 0);
                proof {
                    assert(fs.skip(k as int) =~= Seq::<Fragment>::empty());
                    assert(out@ =~= before + encode_fragments(fs));
                    assert(before + encode_streams(sv.skip(i as int)) =~= out@ + encode_streams(
                        sv.skip(i + 1),
                    ));
                }
            },
            None => {
                push_u32(&mut out, NIL_STREAM_SIZE);
                proof {
                    assert(before + encode_streams(sv.skip(i as int)) =~= out@ + encode_streams(
                        sv.skip(i + 1),
                    ));
                }
            },
        }
        i = i + 1;
    }
    proof {
        assert(sv.skip(i as int) =~= Seq::<Option<Seq<Fragment>>>::empty());
        assert(out@ + Seq::<u8>::empty() =~= out@);
    }
    out
}

/// Part of what was written at `q` lies at the corresponding offsets.
proof fn lemma_written_part(b: Seq<u8>, q: int, e: Seq<u8>, a: int, c: int)
    requires
        0 <= q,
        q + e.len() <= b.len(),
        b.subrange(q, q + e.len()) == e,
        0 <= a <= c <= e.len(),
    ensures
        b.subrange(q + a, q + c) == e.subrange(a, c),
{
    assert forall|i: int| 0 <= i < c - a implies b.subrange(q + a, q + c)[i] == e.subrange(a, c)[i] by {
        assert(b.subrange(q, q + e.len())[a + i] == e[a + i]);
    }
    assert(b.subrange(q + a, q + c) =~= e.subrange(a, c));
}

/// Reading a 32-bit value where its encoding was written gives it back.
proof fn lemma_read_u32(b: Seq<u8>, q: int, v: u32)
    requires
        0 <= q,
        q + 4 <= b.len(),
        b.subrange(q, q + 4) == le_bytes_u32(v),
    ensures
        le_u32(b.skip(q)) == v,
{
    lemma_u32_roundtrip(v);
    let e = le_bytes_u32(v);
    assert(b.skip(q)[0] == e[0] && b.skip(q)[1] == e[1] && b.skip(q)[2] == e[2] && b.skip(q)[3]
        == e[3]) by {
        assert(b.subrange(q, q + 4)[0] == e[0]);
        assert(b.subrange(q, q + 4)[1] == e[1]);
        assert(b.subrange(q, q + 4)[2] == e[2]);
        assert(b.subrange(q, q + 4)[3] == e[3]);
    }
}

/// Reading a 64-bit value where its encoding was written gives it back.
proof fn lemma_read_u64(b: Seq<u8>, q: int, x: u64)
    requires
        0 <= q,
        q + 8 <= b.len(),
        b.subrange(q, q + 8) == le_bytes_u64(x),
    ensures
        le_u64(b.skip(q)) == x,
{
    let lo = (x % 0x1_0000_0000) as u32;
    let hi = (x / 0x1_0000_0000) as u32;
    lemma_written_part(b, q, le_bytes_u64(x), 0, 4);
    lemma_written_part(b, q, le_bytes_u64(x), 4, 8);
    assert(le_bytes_u64(x).subrange(0, 4) =~= le_bytes_u32(lo));
    assert(le_bytes_u64(x).subrange(4, 8) =~= le_bytes_u32(hi));
    lemma_read_u32(b, q, lo);
    lemma_read_u32(b, q + 4, hi);
    assert(b.skip(q).subrange(4, 8) =~= b.skip(q + 4).take(4));
    assert(le_u32(b.skip(q).subrange(4, 8)) == le_u32(b.skip(q + 4))) by {
        let t = b.skip(q).subrange(4, 8);
        let u = b.skip(q + 4);
        assert(t[0] == u[0] && t[1] == u[1] && t[2] == u[2] && t[3] == u[3]);
    }
    assert(lo + hi * 0x1_0000_0000 == x) by (nonlinear_arith)
        requires
            lo == x % 0x1_0000_0000,
            hi == x / 0x1_0000_0000,
    ;
}

/// Where a fragment list was written at `q` (its first size included), the fragment list
/// decoder, started after that first size, gives the fragments back, and stops at its end.
#[verifier::spinoff_prover]
#[verifier::rlimit(40)]
proof fn lemma_fragments_roundtrip(b: Seq<u8>, q: int, fs: Seq<Fragment>)
    requires
        0 <= q,
        q + encode_fragments(fs).len() <= b.len(),
        b.subrange(q, q + encode_fragments(fs).len()) == encode_fragments(fs),
        fragments_valid(fs),
        forall|j: int| 0 <= j < fs.len() ==> location_encodable(#[trigger] fs[j].location),
    ensures
        le_u32(b.skip(q)) == first_fragment_size(fs),
        parse_fragments(b, q + 4, first_fragment_size(fs)) == Ok::<(Seq<Fragment>, int), StreamDirError>(
            (fs, q + encode_fragments(fs).len()),
        ),
    decreases fs.len(),
{
    let e = encode_fragments(fs);
    if fs.len() == 0 {
        assert(fragment_entries(fs) =~= Seq::<u8>::empty());
        assert(e =~= le_bytes_u32(0));
        assert(e.len() == 4);
        lemma_read_u32(b, q, 0);
        assert(fs =~= Seq::<Fragment>::empty());
    } else {
        let f = fs[0];
        let rest = fs.drop_first();
        let er = encode_fragments(rest);
        assert(e =~= le_bytes_u32(f.size) + le_bytes_u64(encode_location(f.location)) + er);
        lemma_written_part(b, q, e, 0, 4);
        assert(e.subrange(0, 4) =~= le_bytes_u32(f.size));
        lemma_read_u32(b, q, f.size);
        lemma_written_part(b, q, e, 4, 12);
        assert(e.subrange(4, 12) =~= le_bytes_u64(encode_location(f.location)));
        lemma_read_u64(b, q + 4, encode_location(f.location));
        lemma_location_roundtrip(f.location);
        lemma_written_part(b, q, e, 12, e.len() as int);
        assert(e.subrange(12, e.len() as int) =~= er);
        assert forall|j: int| 0 <= j < rest.len() implies location_encodable(#[trigger] rest[j].location) by {
            assert(rest[j] == fs[j + 1]);
        }
        assert forall|j: int| 0 <= j < rest.len() implies (#[trigger] rest[j]).size != 0 && rest[j].size
            != NIL_STREAM_SIZE by {
            assert(rest[j] == fs[j + 1]);
        }
        lemma_fragments_roundtrip(b, q + 12, rest);
        assert(f.size != 0 && f.size != NIL_STREAM_SIZE);
        assert(first_fragment_size(rest) != NIL_STREAM_SIZE);
        let fr = Fragment { size: f.size, location: decode_location(le_u64(b.skip(q + 4)) as u64) };
        assert(fr == f);
        assert(seq![f] + rest =~= fs);
        assert(er.len() >= 4);
        assert(e.len() == 12 + er.len());
        assert(q + 4 + 12 <= b.len());
        assert(le_u32(b.skip(q + 4 + 8)) as u32 == first_fragment_size(rest));
        assert(parse_fragments(b, q + 4 + 12, first_fragment_size(rest)) == Ok::<(Seq<Fragment>, int), StreamDirError>((rest, q + 12 + er.len())));
        assert(parse_fragments(b, q + 4, f.size) == Ok::<(Seq<Fragment>, int), StreamDirError>((seq![fr] + rest, q + 12 + er.len())));
    }
}

/// Where a Stream Directory was written at `q`, decoding it there gives its streams back.
#[verifier::spinoff_prover]
#[verifier::rlimit(40)]
proof fn lemma_streams_roundtrip(b: Seq<u8>, q: int, ss: Seq<Option<Seq<Fragment>>>)
    requires
        0 <= q,
        q + encode_streams(ss).len() <= b.len(),
        b.subrange(q, q + encode_streams(ss).len()) == encode_streams(ss),
        stream_fragments_valid(ss),
        forall|i: int, j: int|
            0 <= i < ss.len() && (#[trigger] ss[i]) is Some && 0 <= j < ss[i]->0.len() ==> location_encodable(
                #[trigger] ss[i]->0[j].location,
            ),
    ensures
        parse_streams(b, q, ss.len()) == Ok::<Seq<Option<Seq<Fragment>>>, StreamDirError>(ss),
    decreases ss.len(),
{
    if ss.len() > 0 {
        let rest = ss.drop_first();
        let head = match ss[0] {
            None => le_bytes_u32(NIL_STREAM_SIZE),
            Some(fs) => encode_fragments(fs),
        };
        let er = encode_streams(rest);
        let e = encode_streams(ss);
        assert(e == head + er);
        lemma_written_part(b, q, e, 0, head.len() as int);
        assert(e.subrange(0, head.len() as int) =~= head);
        lemma_written_part(b, q, e, head.len() as int, e.len() as int);
        assert(e.subrange(head.len() as int, e.len() as int) =~= er);
        assert forall|i: int| 0 <= i < rest.len() && (#[trigger] rest[i]) is Some implies fragments_valid(
            rest[i]->0,
        ) by {
            assert(rest[i] == ss[i + 1]);
        }
        assert forall|i: int, j: int|
            0 <= i < rest.len() && (#[trigger] rest[i]) is Some && 0 <= j < rest[i]->0.len() implies location_encodable(
            #[trigger] rest[i]->0[j].location,
        ) by {
            assert(rest[i] == ss[i + 1]);
        }
        lemma_streams_roundtrip(b, q + head.len(), rest);
        match ss[0] {
            None => {
                assert(head.len() == 4);
                lemma_read_u32(b, q, NIL_STREAM_SIZE);
                assert(seq![None::<Seq<Fragment>>] + rest =~= ss);
                assert(parse_streams(b, q + 4, (ss.len() - 1) as nat) == Ok::<Seq<Option<Seq<Fragment>>>, StreamDirError>(rest));
            },
            Some(fs) => {
                assert(fragments_valid(fs));
                assert forall|j: int| 0 <= j < fs.len() implies location_encodable(#[trigger] fs[j].location) by {
                    assert(ss[0]->0 == fs);
                }
                lemma_fragments_roundtrip(b, q, fs);
                if fs.len() > 0 {
                    assert(fs[0].size != NIL_STREAM_SIZE);
                }
                assert(encode_fragments(fs).len() >= 4);
                assert(first_fragment_size(fs) != NIL_STREAM_SIZE);
                assert(seq![Some(fs)] + rest =~= ss);
                assert(parse_streams(b, q + head.len(), (ss.len() - 1) as nat) == Ok::<Seq<Option<Seq<Fragment>>>, StreamDirError>(rest));
            },
        }
    } else {
        assert(ss =~= Seq::<Option<Seq<Fragment>>>::empty());
    }
}

/// Reading back what was written: decoding the encoding of a Stream Directory gives its streams
/// back, when every fragment has a size that is neither 0 nor `NIL_STREAM_SIZE` and a location
/// that can be encoded (a chunk index below `2^31`, or a file offset below `2^63`).
pub proof fn lemma_stream_dir_roundtrip(ss: Seq<Option<Seq<Fragment>>>)
    requires
        stream_fragments_valid(ss),
        forall|i: int, j: int|
            0 <= i < ss.len() && (#[trigger] ss[i]) is Some && 0 <= j < ss[i]->0.len() ==> location_encodable(
                #[trigger] ss[i]->0[j].location,
            ),
    ensures
        parse_streams(encode_streams(ss), 0, ss.len()) == Ok::<Seq<Option<Seq<Fragment>>>, StreamDirError>(ss),
{
    let e = encode_streams(ss);
    assert(e.subrange(0, e.len() as int) =~= e);
    lemma_streams_roundtrip(e, 0, ss);
}

/// Describes the header at the start of the MSFZ file.
#[derive(Clone, Copy, Debug)]
pub struct MsfzFileHeader {
    /// Identifies this as an MSFZ file. The value must always be [`MSFZ_FILE_SIGNATURE`].
    pub signature: [u8; 32],
    /// Specifies the version of the MSFZ file layout.
    pub version: u64,
    /// The file offset of the stream directory.
    pub stream_dir_offset: u64,
    /// The file offset of the Chunk Table.
    pub chunk_table_offset: u64,
    /// The number of streams stored within this MSFZ file.
    pub num_streams: u32,
    /// The compression algorithm applied to the stream directory.
    pub stream_dir_compression: u32,
    /// The size in bytes of the stream directory, compressed (on-disk).
    pub stream_dir_size_compressed: u32,
    /// The size in bytes of the stream directory after decompression (in-memory).
    pub stream_dir_size_uncompressed: u32,
    /// The number of compression chunks.
    pub num_chunks: u32,
    /// The size in bytes of the Chunk Table.
    pub chunk_table_size: u32,
}

/// `h` is the header that the first 80 bytes of `s` encode.
pub open spec fn decodes_msfz_header(h: MsfzFileHeader, s: Seq<u8>) -> bool {
    &&& h.signature@ == s.take(32)
    &&& h.version == le_u64(s.skip(32))
    &&& h.stream_dir_offset == le_u64(s.skip(40))
    &&& h.chunk_table_offset == le_u64(s.skip(48))
    &&& h.num_streams == le_u32(s.skip(56))
    &&& h.stream_dir_compression == le_u32(s.skip(60))
    &&& h.stream_dir_size_compressed == le_u32(s.skip(64))
    &&& h.stream_dir_size_uncompressed == le_u32(s.skip(68))
    &&& h.num_chunks == le_u32(s.skip(72))
    &&& h.chunk_table_size == le_u32(s.skip(76))
}

impl MsfzFileHeader {
    /// Decodes the header from the first 80 bytes of `b`.
    pub fn decode(b: &[u8]) -> (h: Self)
        requires
            b@.len() >= MSFZ_FILE_HEADER_SIZE,
        ensures
            decodes_msfz_header(h, b@),
    {
        let mut signature: [u8; 32] = [0; 32];
        let mut i: usize = 0;
        while i < 32
            invariant
                i <= 32,
                b@.len() >= 80,
                forall|k: int| 0 <= k < i ==> signature@[k] == b@[k],
            decreases 32 - i,
        {
            signature.set(i, b[i]);
            i = i + 1;
        }
        assert(signature@ =~= b@.take(32));
        MsfzFileHeader {
            signature,
            version: read_u64_at(b, 32),
            stream_dir_offset: read_u64_at(b, 40),
            chunk_table_offset: read_u64_at(b, 48),
            num_streams: read_u32_at(b, 56),
            stream_dir_compression: read_u32_at(b, 60),
            stream_dir_size_compressed: read_u32_at(b, 64),
            stream_dir_size_uncompressed: read_u32_at(b, 68),
            num_chunks: read_u32_at(b, 72),
            chunk_table_size: read_u32_at(b, 76),
        }
    }
}

/// Why an MSFZ file could not be opened.
#[derive(Clone, Copy, Debug, PartialEq, Eq, Structural)]
pub enum MsfzOpenError {
    /// The file does not have the MSFZ signature.
    WrongSignature,
    /// The file has a version number that is not supported.
    UnsupportedVersion,
    /// The header says that there are no streams.
    EmptyStreamDir,
    /// The Stream Directory is compressed with an unknown algorithm.
    UnsupportedCompression,
    /// The Stream Directory could not be decoded.
    BadStreamDir(StreamDirError),
    /// The number of chunks and the size of the Chunk Table disagree.
    ChunkTableInconsistent,
}

/// The description of an error that opening an MSFZ file gives.
pub open spec fn msfz_open_error_text(e: MsfzOpenError) -> Seq<char> {
    match e {
        MsfzOpenError::WrongSignature => "This file does not have a PDZ file signature."@,
        MsfzOpenError::UnsupportedVersion => "This PDZ file uses a version number that is not supported."@,
        MsfzOpenError::EmptyStreamDir => "The stream directory is invalid; it is empty."@,
        MsfzOpenError::UnsupportedCompression => "The specified compression mode is not recognized or supported."@,
        MsfzOpenError::BadStreamDir(StreamDirError::OutOfBytes) => "Buffer ran out of bytes"@,
        MsfzOpenError::BadStreamDir(StreamDirError::NonInitialNilFragment) => "Stream directory is malformed. It contains a non-initial fragment with size = NIL_STREAM_SIZE."@,
        MsfzOpenError::ChunkTableInconsistent => "This PDZ file is invalid. num_chunks and chunk_index_size are not consistent."@,
    }
}

impl MsfzOpenError {
    /// A description of the error.
    pub fn to_string(&self) -> (s: &'static str)
        ensures
            s@ == msfz_open_error_text(*self),
    {
        match self {
            MsfzOpenError::WrongSignature => "This file does not have a PDZ file signature.",
            MsfzOpenError::UnsupportedVersion => "This PDZ file uses a version number that is not supported.",
            MsfzOpenError::EmptyStreamDir => "The stream directory is invalid; it is empty.",
            MsfzOpenError::UnsupportedCompression => "The specified compression mode is not recognized or supported.",
            MsfzOpenError::BadStreamDir(StreamDirError::OutOfBytes) => "Buffer ran out of bytes",
            MsfzOpenError::BadStreamDir(StreamDirError::NonInitialNilFragment) => "Stream directory is malformed. It contains a non-initial fragment with size = NIL_STREAM_SIZE.",
            MsfzOpenError::ChunkTableInconsistent => "This PDZ file is invalid. num_chunks and chunk_index_size are not consistent.",
        }
    }
}

/// Checks the header of an MSFZ file before its Stream Directory is read, and says how the
/// Stream Directory is compressed (`None`: not at all).
pub fn check_msfz_header(h: &MsfzFileHeader) -> (r: Result<Option<Compression>, MsfzOpenError>)
    ensures
        h.signature@ != MSFZ_FILE_SIGNATURE@ ==> r == Err::<Option<Compression>, MsfzOpenError>(
            MsfzOpenError::WrongSignature,
        ),
        h.signature@ == MSFZ_FILE_SIGNATURE@ && h.version != MSFZ_FILE_VERSION_V0 ==> r == Err::<
            Option<Compression>,
            MsfzOpenError,
        >(MsfzOpenError::UnsupportedVersion),
        h.signature@ == MSFZ_FILE_SIGNATURE@ && h.version == MSFZ_FILE_VERSION_V0 && h.num_streams == 0
            ==> r == Err::<Option<Compression>, MsfzOpenError>(MsfzOpenError::EmptyStreamDir),
        h.signature@ == MSFZ_FILE_SIGNATURE@ && h.version == MSFZ_FILE_VERSION_V0 && h.num_streams != 0
            ==> match r {
            Ok(None) => h.stream_dir_compression == COMPRESSION_NONE,
            Ok(Some(c)) => h.stream_dir_compression != COMPRESSION_NONE && c.to_code_spec()
                == h.stream_dir_compression,
            Err(e) => e == MsfzOpenError::UnsupportedCompression && h.stream_dir_compression
                != COMPRESSION_NONE && h.stream_dir_compression != COMPRESSION_ZSTD
                && h.stream_dir_compression != COMPRESSION_DEFLATE,
        },
{
    if !crate::msf::starts_with(&h.signature, &MSFZ_FILE_SIGNATURE) {
        proof {
            if h.signature@ == MSFZ_FILE_SIGNATURE@ {
                assert(h.signature@.take(32) =~= h.signature@);
            }
        }
        return Err(MsfzOpenError::WrongSignature);
    }
    assert(h.signature@ =~= h.signature@.take(32));
    if h.version != MSFZ_FILE_VERSION_V0 {
        return Err(MsfzOpenError::UnsupportedVersion);
    }
    if h.num_streams == 0 {
        return Err(MsfzOpenError::EmptyStreamDir);
    }
    match Compression::try_from_code_opt(h.stream_dir_compression) {
        Ok(c) => Ok(c),
        Err(_) => Err(MsfzOpenError::UnsupportedCompression),
    }
}

/// Checks that the size of the Chunk Table agrees with the number of chunks, and gives the
/// number of chunks.
pub fn check_chunk_table_size(h: &MsfzFileHeader) -> (r: Result<u32, MsfzOpenError>)
    ensures
        h.chunk_table_size == h.num_chunks * CHUNK_ENTRY_SIZE ==> r == Ok::<u32, MsfzOpenError>(h.num_chunks),
        h.chunk_table_size != h.num_chunks * CHUNK_ENTRY_SIZE ==> r == Err::<u32, MsfzOpenError>(
            MsfzOpenError::ChunkTableInconsistent,
        ),
{
    if h.chunk_table_size as u64 != h.num_chunks as u64 * CHUNK_ENTRY_SIZE as u64 {
        Err(MsfzOpenError::ChunkTableInconsistent)
    } else {
        Ok(h.num_chunks)
    }
}

/// Describes one compressed chunk.
#[derive(Clone, Copy, Debug, PartialEq, Eq, Structural)]
pub struct ChunkEntry {
    /// File offset (within the MSFZ file) of the compressed chunk.
    pub file_offset: u64,
    /// The compression algorithm for this chunk.
    pub compression: u32,
    /// Size in bytes of the compressed data on disk.
    pub compressed_size: u32,
    /// Number of bytes after decompression; this is the in-memory size.
    pub uncompressed_size: u32,
}

/// The `i`-th chunk entry of the Chunk Table `t`.
pub open spec fn chunk_entry_at(t: Seq<u8>, i: int) -> ChunkEntry {
    let s = t.skip(20 * i);
    ChunkEntry {
        file_offset: le_u64(s) as u64,
        compression: le_u32(s.skip(8)) as u32,
        compressed_size: le_u32(s.skip(12)) as u32,
        uncompressed_size: le_u32(s.skip(16)) as u32,
    }
}

/// Decodes the Chunk Table, which holds `num_chunks` entries of 20 bytes.
pub fn decode_chunk_table(bytes: &[u8], num_chunks: u32) -> (v: Vec<ChunkEntry>)
    requires
        bytes@.len() >= num_chunks * CHUNK_ENTRY_SIZE,
    ensures
        v@ == Seq::new(num_chunks as nat, |i: int| chunk_entry_at(bytes@, i)),
{
    let mut v: Vec<ChunkEntry> = Vec::new();
    let mut i: usize = 0;
    let n = num_chunks as usize;
    let blen = bytes.len();
    while i < n
        invariant
            i <= n,
            n == num_chunks,
            blen == bytes@.len(),
            bytes@.len() >= n * 20,
            v@.len() == i,
            forall|k: int| 0 <= k < i ==> #[trigger] v@[k] == chunk_entry_at(bytes@, k),
        decreases n - i,
    {
        let off = 20 * i;
        let e = ChunkEntry {
            file_offset: read_u64_at(bytes, off),
            compression: read_u32_at(bytes, off + 8),
            compressed_size: read_u32_at(bytes, off + 12),
            uncompressed_size: read_u32_at(bytes, off + 16),
        };
        proof {
            let s = bytes@.skip(off as int);
            assert(bytes@.skip(off + 8) =~= s.skip(8));
            assert(bytes@.skip(off + 12) =~= s.skip(12));
            assert(bytes@.skip(off + 16) =~= s.skip(16));
        }
        v.push(e);
        i = i + 1;
    }
    assert(v@ =~= Seq::new(num_chunks as nat, |i: int| chunk_entry_at(bytes@, i)));
    v
}

/// The decoded directories of an MSFZ file: its streams and its chunks.
pub struct MsfzDirectory {
    /// For each stream: `None` for a nil stream, or its fragments.
    pub stream_dir: Vec<Option<MsfzStream>>,
    /// The chunks.
    pub chunk_table: Vec<ChunkEntry>,
}

/// The sum of the sizes of the fragments.
pub open spec fn fragments_size(fs: Seq<Fragment>) -> int
    decreases fs.len(),
{
    if fs.len() == 0 {
        0
    } else {
        fragments_size(fs.drop_last()) + fs.last().size
    }
}

/// Whether a fragment at `loc` begins where the fragment `last` ends: both in the file, or both
/// in the same chunk, with no gap between them.
pub open spec fn continues_fragment(last: Fragment, loc: FragmentLocation) -> bool {
    match (last.location, loc) {
        (
            FragmentLocation::Uncompressed { file_offset: a },
            FragmentLocation::Uncompressed { file_offset: b },
        ) => a + last.size == b,
        (
            FragmentLocation::Compressed { chunk_index: c, offset_within_chunk: o },
            FragmentLocation::Compressed { chunk_index: c2, offset_within_chunk: o2 },
        ) => c == c2 && o + last.size == o2,
        _ => false,
    }
}

/// The fragment list after a fragment of `size` bytes at `loc` is added: the last fragment
/// grows when the new one continues it, and otherwise the new fragment is appended.
pub open spec fn with_fragment(fs: Seq<Fragment>, size: u32, loc: FragmentLocation) -> Seq<Fragment> {
    if fs.len() > 0 && continues_fragment(fs.last(), loc) {
        fs.update(fs.len() - 1, Fragment { size: (fs.last().size + size) as u32, location: fs.last().location })
    } else {
        fs.push(Fragment { size, location: loc })
    }
}

/// Adds a fragment to a fragment list, coalescing it with the last fragment where it continues it.
fn add_fragment(fragments: &mut Vec<Fragment>, new_fragment_size: u32, location: FragmentLocation)
    requires
        old(fragments)@.len() > 0 && continues_fragment(old(fragments)@.last(), location) ==> old(
            fragments,
        )@.last().size + new_fragment_size <= u32::MAX,
    ensures
        final(fragments)@ == with_fragment(old(fragments)@, new_fragment_size, location),
        fragments_size(final(fragments)@) == fragments_size(old(fragments)@) + new_fragment_size,
{
    let n = fragments.len();
    if n > 0 {
        let last = fragments[n - 1];
        let continues = match (last.location, location) {
            (
                FragmentLocation::Uncompressed { file_offset: a },
                FragmentLocation::Uncompressed { file_offset: b },
            ) => (a as u128) + (last.size as u128) == (b as u128),
            (
                FragmentLocation::Compressed { chunk_index: c, offset_within_chunk: o },
                FragmentLocation::Compressed { chunk_index: c2, offset_within_chunk: o2 },
            ) => c == c2 && (o as u64) + (last.size as u64) == (o2 as u64),
            _ => false,
        };
        if continues {
            fragments.set(n - 1, Fragment { size: last.size + new_fragment_size, location: last.location });
            proof {
                assert(fragments@.drop_last() =~= old(fragments)@.drop_last());
            }
            return;
        }
    }
    fragments.push(Fragment { size: new_fragment_size, location });
    proof {
        assert(fragments@.drop_last() =~= old(fragments)@);
    }
}

/// Adds a fragment record, for a fragment that is stored in a compressed chunk, to a fragment
/// list. If possible, the new fragment is coalesced with the last record.
pub fn add_fragment_compressed(
    fragments: &mut Vec<Fragment>,
    new_fragment_size: u32,
    new_chunk: u32,
    new_offset_within_chunk: u32,
)
    requires
        ({
            let loc = FragmentLocation::Compressed {
                chunk_index: new_chunk,
                offset_within_chunk: new_offset_within_chunk,
            };
            old(fragments)@.len() > 0 && continues_fragment(old(fragments)@.last(), loc) ==> old(
                fragments,
            )@.last().size + new_fragment_size <= u32::MAX
        }),
    ensures
        final(fragments)@ == with_fragment(
            old(fragments)@,
            new_fragment_size,
            FragmentLocation::Compressed { chunk_index: new_chunk, offset_within_chunk: new_offset_within_chunk },
        ),
        fragments_size(final(fragments)@) == fragments_size(old(fragments)@) + new_fragment_size,
{
    add_fragment(
        fragments,
        new_fragment_size,
        FragmentLocation::Compressed { chunk_index: new_chunk, offset_within_chunk: new_offset_within_chunk },
    );
}

/// Adds a fragment record, for a fragment that is stored directly in the file, to a fragment
/// list. If possible, the new fragment is coalesced with the last record.
pub fn add_fragment_uncompressed(fragments: &mut Vec<Fragment>, new_fragment_size: u32, new_file_offset: u64)
    requires
        old(fragments)@.len() > 0 && continues_fragment(
            old(fragments)@.last(),
            FragmentLocation::Uncompressed { file_offset: new_file_offset },
        ) ==> old(fragments)@.last().size + new_fragment_size <= u32::MAX,
    ensures
        final(fragments)@ == with_fragment(
            old(fragments)@,
            new_fragment_size,
            FragmentLocation::Uncompressed { file_offset: new_file_offset },
        ),
        fragments_size(final(fragments)@) == fragments_size(old(fragments)@) + new_fragment_size,
{
    add_fragment(fragments, new_fragment_size, FragmentLocation::Uncompressed { file_offset: new_file_offset });
}

impl MsfzDirectory {
    /// The total number of streams in this MSFZ file. This count includes nil streams.
    pub fn num_streams(&self) -> (n: usize)
        ensures
            n == self.stream_dir@.len(),
    {
        self.stream_dir.len()
    }

    /// Returns `true` if `stream` is a valid stream index and the stream is non-nil.
    pub fn is_stream_valid(&self, stream: u32) -> (b: bool)
        ensures
            b == (stream < self.stream_dir@.len() && self.stream_dir@[stream as int] is Some),
    {
        if (stream as usize) < self.stream_dir.len() {
            self.stream_dir[stream as usize].is_some()
        } else {
            false
        }
    }

    /// Gets the size of a given stream, in bytes: the sum of the sizes of its fragments. A nil
    /// stream has size 0.
    pub fn stream_size(&self, stream: u32) -> (n: u64)
        requires
            stream < self.stream_dir@.len(),
            self.stream_dir@[stream as int] matches Some(s) ==> s.fragments@.len() <= u32::MAX,
        ensures
            n == match self.stream_dir@[stream as int] {
                Some(s) => fragments_size(s.fragments@),
                None => 0,
            },
    {
        match &self.stream_dir[stream as usize] {
            Some(s) => {
                let mut total: u64 = 0;
                let mut i: usize = 0;
                while i < s.fragments.len()
                    invariant
                        i <= s.fragments@.len(),
                        s.fragments@.len() <= u32::MAX,
                        total == fragments_size(s.fragments@.take(i as int)),
                        total <= i * 0x1_0000_0000,
                    decreases s.fragments@.len() - i,
                {
                    assert(s.fragments@.take(i + 1).drop_last() =~= s.fragments@.take(i as int));
                    total = total + s.fragments[i].size as u64;
                    i = i + 1;
                }
                assert(s.fragments@.take(i as int) =~= s.fragments@);
                total
            },
            None => 0,
        }
    }
}

/// Why a stream could not be read.
#[derive(Clone, Copy, Debug, PartialEq, Eq, Structural)]
pub enum ReadStreamError {
    /// The stream index is out of range.
    InvalidStreamIndex,
    /// A fragment's byte range lies outside its chunk.
    FragmentOutOfRange,
}

/// The description of an error that reading a stream gives.
pub open spec fn read_stream_error_text(e: ReadStreamError) -> Seq<char> {
    match e {
        ReadStreamError::InvalidStreamIndex => "Invalid stream index"@,
        ReadStreamError::FragmentOutOfRange => "PDZ data is invalid. Stream fragment byte range is out of range."@,
    }
}

impl ReadStreamError {
    /// A description of the error.
    pub fn to_string(&self) -> (s: &'static str)
        ensures
            s@ == read_stream_error_text(*self),
    {
        match self {
            ReadStreamError::InvalidStreamIndex => "Invalid stream index",
            ReadStreamError::FragmentOutOfRange => "PDZ data is invalid. Stream fragment byte range is out of range.",
        }
    }
}

/// A fragment of a stream, placed in the stream's buffer.
#[derive(Clone, Copy, Debug, PartialEq, Eq, Structural)]
pub struct PlacedFragment {
    /// Where the fragment's data goes in the stream's buffer.
    pub stream_offset: u32,
    /// The fragment.
    pub fragment: Fragment,
}

/// How to read a stream.
pub enum StreamReadPlan {
    /// The stream is nil or empty.
    Empty,
    /// The stream is a single compressed fragment: its data is bytes `offset..offset + size` of
    /// the decompressed chunk `chunk_index`, which can be shared rather than copied.
    ChunkSlice { chunk_index: u32, offset: u32, size: u32 },
    /// A buffer of `size` bytes is filled with the fragments, each at its offset.
    Pieces { size: u32, pieces: Vec<PlacedFragment> },
}

/// The fragments `fs` placed one after another, the first at `start`.
pub open spec fn placed(fs: Seq<Fragment>, start: int) -> Seq<(int, Fragment)>
    decreases fs.len(),
{
    if fs.len() == 0 {
        Seq::empty()
    } else {
        placed(fs.drop_last(), start).push((start + fragments_size(fs.drop_last()), fs.last()))
    }
}

impl MsfzDirectory {
    /// Decides how to read an entire stream. If the stream data lies entirely within a single
    /// compressed fragment, then the decompressed chunk can be shared instead of copied.
    pub fn plan_read_stream(&self, stream: u32) -> (r: Result<StreamReadPlan, ReadStreamError>)
        requires
            self.stream_dir@.len() > stream ==> (self.stream_dir@[stream as int] matches Some(s)
                ==> fragments_size(s.fragments@) <= u32::MAX),
        ensures
            stream >= self.stream_dir@.len() ==> r == Err::<StreamReadPlan, ReadStreamError>(
                ReadStreamError::InvalidStreamIndex,
            ),
            stream < self.stream_dir@.len() ==> (match self.stream_dir@[stream as int] {
                None => r matches Ok(StreamReadPlan::Empty),
                Some(s) => if s.fragments@.len() == 0 {
                    r matches Ok(StreamReadPlan::Empty)
                } else if s.fragments@.len() == 1 && s.fragments@[0].location is Compressed {
                    r matches Ok(StreamReadPlan::ChunkSlice { chunk_index, offset, size })
                        && s.fragments@[0].location == (FragmentLocation::Compressed {
                        chunk_index,
                        offset_within_chunk: offset,
                    }) && size == s.fragments@[0].size
                } else {
                    r matches Ok(StreamReadPlan::Pieces { size, pieces }) && size == fragments_size(
                        s.fragments@,
                    ) && pieces@.len() == s.fragments@.len() && forall|i: int|
                        0 <= i < pieces@.len() ==> (#[trigger] pieces@[i]).stream_offset == placed(
                            s.fragments@,
                            0,
                        )[i].0 && pieces@[i].fragment == placed(s.fragments@, 0)[i].1
                },
            }),
    {
        if (stream as usize) >= self.stream_dir.len() {
            return Err(ReadStreamError::InvalidStreamIndex);
        }
        match &self.stream_dir[stream as usize] {
            None => Ok(StreamReadPlan::Empty),
            Some(s) => {
                let n = s.fragments.len();
                if n == 0 {
                    return Ok(StreamReadPlan::Empty);
                }
                if n == 1 {
                    match s.fragments[0].location {
                        FragmentLocation::Compressed { chunk_index, offset_within_chunk } => {
                            return Ok(
                                StreamReadPlan::ChunkSlice {
                                    chunk_index,
                                    offset: offset_within_chunk,
                                    size: s.fragments[0].size,
                                },
                            );
                        },
                        FragmentLocation::Uncompressed { .. } => {},
                    }
                }
                let mut pieces: Vec<PlacedFragment> = Vec::new();
                let mut offset: u32 = 0;
                let mut i: usize = 0;
                proof {
                    lemma_fragments_size_prefix(s.fragments@, 0);
                }
                while i < n
                    invariant
                        n == s.fragments@.len(),
                        i <= n,
                        fragments_size(s.fragments@) <= u32::MAX,
                        offset == fragments_size(s.fragments@.take(i as int)),
                        offset <= fragments_size(s.fragments@),
                        pieces@.len() == i,
                        placed(s.fragments@.take(i as int), 0) == placed(s.fragments@, 0).take(i as int),
                        forall|k: int|
                            0 <= k < i ==> (#[trigger] pieces@[k]).stream_offset == placed(
                                s.fragments@,
                                0,
                            )[k].0 && pieces@[k].fragment == placed(s.fragments@, 0)[k].1,
                    decreases n - i,
                {
                    let f = s.fragments[i];
                    let ghost t = s.fragments@.take(i + 1);
                    proof {
                        assert(t.drop_last() =~= s.fragments@.take(i as int));
                        lemma_fragments_size_prefix(s.fragments@, i + 1);
                        lemma_placed_prefix(s.fragments@, i + 1);
                        lemma_placed_prefix(s.fragments@, i as int);
                        assert(placed(t, 0) == placed(t.drop_last(), 0).push(
                            (fragments_size(t.drop_last()), t.last()),
                        ));
                        assert(placed(s.fragments@, 0)[i as int] == placed(t, 0)[i as int]);
                    }
                    pieces.push(PlacedFragment { stream_offset: offset, fragment: f });
                    offset = offset + f.size;
                    i = i + 1;
                }
                assert(s.fragments@.take(n as int) =~= s.fragments@);
                Ok(StreamReadPlan::Pieces { size: offset, pieces })
            },
        }
    }
}

/// The sizes of the fragments of a prefix add up to no more than those of all fragments.
proof fn lemma_fragments_size_prefix(fs: Seq<Fragment>, k: int)
    requires
        0 <= k <= fs.len(),
    ensures
        0 <= fragments_size(fs.take(k)) <= fragments_size(fs),
    decreases fs.len(),
{
    if fs.len() > 0 {
        if k == fs.len() {
            assert(fs.take(k) =~= fs);
            lemma_fragments_size_prefix(fs.drop_last(), k - 1);
        } else {
            lemma_fragments_size_prefix(fs.drop_last(), k);
            assert(fs.drop_last().take(k) =~= fs.take(k));
        }
    }
}

/// Placing a prefix of the fragments places them as placing all of them does.
proof fn lemma_placed_prefix(fs: Seq<Fragment>, k: int)
    requires
        0 <= k <= fs.len(),
    ensures
        placed(fs.take(k), 0) == placed(fs, 0).take(k),
        placed(fs, 0).len() == fs.len(),
    decreases fs.len(),
{
    if fs.len() > 0 {
        lemma_placed_prefix(fs.drop_last(), if k == fs.len() { k - 1 } else { k });
        if k == fs.len() {
            assert(fs.take(k) =~= fs);
            assert(placed(fs, 0).take(k) =~= placed(fs, 0));
        } else {
            assert(fs.drop_last().take(k) =~= fs.take(k));
            assert(placed(fs, 0).take(k) =~= placed(fs.drop_last(), 0).take(k));
        }
    }
}

/// Shares the bytes `offset..offset + size` of a decompressed chunk as stream data, after checking
/// that they lie within the chunk.
pub fn chunk_slice_stream_data(chunk: std::sync::Arc<Vec<u8>>, offset: u32, size: u32) -> (r: Result<StreamData, ReadStreamError>)
    ensures
        offset + size <= (*chunk)@.len() ==> (r matches Ok(d) && d.wf() && d@ == (*chunk)@.subrange(
            offset as int,
            offset + size,
        )),
        offset + size > (*chunk)@.len() ==> r == Err::<StreamData, ReadStreamError>(
            ReadStreamError::FragmentOutOfRange,
        ),
{
    let len = chunk.len();
    if (offset as usize) > len || (size as usize) > len - (offset as usize) {
        return Err(ReadStreamError::FragmentOutOfRange);
    }
    Ok(StreamData::ArcSlice(chunk, offset as usize, offset as usize + size as usize))
}

/// Copies the data of a fragment from its decompressed chunk into the stream's buffer, at
/// `stream_offset`, after checking that the fragment's range lies within the chunk.
pub fn copy_fragment_from_chunk(
    out: &mut Vec<u8>,
    stream_offset: u32,
    chunk: &[u8],
    offset_within_chunk: u32,
    size: u32,
) -> (r: Result<(), ReadStreamError>)
    requires
        stream_offset + size <= old(out)@.len(),
    ensures
        offset_within_chunk + size <= chunk@.len() ==> r is Ok && final(out)@ == old(out)@.take(
            stream_offset as int,
        ) + chunk@.subrange(offset_within_chunk as int, offset_within_chunk + size) + old(out)@.skip(
            stream_offset + size,
        ),
        offset_within_chunk + size > chunk@.len() ==> r == Err::<(), ReadStreamError>(
            ReadStreamError::FragmentOutOfRange,
        ) && final(out)@ == old(out)@,
{
    let len = chunk.len();
    let start = offset_within_chunk as usize;
    let n = size as usize;
    if start > len || n > len - start {
        return Err(ReadStreamError::FragmentOutOfRange);
    }
    let dst = stream_offset as usize;
    let olen = out.len();
    let ghost before = out@;
    let mut k: usize = 0;
    while k < n
        invariant
            k <= n,
            len == chunk@.len(),
            olen == out@.len(),
            start + n <= chunk@.len(),
            dst + n <= out@.len(),
            out@.len() == before.len(),
            forall|j: int| 0 <= j < dst ==> out@[j] == before[j],
            forall|j: int| dst + n <= j < out@.len() ==> out@[j] == before[j],
            forall|j: int| dst <= j < dst + k ==> #[trigger] out@[j] == chunk@[start + (j - dst)],
        decreases n - k,
    {
        out.set(dst + k, chunk[start + k]);
        k = k + 1;
    }
    assert(out@ =~= before.take(dst as int) + chunk@.subrange(start as int, start + n) + before.skip(dst + n));
    Ok(())
}

} // verus!
