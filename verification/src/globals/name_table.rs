//! Name-to-Symbol Lookup Table, as used in the GSI and PSI.
//!
//! Encoded form:
//!
//! ```text
//! NameTableHeader            16 bytes: signature, version, hash_records_size, buckets_size
//! [HashRecord; n]            8 bytes each: symbol offset + 1, reference count
//! bitmap                     one bit per bucket (plus one), rounded up to whole u32 words
//! [i32; non-empty buckets]   for each non-empty bucket, 12 * the index of its first record
//! ```

use vstd::prelude::*;
use vstd::multiset::Multiset;
use crate::hash::{hash_mod_u32, spec_hash};
use crate::le::{decode_u32, encode_u32, le_bytes_u32, le_u32};

verus! {

/// The size used for calculating hash indices. It was the size of the in-memory form of the hash
/// records, on 32-bit machines. It is not the same as the length of the hash records that are
/// stored on disk (which is 8).
pub const HASH_RECORD_CALC_LEN: i32 = 12;

/// Section contribution version, before V70 there was no section version.
pub const GSI_HASH_SC_IMPV_V70: u32 = 0xeffe0000 + 19990810;

/// Signature value for `NameTableHeader::signature`.
pub const GSI_HASH_HEADER_SIGNATURE: u32 = 0xffff_ffff;

/// The current value to use (implementation version) for the GSI Hash.
pub const GSI_HASH_HEADER_VERSION: u32 = GSI_HASH_SC_IMPV_V70;

/// The size of the encoded `NameTableHeader`.
pub const NAME_TABLE_HEADER_LEN: usize = 16;

/// The size of an encoded `HashRecord`.
pub const HASH_RECORD_LEN: usize = 8;

/// This header is present at the start of the Name Table. Called `GSIHashHdr` in C++.
#[derive(Copy, Clone, Debug, PartialEq, Eq, Structural)]
pub struct NameTableHeader {
    /// Identifies this as a `NameTableHeader` (0xffff_ffff).
    pub signature: u32,
    /// Version of the name hash table.
    pub version: u32,
    /// Size in bytes of the hash records.
    pub hash_records_size: u32,
    /// Size in bytes of the hash buckets.
    pub buckets_size: u32,
}

/// An entry in the GSI hash table.
#[derive(Copy, Clone, Debug, PartialEq, Eq, Structural)]
pub struct HashRecord {
    /// The byte offset of a symbol record within the Global Symbol Stream, plus 1.
    pub offset: i32,
    /// A reference count; on disk, nearly always 1.
    pub c_ref: i32,
}

/// Why a name table could not be decoded.
#[derive(Copy, Clone, Debug, PartialEq, Eq, Structural)]
pub enum NameTableError {
    /// The data ends before the table does.
    Truncated,
    /// The header is not that of the supported (small buckets) format.
    UnsupportedFormat,
    /// A non-empty bucket points at a record offset that is negative, not a multiple of 12,
    /// beyond the hash records, or out of order.
    BadBucketOffset,
}

/// Whether bit `k` of a bitmap is set; bits are numbered from the least significant bit of the
/// first byte.
pub open spec fn bit_of(bytes: Seq<u8>, k: int) -> bool {
    ((bytes[k / 8] >> ((k % 8) as u8)) & 1u8) == 1u8
}

/// The number of set bits among the first `m` bits of a bitmap.
pub open spec fn count_set(bytes: Seq<u8>, m: int) -> int
    decreases m,
{
    if m <= 0 {
        0
    } else {
        count_set(bytes, m - 1) + if bit_of(bytes, m - 1) {
            1int
        } else {
            0int
        }
    }
}

/// The size in bytes of the bitmap of non-empty buckets: one bit per bucket, plus one, rounded
/// up to whole `u32` words.
pub open spec fn bitmap_len(num_buckets: int) -> int {
    ((num_buckets + 1 + 31) / 32) * 4
}

/// The `k`-th bucket pointer, which follows the bitmap.
pub open spec fn bucket_ptr(bytes: Seq<u8>, bm_len: int, k: int) -> i32 {
    (le_u32(bytes.skip(bm_len + 4 * k)) as u32) as i32
}

/// Whether the pointers of the `num_set` non-empty buckets are valid: non-negative multiples of
/// 12 that point into the hash records, starting at record 0 and never decreasing.
pub open spec fn bucket_ptrs_valid(bytes: Seq<u8>, bm_len: int, num_set: int, num_hash_records: int) -> bool {
    forall|k: int| 0 <= k < num_set ==> #[trigger] bucket_ptr_ok(bytes, bm_len, k, num_hash_records)
}

/// The expanded buckets: entry `b` is the index of the first hash record of bucket `b`, and
/// entry `num_buckets` is the number of hash records. The start of an empty bucket is that of
/// the next non-empty one.
pub open spec fn expanded_buckets(bytes: Seq<u8>, num_buckets: int, num_hash_records: int) -> Seq<u32> {
    let bm = bitmap_len(num_buckets);
    let total = count_set(bytes, num_buckets);
    Seq::new(
        (num_buckets + 1) as nat,
        |b: int|
            {
                let c = count_set(bytes, b);
                if c < total {
                    (bucket_ptr(bytes, bm, c) as int / 12) as u32
                } else {
                    num_hash_records as u32
                }
            },
    )
}

/// Decoding the compressed buckets of a name table.
pub open spec fn expand_buckets_spec(bytes: Seq<u8>, num_buckets: int, num_hash_records: int) -> Result<Seq<u32>, NameTableError> {
    let bm = bitmap_len(num_buckets);
    let all_ones = count_set(bytes, 8 * bm);
    let num_ptrs = if all_ones < num_buckets {
        all_ones
    } else {
        num_buckets
    };
    if bytes.len() < bm + 4 * num_ptrs {
        Err(NameTableError::Truncated)
    } else if !bucket_ptrs_valid(bytes, bm, count_set(bytes, num_buckets), num_hash_records) {
        Err(NameTableError::BadBucketOffset)
    } else {
        Ok(expanded_buckets(bytes, num_buckets, num_hash_records))
    }
}

/// Counting set bits never goes down as more bits are counted.
pub proof fn lemma_count_set_monotone(bytes: Seq<u8>, a: int, b: int)
    requires
        0 <= a <= b,
    ensures
        count_set(bytes, a) <= count_set(bytes, b),
        count_set(bytes, b) - count_set(bytes, a) <= b - a,
    decreases b - a,
{
    if a < b {
        lemma_count_set_monotone(bytes, a, b - 1);
    }
}

/// Computes the size in bytes of the bitmap of non-empty buckets.
pub fn nonempty_bitmap_size_bytes(num_buckets: usize) -> (r: usize)
    requires
        num_buckets <= usize::MAX - 32,
    ensures
        r == bitmap_len(num_buckets as int),
        8 * r <= num_buckets + 32,
        8 * r > num_buckets,
{
    let compressed_bitvec_size_u32s = (num_buckets + 1 + 31) / 32;
    compressed_bitvec_size_u32s * 4
}

/// Whether bit `k` of a bitmap is set.
fn test_bit(bytes: &[u8], k: usize) -> (b: bool)
    requires
        k / 8 < bytes@.len(),
    ensures
        b == bit_of(bytes@, k as int),
{
    ((bytes[k / 8] >> ((k % 8) as u8)) & 1u8) == 1u8
}

/// Counts the set bits among the first `m` bits of a bitmap.
fn count_ones(bytes: &[u8], m: usize) -> (n: usize)
    requires
        m <= 8 * bytes@.len(),
    ensures
        n == count_set(bytes@, m as int),
{
    let mut n: usize = 0;
    let mut k: usize = 0;
    while k < m
        invariant
            k <= m <= 8 * bytes@.len(),
            n == count_set(bytes@, k as int),
            n <= k,
        decreases m - k,
    {
        if test_bit(bytes, k) {
            n = n + 1;
        }
        k = k + 1;
    }
    n
}

/// Whether the `k`-th bucket pointer is valid, given the pointers before it.
pub open spec fn bucket_ptr_ok(bytes: Seq<u8>, bm_len: int, k: int, num_hash_records: int) -> bool {
    let v = bucket_ptr(bytes, bm_len, k) as int;
    &&& v >= 0
    &&& v % 12 == 0
    &&& v / 12 < num_hash_records
    &&& k == 0 ==> v / 12 == 0
    &&& k > 0 ==> v / 12 >= bucket_ptr(bytes, bm_len, k - 1) as int / 12
}

/// Reads and checks the `k`-th bucket pointer, returning the record index that it points to.
fn read_bucket_ptr(bytes: &[u8], bm: usize, k: usize, num_hash_records: usize, prev: u32) -> (r: Result<u32, NameTableError>)
    requires
        bm + 4 * k + 4 <= bytes@.len(),
        k > 0 ==> prev == (bucket_ptr(bytes@, bm as int, k - 1) as int / 12) as u32,
        k > 0 ==> bucket_ptr(bytes@, bm as int, k - 1) >= 0,
    ensures
        r is Ok <==> bucket_ptr_ok(bytes@, bm as int, k as int, num_hash_records as int),
        r matches Ok(o) ==> o == (bucket_ptr(bytes@, bm as int, k as int) as int / 12) as u32,
        r is Err ==> r == Err::<u32, NameTableError>(NameTableError::BadBucketOffset),
{
    let n = bytes.len();
    assert(n == bytes@.len());
    let start = bm + 4 * k;
    let v = decode_u32(vstd::slice::slice_subrange(bytes, start, start + 4)) as i32;
    assert(bytes@.subrange(start as int, start + 4) =~= bytes@.skip(bm + 4 * k).take(4));
    assert(v == bucket_ptr(bytes@, bm as int, k as int));
    if v < 0 || v % HASH_RECORD_CALC_LEN != 0 {
        return Err(NameTableError::BadBucketOffset);
    }
    let offset = (v / HASH_RECORD_CALC_LEN) as u32;
    if offset as usize >= num_hash_records {
        return Err(NameTableError::BadBucketOffset);
    }
    if k > 0 {
        if offset < prev {
            return Err(NameTableError::BadBucketOffset);
        }
    } else if offset != 0 {
        return Err(NameTableError::BadBucketOffset);
    }
    Ok(offset)
}

/// The entries of the expanded buckets that have been produced so far are right.
pub open spec fn expanded_prefix(bytes: Seq<u8>, bm: int, out: Seq<u32>, k: int) -> bool {
    forall|j: int|
        0 <= j < out.len() ==> #[trigger] out[j] == (bucket_ptr(bytes, bm, count_set(bytes, j)) as int
            / 12) as u32 && count_set(bytes, j) < k
}

/// Pushes `value` until `out` has `len` entries.
fn fill_to(out: &mut Vec<u32>, len: usize, value: u32)
    requires
        old(out)@.len() <= len,
    ensures
        final(out)@.len() == len,
        forall|j: int| 0 <= j < old(out)@.len() ==> #[trigger] final(out)@[j] == old(out)@[j],
        forall|j: int| old(out)@.len() <= j < len ==> #[trigger] final(out)@[j] == value,
{
    while out.len() < len
        invariant
            old(out)@.len() <= out@.len() <= len,
            forall|j: int| 0 <= j < old(out)@.len() ==> #[trigger] out@[j] == old(out)@[j],
            forall|j: int| old(out)@.len() <= j < out@.len() ==> #[trigger] out@[j] == value,
        decreases len - out@.len(),
    {
        out.push(value);
    }
}

/// Expands the compressed buckets of a name table into a vector of record indexes: the hash
/// records of bucket `b` are those from entry `b` up to entry `b + 1`.
///
/// The input contains a bitmap, followed by an array of offsets (one for each set bit). The
/// length of the bitmap is determined by `num_buckets`.
#[verifier::rlimit(40)]
fn expand_buckets(buckets_bytes: &[u8], num_buckets: usize, num_hash_records: usize) -> (r: Result<Vec<u32>, NameTableError>)
    requires
        num_buckets < u32::MAX,
        num_buckets <= usize::MAX - 64,
        num_hash_records <= u32::MAX,
    ensures
        match r {
            Ok(v) => expand_buckets_spec(buckets_bytes@, num_buckets as int, num_hash_records as int)
                == Ok::<Seq<u32>, NameTableError>(v@),
            Err(e) => expand_buckets_spec(buckets_bytes@, num_buckets as int, num_hash_records as int)
                == Err::<Seq<u32>, NameTableError>(e),
        },
{
    let ghost bytes = buckets_bytes@;
    let bm = nonempty_bitmap_size_bytes(num_buckets);
    proof {
        lemma_count_set_monotone(bytes, 0, 8 * bm);
        lemma_count_set_monotone(bytes, 0, num_buckets as int);
        lemma_count_set_monotone(bytes, num_buckets as int, 8 * bm);
    }
    if buckets_bytes.len() < bm {
        return Err(NameTableError::Truncated);
    }
    let all_ones = count_ones(buckets_bytes, 8 * bm);
    let num_ptrs = if all_ones < num_buckets {
        all_ones
    } else {
        num_buckets
    };
    if (buckets_bytes.len() - bm) / 4 < num_ptrs {
        return Err(NameTableError::Truncated);
    }
    let ghost total = count_set(bytes, num_buckets as int);
    let mut out: Vec<u32> = Vec::new();
    let mut k: usize = 0;
    let mut b: usize = 0;
    let mut prev: u32 = 0;
    while b < num_buckets
        invariant
            bytes == buckets_bytes@,
            bm == bitmap_len(num_buckets as int),
            8 * bm > num_buckets,
            bm + 4 * total <= bytes.len(),
            bm + 4 * (if count_set(bytes, 8 * bm) < num_buckets {
                count_set(bytes, 8 * bm)
            } else {
                num_buckets as int
            }) <= bytes.len(),
            total == count_set(bytes, num_buckets as int),
            total <= num_buckets,
            num_buckets < u32::MAX,
            num_buckets <= usize::MAX - 64,
            b <= num_buckets,
            k == count_set(bytes, b as int),
            k <= total,
            out@.len() <= b,
            k == 0 ==> out@.len() == 0,
            k > 0 ==> count_set(bytes, out@.len() as int) == k && out@.len() > 0,
            k > 0 ==> prev == (bucket_ptr(bytes, bm as int, k - 1) as int / 12) as u32,
            k > 0 ==> bucket_ptr(bytes, bm as int, k - 1) >= 0,
            forall|i: int| 0 <= i < k ==> bucket_ptr_ok(bytes, bm as int, i, num_hash_records as int),
            expanded_prefix(bytes, bm as int, out@, k as int),
        decreases num_buckets - b,
    {
        proof {
            lemma_count_set_monotone(bytes, b as int, num_buckets as int);
            lemma_count_set_monotone(bytes, b + 1, num_buckets as int);
        }
        if test_bit(buckets_bytes, b) {
            assert(count_set(bytes, b + 1) == k + 1);
            let offset = match read_bucket_ptr(buckets_bytes, bm, k, num_hash_records, prev) {
                Ok(o) => o,
                Err(e) => {
                    proof {
                        assert(!bucket_ptr_ok(bytes, bm as int, k as int, num_hash_records as int));
                        assert(!bucket_ptrs_valid(bytes, bm as int, total, num_hash_records as int));
                    }
                    return Err(e);
                },
            };
            let ghost old_out = out@;
            proof {
                lemma_count_set_monotone(bytes, old_out.len() as int, b as int);
            }
            fill_to(&mut out, b, offset);
            out.push(offset);
            proof {
                assert forall|j: int| 0 <= j < out@.len() implies #[trigger] out@[j] == (bucket_ptr(
                    bytes,
                    bm as int,
                    count_set(bytes, j),
                ) as int / 12) as u32 && count_set(bytes, j) < k + 1 by {
                    if j < old_out.len() {
                        assert(out@[j] == old_out[j]);
                    } else {
                        lemma_count_set_monotone(bytes, old_out.len() as int, j);
                        lemma_count_set_monotone(bytes, j, b as int);
                        assert(count_set(bytes, j) == k);
                        assert(out@[j] == offset);
                    }
                }
                assert(expanded_prefix(bytes, bm as int, out@, k + 1));
            }
            prev = offset;
            k = k + 1;
        }
        b = b + 1;
    }
    let ghost filled = out@.len();
    proof {
        lemma_count_set_monotone(bytes, filled as int, num_buckets as int);
    }
    fill_to(&mut out, num_buckets + 1, num_hash_records as u32);
    proof {
        assert forall|j: int| filled <= j < out@.len() implies count_set(bytes, j) == k by {
            lemma_count_set_monotone(bytes, filled as int, j);
            lemma_count_set_monotone(bytes, j, num_buckets as int);
        }
        assert(bucket_ptrs_valid(bytes, bm as int, total, num_hash_records as int)) by {
            assert forall|i: int| 0 <= i < total implies bucket_ptr_ok(bytes, bm as int, i, num_hash_records as int) by {}
        }
        assert(out@ =~= expanded_buckets(bytes, num_buckets as int, num_hash_records as int));
    }
    Ok(out)
}

/// The hash records of a name table: `n` records of 8 bytes each.
pub open spec fn decode_hash_records(bytes: Seq<u8>, n: int) -> Seq<HashRecord> {
    Seq::new(
        n as nat,
        |i: int|
            HashRecord {
                offset: (le_u32(bytes.skip(8 * i)) as u32) as i32,
                c_ref: (le_u32(bytes.skip(8 * i + 4)) as u32) as i32,
            },
    )
}

/// Decoding a name table: the expanded buckets and the hash records.
pub open spec fn parse_name_table(num_buckets: int, bytes: Seq<u8>) -> Result<(Seq<u32>, Seq<HashRecord>), NameTableError> {
    if bytes.len() < 16 {
        Err(NameTableError::Truncated)
    } else if le_u32(bytes) != GSI_HASH_HEADER_SIGNATURE || le_u32(bytes.skip(4))
        != GSI_HASH_HEADER_VERSION {
        Err(NameTableError::UnsupportedFormat)
    } else {
        let hrs = le_u32(bytes.skip(8));
        let bs = le_u32(bytes.skip(12));
        if 16 + hrs + bs > bytes.len() {
            Err(NameTableError::Truncated)
        } else {
            let n = hrs / 8;
            match expand_buckets_spec(bytes.subrange(16 + hrs, 16 + hrs + bs), num_buckets, n) {
                Ok(b) => Ok((b, decode_hash_records(bytes.skip(16), n))),
                Err(e) => Err(e),
            }
        }
    }
}

/// Valid bucket pointers never decrease.
proof fn lemma_ptrs_nondecreasing(bytes: Seq<u8>, bm: int, total: int, nrec: int, i: int, j: int)
    requires
        bucket_ptrs_valid(bytes, bm, total, nrec),
        0 <= i <= j < total,
    ensures
        bucket_ptr(bytes, bm, i) as int / 12 <= bucket_ptr(bytes, bm, j) as int / 12,
    decreases j - i,
{
    assert(bucket_ptr_ok(bytes, bm, j, nrec));
    if i < j {
        lemma_ptrs_nondecreasing(bytes, bm, total, nrec, i, j - 1);
    }
}

/// The expanded buckets of a valid table never decrease and stay within the hash records.
proof fn lemma_expanded_well_formed(bytes: Seq<u8>, num_buckets: int, nrec: int)
    requires
        num_buckets >= 0,
        0 <= nrec <= u32::MAX,
        expand_buckets_spec(bytes, num_buckets, nrec) is Ok,
    ensures
        buckets_well_formed(expanded_buckets(bytes, num_buckets, nrec), nrec),
{
    let e = expanded_buckets(bytes, num_buckets, nrec);
    let bm = bitmap_len(num_buckets);
    let total = count_set(bytes, num_buckets);
    assert(bucket_ptrs_valid(bytes, bm, total, nrec));
    assert forall|a: int, b: int| 0 <= a <= b < e.len() implies e[a] <= e[b] by {
        lemma_count_set_monotone(bytes, 0, a);
        lemma_count_set_monotone(bytes, a, b);
        lemma_count_set_monotone(bytes, b, num_buckets);
        let ca = count_set(bytes, a);
        let cb = count_set(bytes, b);
        if cb < total {
            lemma_ptrs_nondecreasing(bytes, bm, total, nrec, ca, cb);
            assert(bucket_ptr_ok(bytes, bm, cb, nrec));
            assert(bucket_ptr_ok(bytes, bm, ca, nrec));
        } else if ca < total {
            assert(bucket_ptr_ok(bytes, bm, ca, nrec));
        }
    }
    assert forall|a: int| 0 <= a < e.len() implies e[a] <= nrec by {
        lemma_count_set_monotone(bytes, 0, a);
        lemma_count_set_monotone(bytes, a, num_buckets);
        if count_set(bytes, a) < total {
            assert(bucket_ptr_ok(bytes, bm, count_set(bytes, a), nrec));
        }
    }
}

/// The buckets of a table: at least one entry, never decreasing, and within the records.
pub open spec fn buckets_well_formed(buckets: Seq<u32>, nrec: int) -> bool {
    &&& buckets.len() >= 1
    &&& forall|a: int, b: int| 0 <= a <= b < buckets.len() ==> buckets[a] <= buckets[b]
    &&& forall|a: int| 0 <= a < buckets.len() ==> buckets[a] <= nrec
}

/// Contains a Name Table, as used in the GSI and PSI.
pub struct NameTable {
    /// A "starts" vector: the hash records of bucket `b` are those from `hash_buckets[b]` up to
    /// `hash_buckets[b + 1]`. There is one more entry than there are buckets.
    hash_buckets: Vec<u32>,
    /// Each record corresponds to one symbol record, by its offset in the global symbol stream,
    /// plus 1.
    hash_records: Vec<HashRecord>,
}

impl NameTable {
    /// The buckets stay within the records.
    #[verifier::type_invariant]
    spec fn well_formed(self) -> bool {
        &&& buckets_well_formed(self.hash_buckets@, self.hash_records@.len() as int)
        &&& self.hash_buckets@.len() <= u32::MAX
    }

    /// The bucket starts, with one more entry than there are buckets.
    pub closed spec fn buckets(&self) -> Seq<u32> {
        self.hash_buckets@
    }

    /// The hash records.
    pub closed spec fn records(&self) -> Seq<HashRecord> {
        self.hash_records@
    }

    /// Parses a `NameTable`, given the number of buckets that the table was built with.
    /// `stream_offset` is the offset of the table within its stream.
    pub fn parse(num_buckets: usize, stream_offset: usize, sym_hash_bytes: &[u8]) -> (r: Result<Self, NameTableError>)
        requires
            num_buckets < u32::MAX,
            num_buckets <= usize::MAX - 64,
        ensures
            match r {
                Ok(t) => parse_name_table(num_buckets as int, sym_hash_bytes@) == Ok::<
                    (Seq<u32>, Seq<HashRecord>),
                    NameTableError,
                >((t.buckets(), t.records())),
                Err(e) => parse_name_table(num_buckets as int, sym_hash_bytes@) == Err::<
                    (Seq<u32>, Seq<HashRecord>),
                    NameTableError,
                >(e),
            },
    {
        let _ = stream_offset;
        let bytes = sym_hash_bytes;
        if bytes.len() < NAME_TABLE_HEADER_LEN {
            return Err(NameTableError::Truncated);
        }
        let signature = decode_u32(bytes);
        let version = decode_u32(vstd::slice::slice_subrange(bytes, 4, 8));
        assert(bytes@.subrange(4, 8) =~= bytes@.skip(4).take(4));
        if signature != GSI_HASH_HEADER_SIGNATURE || version != GSI_HASH_HEADER_VERSION {
            return Err(NameTableError::UnsupportedFormat);
        }
        let hrs = decode_u32(vstd::slice::slice_subrange(bytes, 8, 12)) as usize;
        let bs = decode_u32(vstd::slice::slice_subrange(bytes, 12, 16)) as usize;
        assert(bytes@.subrange(8, 12) =~= bytes@.skip(8).take(4));
        assert(bytes@.subrange(12, 16) =~= bytes@.skip(12).take(4));
        if hrs > bytes.len() - 16 || bs > bytes.len() - 16 - hrs {
            return Err(NameTableError::Truncated);
        }
        let n = hrs / HASH_RECORD_LEN;
        let buckets_bytes = vstd::slice::slice_subrange(bytes, 16 + hrs, 16 + hrs + bs);
        let hash_buckets = match expand_buckets(buckets_bytes, num_buckets, n) {
            Ok(b) => b,
            Err(e) => {
                return Err(e);
            },
        };
        let mut hash_records: Vec<HashRecord> = Vec::new();
        let mut i: usize = 0;
        while i < n
            invariant
                n == hrs / 8,
                16 + hrs <= bytes.len(),
                bytes.len() == bytes@.len(),
                i <= n,
                hash_records@ =~= decode_hash_records(bytes@.skip(16), i as int),
            decreases n - i,
        {
            let at = 16 + 8 * i;
            let offset = decode_u32(vstd::slice::slice_subrange(bytes, at, at + 4)) as i32;
            let c_ref = decode_u32(vstd::slice::slice_subrange(bytes, at + 4, at + 8)) as i32;
            proof {
                assert(bytes@.subrange(at as int, at + 4) =~= bytes@.skip(16).skip(8 * i).take(4));
                assert(bytes@.subrange(at + 4, at + 8) =~= bytes@.skip(16).skip(8 * i + 4).take(4));
            }
            hash_records.push(HashRecord { offset, c_ref });
            i = i + 1;
        }
        proof {
            lemma_expanded_well_formed(buckets_bytes@, num_buckets as int, n as int);
        }
        Ok(NameTable { hash_buckets, hash_records })
    }

    /// Constructs an empty table: no records, and no buckets.
    pub fn empty() -> (t: Self)
        ensures
            t.buckets() == seq![0u32],
            t.records() == Seq::<HashRecord>::empty(),
    {
        NameTable { hash_buckets: vec![0], hash_records: Vec::new() }
    }

    /// The bucket starts.
    pub fn hash_buckets(&self) -> (r: &[u32])
        ensures
            r@ == self.buckets(),
    {
        self.hash_buckets.as_slice()
    }

    /// The hash records.
    pub fn hash_records(&self) -> (r: &[HashRecord])
        ensures
            r@ == self.records(),
    {
        self.hash_records.as_slice()
    }

    /// Gets the hash records for a specific bucket index.
    pub fn hash_records_for_bucket(&self, bucket: usize) -> (r: &[HashRecord])
        requires
            bucket + 1 < self.buckets().len(),
        ensures
            r@ == self.records().subrange(
                self.buckets()[bucket as int] as int,
                self.buckets()[bucket + 1] as int,
            ),
    {
        proof {
            use_type_invariant(self);
        }
        let start = self.hash_buckets[bucket] as usize;
        let end = self.hash_buckets[bucket + 1] as usize;
        vstd::slice::slice_subrange(self.hash_records.as_slice(), start, end)
    }

    /// Gets the hash records that might contain `name`: those of the bucket of its hash. A table
    /// without buckets has none.
    pub fn hash_records_for_name(&self, name: &[u8]) -> (r: &[HashRecord])
        ensures
            self.buckets().len() <= 1 ==> r@ == Seq::<HashRecord>::empty(),
            self.buckets().len() > 1 ==> {
                let b = spec_hash(name@) % ((self.buckets().len() - 1) as u32);
                r@ == self.records().subrange(
                    self.buckets()[b as int] as int,
                    self.buckets()[b + 1] as int,
                )
            },
    {
        proof {
            use_type_invariant(self);
        }
        if self.hash_buckets.len() <= 1 {
            return vstd::slice::slice_subrange(self.hash_records.as_slice(), 0, 0);
        }
        let name_hash = hash_mod_u32(name, (self.hash_buckets.len() - 1) as u32);
        self.hash_records_for_bucket(name_hash as usize)
    }
}

/// Used when rebuilding a Name Table. Entries are ordered by hash, then by symbol offset.
#[derive(Copy, Clone, Debug, PartialEq, Eq, Structural)]
pub struct HashEntry {
    /// The hash code of the name, already reduced modulo the number of buckets.
    pub hash: u32,
    /// Symbol offset within the GSS, plus 1.
    pub symbol_offset: i32,
}

/// The order of hash entries: by hash, then by symbol offset.
pub open spec fn entry_le(a: HashEntry, b: HashEntry) -> bool {
    a.hash < b.hash || (a.hash == b.hash && a.symbol_offset <= b.symbol_offset)
}

/// Whether hash entries are in order.
pub open spec fn entries_sorted(s: Seq<HashEntry>) -> bool {
    forall|i: int, j: int| 0 <= i <= j < s.len() ==> entry_le(#[trigger] s[i], #[trigger] s[j])
}

/// Whether entry `i` begins a run of entries with the same hash.
pub open spec fn is_group_start(s: Seq<HashEntry>, i: int) -> bool {
    i == 0 || s[i].hash != s[i - 1].hash
}

/// The indexes at which runs of entries with the same hash begin.
pub open spec fn group_starts(s: Seq<HashEntry>) -> Seq<int>
    decreases s.len(),
{
    if s.len() == 0 {
        Seq::empty()
    } else {
        let g = group_starts(s.drop_last());
        if is_group_start(s, s.len() - 1) {
            g.push(s.len() - 1)
        } else {
            g
        }
    }
}

/// Whether some entry has the given hash.
pub open spec fn hash_present(s: Seq<HashEntry>, h: int) -> bool {
    exists|i: int| 0 <= i < s.len() && s[i].hash == h
}

/// The encoded hash records: the symbol offset and a reference count of 1 for each entry.
pub open spec fn records_bytes(s: Seq<HashEntry>) -> Seq<u8> {
    Seq::new(
        (8 * s.len()) as nat,
        |k: int|
            if k % 8 < 4 {
                le_bytes_u32(s[k / 8].symbol_offset as u32)[k % 8]
            } else {
                le_bytes_u32(1u32)[k % 8 - 4]
            },
    )
}

/// The encoded bucket pointers: 12 times the index of the first record of each non-empty bucket.
pub open spec fn ptr_bytes(g: Seq<int>) -> Seq<u8> {
    Seq::new((4 * g.len()) as nat, |k: int| le_bytes_u32((g[k / 4] * 12) as u32)[k % 4])
}

/// The encoded header of a table of `n` records with `num_groups` non-empty buckets.
pub open spec fn header_bytes(n: int, num_buckets: int, num_groups: int) -> Seq<u8> {
    le_bytes_u32(GSI_HASH_HEADER_SIGNATURE) + le_bytes_u32(GSI_HASH_HEADER_VERSION) + le_bytes_u32(
        (8 * n) as u32,
    ) + le_bytes_u32((bitmap_len(num_buckets) + 4 * num_groups) as u32)
}

/// The size of an encoded table.
pub open spec fn table_size(n: int, num_buckets: int, num_groups: int) -> int {
    16 + 8 * n + bitmap_len(num_buckets) + 4 * num_groups
}

/// Whether `out` is the encoding of a name table that holds the (sorted) entries `s`: the
/// header, the hash records, a bitmap whose set bits are the hashes that occur, and the bucket
/// pointers.
pub open spec fn is_encoded_name_table(out: Seq<u8>, s: Seq<HashEntry>, num_buckets: int) -> bool {
    let n = s.len() as int;
    let g = group_starts(s);
    let bm = bitmap_len(num_buckets);
    let bitmap = out.subrange(16 + 8 * n, 16 + 8 * n + bm);
    &&& out.len() == table_size(n, num_buckets, g.len() as int)
    &&& out.subrange(0, 16) == header_bytes(n, num_buckets, g.len() as int)
    &&& out.subrange(16, 16 + 8 * n) == records_bytes(s)
    &&& forall|k: int| 0 <= k < 8 * bm ==> (#[trigger] bit_of(bitmap, k) <==> hash_present(s, k))
    &&& out.subrange(16 + 8 * n + bm, out.len() as int) == ptr_bytes(g)
}

/// Counts the runs of entries with the same hash. For sorted entries, this is the number of
/// non-empty buckets.
pub fn count_nonempty_buckets(sorted_hash_records: &[HashEntry]) -> (n: usize)
    ensures
        n == group_starts(sorted_hash_records@).len(),
{
    let s = sorted_hash_records;
    let mut n: usize = 0;
    let mut i: usize = 0;
    while i < s.len()
        invariant
            i <= s@.len(),
            n == group_starts(s@.take(i as int)).len(),
            n <= i,
        decreases s@.len() - i,
    {
        proof {
            lemma_group_starts_step(s@, i as int);
        }
        if i == 0 || s[i].hash != s[i - 1].hash {
            n = n + 1;
        }
        i = i + 1;
    }
    assert(s@.take(s@.len() as int) =~= s@);
    n
}

/// Extending a prefix by one entry adds a group start exactly when the entry begins a run.
proof fn lemma_group_starts_step(s: Seq<HashEntry>, i: int)
    requires
        0 <= i < s.len(),
    ensures
        group_starts(s.take(i + 1)) == if is_group_start(s, i) {
            group_starts(s.take(i)).push(i)
        } else {
            group_starts(s.take(i))
        },
{
    assert(s.take(i + 1).drop_last() =~= s.take(i));
}

/// Computes the size in bytes of the name hash table. This includes the header.
pub fn compute_hash_table_size_bytes(num_hash_records: usize, num_buckets: usize, num_nonempty_buckets: usize) -> (r: usize)
    requires
        num_buckets <= usize::MAX - 32,
        table_size(num_hash_records as int, num_buckets as int, num_nonempty_buckets as int)
            <= usize::MAX,
    ensures
        r == table_size(num_hash_records as int, num_buckets as int, num_nonempty_buckets as int),
{
    NAME_TABLE_HEADER_LEN + num_hash_records * HASH_RECORD_LEN + nonempty_bitmap_size_bytes(num_buckets)
        + num_nonempty_buckets * 4
}

/// Gets the default number of buckets to use: 0x3ffff for "mini PDBs" (made with
/// `/DEBUG:FASTLINK`), 0x1000 otherwise.
pub fn get_v1_default_bucket(minimal_dbg_info: bool) -> (r: usize)
    ensures
        r == (if minimal_dbg_info {
            0x3ffffusize
        } else {
            0x1000usize
        }),
{
    if minimal_dbg_info {
        0x3ffff
    } else {
        0x1000
    }
}

/// Output of `NameTableBuilder::prepare`.
#[derive(Copy, Clone, Debug, PartialEq, Eq, Structural)]
pub struct NameTableInfo {
    /// The number of buckets to use.
    pub num_buckets: usize,
    /// Number of non-empty buckets. Always less than or equal to `num_buckets`.
    pub num_nonempty_buckets: usize,
    /// Size of the entire table, in bytes.
    pub table_size_bytes: usize,
}

/// Compares two hash entries.
fn entry_le_exec(a: &HashEntry, b: &HashEntry) -> (r: bool)
    ensures
        r == entry_le(*a, *b),
{
    a.hash < b.hash || (a.hash == b.hash && a.symbol_offset <= b.symbol_offset)
}

/// Merges two sorted runs of hash entries.
fn merge_entries(a: &[HashEntry], b: &[HashEntry]) -> (out: Vec<HashEntry>)
    requires
        entries_sorted(a@),
        entries_sorted(b@),
    ensures
        entries_sorted(out@),
        out@.to_multiset() == a@.to_multiset().add(b@.to_multiset()),
        out@.len() == a@.len() + b@.len(),
{
    broadcast use vstd::multiset::group_multiset_axioms;

    let mut out: Vec<HashEntry> = Vec::new();
    let mut i: usize = 0;
    let mut j: usize = 0;
    assert(a@.take(0) =~= Seq::<HashEntry>::empty());
    assert(b@.take(0) =~= Seq::<HashEntry>::empty());
    assert(out@ =~= Seq::<HashEntry>::empty());
    proof {
        Seq::<HashEntry>::empty().to_multiset_ensures();
        vstd::multiset::lemma_multiset_empty_len(Seq::<HashEntry>::empty().to_multiset());
    }
    assert(Seq::<HashEntry>::empty().to_multiset() =~= Multiset::<HashEntry>::empty());
    assert(Multiset::<HashEntry>::empty().add(Multiset::<HashEntry>::empty()) =~= Multiset::<
        HashEntry,
    >::empty());
    while i < a.len() || j < b.len()
        invariant
            i <= a@.len(),
            j <= b@.len(),
            out@.len() == i + j,
            entries_sorted(a@),
            entries_sorted(b@),
            entries_sorted(out@),
            out@.to_multiset() == a@.take(i as int).to_multiset().add(b@.take(j as int).to_multiset()),
            out@.len() > 0 && i < a@.len() ==> entry_le(out@.last(), a@[i as int]),
            out@.len() > 0 && j < b@.len() ==> entry_le(out@.last(), b@[j as int]),
        decreases a@.len() + b@.len() - i - j,
    {
        let take_a = j >= b.len() || (i < a.len() && entry_le_exec(&a[i], &b[j]));
        if take_a {
            let x = a[i];
            proof {
                assert(a@.take(i + 1) =~= a@.take(i as int).push(x));
                assert(a@.take(i as int).to_multiset().insert(x).add(b@.take(j as int).to_multiset())
                    =~= a@.take(i as int).to_multiset().add(b@.take(j as int).to_multiset()).insert(x));
                vstd::seq_lib::to_multiset_build(a@.take(i as int), x);
                vstd::seq_lib::to_multiset_build(out@, x);
            }
            out.push(x);
            i = i + 1;
        } else {
            let x = b[j];
            proof {
                assert(b@.take(j + 1) =~= b@.take(j as int).push(x));
                assert(a@.take(i as int).to_multiset().add(b@.take(j as int).to_multiset().insert(x))
                    =~= a@.take(i as int).to_multiset().add(b@.take(j as int).to_multiset()).insert(x));
                vstd::seq_lib::to_multiset_build(b@.take(j as int), x);
                vstd::seq_lib::to_multiset_build(out@, x);
            }
            out.push(x);
            j = j + 1;
        }
    }
    assert(a@.take(a@.len() as int) =~= a@);
    assert(b@.take(b@.len() as int) =~= b@);
    out
}

/// Sorts hash entries (merge sort).
fn merge_sort_entries(s: &[HashEntry]) -> (out: Vec<HashEntry>)
    ensures
        entries_sorted(out@),
        out@.to_multiset() == s@.to_multiset(),
        out@.len() == s@.len(),
    decreases s@.len(),
{
    broadcast use vstd::seq_lib::group_to_multiset_ensures;

    if s.len() <= 1 {
        let mut v: Vec<HashEntry> = Vec::new();
        if s.len() == 1 {
            v.push(s[0]);
            assert(v@ =~= s@);
        } else {
            assert(v@ =~= s@);
        }
        return v;
    }
    let mid = s.len() / 2;
    let left = vstd::slice::slice_subrange(s, 0, mid);
    let right = vstd::slice::slice_subrange(s, mid, s.len());
    let l = merge_sort_entries(left);
    let r = merge_sort_entries(right);
    proof {
        assert(s@ =~= left@ + right@);
        vstd::seq_lib::lemma_multiset_commutative(left@, right@);
    }
    merge_entries(l.as_slice(), r.as_slice())
}

/// Sorts hash records by hash, then by symbol offset. This fully determines the order.
pub fn sort_hash_records(hash_records: &mut [HashEntry])
    ensures
        entries_sorted(final(hash_records)@),
        final(hash_records)@.to_multiset() == old(hash_records)@.to_multiset(),
        final(hash_records)@.len() == old(hash_records)@.len(),
{
    let sorted = merge_sort_entries(hash_records);
    let n = hash_records.len();
    let mut i: usize = 0;
    while i < n
        invariant
            n == hash_records@.len(),
            sorted@.len() == n,
            i <= n,
            forall|k: int| 0 <= k < i ==> hash_records@[k] == sorted@[k],
        decreases n - i,
    {
        hash_records[i] = sorted[i];
        i = i + 1;
    }
    assert(hash_records@ =~= sorted@);
}

/// Overwrites 4 bytes with the little-endian encoding of `v`.
fn put_u32(out: &mut [u8], at: usize, v: u32)
    requires
        at + 4 <= old(out)@.len(),
    ensures
        final(out)@.len() == old(out)@.len(),
        forall|j: int|
            0 <= j < old(out)@.len() ==> #[trigger] final(out)@[j] == if at <= j < at + 4 {
                le_bytes_u32(v)[j - at]
            } else {
                old(out)@[j]
            },
{
    let b = encode_u32(v);
    out[at] = b[0];
    out[at + 1] = b[1];
    out[at + 2] = b[2];
    out[at + 3] = b[3];
}

/// Setting a bit of a byte sets that bit and keeps the others.
proof fn lemma_set_bit(x: u8, j: u8, t: u8)
    by (bit_vector)
    requires
        j < 8,
        t < 8,
    ensures
        (((x | (1u8 << j)) >> t) & 1u8 == 1u8) <==> (t == j || ((x >> t) & 1u8) == 1u8),
{
}

/// A zero byte has no bit set.
proof fn lemma_zero_bits(t: u8)
    by (bit_vector)
    requires
        t < 8,
    ensures
        ((0u8 >> t) & 1u8) != 1u8,
{
}

/// Writes the header of a table.
fn write_header(out: &mut [u8], n: usize, num_buckets: usize, num_groups: usize)
    requires
        16 <= old(out)@.len(),
        num_buckets <= usize::MAX - 32,
        8 * n <= u32::MAX,
        bitmap_len(num_buckets as int) + 4 * num_groups <= u32::MAX,
    ensures
        final(out)@.len() == old(out)@.len(),
        final(out)@.subrange(0, 16) == header_bytes(n as int, num_buckets as int, num_groups as int),
        forall|j: int| 16 <= j < old(out)@.len() ==> #[trigger] final(out)@[j] == old(out)@[j],
{
    let bm = nonempty_bitmap_size_bytes(num_buckets);
    put_u32(out, 0, GSI_HASH_HEADER_SIGNATURE);
    put_u32(out, 4, GSI_HASH_HEADER_VERSION);
    put_u32(out, 8, (8 * n) as u32);
    put_u32(out, 12, (bm + 4 * num_groups) as u32);
    assert(out@.subrange(0, 16) =~= header_bytes(n as int, num_buckets as int, num_groups as int));
}

/// Writes the hash records, starting at offset 16.
fn write_records(out: &mut [u8], entries: &[HashEntry])
    requires
        16 + 8 * entries@.len() <= old(out)@.len(),
    ensures
        final(out)@.len() == old(out)@.len(),
        final(out)@.subrange(16, 16 + 8 * entries@.len() as int) == records_bytes(entries@),
        forall|j: int|
            0 <= j < old(out)@.len() && !(16 <= j < 16 + 8 * entries@.len()) ==> #[trigger] final(out)@[j] == old(out)@[j],
{
    let n = entries.len();
    let out_len = out.len();
    let mut i: usize = 0;
    while i < n
        invariant
            n == entries@.len(),
            16 + 8 * n <= out@.len(),
            out@.len() == old(out)@.len(),
            out@.len() == out_len,
            i <= n,
            forall|k: int| 0 <= k < 8 * i ==> #[trigger] out@[16 + k] == records_bytes(entries@)[k],
            forall|j: int|
                0 <= j < old(out)@.len() && !(16 <= j < 16 + 8 * i) ==> #[trigger] out@[j] == old(out)@[j],
        decreases n - i,
    {
        let at = 16 + 8 * i;
        put_u32(out, at, entries[i].symbol_offset as u32);
        put_u32(out, at + 4, 1);
        proof {
            assert forall|k: int| 0 <= k < 8 * (i + 1) implies #[trigger] out@[16 + k] == records_bytes(
                entries@,
            )[k] by {
                if k >= 8 * i {
                    assert(k / 8 == i);
                }
            }
        }
        i = i + 1;
    }
    assert forall|k: int| 0 <= k < 8 * n implies out@.subrange(16, 16 + 8 * n)[k] == records_bytes(entries@)[k] by {
        assert(out@[16 + k] == records_bytes(entries@)[k]);
    }
    assert(out@.subrange(16, 16 + 8 * n) =~= records_bytes(entries@));
}

/// Writes the bitmap of non-empty buckets at `base`: the bit of each hash that occurs is set.
fn write_bitmap(out: &mut [u8], base: usize, bm: usize, entries: &[HashEntry])
    requires
        base + bm <= old(out)@.len(),
        forall|i: int| 0 <= i < entries@.len() ==> (#[trigger] entries@[i]).hash < 8 * bm,
    ensures
        final(out)@.len() == old(out)@.len(),
        forall|k: int|
            0 <= k < 8 * bm ==> (#[trigger] bit_of(final(out)@.subrange(base as int, base + bm), k)
                <==> hash_present(entries@, k)),
        forall|j: int|
            0 <= j < old(out)@.len() && !(base <= j < base + bm) ==> #[trigger] final(out)@[j]
                == old(out)@[j],
{
    let mut z: usize = 0;
    while z < bm
        invariant
            base + bm <= out@.len(),
            out@.len() == old(out)@.len(),
            z <= bm,
            forall|j: int| base <= j < base + z ==> #[trigger] out@[j] == 0,
            forall|j: int|
                0 <= j < old(out)@.len() && !(base <= j < base + bm) ==> #[trigger] out@[j] == old(out)@[j],
        decreases bm - z,
    {
        out[base + z] = 0;
        z = z + 1;
    }
    proof {
        assert forall|k: int| 0 <= k < 8 * bm implies !#[trigger] bit_of(out@.subrange(base as int, base + bm), k) by {
            lemma_zero_bits((k % 8) as u8);
            assert(out@.subrange(base as int, base + bm)[k / 8] == 0);
        }
    }
    let n = entries.len();
    let out_len = out.len();
    let mut i: usize = 0;
    while i < n
        invariant
            n == entries@.len(),
            out@.len() == out_len,
            base + bm <= out@.len(),
            out@.len() == old(out)@.len(),
            i <= n,
            forall|e: int| 0 <= e < entries@.len() ==> (#[trigger] entries@[e]).hash < 8 * bm,
            forall|k: int|
                0 <= k < 8 * bm ==> (#[trigger] bit_of(out@.subrange(base as int, base + bm), k) <==> exists|
                    e: int,
                | 0 <= e < i && #[trigger] entries@[e].hash == k),
            forall|j: int|
                0 <= j < old(out)@.len() && !(base <= j < base + bm) ==> #[trigger] out@[j] == old(out)@[j],
        decreases n - i,
    {
        if i == 0 || entries[i].hash != entries[i - 1].hash {
            let h = entries[i].hash as usize;
            let idx = base + h / 8;
            let shift = (h % 8) as u8;
            let ghost before = out@.subrange(base as int, base + bm);
            out[idx] = out[idx] | (1u8 << shift);
            proof {
                let after = out@.subrange(base as int, base + bm);
                assert forall|k: int| 0 <= k < 8 * bm implies (#[trigger] bit_of(after, k) <==> (k == h
                    || bit_of(before, k))) by {
                    if k / 8 == h / 8 {
                        lemma_set_bit(before[k / 8], shift, (k % 8) as u8);
                    } else {
                        assert(after[k / 8] == before[k / 8]);
                    }
                }
                assert forall|k: int| 0 <= k < 8 * bm implies (#[trigger] bit_of(after, k) <==> exists|e: int|
                    0 <= e < i + 1 && #[trigger] entries@[e].hash == k) by {
                    if k == h {
                        assert(entries@[i as int].hash == k);
                    }
                    if exists|e: int| 0 <= e < i + 1 && #[trigger] entries@[e].hash == k {
                        let e = choose|e: int| 0 <= e < i + 1 && #[trigger] entries@[e].hash == k;
                        if e < i {
                        } else {
                            assert(k == h);
                        }
                    }
                }
            }
        } else {
            proof {
                let cur = out@.subrange(base as int, base + bm);
                assert forall|k: int| 0 <= k < 8 * bm implies (#[trigger] bit_of(cur, k) <==> exists|e: int|
                    0 <= e < i + 1 && #[trigger] entries@[e].hash == k) by {
                    if exists|e: int| 0 <= e < i + 1 && #[trigger] entries@[e].hash == k {
                        let e = choose|e: int| 0 <= e < i + 1 && #[trigger] entries@[e].hash == k;
                        if e == i {
                            assert(entries@[i - 1].hash == k);
                        }
                    }
                }
            }
        }
        i = i + 1;
    }
}

/// Writes the bucket pointers at `base`: 12 times the index of the first entry of each run of
/// entries with the same hash.
fn write_ptrs(out: &mut [u8], base: usize, entries: &[HashEntry])
    requires
        base + 4 * group_starts(entries@).len() <= old(out)@.len(),
        12 * entries@.len() <= u32::MAX,
    ensures
        final(out)@.len() == old(out)@.len(),
        final(out)@.subrange(base as int, base + 4 * group_starts(entries@).len() as int) == ptr_bytes(
            group_starts(entries@),
        ),
        forall|j: int|
            0 <= j < old(out)@.len() && !(base <= j < base + 4 * group_starts(entries@).len())
                ==> #[trigger] final(out)@[j] == old(out)@[j],
{
    let ghost total = group_starts(entries@).len();
    let n = entries.len();
    let out_len = out.len();
    let mut i: usize = 0;
    let mut pos: usize = base;
    proof {
        lemma_group_starts_prefix(entries@, 0);
    }
    while i < n
        invariant
            n == entries@.len(),
            12 * n <= u32::MAX,
            total == group_starts(entries@).len(),
            base + 4 * total <= out@.len(),
            out@.len() == out_len,
            out@.len() == old(out)@.len(),
            i <= n,
            group_starts(entries@.take(i as int)).len() <= total,
            pos == base + 4 * group_starts(entries@.take(i as int)).len(),
            forall|k: int|
                0 <= k < 4 * group_starts(entries@.take(i as int)).len() ==> #[trigger] out@[base + k]
                    == ptr_bytes(group_starts(entries@.take(i as int)))[k],
            forall|j: int|
                0 <= j < old(out)@.len() && !(base <= j < base + 4 * total) ==> #[trigger] out@[j]
                    == old(out)@[j],
        decreases n - i,
    {
        proof {
            lemma_group_starts_step(entries@, i as int);
            lemma_group_starts_prefix(entries@, i + 1);
        }
        if i == 0 || entries[i].hash != entries[i - 1].hash {
            let ghost g = group_starts(entries@.take(i as int));
            put_u32(out, pos, (i * 12) as u32);
            proof {
                let g2 = g.push(i as int);
                assert forall|k: int| 0 <= k < 4 * g2.len() implies #[trigger] out@[base + k]
                    == ptr_bytes(g2)[k] by {
                    if k < 4 * g.len() {
                        assert(g2[k / 4] == g[k / 4]);
                    } else {
                        assert(k / 4 == g.len());
                    }
                }
            }
            pos = pos + 4;
        }
        i = i + 1;
    }
    assert(entries@.take(n as int) =~= entries@);
    assert forall|k: int| 0 <= k < 4 * total implies out@.subrange(base as int, base + 4 * total)[k] == ptr_bytes(group_starts(entries@))[k] by {
        assert(out@[base + k] == ptr_bytes(group_starts(entries@.take(n as int)))[k]);
    }
    assert(out@.subrange(base as int, base + 4 * total) =~= ptr_bytes(group_starts(entries@)));
}

/// The group starts of a prefix are at most those of the whole.
proof fn lemma_group_starts_prefix(s: Seq<HashEntry>, i: int)
    requires
        0 <= i <= s.len(),
    ensures
        group_starts(s.take(i)).len() <= group_starts(s).len(),
        group_starts(s).len() <= s.len(),
    decreases s.len() - i,
{
    if i < s.len() {
        lemma_group_starts_step(s, i);
        lemma_group_starts_prefix(s, i + 1);
    } else {
        assert(s.take(i) =~= s);
        lemma_group_starts_len(s);
    }
}

/// There are no more group starts than entries.
pub(crate) proof fn lemma_group_starts_len(s: Seq<HashEntry>)
    ensures
        group_starts(s).len() <= s.len(),
    decreases s.len(),
{
    if s.len() > 0 {
        lemma_group_starts_len(s.drop_last());
    }
}

/// Builds a new name table, for the GSI/PSI: names are added with their symbol offsets, then the
/// table is prepared (sorted and measured) and encoded.
pub struct NameTableBuilder {
    num_buckets: usize,
    hash_records: Vec<HashEntry>,
}

impl NameTableBuilder {
    /// There is at least one bucket, and every hash falls in a bucket.
    #[verifier::type_invariant]
    spec fn builder_inv(self) -> bool {
        &&& self.num_buckets > 0
        &&& forall|i: int|
            0 <= i < self.hash_records@.len() ==> (#[trigger] self.hash_records@[i]).hash
                < self.num_buckets
    }

    /// The entries added so far (sorted once the table is prepared).
    pub closed spec fn entries(&self) -> Seq<HashEntry> {
        self.hash_records@
    }

    /// The number of hash buckets.
    pub closed spec fn bucket_count(&self) -> nat {
        self.num_buckets as nat
    }

    /// Starts building a new name table. Specify the number of hash buckets to use.
    pub fn new(num_buckets: usize) -> (b: Self)
        requires
            num_buckets > 0,
        ensures
            b.entries() == Seq::<HashEntry>::empty(),
            b.bucket_count() == num_buckets,
    {
        Self { num_buckets, hash_records: Vec::new() }
    }

    /// The number of hash buckets.
    pub fn num_buckets(&self) -> (n: usize)
        ensures
            n == self.bucket_count(),
    {
        self.num_buckets
    }

    /// The number of names inserted into this builder.
    pub fn num_names(&self) -> (n: usize)
        ensures
            n == self.entries().len(),
    {
        self.hash_records.len()
    }

    /// Adds a new entry, given the hash of its name (already reduced modulo `num_buckets()`)
    /// and its symbol offset.
    pub fn push_hash(&mut self, hash: u32, symbol_offset: i32)
        requires
            hash < old(self).bucket_count(),
        ensures
            final(self).entries() == old(self).entries().push(HashEntry { hash, symbol_offset }),
            final(self).bucket_count() == old(self).bucket_count(),
    {
        proof {
            use_type_invariant(&*self);
        }
        let mut v: Vec<HashEntry> = Vec::new();
        std::mem::swap(&mut v, &mut self.hash_records);
        v.push(HashEntry { hash, symbol_offset });
        self.hash_records = v;
    }

    /// Hashes a name and adds it to the table. The contents of the name are not retained.
    pub fn push(&mut self, name: &[u8], symbol_offset: i32)
        requires
            (old(self).bucket_count() as int) % 0x1_0000_0000 != 0,
        ensures
            final(self).entries() == old(self).entries().push(
                HashEntry {
                    hash: spec_hash(name@) % (old(self).bucket_count() as u32),
                    symbol_offset,
                },
            ),
            final(self).bucket_count() == old(self).bucket_count(),
    {
        proof {
            use_type_invariant(&*self);
        }
        let nb = self.num_buckets;
        let m = nb as u32;
        assert(m == (nb as int) % 0x1_0000_0000) by (bit_vector)
            requires
                m == nb as u32,
        ;
        let name_hash = hash_mod_u32(name, m);
        self.push_hash(name_hash, symbol_offset);
    }

    /// Sorts the entries and computes the number of non-empty hash buckets and the total size of
    /// the Name Table in bytes.
    pub fn prepare(&mut self) -> (info: NameTableInfo)
        requires
            old(self).bucket_count() <= usize::MAX - 32,
            table_size(
                old(self).entries().len() as int,
                old(self).bucket_count() as int,
                old(self).entries().len() as int,
            ) <= usize::MAX,
        ensures
            entries_sorted(final(self).entries()),
            final(self).entries().to_multiset() == old(self).entries().to_multiset(),
            final(self).entries().len() == old(self).entries().len(),
            final(self).bucket_count() == old(self).bucket_count(),
            info.num_buckets == final(self).bucket_count(),
            info.num_nonempty_buckets == group_starts(final(self).entries()).len(),
            info.table_size_bytes == table_size(
                final(self).entries().len() as int,
                final(self).bucket_count() as int,
                info.num_nonempty_buckets as int,
            ),
            forall|i: int|
                0 <= i < final(self).entries().len() ==> (#[trigger] final(self).entries()[i]).hash
                    < final(self).bucket_count(),
    {
        proof {
            use_type_invariant(&*self);
        }
        let ghost before = self.hash_records@;
        let mut v: Vec<HashEntry> = Vec::new();
        std::mem::swap(&mut v, &mut self.hash_records);
        sort_hash_records(v.as_mut_slice());
        proof {
            before.to_multiset_ensures();
            v@.to_multiset_ensures();
            assert forall|i: int| 0 <= i < v@.len() implies (#[trigger] v@[i]).hash < self.num_buckets by {
                assert(v@.contains(v@[i]));
                assert(v@.to_multiset().count(v@[i]) > 0);
                assert(before.contains(v@[i]));
            }
        }
        self.hash_records = v;
        let num_nonempty_buckets = count_nonempty_buckets(self.hash_records.as_slice());
        proof {
            lemma_group_starts_len(self.hash_records@);
        }
        let table_size_bytes = compute_hash_table_size_bytes(
            self.hash_records.len(),
            self.num_buckets,
            num_nonempty_buckets,
        );
        NameTableInfo { num_buckets: self.num_buckets, num_nonempty_buckets, table_size_bytes }
    }

    /// Writes the header, the hash records and the buckets to `output`, whose size must be the
    /// size computed by `prepare`.
    pub fn encode(&self, prepared_info: &NameTableInfo, output: &mut [u8])
        requires
            entries_sorted(self.entries()),
            prepared_info.num_nonempty_buckets == group_starts(self.entries()).len(),
            old(output)@.len() == table_size(
                self.entries().len() as int,
                self.bucket_count() as int,
                prepared_info.num_nonempty_buckets as int,
            ),
            self.bucket_count() <= usize::MAX - 64,
            12 * self.entries().len() <= u32::MAX,
            bitmap_len(self.bucket_count() as int) + 4 * prepared_info.num_nonempty_buckets <= u32::MAX,
        ensures
            is_encoded_name_table(final(output)@, self.entries(), self.bucket_count() as int),
            forall|i: int|
                0 <= i < self.entries().len() ==> (#[trigger] self.entries()[i]).hash
                    < self.bucket_count(),
    {
        proof {
            use_type_invariant(self);
        }
        let ghost e = self.hash_records@;
        let n = self.hash_records.len();
        let k = prepared_info.num_nonempty_buckets;
        let bm = nonempty_bitmap_size_bytes(self.num_buckets);
        let len = output.len();
        write_header(output, n, self.num_buckets, k);
        let ghost o1 = output@;
        write_records(output, self.hash_records.as_slice());
        let ghost o2 = output@;
        write_bitmap(output, 16 + 8 * n, bm, self.hash_records.as_slice());
        let ghost o3 = output@;
        write_ptrs(output, 16 + 8 * n + bm, self.hash_records.as_slice());
        proof {
            let o = output@;
            let b0 = 16 + 8 * n;
            let b1 = b0 + bm;
            assert(o.subrange(0, 16) =~= o1.subrange(0, 16));
            assert(o.subrange(16, b0 as int) =~= o2.subrange(16, b0 as int));
            assert(o.subrange(b0 as int, b1 as int) =~= o3.subrange(b0 as int, b1 as int));
            assert(o.subrange(b1 as int, len as int) =~= o.subrange(b1 as int, b1 + 4 * k));
        }
    }
}

/// The number of entries whose hash is below `b`. For sorted entries, these are the first
/// `count_below(s, b)` entries, and bucket `b` holds the entries from `count_below(s, b)` up to
/// `count_below(s, b + 1)`.
pub open spec fn count_below(s: Seq<HashEntry>, b: int) -> int
    decreases s.len(),
{
    if s.len() == 0 {
        0
    } else {
        count_below(s.drop_last(), b) + if s.last().hash < b {
            1int
        } else {
            0int
        }
    }
}

/// The hash records that encode the entries `s`.
pub open spec fn records_of(s: Seq<HashEntry>) -> Seq<HashRecord> {
    s.map_values(|e: HashEntry| HashRecord { offset: e.symbol_offset, c_ref: 1 })
}

/// The end of run `k` of entries with the same hash.
pub open spec fn group_end(s: Seq<HashEntry>, k: int) -> int {
    if k + 1 < group_starts(s).len() {
        group_starts(s)[k + 1]
    } else {
        s.len() as int
    }
}

/// Whether entry `i` lies within one of the runs of entries with the same hash.
pub open spec fn in_some_run(s: Seq<HashEntry>, i: int) -> bool {
    exists|k: int| 0 <= k < group_starts(s).len() && #[trigger] group_starts(s)[k] <= i < group_end(s, k)
}

/// The structure of the runs of sorted entries: their starts increase from 0, and all entries
/// of a run have the hash of its first entry, which increases from run to run.
proof fn lemma_groups(s: Seq<HashEntry>)
    requires
        entries_sorted(s),
    ensures
        ({
            let g = group_starts(s);
            &&& g.len() <= s.len()
            &&& (s.len() > 0 <==> g.len() > 0)
            &&& g.len() > 0 ==> g[0] == 0
            &&& forall|k: int| 0 <= k < g.len() ==> 0 <= #[trigger] g[k] < s.len()
            &&& forall|k: int, l: int| 0 <= k < l < g.len() ==> #[trigger] g[k] < #[trigger] g[l]
            &&& forall|k: int, l: int|
                0 <= k < l < g.len() ==> s[#[trigger] g[k]].hash < s[#[trigger] g[l]].hash
            &&& forall|k: int, i: int|
                0 <= k < g.len() && g[k] <= i < group_end(s, k) ==> #[trigger] s[i].hash == s[#[trigger] g[k]].hash
            &&& forall|i: int| 0 <= i < s.len() ==> #[trigger] in_some_run(s, i)
        }),
    decreases s.len(),
{
    if s.len() > 0 {
        let t = s.drop_last();
        assert(entries_sorted(t)) by {
            assert forall|i: int, j: int| 0 <= i <= j < t.len() implies entry_le(#[trigger] t[i], #[trigger] t[j]) by {
                assert(t[i] == s[i] && t[j] == s[j]);
            }
        }
        lemma_groups(t);
        let g = group_starts(t);
        let n = s.len() - 1;
        if is_group_start(s, n) {
            let g2 = g.push(n);
            assert(group_starts(s) == g2);
            if n > 0 {
                assert(entry_le(s[n - 1], s[n]));
                assert forall|k: int| 0 <= k < g.len() implies s[#[trigger] g2[k]].hash < s[n].hash by {
                    assert(g[k] <= n - 1);
                    assert(entry_le(s[g[k]], s[n - 1]));
                    assert(t[g[k]] == s[g[k]]);
                }
            }
            assert forall|k: int, i: int|
                0 <= k < g2.len() && g2[k] <= i < group_end(s, k) implies #[trigger] s[i].hash == s[#[trigger] g2[k]].hash by {
                if k < g.len() {
                    assert(group_end(s, k) == group_end(t, k));
                    assert(t[i] == s[i]);
                    assert(t[g[k]] == s[g[k]]);
                }
            }
            assert forall|i: int| 0 <= i < s.len() implies #[trigger] in_some_run(s, i) by {
                if i == n {
                    assert(g2[g.len() as int] <= i < group_end(s, g.len() as int));
                } else {
                    assert(in_some_run(t, i));
                    let k = choose|k: int| 0 <= k < g.len() && #[trigger] g[k] <= i < group_end(t, k);
                    assert(group_end(s, k) == group_end(t, k));
                    assert(g2[k] <= i < group_end(s, k));
                }
            }
        } else {
            assert(group_starts(s) == g);
            assert forall|k: int, i: int|
                0 <= k < g.len() && g[k] <= i < group_end(s, k) implies #[trigger] s[i].hash == s[#[trigger] g[k]].hash by {
                assert(t[g[k]] == s[g[k]]);
                if i < n {
                    assert(group_end(t, k) == if k + 1 < g.len() { g[k + 1] } else { n });
                    assert(t[i] == s[i]);
                } else {
                    assert(k == g.len() - 1);
                    assert(g[k] <= n - 1);
                    assert(t[n - 1] == s[n - 1]);
                }
            }
            assert forall|k: int, l: int|
                0 <= k < l < g.len() implies s[#[trigger] g[k]].hash < s[#[trigger] g[l]].hash by {
                assert(t[g[k]] == s[g[k]]);
                assert(t[g[l]] == s[g[l]]);
            }
            assert forall|i: int| 0 <= i < s.len() implies #[trigger] in_some_run(s, i) by {
                if i == n {
                    let k = (g.len() - 1) as int;
                    assert(g[k] <= i < group_end(s, k));
                } else {
                    assert(in_some_run(t, i));
                    let k = choose|k: int| 0 <= k < g.len() && #[trigger] g[k] <= i < group_end(t, k);
                    assert(g[k] <= i < group_end(s, k));
                }
            }
        }
    }
}

/// For sorted entries, the entries with a hash below `b` are the first `count_below(s, b)`.
proof fn lemma_count_below_sorted(s: Seq<HashEntry>, b: int)
    requires
        entries_sorted(s),
    ensures
        0 <= count_below(s, b) <= s.len(),
        forall|i: int| 0 <= i < s.len() ==> (#[trigger] s[i].hash < b <==> i < count_below(s, b)),
    decreases s.len(),
{
    if s.len() > 0 {
        let t = s.drop_last();
        assert(entries_sorted(t)) by {
            assert forall|i: int, j: int| 0 <= i <= j < t.len() implies entry_le(#[trigger] t[i], #[trigger] t[j]) by {
                assert(t[i] == s[i] && t[j] == s[j]);
            }
        }
        lemma_count_below_sorted(t, b);
        assert forall|i: int| 0 <= i < s.len() implies (#[trigger] s[i].hash < b <==> i < count_below(s, b)) by {
            if i < s.len() - 1 {
                assert(t[i] == s[i]);
                assert(entry_le(s[i], s.last()));
            } else {
                if s.last().hash >= b && count_below(t, b) > 0 {
                    let j = count_below(t, b) - 1;
                    assert(t[j] == s[j]);
                    assert(entry_le(s[j], s.last()));
                }
            }
        }
    }
}

/// The number of runs whose hash is below `m`, by counting the bitmap of an encoded table:
/// `count_set` over the bitmap counts the hashes that occur.
proof fn lemma_count_set_groups(bitmap: Seq<u8>, s: Seq<HashEntry>, m: int, bm: int)
    requires
        entries_sorted(s),
        0 <= m <= 8 * bm,
        forall|k: int| 0 <= k < 8 * bm ==> (#[trigger] bit_of(bitmap, k) <==> hash_present(s, k)),
    ensures
        0 <= count_set(bitmap, m) <= group_starts(s).len(),
        forall|k: int|
            0 <= k < group_starts(s).len() ==> (s[#[trigger] group_starts(s)[k]].hash < m <==> k
                < count_set(bitmap, m)),
    decreases m,
{
    lemma_groups(s);
    let g = group_starts(s);
    if m > 0 {
        lemma_count_set_groups(bitmap, s, m - 1, bm);
        let c = count_set(bitmap, m - 1);
        if bit_of(bitmap, m - 1) {
            let i = choose|i: int| 0 <= i < s.len() && s[i].hash == m - 1;
            assert(in_some_run(s, i));
            let k0 = choose|k: int| 0 <= k < g.len() && #[trigger] g[k] <= i < group_end(s, k);
            assert(s[i].hash == s[g[k0]].hash);
            assert(k0 >= c);
            if k0 > c {
                assert(s[g[c]].hash < s[g[k0]].hash);
            }
            assert(k0 == c);
            assert forall|k: int| 0 <= k < g.len() implies (s[#[trigger] g[k]].hash < m <==> k < count_set(bitmap, m)) by {
                if k > c {
                    assert(s[g[c]].hash < s[g[k]].hash);
                }
            }
        } else {
            assert forall|k: int| 0 <= k < g.len() implies (s[#[trigger] g[k]].hash < m <==> k < count_set(bitmap, m)) by {
                if s[g[k]].hash == m - 1 {
                    assert(hash_present(s, m - 1));
                }
            }
        }
    }
}

/// Decoding the first four bytes as a `u32` only looks at those bytes.
proof fn lemma_le_u32_same(a: Seq<u8>, b: Seq<u8>)
    requires
        a.len() >= 4,
        b.len() >= 4,
        a[0] == b[0],
        a[1] == b[1],
        a[2] == b[2],
        a[3] == b[3],
    ensures
        le_u32(a) == le_u32(b),
{
}

/// Casting a 32-bit signed value to unsigned and back gives it back.
proof fn lemma_i32_u32_roundtrip(x: i32)
    by (bit_vector)
    ensures
        (x as u32) as i32 == x,
{
}

/// A `u32` below 2^31 keeps its value as an `i32`.
proof fn lemma_small_u32_as_i32(x: u32)
    by (bit_vector)
    requires
        x < 0x8000_0000,
    ensures
        x as i32 == x,
{
}

/// The value encoded at `at` in `bytes` is `v`, when those four bytes are `le_bytes_u32(v)`.
proof fn lemma_read_encoded(bytes: Seq<u8>, at: int, v: u32)
    requires
        0 <= at,
        at + 4 <= bytes.len(),
        forall|j: int| 0 <= j < 4 ==> bytes[at + j] == #[trigger] le_bytes_u32(v)[j],
    ensures
        le_u32(bytes.skip(at)) == v,
{
    crate::le::lemma_u32_roundtrip(v);
    let a = bytes.skip(at);
    assert(a[0] == le_bytes_u32(v)[0]);
    assert(a[1] == le_bytes_u32(v)[1]);
    assert(a[2] == le_bytes_u32(v)[2]);
    assert(a[3] == le_bytes_u32(v)[3]);
    lemma_le_u32_same(a, le_bytes_u32(v));
}

/// For sorted entries, the start of the first run whose hash is not below `b` is the number of
/// entries below `b`; when there is no such run, every entry is below `b`.
proof fn lemma_run_start_is_count_below(s: Seq<HashEntry>, b: int, c: int)
    requires
        entries_sorted(s),
        0 <= c <= group_starts(s).len(),
        forall|k: int|
            0 <= k < group_starts(s).len() ==> (s[#[trigger] group_starts(s)[k]].hash < b <==> k < c),
    ensures
        count_below(s, b) == if c < group_starts(s).len() {
            group_starts(s)[c]
        } else {
            s.len() as int
        },
{
    lemma_groups(s);
    lemma_count_below_sorted(s, b);
    let g = group_starts(s);
    let p = if c < g.len() {
        g[c]
    } else {
        s.len() as int
    };
    assert forall|i: int| 0 <= i < s.len() implies (s[i].hash < b <==> i < p) by {
        assert(in_some_run(s, i));
        let k = choose|k: int| 0 <= k < g.len() && #[trigger] g[k] <= i < group_end(s, k);
        assert(s[i].hash == s[g[k]].hash);
        if k < c {
            if c < g.len() {
                assert(g[k] < g[c]);
                if i >= g[c] {
                    if k + 1 < g.len() {
                        assert(g[k + 1] <= g[c]);
                    }
                }
            }
        } else {
            if c < g.len() {
                if k > c {
                    assert(g[c] < g[k]);
                }
            }
        }
    }
    let q = count_below(s, b);
    if q < p {
        assert(s[q].hash < b);
    } else if q > p {
        assert(s[p].hash < b);
    }
}

/// The header of an encoded table holds the signature, the version and the sizes.
proof fn lemma_encoded_header(bytes: Seq<u8>, n: int, num_buckets: int, kk: int)
    requires
        bytes.len() >= 16,
        bytes.subrange(0, 16) == header_bytes(n, num_buckets, kk),
        0 <= 8 * n <= u32::MAX,
        0 <= bitmap_len(num_buckets) + 4 * kk <= u32::MAX,
    ensures
        le_u32(bytes) == GSI_HASH_HEADER_SIGNATURE,
        le_u32(bytes.skip(4)) == GSI_HASH_HEADER_VERSION,
        le_u32(bytes.skip(8)) == 8 * n,
        le_u32(bytes.skip(12)) == bitmap_len(num_buckets) + 4 * kk,
{
    let bm = bitmap_len(num_buckets);
    let a = le_bytes_u32(GSI_HASH_HEADER_SIGNATURE);
    let b = le_bytes_u32(GSI_HASH_HEADER_VERSION);
    let c = le_bytes_u32((8 * n) as u32);
    let d = le_bytes_u32((bm + 4 * kk) as u32);
    let hb = header_bytes(n, num_buckets, kk);
    assert(hb == a + b + c + d);
    assert forall|j: int| 0 <= j < 4 implies bytes[j] == #[trigger] a[j] by {
        assert(bytes.subrange(0, 16)[j] == bytes[j]);
    }
    assert forall|j: int| 0 <= j < 4 implies bytes[4 + j] == #[trigger] b[j] by {
        assert(bytes.subrange(0, 16)[4 + j] == bytes[4 + j]);
    }
    assert forall|j: int| 0 <= j < 4 implies bytes[8 + j] == #[trigger] c[j] by {
        assert(bytes.subrange(0, 16)[8 + j] == bytes[8 + j]);
    }
    assert forall|j: int| 0 <= j < 4 implies bytes[12 + j] == #[trigger] d[j] by {
        assert(bytes.subrange(0, 16)[12 + j] == bytes[12 + j]);
    }
    lemma_read_encoded(bytes, 0, GSI_HASH_HEADER_SIGNATURE);
    lemma_read_encoded(bytes, 4, GSI_HASH_HEADER_VERSION);
    lemma_read_encoded(bytes, 8, (8 * n) as u32);
    lemma_read_encoded(bytes, 12, (bm + 4 * kk) as u32);
    assert(bytes.skip(0) =~= bytes);
}

/// The hash records of an encoded table decode to the entries' symbol offsets.
proof fn lemma_encoded_records(bytes: Seq<u8>, s: Seq<HashEntry>, num_buckets: int)
    requires
        is_encoded_name_table(bytes, s, num_buckets),
        num_buckets >= 0,
    ensures
        decode_hash_records(bytes.skip(16), s.len() as int) == records_of(s),
{
    let n = s.len() as int;
    let recs = decode_hash_records(bytes.skip(16), n);
    assert forall|i: int| 0 <= i < n implies #[trigger] recs[i] == records_of(s)[i] by {
        assert forall|j: int| 0 <= j < 4 implies bytes[16 + 8 * i + j] == #[trigger] le_bytes_u32(s[i].symbol_offset as u32)[j] by {
            assert(bytes.subrange(16, 16 + 8 * n)[8 * i + j] == bytes[16 + 8 * i + j]);
            assert((8 * i + j) / 8 == i);
        }
        assert forall|j: int| 0 <= j < 4 implies bytes[16 + 8 * i + 4 + j] == #[trigger] le_bytes_u32(1u32)[j] by {
            assert(bytes.subrange(16, 16 + 8 * n)[8 * i + 4 + j] == bytes[16 + 8 * i + 4 + j]);
            assert((8 * i + 4 + j) / 8 == i);
        }
        lemma_read_encoded(bytes, 16 + 8 * i, s[i].symbol_offset as u32);
        lemma_read_encoded(bytes, 16 + 8 * i + 4, 1u32);
        assert(bytes.skip(16).skip(8 * i) =~= bytes.skip(16 + 8 * i));
        assert(bytes.skip(16).skip(8 * i + 4) =~= bytes.skip(16 + 8 * i + 4));
        lemma_i32_u32_roundtrip(s[i].symbol_offset);
        lemma_small_u32_as_i32(1u32);
    }
    assert(recs =~= records_of(s));
}

/// The bucket pointers of an encoded table are 12 times the run starts.
proof fn lemma_encoded_ptrs(bytes: Seq<u8>, s: Seq<HashEntry>, num_buckets: int)
    requires
        is_encoded_name_table(bytes, s, num_buckets),
        entries_sorted(s),
        num_buckets >= 0,
        12 * s.len() < 0x8000_0000,
    ensures
        forall|k: int|
            0 <= k < group_starts(s).len() ==> #[trigger] bucket_ptr(
                bytes.subrange(16 + 8 * s.len() as int, bytes.len() as int),
                bitmap_len(num_buckets),
                k,
            ) as int == 12 * group_starts(s)[k],
{
    lemma_groups(s);
    let n = s.len() as int;
    let g = group_starts(s);
    let bm = bitmap_len(num_buckets);
    let region = bytes.subrange(16 + 8 * n, bytes.len() as int);
    assert forall|k: int| 0 <= k < g.len() implies #[trigger] bucket_ptr(region, bm, k) as int == 12 * g[k] by {
        assert forall|j: int| 0 <= j < 4 implies region[bm + 4 * k + j] == #[trigger] le_bytes_u32((g[k] * 12) as u32)[j] by {
            assert(region[bm + 4 * k + j] == bytes[16 + 8 * n + bm + 4 * k + j]);
            assert(bytes.subrange(16 + 8 * n + bm, bytes.len() as int)[4 * k + j] == bytes[16 + 8 * n + bm + 4 * k + j]);
            assert((4 * k + j) / 4 == k);
        }
        lemma_read_encoded(region, bm + 4 * k, (g[k] * 12) as u32);
        lemma_small_u32_as_i32((g[k] * 12) as u32);
    }
}

/// The bitmap of an encoded table has the bits of the hashes that occur.
proof fn lemma_encoded_bits(bytes: Seq<u8>, s: Seq<HashEntry>, num_buckets: int)
    requires
        is_encoded_name_table(bytes, s, num_buckets),
        num_buckets >= 0,
    ensures
        forall|k: int|
            0 <= k < 8 * bitmap_len(num_buckets) ==> (#[trigger] bit_of(
                bytes.subrange(16 + 8 * s.len() as int, bytes.len() as int),
                k,
            ) <==> hash_present(s, k)),
{
    let n = s.len() as int;
    let bm = bitmap_len(num_buckets);
    let region = bytes.subrange(16 + 8 * n, bytes.len() as int);
    let bitmap = bytes.subrange(16 + 8 * n, 16 + 8 * n + bm);
    assert forall|k: int| 0 <= k < 8 * bm implies (#[trigger] bit_of(region, k) <==> hash_present(s, k)) by {
        assert(region[k / 8] == bitmap[k / 8]);
        assert(bit_of(bitmap, k) <==> hash_present(s, k));
    }
}

/// The pointers of the runs of sorted entries are valid.
proof fn lemma_run_ptrs_valid(region: Seq<u8>, s: Seq<HashEntry>, bm: int)
    requires
        entries_sorted(s),
        forall|k: int|
            0 <= k < group_starts(s).len() ==> #[trigger] bucket_ptr(region, bm, k) as int == 12
                * group_starts(s)[k],
    ensures
        bucket_ptrs_valid(region, bm, group_starts(s).len() as int, s.len() as int),
{
    lemma_groups(s);
    let g = group_starts(s);
    assert forall|k: int| 0 <= k < g.len() implies #[trigger] bucket_ptr_ok(region, bm, k, s.len() as int) by {
        assert(bucket_ptr(region, bm, k) as int == 12 * g[k]);
        if k > 0 {
            assert(bucket_ptr(region, bm, k - 1) as int == 12 * g[k - 1]);
            assert(g[k - 1] < g[k]);
        }
    }
}

/// The buckets of an encoded table decode to the starts of the buckets of its entries.
proof fn lemma_expand_encoded(region: Seq<u8>, s: Seq<HashEntry>, num_buckets: int)
    requires
        entries_sorted(s),
        forall|i: int| 0 <= i < s.len() ==> (#[trigger] s[i]).hash < num_buckets,
        0 < num_buckets < u32::MAX,
        region.len() == bitmap_len(num_buckets) + 4 * group_starts(s).len(),
        forall|k: int|
            0 <= k < 8 * bitmap_len(num_buckets) ==> (#[trigger] bit_of(region, k) <==> hash_present(s, k)),
        forall|k: int|
            0 <= k < group_starts(s).len() ==> #[trigger] bucket_ptr(region, bitmap_len(num_buckets), k) as int
                == 12 * group_starts(s)[k],
    ensures
        expand_buckets_spec(region, num_buckets, s.len() as int) == Ok::<Seq<u32>, NameTableError>(
            Seq::new((num_buckets + 1) as nat, |b: int| count_below(s, b) as u32),
        ),
{
    let n = s.len() as int;
    let g = group_starts(s);
    let kk = g.len() as int;
    let bm = bitmap_len(num_buckets);
    lemma_groups(s);
    lemma_count_set_groups(region, s, num_buckets, bm);
    lemma_count_set_groups(region, s, 8 * bm, bm);
    lemma_count_set_monotone(region, 0, num_buckets);
    if kk > 0 {
        assert(s[g[kk - 1]].hash < num_buckets);
    }
    assert(count_set(region, num_buckets) == kk);
    assert(count_set(region, 8 * bm) == kk);
    lemma_run_ptrs_valid(region, s, bm);
    let buckets = expanded_buckets(region, num_buckets, n);
    assert forall|b: int| 0 <= b <= num_buckets implies #[trigger] buckets[b] == count_below(s, b) as u32 by {
        lemma_count_set_groups(region, s, b, bm);
        lemma_count_below_sorted(s, b);
        let c = count_set(region, b);
        lemma_run_start_is_count_below(s, b, c);
        if c < kk {
            assert(bucket_ptr(region, bm, c) as int == 12 * g[c]);
        }
    }
    assert(buckets =~= Seq::new((num_buckets + 1) as nat, |b: int| count_below(s, b) as u32));
}

/// Decoding an encoded name table gives back its records, and bucket `b` holds exactly the
/// entries whose hash is `b`: the buckets start at `count_below(s, b)`.
pub proof fn lemma_decode_encoded_table(bytes: Seq<u8>, s: Seq<HashEntry>, num_buckets: int)
    requires
        is_encoded_name_table(bytes, s, num_buckets),
        entries_sorted(s),
        forall|i: int| 0 <= i < s.len() ==> (#[trigger] s[i]).hash < num_buckets,
        0 < num_buckets < u32::MAX,
        12 * s.len() < 0x8000_0000,
        bitmap_len(num_buckets) + 4 * group_starts(s).len() <= u32::MAX,
    ensures
        parse_name_table(num_buckets, bytes) matches Ok((buckets, records)) && records == records_of(s)
            && buckets.len() == num_buckets + 1 && (forall|b: int|
            0 <= b <= num_buckets ==> #[trigger] buckets[b] == count_below(s, b)) && (forall|
            b: int,
            i: int,
        |
            0 <= b < num_buckets && 0 <= i < s.len() ==> (#[trigger] buckets[b] <= i < buckets[b + 1]
                <==> #[trigger] s[i].hash == b)),
{
    let n = s.len() as int;
    let kk = group_starts(s).len() as int;
    let bm = bitmap_len(num_buckets);
    lemma_encoded_header(bytes, n, num_buckets, kk);
    lemma_encoded_records(bytes, s, num_buckets);
    lemma_encoded_bits(bytes, s, num_buckets);
    lemma_encoded_ptrs(bytes, s, num_buckets);
    let region = bytes.subrange(16 + 8 * n, bytes.len() as int);
    lemma_expand_encoded(region, s, num_buckets);
    assert(bytes.subrange(16 + 8 * n, 16 + 8 * n + (bm + 4 * kk)) =~= region);
    assert((8 * n) / 8 == n);
    let buckets = Seq::new((num_buckets + 1) as nat, |b: int| count_below(s, b) as u32);
    assert forall|b: int| 0 <= b <= num_buckets implies #[trigger] buckets[b] == count_below(s, b) by {
        lemma_count_below_sorted(s, b);
    }
    assert forall|b: int, i: int| 0 <= b < num_buckets && 0 <= i < s.len() implies (#[trigger] buckets[b] <= i < buckets[b + 1] <==> #[trigger] s[i].hash == b) by {
        lemma_count_below_sorted(s, b);
        lemma_count_below_sorted(s, b + 1);
    }
}

/// A name that was added to a table is found again in the bucket that its hash selects: when
/// entry `i` was made from `name`, decoding the encoded table gives a bucket for that hash whose
/// records include record `i`, which holds the entry's symbol offset.
#[verifier::spinoff_prover]
pub proof fn lemma_name_found_in_its_bucket(
    bytes: Seq<u8>,
    s: Seq<HashEntry>,
    num_buckets: int,
    name: Seq<u8>,
    i: int,
)
    requires
        is_encoded_name_table(bytes, s, num_buckets),
        entries_sorted(s),
        forall|j: int| 0 <= j < s.len() ==> (#[trigger] s[j]).hash < num_buckets,
        0 < num_buckets < u32::MAX,
        12 * s.len() < 0x8000_0000,
        bitmap_len(num_buckets) + 4 * group_starts(s).len() <= u32::MAX,
        0 <= i < s.len(),
        s[i].hash == spec_hash(name) % (num_buckets as u32),
    ensures
        parse_name_table(num_buckets, bytes) matches Ok((buckets, records)) && ({
            let h = (spec_hash(name) % (num_buckets as u32)) as int;
            &&& buckets[h] <= i < buckets[h + 1]
            &&& records.subrange(buckets[h] as int, buckets[h + 1] as int)[i - buckets[h]]
                == HashRecord { offset: s[i].symbol_offset, c_ref: 1 }
        }),
{
    lemma_decode_encoded_table(bytes, s, num_buckets);
    let h = (spec_hash(name) % (num_buckets as u32)) as int;
    assert(0 <= h < num_buckets);
    lemma_count_below_sorted(s, h + 1);
    let (buckets, records) = parse_name_table(num_buckets, bytes)->Ok_0;
    assert(buckets[h] <= i < buckets[h + 1]);
    assert(buckets[h + 1] <= records.len());
    assert(records[i] == HashRecord { offset: s[i].symbol_offset, c_ref: 1 });
}

} // verus!
