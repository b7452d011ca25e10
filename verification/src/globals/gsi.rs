//! Global Symbol Index
//!
//! The Global Symbol Index (GSI) provides a name-to-symbol lookup table for the global symbols
//! that have a name. It holds a name table, and no address table.

use vstd::prelude::*;
use crate::globals::name_table::{
    bitmap_len, entries_sorted, is_encoded_name_table, lemma_group_starts_len, table_size,
    HashEntry, NameTableBuilder,
};

verus! {

/// Builds the Global Symbol Index (GSI) table from the hash records collected in
/// `sorted_hash_records`, which are sorted by this call.
pub fn build_gsi(sorted_hash_records: &mut NameTableBuilder) -> (stream_data: Vec<u8>)
    requires
        old(sorted_hash_records).bucket_count() <= usize::MAX - 64,
        12 * old(sorted_hash_records).entries().len() <= u32::MAX,
        bitmap_len(old(sorted_hash_records).bucket_count() as int) + 4 * old(
            sorted_hash_records,
        ).entries().len() <= u32::MAX,
        table_size(
            old(sorted_hash_records).entries().len() as int,
            old(sorted_hash_records).bucket_count() as int,
            old(sorted_hash_records).entries().len() as int,
        ) <= usize::MAX,
    ensures
        entries_sorted(final(sorted_hash_records).entries()),
        final(sorted_hash_records).entries().to_multiset() == old(
            sorted_hash_records,
        ).entries().to_multiset(),
        final(sorted_hash_records).bucket_count() == old(sorted_hash_records).bucket_count(),
        is_encoded_name_table(
            stream_data@,
            final(sorted_hash_records).entries(),
            final(sorted_hash_records).bucket_count() as int,
        ),
        stream_data@.len() % 4 == 0,
{
    let name_table_info = sorted_hash_records.prepare();
    proof {
        lemma_group_starts_len(sorted_hash_records.entries());
    }
    let mut stream_data: Vec<u8> = vec![0; name_table_info.table_size_bytes];
    sorted_hash_records.encode(&name_table_info, stream_data.as_mut_slice());
    proof {
        lemma_table_size_aligned(
            sorted_hash_records.entries().len() as int,
            sorted_hash_records.bucket_count() as int,
            name_table_info.num_nonempty_buckets as int,
        );
    }
    stream_data
}

/// A name table is a whole number of 4-byte words.
proof fn lemma_table_size_aligned(n: int, nb: int, k: int)
    ensures
        table_size(n, nb, k) % 4 == 0,
{
    let w = 4 + 2 * n + (nb + 1 + 31) / 32 + k;
    assert(table_size(n, nb, k) == w * 4);
    vstd::arithmetic::div_mod::lemma_mod_multiples_basic(w, 4);
}

} // verus!
