use mspdb::globals::name_table::{
    compute_hash_table_size_bytes, count_nonempty_buckets, get_v1_default_bucket,
    nonempty_bitmap_size_bytes, sort_hash_records, HashEntry, NameTable, NameTableBuilder,
    NameTableError,
};
use mspdb::hash::hash_mod_u32;

fn test_names(names: &[String]) -> NameTable {
    let num_buckets = 0x1000;

    let mut builder = NameTableBuilder::new(num_buckets);

    for (i, name) in names.iter().enumerate() {
        let symbol_offset = i as i32 + 1;
        builder.push(name.as_bytes(), symbol_offset);
    }

    // Add two entries that test our requirements during decoding.
    builder.push(b"bad_symbol_zero_offset", 0);
    builder.push(b"bad_symbol_negative_offset", -1);

    let prepared_info = builder.prepare();

    let mut encoded_bytes = vec![0u8; prepared_info.table_size_bytes];
    builder.encode(&prepared_info, &mut encoded_bytes);

    // Decode the table.
    let rt_table = match NameTable::parse(num_buckets, 0, &encoded_bytes) {
        Ok(t) => t,
        Err(e) => panic!("Expected table to decode successfully: {e:?}"),
    };

    // Make sure that all of the names can be found in the table.
    for name in names.iter() {
        let bucket = rt_table.hash_records_for_name(name.as_bytes());

        let mut num_found: u32 = 0;
        for entry in bucket {
            let symbol_offset = entry.offset;
            assert!(symbol_offset > 0);
            assert!(symbol_offset as usize - 1 < names.len());
            if names[symbol_offset as usize - 1] == *name {
                num_found += 1;
            }
        }

        assert_eq!(
            num_found, 1,
            "expected to find {name:?} in the table exactly once"
        );
    }

    rt_table
}

#[test]
fn build_empty() {
    test_names(&[]);
}

#[test]
fn build_simple() {
    let names = vec![
        "achilles".to_string(),
        "castor".to_string(),
        "pollux".to_string(),
    ];
    test_names(&names);
}

#[test]
fn build_many() {
    let mut names: Vec<String> = Vec::new();
    for i in 0..100 {
        names.push(format!("name{i}"));
    }
    let table = test_names(&names);
    assert_eq!(table.hash_records().len(), 102);
    assert_eq!(table.hash_buckets().len(), 0x1001);
}

#[test]
fn bitmap_and_table_sizes() {
    assert_eq!(nonempty_bitmap_size_bytes(0x1000), 0x204);
    assert_eq!(nonempty_bitmap_size_bytes(31), 4);
    assert_eq!(nonempty_bitmap_size_bytes(32), 8);
    assert_eq!(compute_hash_table_size_bytes(3, 31, 2), 16 + 24 + 4 + 8);
    assert_eq!(get_v1_default_bucket(false), 0x1000);
    assert_eq!(get_v1_default_bucket(true), 0x3ffff);
}

#[test]
fn sorting_and_counting_buckets() {
    let mut entries = vec![
        HashEntry { hash: 5, symbol_offset: 9 },
        HashEntry { hash: 1, symbol_offset: 3 },
        HashEntry { hash: 5, symbol_offset: 2 },
        HashEntry { hash: 0, symbol_offset: 7 },
    ];
    sort_hash_records(&mut entries);
    assert_eq!(
        entries,
        vec![
            HashEntry { hash: 0, symbol_offset: 7 },
            HashEntry { hash: 1, symbol_offset: 3 },
            HashEntry { hash: 5, symbol_offset: 2 },
            HashEntry { hash: 5, symbol_offset: 9 },
        ]
    );
    assert_eq!(count_nonempty_buckets(&entries), 3);
}

#[test]
fn small_table_layout() {
    let mut builder = NameTableBuilder::new(8);
    builder.push_hash(3, 1);
    builder.push_hash(1, 2);
    builder.push_hash(3, 3);
    let info = builder.prepare();
    assert_eq!(info.num_nonempty_buckets, 2);
    // header + 3 records + 4-byte bitmap + 2 pointers
    assert_eq!(info.table_size_bytes, 16 + 24 + 4 + 8);
    let mut bytes = vec![0u8; info.table_size_bytes];
    builder.encode(&info, &mut bytes);
    assert_eq!(&bytes[0..4], &[0xff, 0xff, 0xff, 0xff]);
    assert_eq!(&bytes[8..12], &24u32.to_le_bytes());
    assert_eq!(&bytes[12..16], &12u32.to_le_bytes());
    // records: sorted by hash: (1, 2), (3, 1), (3, 3)
    assert_eq!(&bytes[16..24], &[2, 0, 0, 0, 1, 0, 0, 0]);
    // bitmap: buckets 1 and 3
    assert_eq!(&bytes[40..44], &[0b1010, 0, 0, 0]);
    // pointers: record 0 and record 1, times 12
    assert_eq!(&bytes[44..52], &[0, 0, 0, 0, 12, 0, 0, 0]);

    let table = NameTable::parse(8, 0, &bytes).unwrap();
    assert_eq!(table.hash_buckets(), &[0, 0, 1, 1, 3, 3, 3, 3, 3]);
    assert_eq!(table.hash_records_for_bucket(3).len(), 2);
    assert_eq!(table.hash_records_for_bucket(3)[0].offset, 1);
}

#[test]
fn parse_errors() {
    assert!(matches!(NameTable::parse(8, 0, &[0u8; 8]), Err(NameTableError::Truncated)));
    assert!(matches!(
        NameTable::parse(8, 0, &[0u8; 16]),
        Err(NameTableError::UnsupportedFormat)
    ));
    let mut bytes = vec![0xffu8, 0xff, 0xff, 0xff];
    bytes.extend_from_slice(&(0xeffe0000u32 + 19990810).to_le_bytes());
    bytes.extend_from_slice(&8u32.to_le_bytes());
    bytes.extend_from_slice(&8u32.to_le_bytes());
    bytes.extend_from_slice(&[1, 0, 0, 0, 1, 0, 0, 0]);
    // bitmap with bucket 0 set, then a pointer that is not a multiple of 12
    bytes.extend_from_slice(&[1, 0, 0, 0, 5, 0, 0, 0]);
    assert!(matches!(NameTable::parse(8, 0, &bytes), Err(NameTableError::BadBucketOffset)));
    assert!(matches!(NameTable::parse(8, 0, &bytes[..bytes.len() - 1]), Err(NameTableError::Truncated)));
}

#[test]
fn hash_is_case_insensitive_for_ascii() {
    assert_eq!(hash_mod_u32(b"Hello", 0x1000), hash_mod_u32(b"hello", 0x1000));
    assert!(hash_mod_u32(b"abc", 7) < 7);
}

#[test]
fn empty_table() {
    let t = NameTable::empty();
    assert_eq!(t.hash_buckets(), &[0]);
    assert!(t.hash_records_for_name(b"x").is_empty());
}
