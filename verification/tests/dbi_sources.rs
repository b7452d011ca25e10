use mspdb::dbi::sources::DbiSourcesSubstream;

static TEST_SOURCES_DATA: &[u8] = &[
    4, 0, // num_modules = 4
    0xee, 0xee, // obsolete num_sources (bogus)
    0, 0, 2, 0, 3, 0, 3, 0, // module_file_starts = [0, 2, 3, 3]
    2, 0, 1, 0, 0, 0, 3, 0, // module_file_counts = [2, 1, 0, 3] sum = 6
    // file_offsets, len = 6 items, 24 bytes
    0x00, 0, 0, 0, // module 0, file_offsets[0] = 0x00, points to "foo.c",
    0x14, 0, 0, 0, // module 0, file_offsets[1] = 0x14, points to "windows.h"
    0x06, 0, 0, 0, // module 1, file_offsets[2] = 0x06, points to "bar.rs"
    0x00, 0, 0, 0, // module 3, file_offsets[3] = 0x00, points to "foo.c"
    0x14, 0, 0, 0, // module 3, file_offsets[4] = 0x14, points to "windows.h"
    0x0d, 0, 0, 0, // module 3, file_offsets[5] = 0x0d, points to "main.c"
    // names_buffer
    b'f', b'o', b'o', b'.', b'c', 0, b'b', b'a', b'r', b'.', b'r', b's', 0, b'm', b'a', b'i',
    b'n', b'.', b'c', 0, b'w', b'i', b'n', b'd', b'o', b'w', b's', b'.', b'h', 0, 0, 0,
];

#[test]
fn basic_parse() {
    let s = DbiSourcesSubstream::parse(TEST_SOURCES_DATA).unwrap();
    assert_eq!(s.num_modules(), 4);

    assert_eq!(s.file_name_offsets().len(), 6);
    assert_eq!(s.file_name_offsets(), &[0x00, 0x14, 0x06, 0x00, 0x14, 0x0d]);

    // Read the file names. Remember that there are duplicates in this list.
    assert_eq!(s.get_source_file_name(0).unwrap(), b"foo.c");
    assert_eq!(s.get_source_file_name(1).unwrap(), b"windows.h");
    assert_eq!(s.get_source_file_name(2).unwrap(), b"bar.rs");
    assert_eq!(s.get_source_file_name(3).unwrap(), b"foo.c");
    assert_eq!(s.get_source_file_name(4).unwrap(), b"windows.h");
    assert_eq!(s.get_source_file_name(5).unwrap(), b"main.c");

    let modsrcs0 = s.name_offsets_for_module(0).unwrap();
    assert_eq!(modsrcs0.len(), 2);
    assert_eq!(modsrcs0[0], 0);
    assert_eq!(modsrcs0[1], 0x14);

    // Test bounds check on get_source_file_name_at()
    assert!(s.get_source_file_name_at(0xeeee).is_err());
}

#[test]
fn test_iter_sources() {
    let s = DbiSourcesSubstream::parse(TEST_SOURCES_DATA).unwrap();

    let mut sources: Vec<(u32, &str)> = Vec::new();
    let mut it = s.iter_sources();
    while let Some((i, name)) = it.next() {
        sources.push((i, std::str::from_utf8(name).unwrap()));
    }

    assert_eq!(
        &sources,
        &[
            (0x00, "foo.c"),
            (0x14, "windows.h"),
            (0x06, "bar.rs"),
            (0x00, "foo.c"),
            (0x14, "windows.h"),
            (0x0d, "main.c"),
        ]
    );
}

#[test]
fn test_sources_map() {
    let s = DbiSourcesSubstream::parse(TEST_SOURCES_DATA).unwrap();
    let map = s.sources_map().unwrap();
    assert_eq!(map.len(), 4); // 4 unique file names
    assert_eq!(*map.get(&0x00).unwrap(), b"foo.c");
    assert_eq!(*map.get(&0x06).unwrap(), b"bar.rs");
    assert_eq!(*map.get(&0x0d).unwrap(), b"main.c");
    assert_eq!(*map.get(&0x14).unwrap(), b"windows.h");
}

#[test]
fn truncated_sources() {
    assert!(DbiSourcesSubstream::parse(&TEST_SOURCES_DATA[..3]).is_err());
    assert!(DbiSourcesSubstream::parse(&TEST_SOURCES_DATA[..20]).is_err());
    assert!(DbiSourcesSubstream::parse(&TEST_SOURCES_DATA[..40]).is_err());
    let s = DbiSourcesSubstream::parse(&TEST_SOURCES_DATA[..44]).unwrap();
    assert!(s.get_source_file_name(0).is_err());
}
