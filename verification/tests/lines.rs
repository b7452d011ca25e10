use mspdb::dbi::sources::DbiSourcesSubstream;
use mspdb::diag::Diags;
use mspdb::lines::check::check_line_data;
use mspdb::lines::checksum::{
    ChecksumKind, FileChecksumIter, FileChecksumMutIter, FileChecksumsSubsection,
    FileChecksumsSubsectionMut, CHECKSUM_SHA_256,
};
use mspdb::lines::subsection::SubsectionIterMut;
use mspdb::lines::{
    LineData, LineDataMut, SubsectionKind, DEBUG_S_CROSSSCOPEIMPORTS, DEBUG_S_FILECHKSMS,
    DEBUG_S_FRAMEDATA, DEBUG_S_INLINEELINES,
};
use mspdb::names::NameIndex;
use mspdb::utils::iter::HasRestLen;

#[test]
fn checksum_kind_debug() {
    assert_eq!(ChecksumKind(CHECKSUM_SHA_256).to_debug_string(), "SHA_256");
    assert_eq!(ChecksumKind(42).to_debug_string(), "??(42)");
}

/// Test iteration of records with byte ranges.
#[test]
fn iter_ranges() {
    const PAD: u8 = 0xaa;

    let data = &[
        200, 0, 0, 0, // name
        0,   // checksum_size
        0,   // no checksum
        // <-- offset = 6
        PAD, PAD,
        // <-- offset = 8
        42, 0, 0, 0, // name
        16, // checksum_size
        1,  // MD5
        0xc0, 0xc1, 0xc2, 0xc3, // checksum
        0xc4, 0xc5, 0xc6, 0xc7, 0xc8, 0xc9, 0xca, 0xcb, 0xcc, 0xcd, 0xce, 0xcf,
        // <-- offset = 30
        PAD, PAD,
        // <-- offset = 32
    ];

    let sums = FileChecksumsSubsection::new(data);
    let mut iter = sums.iter().with_ranges();

    let (sub0_range, _) = iter.next().unwrap();
    assert_eq!(sub0_range, 0..8);

    let (sub1_range, _) = iter.next().unwrap();
    assert_eq!(sub1_range, 8..32);

    assert!(iter.next().is_none());
}

/// Tests that FileChecksumMutIter allows us to modify checksum records.
#[test]
fn iter_mut() {
    const PAD: u8 = 0xaa;

    let data = &[
        42, 0, 0, 0, // name
        16, // checksum_size
        1,  // MD5
        0xc0, 0xc1, 0xc2, 0xc3, // checksum
        0xc4, 0xc5, 0xc6, 0xc7, 0xc8, 0xc9, 0xca, 0xcb, 0xcc, 0xcd, 0xce, 0xcf,
        // <-- offset = 22
        PAD, PAD,
        // <-- offset = 24
    ];

    let mut data_mut = data.to_vec();
    let mut sums = FileChecksumsSubsectionMut::new(&mut data_mut);
    let mut iter = sums.iter_mut();
    assert_eq!(iter.rest_len(), 24); // initial amount of data in iterator

    let mut sum0 = iter.next().unwrap();
    assert_eq!(iter.rest_len(), 0);
    assert_eq!(sum0.name(), 42);
    assert_eq!(
        sum0.checksum_data,
        &[
            0xc0, 0xc1, 0xc2, 0xc3, 0xc4, 0xc5, 0xc6, 0xc7, 0xc8, 0xc9, 0xca, 0xcb, 0xcc, 0xcd,
            0xce, 0xcf
        ]
    );

    sum0.set_name(0xcafef00d);
    sum0.checksum_data[4] = 0xff;

    let expected_new_data = &[
        0x0d, 0xf0, 0xfe, 0xca, // name (modified)
        16, // checksum_size
        1,  // MD5
        0xc0, 0xc1, 0xc2, 0xc3, // checksum
        0xff, 0xc5, 0xc6, 0xc7, // <-- modified
        0xc8, 0xc9, 0xca, 0xcb, 0xcc, 0xcd, 0xce, 0xcf,
        // <-- offset = 22
        PAD, PAD,
        // <-- offset = 24
    ];

    assert_eq!(data_mut.as_slice(), expected_new_data);
}

/// Tests FileChecksumIter and FileChecksumMutIter.
#[test]
fn basic_iter() {
    const PAD: u8 = 0xaa;

    let data = &[
        42, 0, 0, 0, // name
        16, // checksum_size
        1,  // MD5
        0xc0, 0xc1, 0xc2, 0xc3, // checksum
        0xc4, 0xc5, 0xc6, 0xc7, 0xc8, 0xc9, 0xca, 0xcb, 0xcc, 0xcd, 0xce, 0xcf,
        // <-- offset = 22
        PAD, PAD,
        // <-- offset = 24
        0, 1, 0, 0, // name
        16, // checksum_size
        1,  // MD5
        0xd0, 0xd1, 0xd2, 0xd3, // checksum
        0xd4, 0xd5, 0xd6, 0xd7, 0xd8, 0xd9, 0xda, 0xdb, 0xdc, 0xdd, 0xde, 0xdf,
        // <-- offset = 46
        PAD, PAD,
        // <-- offset = 48
    ];

    // Test FileChecksumIter (immutable iterator)
    {
        let mut iter = FileChecksumIter::new(data);
        assert_eq!(iter.rest_len(), 48);
        let sum0 = iter.next().unwrap();
        assert_eq!(sum0.name(), NameIndex(42));
        assert_eq!(
            sum0.checksum_data,
            &[
                0xc0, 0xc1, 0xc2, 0xc3, 0xc4, 0xc5, 0xc6, 0xc7, 0xc8, 0xc9, 0xca, 0xcb, 0xcc, 0xcd,
                0xce, 0xcf
            ]
        );

        assert_eq!(iter.rest_len(), 24); // record 0 is 24 bytes (including padding)

        let sum1 = iter.next().unwrap();
        assert_eq!(sum1.name(), NameIndex(0x100));
        assert_eq!(
            sum1.checksum_data,
            &[
                0xd0, 0xd1, 0xd2, 0xd3, 0xd4, 0xd5, 0xd6, 0xd7, 0xd8, 0xd9, 0xda, 0xdb, 0xdc, 0xdd,
                0xde, 0xdf,
            ]
        );

        assert_eq!(iter.rest_len(), 0);
        assert!(iter.next().is_none());
    }

    // Test FileChecksumMutIter (mutable iterator)
    {
        let mut data_mut = data.to_vec();
        let mut iter = FileChecksumMutIter::new(&mut data_mut);
        assert_eq!(iter.rest_len(), 48);
        let sum0 = iter.next().unwrap();
        assert_eq!(sum0.name(), 42);
        assert_eq!(
            sum0.checksum_data,
            &[
                0xc0, 0xc1, 0xc2, 0xc3, 0xc4, 0xc5, 0xc6, 0xc7, 0xc8, 0xc9, 0xca, 0xcb, 0xcc, 0xcd,
                0xce, 0xcf
            ]
        );

        assert_eq!(iter.rest_len(), 24);

        let sum1 = iter.next().unwrap();
        assert_eq!(sum1.name(), 0x100);
        assert_eq!(
            sum1.checksum_data,
            &[
                0xd0, 0xd1, 0xd2, 0xd3, 0xd4, 0xd5, 0xd6, 0xd7, 0xd8, 0xd9, 0xda, 0xdb, 0xdc, 0xdd,
                0xde, 0xdf,
            ]
        );

        assert_eq!(iter.rest_len(), 0);
        assert!(iter.next().is_none());
    }
}

#[test]
fn test_get_file() {
    const PAD: u8 = 0xaa;

    let data = &[
        42, 0, 0, 0, 0, 0, PAD, PAD, // record 0 at 0
        0xee, 0, 0, 0, 0, 0, PAD, PAD, // record 1 at 8
        0, 0xcc, 0, 0, 0, 0, PAD, PAD, // record 2 at 0x10
        // len = 0x18
    ];

    // Test immutable access
    {
        let sums = FileChecksumsSubsection::new(data);

        let sum0 = sums.get_file(0).unwrap();
        assert_eq!(sum0.name(), NameIndex(42));

        let sum1 = sums.get_file(8).unwrap();
        assert_eq!(sum1.name(), NameIndex(0xee));

        let sum2 = sums.get_file(0x10).unwrap();
        assert_eq!(sum2.name(), NameIndex(0xcc00));

        // Test bad index (way outside of data)
        assert!(sums.get_file(0x1000).is_err());

        // Test bad index (invalid header)
        assert!(sums.get_file(0x16).is_err());
    }

    // Test mutable access
    {
        let mut data_mut = data.to_vec();
        let mut sums = FileChecksumsSubsectionMut::new(&mut data_mut);

        let sum0 = sums.get_file_mut(0).unwrap();
        assert_eq!(sum0.name(), 42);

        let sum1 = sums.get_file_mut(8).unwrap();
        assert_eq!(sum1.name(), 0xee);

        let mut sum2 = sums.get_file_mut(0x10).unwrap();
        assert_eq!(sum2.name(), 0xcc00);

        // Modify one of the records
        sum2.set_name(0xcafe);

        // Test bad index (way outside of data)
        assert!(sums.get_file_mut(0x1000).is_err());

        // Test bad index (invalid header)
        assert!(sums.get_file_mut(0x16).is_err());

        let expected_data = &[
            42, 0, 0, 0, 0, 0, PAD, PAD, // record 0 at 0
            0xee, 0, 0, 0, 0, 0, PAD, PAD, // record 1 at 8
            0xfe, 0xca, 0, 0, 0, 0, PAD, PAD, // record 2 at 0x10
        ];

        assert_eq!(data_mut.as_slice(), expected_data);
    }
}

// Test that empty input or malformed line data (too little data) does not cause the iterator to
// fail. The iterator will return `None`.
#[test]
fn empty_or_malformed_input() {
    let cases: &[(&str, &[u8])] = &[
        ("empty input", &[]),
        ("incomplete subsection_kind", &[0xf1, 0]),
        ("incomplete subsection_size", &[0xf1, 0, 0, 0, 0xff, 0xff]),
        (
            "incomplete subsection_data",
            &[
                0xf1, 0, 0, 0, // subsection_Kind
                0, 0, 1, 0, // subsection_size (0x10000)
            ],
        ),
    ];

    for &(case_name, case_data) in cases.iter() {
        println!("case: {}", case_name);
        let ld = LineData::new(case_data);
        assert_eq!(ld.subsections().count(), 0);
        assert!(ld.find_checksums().is_none());
        assert!(ld.find_checksums_bytes().is_none());
        assert!(ld.name_indexes().is_empty());

        // Do the same thing with a mutable iterator.
        let mut case_data_mut = case_data.to_vec();
        let mut ld = LineDataMut::new(&mut case_data_mut);
        assert_eq!(ld.subsections_mut().count(), 0);
    }
}

/// Test the alignment padding code in the subsection iterator.
#[test]
fn test_subsection_alignment() {
    const PAD: u8 = 0xaa;

    let data: &[u8] = &[
        // -----subsection 0 -----
        0xf4, 0, 0, 0, // subsection_kind: DEBUG_S_FILECHKSMS
        0x2, 0, 0, 0, // subsection_size (unaligned len = 2)
        0xab, 0xcd, // subsection_data
        PAD, PAD, // 2 padding bytes
        // ----- subsection 1 -----
        0xf5, 0, 0, 0, // subsection_kind: FRAMEDATA
        7, 0, 0, 0, // subsection_size: 7 (unaligned len = 3)
        1, 2, 3, 4, 5, 6, 7, // subsection_data
        PAD, // 1 padding byte
        // ----- subsection 2 -----
        0xf6, 0, 0, 0, // subsection_kind: INLINEELINES
        8, 0, 0, 0, // subsection_size: 8 (unaligned len = 0)
        8, 7, 6, 5, 4, 3, 2, 1, // subsection_data
        // no padding bytes
        // ----- subsection 3 -----
        0xf7, 0, 0, 0, // subsection_kind: CROSSSCOPEIMPORTS
        5, 0, 0, 0, // subsection_size: 5 (unaligned len = 1)
        10, 11, 12, 13, 14, // subsection_data
        PAD, PAD, PAD, // 3 padding bytes
    ];

    // Test SubsectionsIter
    {
        let mut iter = LineData::new(data).subsections();

        let sub0 = iter.next().unwrap();
        assert_eq!(sub0.kind, SubsectionKind(DEBUG_S_FILECHKSMS));
        assert_eq!(sub0.data, &[0xab, 0xcd]);

        let sub1 = iter.next().unwrap();
        assert_eq!(sub1.kind, SubsectionKind(DEBUG_S_FRAMEDATA));
        assert_eq!(sub1.data, &[1, 2, 3, 4, 5, 6, 7]);

        let sub2 = iter.next().unwrap();
        assert_eq!(sub2.kind, SubsectionKind(DEBUG_S_INLINEELINES));
        assert_eq!(sub2.data, &[8, 7, 6, 5, 4, 3, 2, 1]);

        let sub3 = iter.next().unwrap();
        assert_eq!(sub3.kind, SubsectionKind(DEBUG_S_CROSSSCOPEIMPORTS));
        assert_eq!(sub3.data, &[10, 11, 12, 13, 14]);

        assert!(iter.rest().is_empty());
    }

    // Test SubsectionIterMut
    {
        let mut data_mut = data.to_vec();
        let mut iter = SubsectionIterMut::new(&mut data_mut);

        let sub0 = iter.next().unwrap();
        assert_eq!(sub0.kind, SubsectionKind(DEBUG_S_FILECHKSMS));
        assert_eq!(sub0.data, &[0xab, 0xcd]);

        let sub1 = iter.next().unwrap();
        assert_eq!(sub1.kind, SubsectionKind(DEBUG_S_FRAMEDATA));
        assert_eq!(sub1.data, &[1, 2, 3, 4, 5, 6, 7]);

        let sub2 = iter.next().unwrap();
        assert_eq!(sub2.kind, SubsectionKind(DEBUG_S_INLINEELINES));
        assert_eq!(sub2.data, &[8, 7, 6, 5, 4, 3, 2, 1]);

        let sub3 = iter.next().unwrap();
        assert_eq!(sub3.kind, SubsectionKind(DEBUG_S_CROSSSCOPEIMPORTS));
        assert_eq!(sub3.data, &[10, 11, 12, 13, 14]);

        assert!(iter.rest().is_empty());
    }
}

#[test]
fn find_checksums_in_line_data() {
    let data: &[u8] = &[
        0xf2, 0, 0, 0, 4, 0, 0, 0, 1, 2, 3, 4, // a DEBUG_S_LINES subsection
        0xf4, 0, 0, 0, 8, 0, 0, 0, // DEBUG_S_FILECHKSMS, 8 bytes
        7, 0, 0, 0, 0, 0, 0xaa, 0xaa, // one record, name 7
    ];
    let ld = LineData::new(data);
    assert_eq!(ld.find_checksums_bytes().unwrap(), &data[20..28]);
    assert_eq!(ld.name_indexes(), vec![NameIndex(7)]);
}

#[test]
fn check_line_data_reports_problems() {
    let sources_data: &[u8] = &[
        1, 0, 1, 0, // one module, one source file
        0, 0, // module_file_starts
        1, 0, // module_file_counts
        0, 0, 0, 0, // file name offsets
        b'f', b'o', b'o', b'.', b'c', 0,
    ];
    let sources = DbiSourcesSubstream::parse(sources_data).unwrap();
    let names: &[u8] = b"\0foo.c\0bar.c\0";

    let mut data: Vec<u8> = Vec::new();
    // DEBUG_S_FILECHKSMS: one record, name offset 1 ("foo.c")
    data.extend_from_slice(&[0xf4, 0, 0, 0, 8, 0, 0, 0]);
    data.extend_from_slice(&[1, 0, 0, 0, 0, 0, 0xaa, 0xaa]);
    // DEBUG_S_LINES: header, a block for file index 0 and a block for file index 8
    data.extend_from_slice(&[0xf2, 0, 0, 0, 36, 0, 0, 0]);
    data.extend_from_slice(&[0; 12]);
    data.extend_from_slice(&[0, 0, 0, 0, 0, 0, 0, 0, 12, 0, 0, 0]);
    data.extend_from_slice(&[8, 0, 0, 0, 0, 0, 0, 0, 12, 0, 0, 0]);
    // a subsection of an unknown kind
    data.extend_from_slice(&[0x99, 0, 0, 0, 0, 0, 0, 0]);

    let mut diags = Diags::new();
    check_line_data(&mut diags, 0, names, &sources, &data).unwrap();
    assert_eq!(diags.num_errors, 1);
    assert_eq!(diags.num_warnings, 1);
    assert_eq!(
        diags.diags[0].message,
        "Invalid block entry in DEBUG_S_LINES. The block has file_index = 0x8,\nbut there is no entry in DEBUG_S_FILE_CHECKSUMS with that file_index."
    );
    assert_eq!(
        diags.diags[1].message,
        "Module has a C13 Line Data subsection whose kind is not recognized. Kind: 0x99"
    );

    // The checksum record names "bar.c" while the sources name "foo.c".
    data[8] = 7;
    let mut diags = Diags::new();
    check_line_data(&mut diags, 0, names, &sources, &data).unwrap();
    assert_eq!(diags.num_errors, 2);
    assert_eq!(
        diags.diags[0].message,
        "Invalid entry in DEBUG_S_FILE_CHECKSUMS. The file names do not match."
    );
    assert!(diags.diags[0].is_error);
    assert_eq!(diags.diags[0].refs.len(), 2);
    assert!(diags.to_string().starts_with(
        "error: Invalid entry in DEBUG_S_FILE_CHECKSUMS. The file names do not match.\n  bytes:\n00000000 :  66 6f 6f 2e 63"
    ));

    // A lines subsection that is too short to have a header.
    let bad: &[u8] = &[0xf2, 0, 0, 0, 4, 0, 0, 0, 1, 2, 3, 4];
    let mut diags = Diags::new();
    assert!(check_line_data(&mut diags, 0, names, &sources, bad).is_err());
}
