use mspdb::globals::gsi::build_gsi;
use mspdb::globals::name_table::{NameTable, NameTableBuilder};
use mspdb::syms::remap::{remap_type_indexes_in_symbol_stream, RemapSymsError};
use mspdb::types::TypeIndex;
use mspdb::syms::sort::{
    sort_global_syms, sort_module_syms, ModuleRefSymMapping, RemappedSymbolEntry,
    RemappedSymbolTable, SortModuleSymsError, SortModuleSymsOptions, SymbolSortingMode,
};

fn rec(kind: u16, payload: &[u8]) -> Vec<u8> {
    let mut v = Vec::new();
    v.extend_from_slice(&((payload.len() + 2) as u16).to_le_bytes());
    v.extend_from_slice(&kind.to_le_bytes());
    v.extend_from_slice(payload);
    v
}

fn stream(records: &[Vec<u8>]) -> Vec<u8> {
    let mut v = Vec::new();
    for r in records {
        v.extend_from_slice(r);
    }
    v
}

#[test]
fn sorting_mode_default_is_kind_name() {
    assert_eq!(SymbolSortingMode::default(), SymbolSortingMode::KindName);
    let opts = SortModuleSymsOptions::default();
    assert_eq!(opts.sorting_mode, SymbolSortingMode::KindName);
    assert!(!opts.remove_udt);
}

#[test]
fn sort_global_bytes_dedups_identical_records() {
    let r1 = rec(0x110e, &[1, 0, 0, 0]);
    let r3 = rec(0x1108, &[2, 0, 0, 0]);
    let data = stream(&[r1.clone(), r1.clone(), r3.clone()]);
    let (out, table) = sort_global_syms(SymbolSortingMode::Bytes, &data).unwrap();
    assert_eq!(out, stream(&[r3.clone(), r1.clone()]));
    assert_eq!(
        table.vec,
        vec![
            RemappedSymbolEntry { old_offset: 0, new_offset: 8 },
            RemappedSymbolEntry { old_offset: 8, new_offset: 8 },
            RemappedSymbolEntry { old_offset: 16, new_offset: 0 },
        ]
    );
    for e in table.vec.iter() {
        let (old, new) = (e.old_offset as usize, e.new_offset as usize);
        assert_eq!(&out[new..new + 8], &data[old..old + 8]);
    }
    assert_eq!(table.remap_exact(16), Some(0));
    assert_eq!(table.remap_exact(4), None);
    assert_eq!(table.remap_with_delta(3), Some(11));
    assert_eq!(table.remap_with_delta(17), Some(1));
}

#[test]
fn sort_global_kind_bytes_orders_by_kind_first() {
    // The kind decides first.
    let a = rec(0x0002, &[9, 9]);
    let b = rec(0x0100, &[0, 0]);
    let data = stream(&[b.clone(), a.clone()]);
    let (out, _) = sort_global_syms(SymbolSortingMode::KindBytes, &data).unwrap();
    assert_eq!(out, stream(&[a.clone(), b.clone()]));
    // In byte order, the kind's low byte comes first: 0x00 (of 0x0100) sorts before 0x02.
    let (out_bytes, _) = sort_global_syms(SymbolSortingMode::Bytes, &data).unwrap();
    assert_eq!(out_bytes, stream(&[b, a]));
}

#[test]
fn sort_global_kind_name_uses_names() {
    // S_UNAMESPACE records, sorted by name; the name "a" sorts before "b" even though the
    // payload after the name would order them the other way.
    let x = rec(0x1124, b"b\0\x01");
    let y = rec(0x1124, b"a\0\x09");
    let data = stream(&[x.clone(), y.clone()]);
    let (out, table) = sort_global_syms(SymbolSortingMode::KindName, &data).unwrap();
    assert_eq!(out, stream(&[y.clone(), x.clone()]));
    assert_eq!(table.vec[0], RemappedSymbolEntry { old_offset: 0, new_offset: 7 });
    assert_eq!(table.vec[1], RemappedSymbolEntry { old_offset: 7, new_offset: 0 });
}

#[test]
fn sort_global_kind_name_rejects_undecodable_record() {
    // An S_UNAMESPACE record without a NUL terminator.
    let bad = rec(0x1124, b"ab");
    assert!(sort_global_syms(SymbolSortingMode::KindName, &bad).is_err());
    assert!(sort_global_syms(SymbolSortingMode::Bytes, &bad).is_ok());
}

#[test]
fn sort_global_empty_and_trailing_bytes() {
    let (out, table) = sort_global_syms(SymbolSortingMode::Bytes, &[]).unwrap();
    assert!(out.is_empty());
    assert!(table.vec.is_empty());
    // Trailing bytes after the last complete record travel with it.
    let mut data = rec(0x110e, &[5, 0]);
    data.push(0xaa);
    let (out, table) = sort_global_syms(SymbolSortingMode::Bytes, &data).unwrap();
    assert_eq!(out, data);
    assert_eq!(table.vec, vec![RemappedSymbolEntry { old_offset: 0, new_offset: 0 }]);
}

#[test]
fn remap_table_lookups() {
    let table = RemappedSymbolTable {
        vec: vec![
            RemappedSymbolEntry { old_offset: 10, new_offset: 100 },
            RemappedSymbolEntry { old_offset: 20, new_offset: 50 },
        ],
    };
    assert_eq!(table.remap_with_delta(5), None);
    assert_eq!(table.remap_with_delta(10), Some(100));
    assert_eq!(table.remap_with_delta(15), Some(105));
    assert_eq!(table.remap_with_delta(25), Some(55));
    assert_eq!(table.remap_exact(20), Some(50));
    assert_eq!(table.remap_exact(15), None);
}

#[test]
fn build_gsi_round_trips_through_name_table() {
    let mut builder = NameTableBuilder::new(16);
    builder.push(b"foo", 1);
    builder.push(b"bar", 9);
    let data = build_gsi(&mut builder);
    assert_eq!(data.len() % 4, 0);
    let table = NameTable::parse(16, 0, &data).unwrap();
    let found: Vec<i32> = table.hash_records_for_name(b"foo").iter().map(|h| h.offset).collect();
    assert!(found.contains(&1));
}

fn proc_payload(parent: u32, end: u32) -> Vec<u8> {
    let mut p = Vec::new();
    p.extend_from_slice(&parent.to_le_bytes());
    p.extend_from_slice(&end.to_le_bytes());
    p.extend_from_slice(&0u32.to_le_bytes());
    p
}

fn module_stream() -> Vec<u8> {
    let mut v = vec![4, 0, 0, 0];
    v.extend_from_slice(&rec(0x1110, &proc_payload(0, 20))); // S_GPROC32 at 4
    v.extend_from_slice(&rec(0x0006, &[])); // S_END at 20
    v.extend_from_slice(&rec(0x1108, &[1, 0, 0, 0])); // S_UDT at 24
    v
}

#[test]
fn sort_module_moves_scopes_and_fixes_pointers() {
    let mut data = module_stream();
    let mut maps = Vec::new();
    let opts = SortModuleSymsOptions { sorting_mode: SymbolSortingMode::Bytes, remove_udt: false };
    let out = sort_module_syms(&opts, &mut data, 3, 7, &mut maps).unwrap();
    let mut expected = vec![4, 0, 0, 0];
    expected.extend_from_slice(&rec(0x1108, &[1, 0, 0, 0]));
    expected.extend_from_slice(&rec(0x1110, &proc_payload(0, 28)));
    expected.extend_from_slice(&rec(0x0006, &[]));
    assert_eq!(out, expected);
    assert_eq!(
        maps,
        vec![ModuleRefSymMapping { old_module: 3, old_offset: 4, new_module: 7, new_offset: 12 }]
    );
    // The input now holds the end pointer as a distance from its record.
    assert_eq!(&data[12..16], &16u32.to_le_bytes());
}

#[test]
fn sort_module_kind_modes() {
    for mode in [SymbolSortingMode::KindBytes, SymbolSortingMode::KindName] {
        let mut data = module_stream();
        let mut maps = Vec::new();
        let opts = SortModuleSymsOptions { sorting_mode: mode, remove_udt: false };
        let out = sort_module_syms(&opts, &mut data, 0, 0, &mut maps).unwrap();
        // S_UDT (0x1108) sorts before S_GPROC32 (0x1110).
        assert_eq!(&out[4..12], &rec(0x1108, &[1, 0, 0, 0])[..]);
        assert_eq!(out.len(), 32);
    }
}

#[test]
fn sort_module_remove_udt_keeps_udt_with_previous_scope() {
    let mut data = module_stream();
    let mut maps = Vec::new();
    let opts = SortModuleSymsOptions { sorting_mode: SymbolSortingMode::Bytes, remove_udt: true };
    let out = sort_module_syms(&opts, &mut data, 0, 0, &mut maps).unwrap();
    // One scope only: the procedure, followed by the S_UDT record, in place.
    assert_eq!(out, module_stream());
}

#[test]
fn sort_module_errors() {
    let mut maps = Vec::new();
    let opts = SortModuleSymsOptions::default();
    let mut short = vec![4, 0];
    assert_eq!(
        sort_module_syms(&opts, &mut short, 0, 0, &mut maps),
        Err(SortModuleSymsError::MissingSignature)
    );

    let mut unclosed = vec![4, 0, 0, 0];
    unclosed.extend_from_slice(&rec(0x1110, &proc_payload(0, 20)));
    assert_eq!(
        sort_module_syms(&opts, &mut unclosed, 0, 0, &mut maps),
        Err(SortModuleSymsError::UnclosedScopes)
    );

    let mut stray_end = vec![4, 0, 0, 0];
    stray_end.extend_from_slice(&rec(0x0006, &[]));
    assert_eq!(
        sort_module_syms(&opts, &mut stray_end, 0, 0, &mut maps),
        Err(SortModuleSymsError::EndOutsideScope { pos: 4 })
    );

    let mut bad_end = vec![4, 0, 0, 0];
    bad_end.extend_from_slice(&rec(0x1110, &proc_payload(0, 2)));
    bad_end.extend_from_slice(&rec(0x0006, &[]));
    assert!(matches!(
        sort_module_syms(&opts, &mut bad_end, 0, 0, &mut maps),
        Err(SortModuleSymsError::EndBeforeSymbol { p_end: 2, pos: 4, .. })
    ));

    let mut bad_parent = vec![4, 0, 0, 0];
    bad_parent.extend_from_slice(&rec(0x1110, &proc_payload(9, 20)));
    bad_parent.extend_from_slice(&rec(0x0006, &[]));
    assert!(matches!(
        sort_module_syms(&opts, &mut bad_parent, 0, 0, &mut maps),
        Err(SortModuleSymsError::TopLevelParent { p_parent: 9, .. })
    ));
    assert!(maps.is_empty());
}

fn ti_payload(ti: u32, tail: &[u8]) -> Vec<u8> {
    let mut p = ti.to_le_bytes().to_vec();
    p.extend_from_slice(tail);
    p
}

#[test]
fn remap_type_indexes_in_symbol_stream_cases() {
    let map = [TypeIndex(0x2000), TypeIndex(0x2001)];

    let mut data = stream(&[
        rec(0x1108, &ti_payload(0x1001, b"x\0")),     // S_UDT, remapped
        rec(0x113e, &ti_payload(0x8000_0005, b"\0")), // S_LOCAL, refers to the IPI: kept
        rec(0x110d, &ti_payload(0x74, &[0; 8])),      // S_GDATA32, primitive: kept
    ]);
    let expected = stream(&[
        rec(0x1108, &ti_payload(0x2001, b"x\0")),
        rec(0x113e, &ti_payload(0x8000_0005, b"\0")),
        rec(0x110d, &ti_payload(0x74, &[0; 8])),
    ]);
    assert_eq!(remap_type_indexes_in_symbol_stream(&mut data, "test", TypeIndex(0x1000), &map), Ok(()));
    assert_eq!(data, expected);

    // An index beyond the map is kept, and reported once the whole stream is done.
    let mut data = stream(&[
        rec(0x1108, &ti_payload(0x1005, b"y\0")),
        rec(0x1108, &ti_payload(0x1000, b"z\0")),
    ]);
    assert_eq!(
        remap_type_indexes_in_symbol_stream(&mut data, "test", TypeIndex(0x1000), &map),
        Err(RemapSymsError::OutOfRange)
    );
    assert_eq!(
        data,
        stream(&[rec(0x1108, &ti_payload(0x1005, b"y\0")), rec(0x1108, &ti_payload(0x2000, b"z\0"))])
    );

    // A record with two index fields that holds only the first: the first is remapped, then the
    // remapping stops.
    let mut data = stream(&[rec(0x100c, &ti_payload(0x1000, &[0, 0])), rec(0x1108, &ti_payload(0x1001, b"\0"))]);
    assert_eq!(
        remap_type_indexes_in_symbol_stream(&mut data, "test", TypeIndex(0x1000), &map),
        Err(RemapSymsError::Parse)
    );
    assert_eq!(
        data,
        stream(&[rec(0x100c, &ti_payload(0x2000, &[0, 0])), rec(0x1108, &ti_payload(0x1001, b"\0"))])
    );
}
