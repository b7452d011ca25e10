use mspdb::dbi::modules::IterModuleInfo;
use mspdb::modi::{ModiError, ModiStreamData};
use mspdb::tmcache::{TMCache, TMCacheError, TMCacheModule, TMCacheTable, TM_CACHE_HEADER_VERSION_V1};

fn header_with_sizes(sym: u32, c11: u32, c13: u32) -> mspdb::dbi::modules::ModuleInfoFixed {
    let mut b = vec![0u8; 64];
    b[36..40].copy_from_slice(&sym.to_le_bytes());
    b[40..44].copy_from_slice(&c11.to_le_bytes());
    b[44..48].copy_from_slice(&c13.to_le_bytes());
    b.extend_from_slice(b"m\0o\0\0\0");
    let m = IterModuleInfo::new(&b).next().unwrap();
    *m.header()
}

#[test]
fn modi_stream_layout() {
    // symbols: signature + 4 bytes; c13: 4 bytes; global refs: size 4 + 4 bytes
    let mut data = vec![4, 0, 0, 0, 1, 2, 3, 4, 9, 9, 9, 9];
    data.extend_from_slice(&4u32.to_le_bytes());
    data.extend_from_slice(&[7, 7, 7, 7]);
    let h = header_with_sizes(8, 0, 4);
    let mut m = ModiStreamData::new(data.clone(), &h).unwrap();
    assert_eq!(m.global_refs_size, 4);
    assert_eq!(m.sym_data(), &[1, 2, 3, 4]);
    assert_eq!(m.full_sym_data(), &[4, 0, 0, 0, 1, 2, 3, 4]);
    assert_eq!(m.c13_line_data_range(), (8, 12));
    assert_eq!(m.c13_line_data_bytes(), &[9, 9, 9, 9]);
    m.c13_line_data_bytes_mut()[0] = 5;
    assert_eq!(m.stream_data[8], 5);
    m.sym_data_mut()[0] = 0x11;
    assert_eq!(m.stream_data[4], 0x11);
    m.truncate_global_refs();
    assert_eq!(m.stream_data.len(), 12);
    assert_eq!(m.global_refs_size, 0);
    m.replace_sym_data(&[4, 0, 0, 0, 8]);
    assert_eq!(m.sym_byte_size, 5);
    assert_eq!(m.stream_data, vec![4, 0, 0, 0, 8, 5, 9, 9, 9]);
}

#[test]
fn modi_stream_errors() {
    let data = vec![0u8; 10];
    assert_eq!(ModiStreamData::new(data.clone(), &header_with_sizes(11, 0, 0)).err(), Some(ModiError::SymSizeExceedsStream));
    assert_eq!(ModiStreamData::new(data.clone(), &header_with_sizes(4, 7, 0)).err(), Some(ModiError::C11SizeExceedsStream));
    assert_eq!(ModiStreamData::new(data.clone(), &header_with_sizes(4, 0, 7)).err(), Some(ModiError::C13SizeExceedsStream));
    assert_eq!(ModiStreamData::new(data.clone(), &header_with_sizes(4, 0, 4)).err(), Some(ModiError::GlobalRefsSizeMissing));
    let mut d = vec![0u8; 4];
    d.extend_from_slice(&8u32.to_le_bytes());
    assert_eq!(ModiStreamData::new(d.clone(), &header_with_sizes(4, 0, 0)).err(), Some(ModiError::GlobalRefsExceedStream));
    let mut d = vec![0u8; 4];
    d.extend_from_slice(&0xffff_ffffu32.to_le_bytes());
    assert_eq!(ModiStreamData::new(d, &header_with_sizes(4, 0, 0)).unwrap().global_refs_size, 0);
    let m = ModiStreamData::new(vec![0u8; 2], &header_with_sizes(2, 0, 0)).unwrap();
    assert!(m.sym_data().is_empty());
    assert_eq!(m.c13_line_data_range(), (0, 0));
}

#[test]
fn tmcache_table() {
    let mut b = Vec::new();
    b.extend_from_slice(&TM_CACHE_HEADER_VERSION_V1.to_le_bytes());
    b.extend_from_slice(&36u32.to_le_bytes()); // tm table offset
    b.extend_from_slice(&4u32.to_le_bytes()); // tm table size
    b.extend_from_slice(&20u32.to_le_bytes()); // module table offset
    b.extend_from_slice(&16u32.to_le_bytes()); // module table size
    b.extend_from_slice(&1u32.to_le_bytes());
    b.extend_from_slice(&2u32.to_le_bytes());
    b.extend_from_slice(&0x1122u64.to_le_bytes());
    b.extend_from_slice(&7u16.to_le_bytes());
    b.extend_from_slice(&9u16.to_le_bytes());
    let t = TMCacheTable::parse(&b).unwrap();
    assert_eq!(t.module_table, vec![TMCacheModule { tm_index: 1, reserved: 2, checksum: 0x1122 }]);
    assert_eq!(t.tm_table, vec![7, 9]);

    let mut bad = b.clone();
    bad[0] = 0;
    assert!(matches!(TMCacheTable::parse(&bad).err(), Some(TMCacheError::BadVersion(_))));
    assert_eq!(TMCacheTable::parse(&b[..30]).err(), Some(TMCacheError::Truncated));
}

#[test]
fn tmcache_maps() {
    let mut b = Vec::new();
    b.extend_from_slice(&1u32.to_le_bytes());
    b.extend_from_slice(&2u32.to_le_bytes());
    b.extend_from_slice(&1u32.to_le_bytes());
    for x in [10u32, 11, 12] {
        b.extend_from_slice(&x.to_le_bytes());
    }
    match TMCache::parse(&b).unwrap() {
        TMCache::Tmts(t) => {
            assert_eq!(t.ti_mapped_to, vec![10, 11]);
            assert_eq!(t.id_mapped_to, vec![12]);
        }
        _ => panic!("expected TMTS"),
    }
    assert_eq!(TMCache::parse(&b[..15]).err(), Some(TMCacheError::Truncated));
    assert_eq!(TMCache::parse(&77u32.to_le_bytes()).err(), Some(TMCacheError::UnknownKind(77)));
}
