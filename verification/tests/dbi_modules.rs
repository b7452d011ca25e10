use mspdb::dbi::modules::{
    check_module_info, check_module_infos, sort_module_info_records, IterModuleInfo,
    IterModuleInfoMut, ModInfoSubstream, SortModulesError,
};
use mspdb::diag::Diags;

struct Rec {
    unused1: u32,
    module_index: u16,
    stream: u16,
    sym: u32,
    c11: u32,
    c13: u32,
    unused2: u32,
    name: &'static str,
    obj: &'static str,
}

fn rec(module_index: u16, name: &'static str, obj: &'static str) -> Rec {
    Rec {
        unused1: 7,
        module_index,
        stream: 0xffff,
        sym: 0,
        c11: 0,
        c13: 0,
        unused2: 9,
        name,
        obj,
    }
}

fn encode(r: &Rec) -> Vec<u8> {
    let mut b = vec![0u8; 64];
    b[0..4].copy_from_slice(&r.unused1.to_le_bytes());
    b[4..6].copy_from_slice(&1u16.to_le_bytes()); // section
    b[20..22].copy_from_slice(&r.module_index.to_le_bytes());
    b[34..36].copy_from_slice(&r.stream.to_le_bytes());
    b[36..40].copy_from_slice(&r.sym.to_le_bytes());
    b[40..44].copy_from_slice(&r.c11.to_le_bytes());
    b[44..48].copy_from_slice(&r.c13.to_le_bytes());
    b[50] = 0xaa;
    b[51] = 0xbb;
    b[52..56].copy_from_slice(&r.unused2.to_le_bytes());
    b.extend_from_slice(r.name.as_bytes());
    b.push(0);
    b.extend_from_slice(r.obj.as_bytes());
    b.push(0);
    while b.len() % 4 != 0 {
        b.push(0);
    }
    b
}

fn encode_all(recs: &[Rec]) -> Vec<u8> {
    let mut out = Vec::new();
    for r in recs {
        out.extend_from_slice(&encode(r));
    }
    out
}

#[test]
fn iter_module_records() {
    let data = encode_all(&[rec(0, "foo.obj", "foo.obj"), rec(1, "KernelBase.dll", "kernelbase.lib")]);
    let substream = ModInfoSubstream { substream_data: &data };
    let mut it = substream.iter();
    let m0 = it.next().unwrap();
    assert_eq!(m0.module_name(), b"foo.obj");
    assert_eq!(m0.obj_file(), b"foo.obj");
    assert_eq!(m0.header().section_contrib.module_index, 0);
    assert_eq!(m0.header().unused1, 7);
    assert_eq!(m0.stream(), None);
    let m1 = it.next().unwrap();
    assert_eq!(m1.module_name(), b"KernelBase.dll");
    assert_eq!(m1.obj_file(), b"kernelbase.lib");
    assert_eq!(m1.header().section_contrib.module_index, 1);
    assert!(it.next().is_none());
    assert!(it.rest().is_empty());
}

#[test]
fn iter_stops_at_malformed_record() {
    let mut data = encode(&rec(0, "a", "b"));
    data.extend_from_slice(&[1, 2, 3]);
    let mut it = IterModuleInfo::new(&data);
    assert!(it.next().is_some());
    assert!(it.next().is_none());
    assert_eq!(it.rest(), &[1, 2, 3]);
}

#[test]
fn iter_mut_gives_header_bytes() {
    let mut data = encode_all(&[rec(0, "a", "b"), rec(1, "cc", "dd")]);
    {
        let mut it = IterModuleInfoMut::new(&mut data);
        let m = it.next().unwrap();
        assert_eq!(m.header.len(), 64);
        assert_eq!(m.module_name, b"a");
        m.header[0] = 0x55;
        let m = it.next().unwrap();
        assert_eq!(m.obj_file, b"dd");
        assert!(it.next().is_none());
    }
    assert_eq!(data[0], 0x55);
}

#[test]
fn sort_modules_by_name_then_obj() {
    let recs = [rec(0, "b", "x"), rec(0xffff, "a", "yy"), rec(2, "a", "x")];
    let mut data = encode_all(&recs);
    let out = sort_module_info_records(&mut data).unwrap();
    assert_eq!(out.new_to_old, vec![2, 1, 0]);
    assert_eq!(out.old_to_new, vec![2, 1, 0]);

    let mut expected = Vec::new();
    for (new_index, &old_index) in out.new_to_old.iter().enumerate() {
        let r = &recs[old_index as usize];
        let mut b = encode(r);
        b[0..4].copy_from_slice(&[0, 0, 0, 0]);
        b[50] = 0;
        b[51] = 0;
        b[52..56].copy_from_slice(&[0, 0, 0, 0]);
        if r.module_index != 0xffff {
            b[20..22].copy_from_slice(&(new_index as u16).to_le_bytes());
        }
        expected.extend_from_slice(&b);
    }
    assert_eq!(data, expected);
}

#[test]
fn sort_modules_empty() {
    let mut data: Vec<u8> = Vec::new();
    let out = sort_module_info_records(&mut data).unwrap();
    assert!(out.new_to_old.is_empty());
    assert!(out.old_to_new.is_empty());
}

#[test]
fn sort_modules_inconsistent_module_index() {
    let mut data = encode_all(&[rec(0, "b", "x"), rec(5, "a", "x")]);
    let before = data.clone();
    let e = sort_module_info_records(&mut data).err().unwrap();
    assert_eq!(e, SortModulesError::InconsistentModuleIndex { module: 1, module_index: 5 });
    assert_eq!(
        e.to_string(),
        "Module Info record #1 has inconsistent value for the module_index (5) of its first section contribution."
    );
    assert_eq!(data, before);
}

#[test]
fn sort_modules_duplicate() {
    let mut data = encode_all(&[rec(0, "a", "x"), rec(1, "b", "x"), rec(2, "a", "x")]);
    let before = data.clone();
    match sort_module_info_records(&mut data) {
        Err(SortModulesError::DuplicateModule { first, second }) => {
            let mut pair = [first, second];
            pair.sort();
            assert_eq!(pair, [0, 2]);
        }
        _ => panic!("expected a duplicate module error"),
    }
    assert_eq!(data, before);
}

#[test]
fn check_module_info_reports_problems() {
    let mut r = rec(3, "m", "m.obj");
    r.c11 = 4;
    r.c13 = 6;
    r.sym = 8;
    let data = encode(&r);
    let m = IterModuleInfo::new(&data).next().unwrap();
    let mut diags = Diags::new();
    check_module_info(2, &m, None, &mut diags);
    let messages: Vec<(bool, String)> =
        diags.diags.iter().map(|d| (d.is_error, d.message.clone())).collect();
    assert_eq!(
        messages,
        vec![
            (true, "Module #2 has incorrect value for section_contrib.module_index".to_string()),
            (true, "Module #2 has invalid value for c13_byte_size (not a multiple of 4)".to_string()),
            (
                true,
                "Module #2 has both C11 and C13 line data; these should be mutually-exclusive."
                    .to_string()
            ),
            (false, "Module #2 has non-zero c11_byte_size, but no stream".to_string()),
            (false, "Module #2 has non-zero c13_byte_size, but no stream".to_string()),
            (false, "Module #2 has non-zero sym_byte_size, but no stream".to_string()),
        ]
    );
    assert_eq!(diags.num_errors, 3);
    assert_eq!(diags.num_warnings, 3);
}

#[test]
fn check_module_infos_checks_streams() {
    let mut r0 = rec(0, "a", "a");
    r0.stream = 1;
    r0.sym = 100;
    let mut r1 = rec(1, "b", "b");
    r1.stream = 7;
    let mut r2 = rec(2, "c", "c");
    r2.stream = 2;
    r2.sym = 8;
    let data = encode_all(&[r0, r1, r2]);
    let substream = ModInfoSubstream { substream_data: &data };
    let streams = [None, Some(50u64), Some(8u64)];
    let mut diags = Diags::new();
    check_module_infos(&substream, &streams, &mut diags);
    let messages: Vec<String> = diags.diags.iter().map(|d| d.message.clone()).collect();
    assert_eq!(
        messages,
        vec![
            "Module #0 specifies substream sizes that exceed the size of the module stream.".to_string(),
            "Module #1 specifies stream #7, but that stream is invalid.".to_string(),
        ]
    );
}
