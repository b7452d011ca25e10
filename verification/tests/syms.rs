use mspdb::syms::iter::{SymData, SymIter};
use mspdb::syms::kind::{SymKind, S_BUILDINFO, S_GPROC32, S_UNAMESPACE};
use mspdb::utils::iter::HasRestLen;

#[test]
fn test_sym_iter() {
    let data: &[u8] = &[
        // record 0, total size = 8
        /* 0x0000 */ 6, 0, // size
        /* 0x0002 */ 0x4c, 0x11, // S_BUILDINFO
        /* 0x0004 */ 1, 2, 3, 4, // payload (ItemId)
        // record 1, total size = 12
        /* 0x0008 */ 10, 0, // size
        /* 0x000a */ 0x24, 0x11, // S_UNAMESPACE
        /* 0x000c */ b'b', b'o', b'o', b's', // payload (6 bytes)
        /* 0x0010 */ b't', 0,
        /* 0x0012 */ 0xf1, 0xf2, // alignment padding (inside payload)
        // record 2, total size = 12
        /* 0x0014 */ 10, 0, // size
        /* 0x0016 */ 0x24, 0x11, // S_UNAMESPACE
        /* 0x0018 */ b'a', b'b', b'c', b'd', // payload
        /* 0x001c */ b'e', b'f', b'g', 0, // no alignment padding
        /* 0x0020 : end */
    ];

    let mut i = SymIter::new(data);

    // parse record 0
    assert_eq!(i.rest_len(), 0x20);
    let s0 = i.next().unwrap();
    assert_eq!(s0.kind, SymKind(S_BUILDINFO));
    let s0_data = s0.parse().unwrap();
    assert!(matches!(s0_data, SymData::BuildInfo(_)));

    // parse record 1
    assert_eq!(i.rest_len(), 0x18);
    let s1 = i.next().unwrap();
    assert_eq!(s1.kind, SymKind(S_UNAMESPACE));
    match s1.parse() {
        Ok(SymData::UsingNamespace(ns)) => assert_eq!(ns, b"boost"),
        _ => panic!("wrong"),
    }

    // parse record 2
    assert_eq!(i.rest_len(), 0xc);
    let s1 = i.next().unwrap();
    assert_eq!(s1.kind, SymKind(S_UNAMESPACE));
    match s1.parse() {
        Ok(SymData::UsingNamespace(ns)) => assert_eq!(ns, b"abcdefg"),
        _ => panic!("wrong"),
    }

    // end
    assert_eq!(i.rest_len(), 0);
    assert!(i.next().is_none());
}

#[test]
fn test_sym_kind_debug() {
    assert_eq!(SymKind(S_GPROC32).to_debug_string(), "S_GPROC32");
    assert_eq!(SymKind(0x31aa).to_debug_string(), "S_(??31aa 1_)");
}

#[test]
fn build_info_payload() {
    let data: &[u8] = &[6, 0, 0x4c, 0x11, 1, 2, 3, 4];
    let s = SymIter::one(data).unwrap();
    match s.parse() {
        Ok(SymData::BuildInfo(id)) => assert_eq!(id, 0x04030201),
        _ => panic!("wrong"),
    }
}

use mspdb::syms::iter::SymIterMut;

#[test]
fn sym_iter_mut_writes_reach_the_stream() {
    // Two records: S_UNAMESPACE "ab", then S_BUILDINFO 7.
    let mut stream: Vec<u8> = vec![0x06, 0x00, 0x24, 0x11, b'a', b'b', 0, 0];
    stream.extend_from_slice(&[0x06, 0x00, 0x4c, 0x11, 7, 0, 0, 0]);
    {
        let mut it = SymIterMut::new(&mut stream);
        let first = it.next().unwrap();
        assert_eq!(first.kind, SymKind(S_UNAMESPACE));
        first.data[0] = b'x';
        let rest = it.rest_mut();
        assert_eq!(rest.len(), 8);
        rest[4] = 8;
    }
    assert_eq!(&stream[4..6], b"xb");
    assert_eq!(stream[12], 8);
}
