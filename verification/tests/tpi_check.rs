use mspdb::tpi::check::{
    check_ipi_type_ordering, check_tpi_type_ordering, IpiBadReason, TpiBadReason, TypeOrderingError,
};
use mspdb::types::TypeIndex;

fn rec(kind: u16, payload: &[u8]) -> Vec<u8> {
    let mut r = Vec::new();
    r.extend_from_slice(&((payload.len() + 2) as u16).to_le_bytes());
    r.extend_from_slice(&kind.to_le_bytes());
    r.extend_from_slice(payload);
    r
}

fn modifier(t: u32) -> Vec<u8> {
    let mut p = t.to_le_bytes().to_vec();
    p.extend_from_slice(&[0, 0, 0, 0]);
    rec(0x1001, &p)
}

#[test]
fn tpi_ordering_ok() {
    let mut data = modifier(0x74);
    data.extend(modifier(0x1000));
    assert!(check_tpi_type_ordering(TypeIndex(0x1000), TypeIndex(0x1002), 0x38, &data).is_ok());
}

#[test]
fn tpi_ordering_forward_and_item() {
    let mut data = modifier(0x1000); // refers to itself
    data.extend(rec(0x1605, &[1, 0, 0, 0])); // LF_STRING_ID has an ItemId
    match check_tpi_type_ordering(TypeIndex(0x1000), TypeIndex(0x1002), 0x38, &data) {
        Err(TypeOrderingError::BadIndexes(v)) => {
            assert_eq!(
                v,
                vec![
                    (0x38 + 4, TpiBadReason::TypeIndexForward),
                    (0x38 + 12 + 4, TpiBadReason::ItemIdInWrongStream),
                ]
            );
        }
        _ => panic!("expected bad indexes"),
    }
}

#[test]
fn tpi_ordering_decode_error() {
    let data = rec(0x1001, &[1, 2]); // too short for its type index
    assert!(matches!(
        check_tpi_type_ordering(TypeIndex(0x1000), TypeIndex(0x1001), 0, &data),
        Err(TypeOrderingError::Decode(_))
    ));
}

#[test]
fn ipi_ordering() {
    // LF_FUNC_ID: scope id, type index
    let mut p = Vec::new();
    p.extend_from_slice(&0u32.to_le_bytes());
    p.extend_from_slice(&0x1000u32.to_le_bytes());
    let mut data = rec(0x1601, &p);
    let mut q = Vec::new();
    q.extend_from_slice(&0x1001u32.to_le_bytes()); // refers to itself
    q.extend_from_slice(&0x5000u32.to_le_bytes()); // beyond the TPI
    data.extend(rec(0x1601, &q));
    match check_ipi_type_ordering(TypeIndex(0x1000), TypeIndex(0x2000), 0x1000, 0x1002, 0x38, &data) {
        Err(TypeOrderingError::BadIndexes(v)) => {
            assert_eq!(
                v,
                vec![
                    (0x38 + 12 + 4, 0x1001, IpiBadReason::IdInvalidForward, 0x1001),
                    (0x38 + 12 + 8, 0x1001, IpiBadReason::TypeIndexOutOfRange, 0x5000),
                ]
            );
        }
        _ => panic!("expected bad indexes"),
    }
    let good = rec(0x1601, &p);
    assert!(check_ipi_type_ordering(TypeIndex(0x1000), TypeIndex(0x2000), 0x1000, 0x1001, 0, &good).is_ok());
}

fn type_stream(header_size: u32, begin: u32, end: u32, types_size: u32, total: usize) -> Vec<u8> {
    let mut v = vec![0u8; total];
    v[0..4].copy_from_slice(&20040203u32.to_le_bytes());
    v[4..8].copy_from_slice(&header_size.to_le_bytes());
    v[8..12].copy_from_slice(&begin.to_le_bytes());
    v[12..16].copy_from_slice(&end.to_le_bytes());
    v[16..20].copy_from_slice(&types_size.to_le_bytes());
    v
}

fn type_stream_messages(data: &[u8]) -> Vec<String> {
    let mut diags = mspdb::diag::Diags::new();
    mspdb::tpi::check::check_type_stream(data, &mut diags);
    diags.diags.iter().map(|d| d.message.clone()).collect()
}

#[test]
fn check_type_stream_accepts_valid_and_empty() {
    assert!(type_stream_messages(&[]).is_empty());
    assert!(type_stream_messages(&type_stream(56, 0x1000, 0x1002, 8, 64)).is_empty());
}

#[test]
fn check_type_stream_reports_header_problems() {
    assert_eq!(
        type_stream_messages(&[1, 2, 3]),
        vec!["The Type Stream is too small to contain a valid Type Stream Header.".to_string()]
    );
    assert_eq!(
        type_stream_messages(&type_stream(40, 0x1000, 0x1000, 0, 64)),
        vec!["The Type Stream Header specifies a header_size (40) that is too small to be valid."
            .to_string()]
    );
    assert_eq!(
        type_stream_messages(&type_stream(56, 0x20, 0x1000, 0, 64)),
        vec!["The Type Stream has an invalid value for type_index_begin (T_UCHAR). It is less than the minimum required value (4096).".to_string()]
    );
    assert_eq!(
        type_stream_messages(&type_stream(56, 0x1005, 0x1004, 0, 64)),
        vec!["The Type Stream has an invalid value for type_index_end (T#0x1004). It is less than type_index_begin (T#0x1005).".to_string()]
    );
    assert_eq!(
        type_stream_messages(&type_stream(100, 0x1000, 0x1000, 0, 64)),
        vec!["The Type Stream Header specifies a header_size (100) that is larger than the size of the stream.".to_string()]
    );
    assert_eq!(
        type_stream_messages(&type_stream(56, 0x1000, 0x1000, 10, 64)),
        vec!["The Type Stream Header specifies a types_size (10) that exceeds the remaining data in the stream (8).".to_string()]
    );
    assert_eq!(
        type_stream_messages(&type_stream(56, 0x1000, 0x1000, 3, 64)),
        vec!["The Type Stream is invalid. The Type Stream Header specifies a types_size (3) that is not aligned to 2-byte boundaries.".to_string()]
    );
}

#[test]
fn type_index_debug_text() {
    assert_eq!(TypeIndex(0x1234).to_debug_string(), "T#0x1234");
    assert_eq!(TypeIndex(0x74).to_debug_string(), "T_INT4");
}
