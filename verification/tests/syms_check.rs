use mspdb::diag::{DiagRef, Diags};
use mspdb::syms::check::{check_symbol_stream, SymCheckError, SymbolStreamKind};

const S_GPROC32: u16 = 0x1110;
const S_BLOCK32: u16 = 0x1103;
const S_END: u16 = 0x0006;
const S_UDT: u16 = 0x1108;

fn rec(kind: u16, payload: &[u8]) -> Vec<u8> {
    let mut r = Vec::new();
    r.extend_from_slice(&((payload.len() + 2) as u16).to_le_bytes());
    r.extend_from_slice(&kind.to_le_bytes());
    r.extend_from_slice(payload);
    r
}

fn block(kind: u16, parent: u32, end: u32) -> Vec<u8> {
    let mut p = Vec::new();
    p.extend_from_slice(&parent.to_le_bytes());
    p.extend_from_slice(&end.to_le_bytes());
    rec(kind, &p)
}

#[test]
fn well_formed_symbol_stream() {
    let mut data = block(S_GPROC32, 0, 4 + 24);
    data.extend(block(S_BLOCK32, 4, 4 + 20));
    data.extend(rec(S_END, &[]));
    data.extend(rec(S_END, &[]));
    let mut diags = Diags::new();
    assert_eq!(check_symbol_stream(&mut diags, SymbolStreamKind::Module, 9, &data), Ok(()));
    assert!(diags.diags.is_empty());
}

#[test]
fn end_without_scope() {
    let data = rec(S_END, &[]);
    let mut diags = Diags::new();
    assert_eq!(
        check_symbol_stream(&mut diags, SymbolStreamKind::Global, 9, &data),
        Err(SymCheckError::EndWithoutScope(0))
    );
    assert_eq!(
        SymCheckError::EndWithoutScope(0x10).to_string(),
        "(at 0x10) symbol ends a scope, but we're not inside a scope"
    );
}

#[test]
fn unclosed_scope() {
    let data = block(S_GPROC32, 0, 0);
    let mut diags = Diags::new();
    assert_eq!(
        check_symbol_stream(&mut diags, SymbolStreamKind::Global, 9, &data),
        Err(SymCheckError::UnclosedScope)
    );
}

#[test]
fn reports_bad_records() {
    // A misaligned record, a root block with a non-zero parent, and a nested block whose
    // parent pointer is wrong.
    let mut data = rec(S_UDT, &[1]);
    data.extend(block(S_GPROC32, 5, 0));
    data.extend(block(S_BLOCK32, 0x77, 0));
    data.extend(rec(S_END, &[]));
    data.extend(rec(S_END, &[]));
    let mut diags = Diags::new();
    assert_eq!(check_symbol_stream(&mut diags, SymbolStreamKind::Module, 9, &data), Ok(()));
    let messages: Vec<String> = diags.diags.iter().map(|d| d.message.clone()).collect();
    assert_eq!(
        messages,
        vec![
            "Record length is not 4-byte aligned".to_string(),
            "Found symbol S_GPROC32 at root scope with a non-zero pparent value".to_string(),
            "Found symbol kind S_BLOCK32 embedded in another symbol scope (S_GPROC32), with an incorrect parent index.\nIndex of parent record: 0x9\nParent pointer field of this record: 0x77".to_string(),
        ]
    );
    assert!(matches!(diags.diags[1].refs[0], DiagRef::StreamAt(9, 9)));
    assert_eq!(diags.num_errors, 3);
}

#[test]
fn stops_at_error_limit() {
    let mut data = Vec::new();
    for _ in 0..30 {
        data.extend(rec(S_UDT, &[1]));
    }
    let mut diags = Diags::new();
    assert_eq!(check_symbol_stream(&mut diags, SymbolStreamKind::Global, 1, &data), Ok(()));
    assert_eq!(diags.num_errors, 20);
}
