use mspdb::dump_utils::{indent, DumpRanges, DumpRangesSucc, HexDump, HexStr};
use mspdb::types::primitive::{dump_primitive_type_index, T_REAL32};
use mspdb::types::TypeIndex;

fn case_f(input: &[u32], expected: &str) {
    let dump = DumpRanges::new(input, |&a: &u32, &b: &u32| a + 1 == b);
    let actual_output = dump.to_string();
    assert_eq!(actual_output.as_str(), expected, "input: {:?}", input);
}

#[test]
fn test_dump_ranges_f() {
    case_f(&[], "");
    case_f(&[10u32], "10");
    case_f(&[10u32, 20], "10, 20");
    case_f(&[10u32, 11, 20], "10-11, 20");
    case_f(&[10u32, 12, 13, 14, 15, 20], "10, 12-15, 20");
}

fn case_succ(input: &[u32], expected: &str) {
    let dump = DumpRangesSucc::new(input);
    let actual_output = dump.to_string();
    assert_eq!(actual_output.as_str(), expected, "input: {:?}", input);
}

#[test]
fn test_dump_ranges_succ() {
    case_succ(&[], "");
    case_succ(&[10u32], "10");
    case_succ(&[10u32, 20], "10, 20");
    case_succ(&[10u32, 11, 20], "10-11, 20");
    case_succ(&[10u32, 12, 13, 14, 15, 20], "10, 12-15, 20");
}

#[test]
fn dump_ranges_succ_wraps_at_max() {
    case_succ(&[u32::MAX, 0, 1], "4294967295-1");
}

#[test]
fn test_dump() {
    let mut s = String::new();
    dump_primitive_type_index(&mut s, TypeIndex(T_REAL32));
    assert_eq!(s, "T_REAL32");

    s.clear();
    dump_primitive_type_index(&mut s, TypeIndex(0x067c));
}

#[test]
fn dump_unknown_primitive() {
    let mut s = String::new();
    dump_primitive_type_index(&mut s, TypeIndex(0x067c));
    assert_eq!(s, "??PRIM(0x067c) { ty: really_integer, mode: 6, size: 4 }");
    s.clear();
    dump_primitive_type_index(&mut s, TypeIndex(0x0095));
    assert_eq!(s, "??PRIM(0x0095) { ty: ??9, mode: 0, size: 5 }");
}

#[test]
fn hex_dump_basic() {
    let data: Vec<u8> = (0u8..20).collect();
    let text = HexDump::new(&data).to_string();
    assert_eq!(
        text,
        "00000000 :  00 01 02 03 04 05 06 07 08 09 0a 0b 0c 0d 0e 0f : ................\n\
         00000010 :  10 11 12 13                                     : ....\n"
    );
}

#[test]
fn hex_dump_repeated_rows() {
    let mut data = vec![0u8; 48];
    data.extend_from_slice(b"AB");
    let text = HexDump::new(&data).row_len(16).no_chars().to_string();
    assert_eq!(
        text,
        "00000000 : ... 00 repeated ...\n\
         00000030 :  41 42                                          \n"
    );

    let data = vec![7u8; 32];
    let text = HexDump::new(&data).at(0x100).to_string();
    assert_eq!(text, "00000100 : ... 07 repeated ...\n00000120 : (end)\n");
}

#[test]
fn hex_dump_rust_style_and_header() {
    let text = HexDump::new(b"hi!").rust_style().row_len(4).to_string();
    assert_eq!(text, "/* 00000000 */  0x68, 0x69, 0x21,       // hi!\n");

    let text = HexDump::new(&[1, 2]).header(true).chars(false).max(1).to_string();
    assert_eq!(
        text,
        "________ : 00 01 02 03 04 05 06 07-08 09 0a 0b 0c 0d 0e 0f\n\
         00000000 :  01                                             \n"
    );
}

#[test]
fn hex_str() {
    assert_eq!(HexStr::new(&[0xde, 0xad, 0x01]).to_string(), "de ad 01");
    assert_eq!(HexStr::new(&[0xde, 0xad, 0x01]).packed().to_string(), "dead01");
    assert_eq!(HexStr::new(&[0xde, 0xad, 0x01]).packed().max(2).to_string(), "de ad");
    assert_eq!(HexStr::new(&[]).to_string(), "");
}

#[test]
fn indent_spaces() {
    assert_eq!(indent(3).to_string(), "   ");
    assert_eq!(indent(0).to_string(), "");
}
