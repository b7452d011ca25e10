use mspdb::parser::{Parser, ParserError};
use mspdb::types::kind::{Leaf, LF_ARGLIST, LF_CLASS, LF_FIELDLIST, LF_MEMBER, LF_ONEMETHOD, LF_POINTER, LF_UDT_SRC_LINE, LF_METHODLIST};
use mspdb::types::number::measure_number;
use mspdb::types::records::{introduces_virtual, MethodList, PointerFlags};
use mspdb::types::visitor::{
    type_index_locations, visit_type_indexes_in_record_slice, IndexKind, IndexLocation, IndexVisitor,
};
use mspdb::types::TypeIndex;

fn loc(kind: IndexKind, offset: usize) -> IndexLocation {
    IndexLocation { kind, offset }
}

#[test]
fn class_record_indexes() {
    let data = [
        2, 0,               // count
        0, 0,               // property
        0x00, 0x10, 0, 0,   // field list
        0, 0, 0, 0,         // derivation list
        0, 0, 0, 0,         // vtable shape
        8, 0,               // size (immediate number)
        b'S', 0,            // name
    ];
    let locs = type_index_locations(Leaf(LF_CLASS), &data).unwrap();
    assert_eq!(
        locs,
        vec![loc(IndexKind::Type, 4), loc(IndexKind::Type, 8), loc(IndexKind::Type, 12)]
    );
}

#[test]
fn arglist_indexes_and_truncation() {
    let data = [2, 0, 0, 0, 0x74, 0, 0, 0, 0x00, 0x10, 0, 0];
    let locs = type_index_locations(Leaf(LF_ARGLIST), &data).unwrap();
    assert_eq!(locs, vec![loc(IndexKind::Type, 4), loc(IndexKind::Type, 8)]);
    // The count says 3 arguments, but only 2 are present.
    let short = [3, 0, 0, 0, 0x74, 0, 0, 0, 0x00, 0x10, 0, 0];
    assert!(type_index_locations(Leaf(LF_ARGLIST), &short).is_err());
}

#[test]
fn unknown_record_kind_is_an_error() {
    assert!(type_index_locations(Leaf(0x7777), &[]).is_err());
}

#[test]
fn udt_src_line_has_a_name_index() {
    let data = [0x00, 0x10, 0, 0, 0x20, 0, 0, 0, 5, 0, 0, 0];
    let locs = type_index_locations(Leaf(LF_UDT_SRC_LINE), &data).unwrap();
    assert_eq!(locs, vec![loc(IndexKind::Type, 0), loc(IndexKind::Name, 4)]);
}

#[test]
fn pointer_to_member_has_class_type() {
    let mut data = vec![0x74, 0, 0, 0];
    data.extend_from_slice(&(2u32 << 5).to_le_bytes());
    data.extend_from_slice(&[0x00, 0x10, 0, 0]);
    let locs = type_index_locations(Leaf(LF_POINTER), &data).unwrap();
    assert_eq!(locs, vec![loc(IndexKind::Type, 0), loc(IndexKind::Type, 8)]);

    let plain = [0x74, 0, 0, 0, 0x0c, 0, 0, 0];
    let locs = type_index_locations(Leaf(LF_POINTER), &plain).unwrap();
    assert_eq!(locs, vec![loc(IndexKind::Type, 0)]);
    assert_eq!(PointerFlags::from_bits(2 << 5).mode(), 2);
}

#[test]
fn field_list_with_padding_and_unknown_member() {
    let mut data = Vec::new();
    // LF_MEMBER: attr, type, offset (immediate 4), name "a"
    data.extend_from_slice(&LF_MEMBER.to_le_bytes());
    data.extend_from_slice(&[3, 0]);
    data.extend_from_slice(&[0x74, 0, 0, 0]);
    data.extend_from_slice(&[4, 0]);
    data.extend_from_slice(b"a\0");
    // padding
    data.extend_from_slice(&[0xf2, 0xf1]);
    // LF_ONEMETHOD, introducing virtual (attr property 4 => bits 2..5 = 4)
    data.extend_from_slice(&LF_ONEMETHOD.to_le_bytes());
    data.extend_from_slice(&(4u16 << 2).to_le_bytes());
    data.extend_from_slice(&[0x01, 0x10, 0, 0]);
    data.extend_from_slice(&[8, 0, 0, 0]);
    data.extend_from_slice(b"f\0");
    // an unknown member kind stops the walk
    data.extend_from_slice(&[0x99, 0x99, 0xff, 0xff]);
    let locs = type_index_locations(Leaf(LF_FIELDLIST), &data).unwrap();
    assert_eq!(locs, vec![loc(IndexKind::Type, 4), loc(IndexKind::Type, 18)]);
    assert!(introduces_virtual(4 << 2));
    assert!(!introduces_virtual(1 << 2));
}

#[test]
fn method_list_entries() {
    let mut data = Vec::new();
    data.extend_from_slice(&[0, 0, 0, 0, 0x05, 0x10, 0, 0]);
    data.extend_from_slice(&(6u16 << 2).to_le_bytes());
    data.extend_from_slice(&[0, 0, 0x06, 0x10, 0, 0, 0x10, 0, 0, 0]);
    let locs = type_index_locations(Leaf(LF_METHODLIST), &data).unwrap();
    assert_eq!(locs, vec![loc(IndexKind::Type, 4), loc(IndexKind::Type, 12)]);

    let mut list = MethodList::parse(&data).unwrap();
    let first = list.next().unwrap().unwrap();
    assert_eq!(first.ty, TypeIndex(0x1005));
    assert_eq!(first.vtab_offset, None);
    let second = list.next().unwrap().unwrap();
    assert_eq!(second.ty, TypeIndex(0x1006));
    assert_eq!(second.vtab_offset, Some(0x10));
    assert!(list.next().unwrap().is_none());
}

struct Recorder<'a> {
    calls: &'a mut Vec<(char, usize, u32)>,
}

impl<'a> IndexVisitor for Recorder<'a> {
    fn type_index(&mut self, offset: usize, value: TypeIndex) -> Result<(), ParserError> {
        self.calls.push(('t', offset, value.0));
        Ok(())
    }

    fn item_id(&mut self, offset: usize, value: u32) -> Result<(), ParserError> {
        self.calls.push(('i', offset, value));
        Ok(())
    }

    fn name_index(&mut self, offset: usize, value: u32) -> Result<(), ParserError> {
        self.calls.push(('n', offset, value));
        Ok(())
    }
}

struct Refuser;

impl IndexVisitor for Refuser {
    fn type_index(&mut self, _offset: usize, _value: TypeIndex) -> Result<(), ParserError> {
        Err(ParserError::new())
    }

    fn item_id(&mut self, _offset: usize, _value: u32) -> Result<(), ParserError> {
        Err(ParserError::new())
    }

    fn name_index(&mut self, _offset: usize, _value: u32) -> Result<(), ParserError> {
        Err(ParserError::new())
    }
}

#[test]
fn visitor_receives_values() {
    let data = [2, 0, 0, 0, 0x74, 0, 0, 0, 0x00, 0x10, 0, 0];
    let mut seen = Vec::new();
    let r = visit_type_indexes_in_record_slice(Leaf(LF_ARGLIST), &data, Recorder { calls: &mut seen });
    assert!(r.is_ok());
    assert_eq!(seen, vec![('t', 4, 0x74), ('t', 8, 0x1000)]);
}

#[test]
fn visitor_receives_arglist_in_order() {
    let data = [2, 0, 0, 0, 0x00, 0x10, 0, 0, 0x74, 0, 0, 0];
    let mut seen = Vec::new();
    let r = visit_type_indexes_in_record_slice(Leaf(LF_ARGLIST), &data, Recorder { calls: &mut seen });
    assert!(r.is_ok());
    assert_eq!(seen, vec![('t', 4, 0x1000), ('t', 8, 0x74)]);
}

#[test]
fn visitor_receives_pointer_indexes() {
    // A pointer to a data member: the pointee type, the attributes, then the containing class.
    let data = [0x10, 0x10, 0, 0, 0x40, 0, 0, 0, 0x20, 0x10, 0, 0];
    let mut seen = Vec::new();
    let r = visit_type_indexes_in_record_slice(Leaf(LF_POINTER), &data, Recorder { calls: &mut seen });
    assert!(r.is_ok());
    assert_eq!(seen, vec![('t', 0, 0x1010), ('t', 8, 0x1020)]);
}

#[test]
fn visitor_unknown_kind_is_not_called() {
    let data = [2, 0, 0, 0, 0x00, 0x10, 0, 0, 0x74, 0, 0, 0];
    let mut seen = Vec::new();
    let r = visit_type_indexes_in_record_slice(Leaf(0x0001), &data, Recorder { calls: &mut seen });
    assert!(r.is_err());
    assert!(seen.is_empty());
}

#[test]
fn visitor_error_is_passed_on() {
    let data = [2, 0, 0, 0, 0x00, 0x10, 0, 0, 0x74, 0, 0, 0];
    assert!(visit_type_indexes_in_record_slice(Leaf(LF_ARGLIST), &data, Refuser).is_err());
    // A record without indexes never reaches the visitor.
    assert!(visit_type_indexes_in_record_slice(Leaf(LF_ARGLIST), &[0, 0, 0, 0], Refuser).is_ok());
}

#[test]
fn numbers() {
    assert_eq!(measure_number(&[5, 0]), Some(2));
    assert_eq!(measure_number(&[0x02, 0x80, 1, 2]), Some(4));
    assert_eq!(measure_number(&[0x04, 0x80, 1, 2]), None);
    assert_eq!(measure_number(&[0x10, 0x80, 2, 0, b'h', b'i']), Some(6));
    assert_eq!(measure_number(&[0x1b, 0x80, b'h', 0, 9]), Some(4));
    assert_eq!(measure_number(&[0x77, 0x80, 0, 0]), None);
    let mut p = Parser::new(&[0x03, 0x80, 1, 0, 0, 0, 7]);
    let n = p.number().unwrap();
    assert_eq!(n.bytes, &[0x03, 0x80, 1, 0, 0, 0]);
    assert_eq!(p.len(), 1);
}
