//! Type record kinds (the `LF_*` codes, also called "leaf" codes).

use vstd::prelude::*;
use crate::syms::kind::{display_byte, display_byte_char};
use crate::text::{hex_padded, push_char, push_hex, push_str};

verus! {

/// Identifies type records. Also called "leaf" records.
#[derive(Copy, Clone, Debug, PartialEq, Eq, Structural, PartialOrd, Ord, Hash)]
pub struct Leaf(pub u16);

/// Leaf kind codes.
#[allow(non_upper_case_globals)]
pub const LF_MODIFIER_16t: u16 = 0x0001;
#[allow(non_upper_case_globals)]
pub const LF_POINTER_16t: u16 = 0x0002;
#[allow(non_upper_case_globals)]
pub const LF_ARRAY_16t: u16 = 0x0003;
#[allow(non_upper_case_globals)]
pub const LF_CLASS_16t: u16 = 0x0004;
#[allow(non_upper_case_globals)]
pub const LF_STRUCTURE_16t: u16 = 0x0005;
#[allow(non_upper_case_globals)]
pub const LF_UNION_16t: u16 = 0x0006;
#[allow(non_upper_case_globals)]
pub const LF_ENUM_16t: u16 = 0x0007;
#[allow(non_upper_case_globals)]
pub const LF_PROCEDURE_16t: u16 = 0x0008;
#[allow(non_upper_case_globals)]
pub const LF_MFUNCTION_16t: u16 = 0x0009;
#[allow(non_upper_case_globals)]
pub const LF_VTSHAPE: u16 = 0x000a;
#[allow(non_upper_case_globals)]
pub const LF_COBOL1: u16 = 0x000c;
#[allow(non_upper_case_globals)]
pub const LF_LABEL: u16 = 0x000e;
#[allow(non_upper_case_globals)]
pub const LF_NULL: u16 = 0x000f;
#[allow(non_upper_case_globals)]
pub const LF_ENDPRECOMP: u16 = 0x0014;
#[allow(non_upper_case_globals)]
pub const LF_REFSYM: u16 = 0x020c;
#[allow(non_upper_case_globals)]
pub const LF_FRIENDCLS: u16 = 0x040b;
#[allow(non_upper_case_globals)]
pub const LF_MODIFIER: u16 = 0x1001;
#[allow(non_upper_case_globals)]
pub const LF_POINTER: u16 = 0x1002;
#[allow(non_upper_case_globals)]
pub const LF_PROCEDURE: u16 = 0x1008;
#[allow(non_upper_case_globals)]
pub const LF_MFUNCTION: u16 = 0x1009;
#[allow(non_upper_case_globals)]
pub const LF_COBOL0: u16 = 0x100a;
#[allow(non_upper_case_globals)]
pub const LF_BARRAY: u16 = 0x100b;
#[allow(non_upper_case_globals)]
pub const LF_VFTPATH: u16 = 0x100d;
#[allow(non_upper_case_globals)]
pub const LF_OEM: u16 = 0x100f;
#[allow(non_upper_case_globals)]
pub const LF_OEM2: u16 = 0x1011;
#[allow(non_upper_case_globals)]
pub const LF_SKIP: u16 = 0x1200;
#[allow(non_upper_case_globals)]
pub const LF_ARGLIST: u16 = 0x1201;
#[allow(non_upper_case_globals)]
pub const LF_FIELDLIST: u16 = 0x1203;
#[allow(non_upper_case_globals)]
pub const LF_DERIVED: u16 = 0x1204;
#[allow(non_upper_case_globals)]
pub const LF_BITFIELD: u16 = 0x1205;
#[allow(non_upper_case_globals)]
pub const LF_METHODLIST: u16 = 0x1206;
#[allow(non_upper_case_globals)]
pub const LF_DIMCONU: u16 = 0x1207;
#[allow(non_upper_case_globals)]
pub const LF_DIMCONLU: u16 = 0x1208;
#[allow(non_upper_case_globals)]
pub const LF_DIMVARU: u16 = 0x1209;
#[allow(non_upper_case_globals)]
pub const LF_DIMVARLU: u16 = 0x120a;
#[allow(non_upper_case_globals)]
pub const LF_BCLASS: u16 = 0x1400;
#[allow(non_upper_case_globals)]
pub const LF_VBCLASS: u16 = 0x1401;
#[allow(non_upper_case_globals)]
pub const LF_IVBCLASS: u16 = 0x1402;
#[allow(non_upper_case_globals)]
pub const LF_INDEX: u16 = 0x1404;
#[allow(non_upper_case_globals)]
pub const LF_VFUNCTAB: u16 = 0x1409;
#[allow(non_upper_case_globals)]
pub const LF_VFUNCOFF: u16 = 0x140c;
#[allow(non_upper_case_globals)]
pub const LF_ENUMERATE: u16 = 0x1502;
#[allow(non_upper_case_globals)]
pub const LF_ARRAY: u16 = 0x1503;
#[allow(non_upper_case_globals)]
pub const LF_CLASS: u16 = 0x1504;
#[allow(non_upper_case_globals)]
pub const LF_STRUCTURE: u16 = 0x1505;
#[allow(non_upper_case_globals)]
pub const LF_UNION: u16 = 0x1506;
#[allow(non_upper_case_globals)]
pub const LF_ENUM: u16 = 0x1507;
#[allow(non_upper_case_globals)]
pub const LF_DIMARRAY: u16 = 0x1508;
#[allow(non_upper_case_globals)]
pub const LF_PRECOMP: u16 = 0x1509;
#[allow(non_upper_case_globals)]
pub const LF_ALIAS: u16 = 0x150a;
#[allow(non_upper_case_globals)]
pub const LF_DEFARG: u16 = 0x150b;
#[allow(non_upper_case_globals)]
pub const LF_FRIENDFCN: u16 = 0x150c;
#[allow(non_upper_case_globals)]
pub const LF_MEMBER: u16 = 0x150d;
#[allow(non_upper_case_globals)]
pub const LF_STMEMBER: u16 = 0x150e;
#[allow(non_upper_case_globals)]
pub const LF_METHOD: u16 = 0x150f;
#[allow(non_upper_case_globals)]
pub const LF_NESTEDTYPE: u16 = 0x1510;
#[allow(non_upper_case_globals)]
pub const LF_ONEMETHOD: u16 = 0x1511;
#[allow(non_upper_case_globals)]
pub const LF_NESTEDTYPEEX: u16 = 0x1512;
#[allow(non_upper_case_globals)]
pub const LF_MANAGED: u16 = 0x1514;
#[allow(non_upper_case_globals)]
pub const LF_TYPESERVER2: u16 = 0x1515;
#[allow(non_upper_case_globals)]
pub const LF_INTERFACE: u16 = 0x1519;
#[allow(non_upper_case_globals)]
pub const LF_VFTABLE: u16 = 0x151d;
#[allow(non_upper_case_globals)]
pub const LF_FUNC_ID: u16 = 0x1601;
#[allow(non_upper_case_globals)]
pub const LF_MFUNC_ID: u16 = 0x1602;
#[allow(non_upper_case_globals)]
pub const LF_BUILDINFO: u16 = 0x1603;
#[allow(non_upper_case_globals)]
pub const LF_SUBSTR_LIST: u16 = 0x1604;
#[allow(non_upper_case_globals)]
pub const LF_STRING_ID: u16 = 0x1605;
#[allow(non_upper_case_globals)]
pub const LF_UDT_SRC_LINE: u16 = 0x1606;
#[allow(non_upper_case_globals)]
pub const LF_UDT_MOD_SRC_LINE: u16 = 0x1607;
#[allow(non_upper_case_globals)]
pub const LF_CLASS2: u16 = 0x1608;
#[allow(non_upper_case_globals)]
pub const LF_STRUCTURE2: u16 = 0x1609;
#[allow(non_upper_case_globals)]
pub const LF_UNION2: u16 = 0x160a;
#[allow(non_upper_case_globals)]
pub const LF_INTERFACE2: u16 = 0x160b;
#[allow(non_upper_case_globals)]
pub const LF_CHAR: u16 = 0x8000;
#[allow(non_upper_case_globals)]
pub const LF_SHORT: u16 = 0x8001;
#[allow(non_upper_case_globals)]
pub const LF_USHORT: u16 = 0x8002;
#[allow(non_upper_case_globals)]
pub const LF_LONG: u16 = 0x8003;
#[allow(non_upper_case_globals)]
pub const LF_ULONG: u16 = 0x8004;
#[allow(non_upper_case_globals)]
pub const LF_REAL32: u16 = 0x8005;
#[allow(non_upper_case_globals)]
pub const LF_REAL64: u16 = 0x8006;
#[allow(non_upper_case_globals)]
pub const LF_REAL80: u16 = 0x8007;
#[allow(non_upper_case_globals)]
pub const LF_REAL128: u16 = 0x8008;
#[allow(non_upper_case_globals)]
pub const LF_QUADWORD: u16 = 0x8009;
#[allow(non_upper_case_globals)]
pub const LF_UQUADWORD: u16 = 0x800a;
#[allow(non_upper_case_globals)]
pub const LF_REAL48: u16 = 0x800b;
#[allow(non_upper_case_globals)]
pub const LF_COMPLEX32: u16 = 0x800c;
#[allow(non_upper_case_globals)]
pub const LF_COMPLEX64: u16 = 0x800d;
#[allow(non_upper_case_globals)]
pub const LF_COMPLEX80: u16 = 0x800e;
#[allow(non_upper_case_globals)]
pub const LF_COMPLEX128: u16 = 0x800f;
#[allow(non_upper_case_globals)]
pub const LF_VARSTRING: u16 = 0x8010;
#[allow(non_upper_case_globals)]
pub const LF_OCTWORD: u16 = 0x8017;
#[allow(non_upper_case_globals)]
pub const LF_UOCTWORD: u16 = 0x8018;
#[allow(non_upper_case_globals)]
pub const LF_DECIMAL: u16 = 0x8019;
#[allow(non_upper_case_globals)]
pub const LF_DATE: u16 = 0x801a;
#[allow(non_upper_case_globals)]
pub const LF_UTF8STRING: u16 = 0x801b;
#[allow(non_upper_case_globals)]
pub const LF_REAL16: u16 = 0x801c;

/// The name of the leaf kind with the given code, if it has one.
pub open spec fn leaf_name(code: u16) -> Option<&'static str> {
    match code {
        0x0001 => Some("LF_MODIFIER_16t"),
        0x0002 => Some("LF_POINTER_16t"),
        0x0003 => Some("LF_ARRAY_16t"),
        0x0004 => Some("LF_CLASS_16t"),
        0x0005 => Some("LF_STRUCTURE_16t"),
        0x0006 => Some("LF_UNION_16t"),
        0x0007 => Some("LF_ENUM_16t"),
        0x0008 => Some("LF_PROCEDURE_16t"),
        0x0009 => Some("LF_MFUNCTION_16t"),
        0x000a => Some("LF_VTSHAPE"),
        0x000c => Some("LF_COBOL1"),
        0x000e => Some("LF_LABEL"),
        0x000f => Some("LF_NULL"),
        0x0014 => Some("LF_ENDPRECOMP"),
        0x020c => Some("LF_REFSYM"),
        0x040b => Some("LF_FRIENDCLS"),
        0x1001 => Some("LF_MODIFIER"),
        0x1002 => Some("LF_POINTER"),
        0x1008 => Some("LF_PROCEDURE"),
        0x1009 => Some("LF_MFUNCTION"),
        0x100a => Some("LF_COBOL0"),
        0x100b => Some("LF_BARRAY"),
        0x100d => Some("LF_VFTPATH"),
        0x100f => Some("LF_OEM"),
        0x1011 => Some("LF_OEM2"),
        0x1200 => Some("LF_SKIP"),
        0x1201 => Some("LF_ARGLIST"),
        0x1203 => Some("LF_FIELDLIST"),
        0x1204 => Some("LF_DERIVED"),
        0x1205 => Some("LF_BITFIELD"),
        0x1206 => Some("LF_METHODLIST"),
        0x1207 => Some("LF_DIMCONU"),
        0x1208 => Some("LF_DIMCONLU"),
        0x1209 => Some("LF_DIMVARU"),
        0x120a => Some("LF_DIMVARLU"),
        0x1400 => Some("LF_BCLASS"),
        0x1401 => Some("LF_VBCLASS"),
        0x1402 => Some("LF_IVBCLASS"),
        0x1404 => Some("LF_INDEX"),
        0x1409 => Some("LF_VFUNCTAB"),
        0x140c => Some("LF_VFUNCOFF"),
        0x1502 => Some("LF_ENUMERATE"),
        0x1503 => Some("LF_ARRAY"),
        0x1504 => Some("LF_CLASS"),
        0x1505 => Some("LF_STRUCTURE"),
        0x1506 => Some("LF_UNION"),
        0x1507 => Some("LF_ENUM"),
        0x1508 => Some("LF_DIMARRAY"),
        0x1509 => Some("LF_PRECOMP"),
        0x150a => Some("LF_ALIAS"),
        0x150b => Some("LF_DEFARG"),
        0x150c => Some("LF_FRIENDFCN"),
        0x150d => Some("LF_MEMBER"),
        0x150e => Some("LF_STMEMBER"),
        0x150f => Some("LF_METHOD"),
        0x1510 => Some("LF_NESTEDTYPE"),
        0x1511 => Some("LF_ONEMETHOD"),
        0x1512 => Some("LF_NESTEDTYPEEX"),
        0x1514 => Some("LF_MANAGED"),
        0x1515 => Some("LF_TYPESERVER2"),
        0x1519 => Some("LF_INTERFACE"),
        0x151d => Some("LF_VFTABLE"),
        0x1601 => Some("LF_FUNC_ID"),
        0x1602 => Some("LF_MFUNC_ID"),
        0x1603 => Some("LF_BUILDINFO"),
        0x1604 => Some("LF_SUBSTR_LIST"),
        0x1605 => Some("LF_STRING_ID"),
        0x1606 => Some("LF_UDT_SRC_LINE"),
        0x1607 => Some("LF_UDT_MOD_SRC_LINE"),
        0x1608 => Some("LF_CLASS2"),
        0x1609 => Some("LF_STRUCTURE2"),
        0x160a => Some("LF_UNION2"),
        0x160b => Some("LF_INTERFACE2"),
        0x8000 => Some("LF_CHAR"),
        0x8001 => Some("LF_SHORT"),
        0x8002 => Some("LF_USHORT"),
        0x8003 => Some("LF_LONG"),
        0x8004 => Some("LF_ULONG"),
        0x8005 => Some("LF_REAL32"),
        0x8006 => Some("LF_REAL64"),
        0x8007 => Some("LF_REAL80"),
        0x8008 => Some("LF_REAL128"),
        0x8009 => Some("LF_QUADWORD"),
        0x800a => Some("LF_UQUADWORD"),
        0x800b => Some("LF_REAL48"),
        0x800c => Some("LF_COMPLEX32"),
        0x800d => Some("LF_COMPLEX64"),
        0x800e => Some("LF_COMPLEX80"),
        0x800f => Some("LF_COMPLEX128"),
        0x8010 => Some("LF_VARSTRING"),
        0x8017 => Some("LF_OCTWORD"),
        0x8018 => Some("LF_UOCTWORD"),
        0x8019 => Some("LF_DECIMAL"),
        0x801a => Some("LF_DATE"),
        0x801b => Some("LF_UTF8STRING"),
        0x801c => Some("LF_REAL16"),
        _ => None,
    }
}

/// The leaf kinds that can be used as a type record.
pub open spec fn spec_can_start_record(l: Leaf) -> bool {
    l.0 == LF_MODIFIER || l.0 == LF_POINTER || l.0 == LF_ARRAY || l.0 == LF_CLASS || l.0 == LF_STRUCTURE || l.0 == LF_UNION || l.0 == LF_ENUM || l.0 == LF_PROCEDURE || l.0 == LF_MFUNCTION || l.0 == LF_VTSHAPE || l.0 == LF_COBOL0 || l.0 == LF_COBOL1 || l.0 == LF_BARRAY || l.0 == LF_LABEL || l.0 == LF_NULL || l.0 == LF_DIMARRAY || l.0 == LF_VFTPATH || l.0 == LF_PRECOMP || l.0 == LF_ENDPRECOMP || l.0 == LF_OEM || l.0 == LF_OEM2 || l.0 == LF_ALIAS || l.0 == LF_MANAGED || l.0 == LF_TYPESERVER2
}

/// The leaf kinds that can be used within a field list record.
pub open spec fn spec_is_nested_leaf(l: Leaf) -> bool {
    l.0 == LF_SKIP || l.0 == LF_ARGLIST || l.0 == LF_DEFARG || l.0 == LF_FIELDLIST || l.0 == LF_DERIVED || l.0 == LF_BITFIELD || l.0 == LF_METHODLIST || l.0 == LF_DIMCONU || l.0 == LF_DIMCONLU || l.0 == LF_DIMVARU || l.0 == LF_DIMVARLU || l.0 == LF_REFSYM
}

impl Leaf {
    /// The name of this code, if it is a known one.
    pub fn name(self) -> (r: Option<&'static str>)
        ensures
            r == leaf_name(self.0),
    {
        match self.0 {
            0x0001 => Some("LF_MODIFIER_16t"),
            0x0002 => Some("LF_POINTER_16t"),
            0x0003 => Some("LF_ARRAY_16t"),
            0x0004 => Some("LF_CLASS_16t"),
            0x0005 => Some("LF_STRUCTURE_16t"),
            0x0006 => Some("LF_UNION_16t"),
            0x0007 => Some("LF_ENUM_16t"),
            0x0008 => Some("LF_PROCEDURE_16t"),
            0x0009 => Some("LF_MFUNCTION_16t"),
            0x000a => Some("LF_VTSHAPE"),
            0x000c => Some("LF_COBOL1"),
            0x000e => Some("LF_LABEL"),
            0x000f => Some("LF_NULL"),
            0x0014 => Some("LF_ENDPRECOMP"),
            0x020c => Some("LF_REFSYM"),
            0x040b => Some("LF_FRIENDCLS"),
            0x1001 => Some("LF_MODIFIER"),
            0x1002 => Some("LF_POINTER"),
            0x1008 => Some("LF_PROCEDURE"),
            0x1009 => Some("LF_MFUNCTION"),
            0x100a => Some("LF_COBOL0"),
            0x100b => Some("LF_BARRAY"),
            0x100d => Some("LF_VFTPATH"),
            0x100f => Some("LF_OEM"),
            0x1011 => Some("LF_OEM2"),
            0x1200 => Some("LF_SKIP"),
            0x1201 => Some("LF_ARGLIST"),
            0x1203 => Some("LF_FIELDLIST"),
            0x1204 => Some("LF_DERIVED"),
            0x1205 => Some("LF_BITFIELD"),
            0x1206 => Some("LF_METHODLIST"),
            0x1207 => Some("LF_DIMCONU"),
            0x1208 => Some("LF_DIMCONLU"),
            0x1209 => Some("LF_DIMVARU"),
            0x120a => Some("LF_DIMVARLU"),
            0x1400 => Some("LF_BCLASS"),
            0x1401 => Some("LF_VBCLASS"),
            0x1402 => Some("LF_IVBCLASS"),
            0x1404 => Some("LF_INDEX"),
            0x1409 => Some("LF_VFUNCTAB"),
            0x140c => Some("LF_VFUNCOFF"),
            0x1502 => Some("LF_ENUMERATE"),
            0x1503 => Some("LF_ARRAY"),
            0x1504 => Some("LF_CLASS"),
            0x1505 => Some("LF_STRUCTURE"),
            0x1506 => Some("LF_UNION"),
            0x1507 => Some("LF_ENUM"),
            0x1508 => Some("LF_DIMARRAY"),
            0x1509 => Some("LF_PRECOMP"),
            0x150a => Some("LF_ALIAS"),
            0x150b => Some("LF_DEFARG"),
            0x150c => Some("LF_FRIENDFCN"),
            0x150d => Some("LF_MEMBER"),
            0x150e => Some("LF_STMEMBER"),
            0x150f => Some("LF_METHOD"),
            0x1510 => Some("LF_NESTEDTYPE"),
            0x1511 => Some("LF_ONEMETHOD"),
            0x1512 => Some("LF_NESTEDTYPEEX"),
            0x1514 => Some("LF_MANAGED"),
            0x1515 => Some("LF_TYPESERVER2"),
            0x1519 => Some("LF_INTERFACE"),
            0x151d => Some("LF_VFTABLE"),
            0x1601 => Some("LF_FUNC_ID"),
            0x1602 => Some("LF_MFUNC_ID"),
            0x1603 => Some("LF_BUILDINFO"),
            0x1604 => Some("LF_SUBSTR_LIST"),
            0x1605 => Some("LF_STRING_ID"),
            0x1606 => Some("LF_UDT_SRC_LINE"),
            0x1607 => Some("LF_UDT_MOD_SRC_LINE"),
            0x1608 => Some("LF_CLASS2"),
            0x1609 => Some("LF_STRUCTURE2"),
            0x160a => Some("LF_UNION2"),
            0x160b => Some("LF_INTERFACE2"),
            0x8000 => Some("LF_CHAR"),
            0x8001 => Some("LF_SHORT"),
            0x8002 => Some("LF_USHORT"),
            0x8003 => Some("LF_LONG"),
            0x8004 => Some("LF_ULONG"),
            0x8005 => Some("LF_REAL32"),
            0x8006 => Some("LF_REAL64"),
            0x8007 => Some("LF_REAL80"),
            0x8008 => Some("LF_REAL128"),
            0x8009 => Some("LF_QUADWORD"),
            0x800a => Some("LF_UQUADWORD"),
            0x800b => Some("LF_REAL48"),
            0x800c => Some("LF_COMPLEX32"),
            0x800d => Some("LF_COMPLEX64"),
            0x800e => Some("LF_COMPLEX80"),
            0x800f => Some("LF_COMPLEX128"),
            0x8010 => Some("LF_VARSTRING"),
            0x8017 => Some("LF_OCTWORD"),
            0x8018 => Some("LF_UOCTWORD"),
            0x8019 => Some("LF_DECIMAL"),
            0x801a => Some("LF_DATE"),
            0x801b => Some("LF_UTF8STRING"),
            0x801c => Some("LF_REAL16"),
            _ => None,
        }
    }

    /// The text that `Debug` shows for this kind: its name, or its code in hexadecimal followed
    /// by its two bytes (low byte first) as characters.
    pub fn to_debug_string(&self) -> (s: String)
        ensures
            s@ == (match leaf_name(self.0) {
                Some(n) => n@,
                None => "Leaf(??"@ + hex_padded(self.0 as nat, 4) + " "@ + seq![
                    display_byte((self.0 % 0x100) as u8),
                    display_byte((self.0 / 0x100) as u8),
                ] + ")"@,
            }),
    {
        let mut s = String::new();
        match self.name() {
            Some(n) => {
                push_str(&mut s, n);
                assert(s@ =~= n@);
            },
            None => {
                push_str(&mut s, "Leaf(??");
                push_hex(&mut s, self.0 as u64, 4);
                push_str(&mut s, " ");
                push_char(&mut s, display_byte_char((self.0 % 0x100) as u8));
                push_char(&mut s, display_byte_char((self.0 / 0x100) as u8));
                push_str(&mut s, ")");
                assert(s@ =~= "Leaf(??"@ + hex_padded(self.0 as nat, 4) + " "@ + seq![
                    display_byte((self.0 % 0x100) as u8),
                    display_byte((self.0 / 0x100) as u8),
                ] + ")"@);
            },
        }
        s
    }

    /// True if this `Leaf` codes for an immediate numeric constant.
    pub fn is_immediate_numeric(self) -> (b: bool)
        ensures
            b <==> self.0 < 0x8000,
    {
        self.0 < 0x8000
    }

    /// Checks whether this `Leaf` can be used as a type record.
    pub fn can_start_record(self) -> (b: bool)
        ensures
            b <==> spec_can_start_record(self),
    {
        self.0 == LF_MODIFIER || self.0 == LF_POINTER || self.0 == LF_ARRAY || self.0 == LF_CLASS || self.0 == LF_STRUCTURE || self.0 == LF_UNION || self.0 == LF_ENUM || self.0 == LF_PROCEDURE || self.0 == LF_MFUNCTION || self.0 == LF_VTSHAPE || self.0 == LF_COBOL0 || self.0 == LF_COBOL1 || self.0 == LF_BARRAY || self.0 == LF_LABEL || self.0 == LF_NULL || self.0 == LF_DIMARRAY || self.0 == LF_VFTPATH || self.0 == LF_PRECOMP || self.0 == LF_ENDPRECOMP || self.0 == LF_OEM || self.0 == LF_OEM2 || self.0 == LF_ALIAS || self.0 == LF_MANAGED || self.0 == LF_TYPESERVER2
    }

    /// Checks whether this `Leaf` can be used within a field list record.
    pub fn is_nested_leaf(self) -> (b: bool)
        ensures
            b <==> spec_is_nested_leaf(self),
    {
        self.0 == LF_SKIP || self.0 == LF_ARGLIST || self.0 == LF_DEFARG || self.0 == LF_FIELDLIST || self.0 == LF_DERIVED || self.0 == LF_BITFIELD || self.0 == LF_METHODLIST || self.0 == LF_DIMCONU || self.0 == LF_DIMCONLU || self.0 == LF_DIMVARU || self.0 == LF_DIMVARLU || self.0 == LF_REFSYM
    }

    /// Indicates whether a given type record can contain references to other type records.
    /// Every kind is treated as possibly containing them.
    pub fn can_reference_types(self) -> (b: bool)
        ensures
            b,
    {
        true
    }
}

} // verus!
