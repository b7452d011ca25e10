//! Symbol record kinds (the `S_*` codes).

use vstd::prelude::*;
use crate::text::{hex_padded, push_char, push_hex, push_str};

verus! {

/// Identifies symbol records.
#[derive(Copy, Clone, Debug, PartialEq, Eq, Structural, PartialOrd, Ord, Hash)]
pub struct SymKind(pub u16);

/// Symbol kind codes.
#[allow(non_upper_case_globals)]
pub const S_COMPILE: u16 = 0x0001;
#[allow(non_upper_case_globals)]
pub const S_END: u16 = 0x0006;
#[allow(non_upper_case_globals)]
pub const S_SKIP: u16 = 0x0007;
#[allow(non_upper_case_globals)]
pub const S_CVRESERVE: u16 = 0x0008;
#[allow(non_upper_case_globals)]
pub const S_OBJNAME_ST: u16 = 0x0009;
#[allow(non_upper_case_globals)]
pub const S_RETURN: u16 = 0x000d;
#[allow(non_upper_case_globals)]
pub const S_PROCREF_ST: u16 = 0x0400;
#[allow(non_upper_case_globals)]
pub const S_DATAREF_SET: u16 = 0x0401;
#[allow(non_upper_case_globals)]
pub const S_ALIGN: u16 = 0x0402;
#[allow(non_upper_case_globals)]
pub const S_LPROCREF_ST: u16 = 0x0403;
#[allow(non_upper_case_globals)]
pub const S_OEM: u16 = 0x0404;
#[allow(non_upper_case_globals)]
pub const S_TI16_MAX: u16 = 0x1000;
#[allow(non_upper_case_globals)]
pub const S_REGISTER_ST: u16 = 0x1001;
#[allow(non_upper_case_globals)]
pub const S_CONSTANT_ST: u16 = 0x1002;
#[allow(non_upper_case_globals)]
pub const S_UDT_ST: u16 = 0x1003;
#[allow(non_upper_case_globals)]
pub const S_COBOLUDT_ST: u16 = 0x1004;
#[allow(non_upper_case_globals)]
pub const S_MANYREG_ST: u16 = 0x1005;
#[allow(non_upper_case_globals)]
pub const S_BPREL32_ST: u16 = 0x1006;
#[allow(non_upper_case_globals)]
pub const S_LDATA32_ST: u16 = 0x1007;
#[allow(non_upper_case_globals)]
pub const S_GDATA32_ST: u16 = 0x1008;
#[allow(non_upper_case_globals)]
pub const S_PUB32_ST: u16 = 0x1009;
#[allow(non_upper_case_globals)]
pub const S_LPROC32_ST: u16 = 0x100a;
#[allow(non_upper_case_globals)]
pub const S_GPROC32_ST: u16 = 0x100b;
#[allow(non_upper_case_globals)]
pub const S_VFTABLE32: u16 = 0x100c;
#[allow(non_upper_case_globals)]
pub const S_REGREL32_ST: u16 = 0x100d;
#[allow(non_upper_case_globals)]
pub const S_LTHREAD32_ST: u16 = 0x100e;
#[allow(non_upper_case_globals)]
pub const S_GTHREAD32_ST: u16 = 0x100f;
#[allow(non_upper_case_globals)]
pub const S_FRAMEPROC: u16 = 0x1012;
#[allow(non_upper_case_globals)]
pub const S_ANNOTATION: u16 = 0x1019;
#[allow(non_upper_case_globals)]
pub const S_OBJNAME: u16 = 0x1101;
#[allow(non_upper_case_globals)]
pub const S_THUNK32: u16 = 0x1102;
#[allow(non_upper_case_globals)]
pub const S_BLOCK32: u16 = 0x1103;
#[allow(non_upper_case_globals)]
pub const S_LABEL32: u16 = 0x1105;
#[allow(non_upper_case_globals)]
pub const S_REGISTER: u16 = 0x1106;
#[allow(non_upper_case_globals)]
pub const S_CONSTANT: u16 = 0x1107;
#[allow(non_upper_case_globals)]
pub const S_UDT: u16 = 0x1108;
#[allow(non_upper_case_globals)]
pub const S_BPREL32: u16 = 0x110b;
#[allow(non_upper_case_globals)]
pub const S_LDATA32: u16 = 0x110c;
#[allow(non_upper_case_globals)]
pub const S_GDATA32: u16 = 0x110d;
#[allow(non_upper_case_globals)]
pub const S_PUB32: u16 = 0x110e;
#[allow(non_upper_case_globals)]
pub const S_LPROC32: u16 = 0x110f;
#[allow(non_upper_case_globals)]
pub const S_GPROC32: u16 = 0x1110;
#[allow(non_upper_case_globals)]
pub const S_REGREL32: u16 = 0x1111;
#[allow(non_upper_case_globals)]
pub const S_LTHREAD32: u16 = 0x1112;
#[allow(non_upper_case_globals)]
pub const S_GTHREAD32: u16 = 0x1113;
#[allow(non_upper_case_globals)]
pub const S_COMPILE2: u16 = 0x1116;
#[allow(non_upper_case_globals)]
pub const S_LMANDATA: u16 = 0x111c;
#[allow(non_upper_case_globals)]
pub const S_GMANDATA: u16 = 0x111d;
#[allow(non_upper_case_globals)]
pub const S_MANSLOT: u16 = 0x1120;
#[allow(non_upper_case_globals)]
pub const S_MANMANYREG: u16 = 0x1121;
#[allow(non_upper_case_globals)]
pub const S_MANREGREL: u16 = 0x1122;
#[allow(non_upper_case_globals)]
pub const S_MANMANYREG2: u16 = 0x1123;
#[allow(non_upper_case_globals)]
pub const S_UNAMESPACE: u16 = 0x1124;
#[allow(non_upper_case_globals)]
pub const S_PROCREF: u16 = 0x1125;
#[allow(non_upper_case_globals)]
pub const S_DATAREF: u16 = 0x1126;
#[allow(non_upper_case_globals)]
pub const S_LPROCREF: u16 = 0x1127;
#[allow(non_upper_case_globals)]
pub const S_ANNOTATIONREF: u16 = 0x1128;
#[allow(non_upper_case_globals)]
pub const S_TOKENREF: u16 = 0x1129;
#[allow(non_upper_case_globals)]
pub const S_GMANPROC: u16 = 0x112a;
#[allow(non_upper_case_globals)]
pub const S_LMANPROC: u16 = 0x112b;
#[allow(non_upper_case_globals)]
pub const S_TRAMPOLINE: u16 = 0x112c;
#[allow(non_upper_case_globals)]
pub const S_MANCONSTANT: u16 = 0x112d;
#[allow(non_upper_case_globals)]
pub const S_ATTR_FRAMEREL: u16 = 0x112e;
#[allow(non_upper_case_globals)]
pub const S_ATTR_REGISTER: u16 = 0x112f;
#[allow(non_upper_case_globals)]
pub const S_ATTR_REGREL: u16 = 0x1130;
#[allow(non_upper_case_globals)]
pub const S_ATTR_MANYREG: u16 = 0x1131;
#[allow(non_upper_case_globals)]
pub const S_SEPCODE: u16 = 0x1132;
#[allow(non_upper_case_globals)]
pub const S_LOCAL_2005: u16 = 0x1133;
#[allow(non_upper_case_globals)]
pub const S_DEFRANGE_2005: u16 = 0x1134;
#[allow(non_upper_case_globals)]
pub const S_DEFRANGE2_2005: u16 = 0x1135;
#[allow(non_upper_case_globals)]
pub const S_SECTION: u16 = 0x1136;
#[allow(non_upper_case_globals)]
pub const S_COFFGROUP: u16 = 0x1137;
#[allow(non_upper_case_globals)]
pub const S_EXPORT: u16 = 0x1138;
#[allow(non_upper_case_globals)]
pub const S_CALLSITEINFO: u16 = 0x1139;
#[allow(non_upper_case_globals)]
pub const S_FRAMECOOKIE: u16 = 0x113a;
#[allow(non_upper_case_globals)]
pub const S_DISCARDED: u16 = 0x113b;
#[allow(non_upper_case_globals)]
pub const S_COMPILE3: u16 = 0x113c;
#[allow(non_upper_case_globals)]
pub const S_ENVBLOCK: u16 = 0x113d;
#[allow(non_upper_case_globals)]
pub const S_LOCAL: u16 = 0x113e;
#[allow(non_upper_case_globals)]
pub const S_DEFRANGE: u16 = 0x113f;
#[allow(non_upper_case_globals)]
pub const S_DEFRANGE_SUBFIELD: u16 = 0x1140;
#[allow(non_upper_case_globals)]
pub const S_DEFRANGE_REGISTER: u16 = 0x1141;
#[allow(non_upper_case_globals)]
pub const S_DEFRANGE_FRAMEPOINTER_REL: u16 = 0x1142;
#[allow(non_upper_case_globals)]
pub const S_DEFRANGE_SUBFIELD_REGISTER: u16 = 0x1143;
#[allow(non_upper_case_globals)]
pub const S_DEFRANGE_FRAMEPOINTER_REL_FULL_SCOPE: u16 = 0x1144;
#[allow(non_upper_case_globals)]
pub const S_DEFRANGE_REGISTER_REL: u16 = 0x1145;
#[allow(non_upper_case_globals)]
pub const S_LPROC32_ID: u16 = 0x1146;
#[allow(non_upper_case_globals)]
pub const S_GPROC32_ID: u16 = 0x1147;
#[allow(non_upper_case_globals)]
pub const S_LPROCMIPS_ID: u16 = 0x1148;
#[allow(non_upper_case_globals)]
pub const S_GPROCMIPS_ID: u16 = 0x1149;
#[allow(non_upper_case_globals)]
pub const S_LPROCIA64_ID: u16 = 0x114a;
#[allow(non_upper_case_globals)]
pub const S_GPROCIA64_ID: u16 = 0x114b;
#[allow(non_upper_case_globals)]
pub const S_BUILDINFO: u16 = 0x114c;
#[allow(non_upper_case_globals)]
pub const S_INLINESITE: u16 = 0x114d;
#[allow(non_upper_case_globals)]
pub const S_INLINESITE_END: u16 = 0x114e;
#[allow(non_upper_case_globals)]
pub const S_PROC_ID_END: u16 = 0x114f;
#[allow(non_upper_case_globals)]
pub const S_DEFRANGE_HLSL: u16 = 0x1150;
#[allow(non_upper_case_globals)]
pub const S_GDATA_HLSL: u16 = 0x1151;
#[allow(non_upper_case_globals)]
pub const S_LDATA_HLSL: u16 = 0x1152;
#[allow(non_upper_case_globals)]
pub const S_FILESTATIC: u16 = 0x1153;
#[allow(non_upper_case_globals)]
pub const S_LOCAL_DPC_GROUPSHARED: u16 = 0x1154;
#[allow(non_upper_case_globals)]
pub const S_LPROC32_DPC: u16 = 0x1155;
#[allow(non_upper_case_globals)]
pub const S_LPROC32_DPC_ID: u16 = 0x1156;
#[allow(non_upper_case_globals)]
pub const S_DEFRANGE_DPC_PTR_TAG: u16 = 0x1157;
#[allow(non_upper_case_globals)]
pub const S_DPC_SYM_TAG_MAP: u16 = 0x1158;
#[allow(non_upper_case_globals)]
pub const S_ARMSWITCHTABLE: u16 = 0x1159;
#[allow(non_upper_case_globals)]
pub const S_CALLEES: u16 = 0x115a;
#[allow(non_upper_case_globals)]
pub const S_CALLERS: u16 = 0x115b;
#[allow(non_upper_case_globals)]
pub const S_POGODATA: u16 = 0x115c;
#[allow(non_upper_case_globals)]
pub const S_INLINESITE2: u16 = 0x115d;
#[allow(non_upper_case_globals)]
pub const S_HEAPALLOCSITE: u16 = 0x115e;
#[allow(non_upper_case_globals)]
pub const S_MOD_TYPEREF: u16 = 0x115f;
#[allow(non_upper_case_globals)]
pub const S_REF_MINIPDB: u16 = 0x1160;
#[allow(non_upper_case_globals)]
pub const S_PDBMAP: u16 = 0x1161;
#[allow(non_upper_case_globals)]
pub const S_GDATA_HLSL32: u16 = 0x1162;
#[allow(non_upper_case_globals)]
pub const S_LDATA_HLSL32: u16 = 0x1163;
#[allow(non_upper_case_globals)]
pub const S_GDATA_HLSL32_EX: u16 = 0x1164;
#[allow(non_upper_case_globals)]
pub const S_LDATA_HLSL32_EX: u16 = 0x1165;
#[allow(non_upper_case_globals)]
pub const S_FRAMEREG: u16 = 0x1166;
#[allow(non_upper_case_globals)]
pub const S_FASTLINK: u16 = 0x1167;
#[allow(non_upper_case_globals)]
pub const S_INLINEES: u16 = 0x1168;
#[allow(non_upper_case_globals)]
pub const S_HOTPATCHFUNC: u16 = 0x1169;
#[allow(non_upper_case_globals)]
pub const S_BPREL32_INDIR: u16 = 0x1170;
#[allow(non_upper_case_globals)]
pub const S_REGREL32_INDIR: u16 = 0x1171;
#[allow(non_upper_case_globals)]
pub const S_GPROC32EX: u16 = 0x1172;
#[allow(non_upper_case_globals)]
pub const S_LPROC32EX: u16 = 0x1173;
#[allow(non_upper_case_globals)]
pub const S_GPROC32EX_ID: u16 = 0x1174;
#[allow(non_upper_case_globals)]
pub const S_LPROC32EX_ID: u16 = 0x1175;
#[allow(non_upper_case_globals)]
pub const S_STATICLOCAL: u16 = 0x1176;
#[allow(non_upper_case_globals)]
pub const S_DEFRANGE_REGISTER_REL_INDIR: u16 = 0x1177;
#[allow(non_upper_case_globals)]
pub const S_BPREL32_ENCTMP: u16 = 0x1178;
#[allow(non_upper_case_globals)]
pub const S_REGREL32_ENCTMP: u16 = 0x1179;
#[allow(non_upper_case_globals)]
pub const S_BPREL32_INDIR_ENCTMP: u16 = 0x117a;
#[allow(non_upper_case_globals)]
pub const S_REGREL32_INDIR_ENCTMP: u16 = 0x117b;
#[allow(non_upper_case_globals)]
pub const S_ASSOCIATION: u16 = 0x117c;
#[allow(non_upper_case_globals)]
pub const S_HYBRIDRANGE: u16 = 0x117d;
#[allow(non_upper_case_globals)]
pub const S_SOURCELINK: u16 = 0x117e;
#[allow(non_upper_case_globals)]
pub const S_DEFRANGE_CONSTVAL_FULL_SCOPE: u16 = 0x117f;
#[allow(non_upper_case_globals)]
pub const S_DEFRANGE_GLOBALSYM_FULL_SCOPE: u16 = 0x1180;

/// The name of the symbol kind with the given code, if it has one.
pub open spec fn sym_kind_name(code: u16) -> Option<&'static str> {
    match code {
        0x0001 => Some("S_COMPILE"),
        0x0006 => Some("S_END"),
        0x0007 => Some("S_SKIP"),
        0x0008 => Some("S_CVRESERVE"),
        0x0009 => Some("S_OBJNAME_ST"),
        0x000d => Some("S_RETURN"),
        0x0400 => Some("S_PROCREF_ST"),
        0x0401 => Some("S_DATAREF_SET"),
        0x0402 => Some("S_ALIGN"),
        0x0403 => Some("S_LPROCREF_ST"),
        0x0404 => Some("S_OEM"),
        0x1000 => Some("S_TI16_MAX"),
        0x1001 => Some("S_REGISTER_ST"),
        0x1002 => Some("S_CONSTANT_ST"),
        0x1003 => Some("S_UDT_ST"),
        0x1004 => Some("S_COBOLUDT_ST"),
        0x1005 => Some("S_MANYREG_ST"),
        0x1006 => Some("S_BPREL32_ST"),
        0x1007 => Some("S_LDATA32_ST"),
        0x1008 => Some("S_GDATA32_ST"),
        0x1009 => Some("S_PUB32_ST"),
        0x100a => Some("S_LPROC32_ST"),
        0x100b => Some("S_GPROC32_ST"),
        0x100c => Some("S_VFTABLE32"),
        0x100d => Some("S_REGREL32_ST"),
        0x100e => Some("S_LTHREAD32_ST"),
        0x100f => Some("S_GTHREAD32_ST"),
        0x1012 => Some("S_FRAMEPROC"),
        0x1019 => Some("S_ANNOTATION"),
        0x1101 => Some("S_OBJNAME"),
        0x1102 => Some("S_THUNK32"),
        0x1103 => Some("S_BLOCK32"),
        0x1105 => Some("S_LABEL32"),
        0x1106 => Some("S_REGISTER"),
        0x1107 => Some("S_CONSTANT"),
        0x1108 => Some("S_UDT"),
        0x110b => Some("S_BPREL32"),
        0x110c => Some("S_LDATA32"),
        0x110d => Some("S_GDATA32"),
        0x110e => Some("S_PUB32"),
        0x110f => Some("S_LPROC32"),
        0x1110 => Some("S_GPROC32"),
        0x1111 => Some("S_REGREL32"),
        0x1112 => Some("S_LTHREAD32"),
        0x1113 => Some("S_GTHREAD32"),
        0x1116 => Some("S_COMPILE2"),
        0x111c => Some("S_LMANDATA"),
        0x111d => Some("S_GMANDATA"),
        0x1120 => Some("S_MANSLOT"),
        0x1121 => Some("S_MANMANYREG"),
        0x1122 => Some("S_MANREGREL"),
        0x1123 => Some("S_MANMANYREG2"),
        0x1124 => Some("S_UNAMESPACE"),
        0x1125 => Some("S_PROCREF"),
        0x1126 => Some("S_DATAREF"),
        0x1127 => Some("S_LPROCREF"),
        0x1128 => Some("S_ANNOTATIONREF"),
        0x1129 => Some("S_TOKENREF"),
        0x112a => Some("S_GMANPROC"),
        0x112b => Some("S_LMANPROC"),
        0x112c => Some("S_TRAMPOLINE"),
        0x112d => Some("S_MANCONSTANT"),
        0x112e => Some("S_ATTR_FRAMEREL"),
        0x112f => Some("S_ATTR_REGISTER"),
        0x1130 => Some("S_ATTR_REGREL"),
        0x1131 => Some("S_ATTR_MANYREG"),
        0x1132 => Some("S_SEPCODE"),
        0x1133 => Some("S_LOCAL_2005"),
        0x1134 => Some("S_DEFRANGE_2005"),
        0x1135 => Some("S_DEFRANGE2_2005"),
        0x1136 => Some("S_SECTION"),
        0x1137 => Some("S_COFFGROUP"),
        0x1138 => Some("S_EXPORT"),
        0x1139 => Some("S_CALLSITEINFO"),
        0x113a => Some("S_FRAMECOOKIE"),
        0x113b => Some("S_DISCARDED"),
        0x113c => Some("S_COMPILE3"),
        0x113d => Some("S_ENVBLOCK"),
        0x113e => Some("S_LOCAL"),
        0x113f => Some("S_DEFRANGE"),
        0x1140 => Some("S_DEFRANGE_SUBFIELD"),
        0x1141 => Some("S_DEFRANGE_REGISTER"),
        0x1142 => Some("S_DEFRANGE_FRAMEPOINTER_REL"),
        0x1143 => Some("S_DEFRANGE_SUBFIELD_REGISTER"),
        0x1144 => Some("S_DEFRANGE_FRAMEPOINTER_REL_FULL_SCOPE"),
        0x1145 => Some("S_DEFRANGE_REGISTER_REL"),
        0x1146 => Some("S_LPROC32_ID"),
        0x1147 => Some("S_GPROC32_ID"),
        0x1148 => Some("S_LPROCMIPS_ID"),
        0x1149 => Some("S_GPROCMIPS_ID"),
        0x114a => Some("S_LPROCIA64_ID"),
        0x114b => Some("S_GPROCIA64_ID"),
        0x114c => Some("S_BUILDINFO"),
        0x114d => Some("S_INLINESITE"),
        0x114e => Some("S_INLINESITE_END"),
        0x114f => Some("S_PROC_ID_END"),
        0x1150 => Some("S_DEFRANGE_HLSL"),
        0x1151 => Some("S_GDATA_HLSL"),
        0x1152 => Some("S_LDATA_HLSL"),
        0x1153 => Some("S_FILESTATIC"),
        0x1154 => Some("S_LOCAL_DPC_GROUPSHARED"),
        0x1155 => Some("S_LPROC32_DPC"),
        0x1156 => Some("S_LPROC32_DPC_ID"),
        0x1157 => Some("S_DEFRANGE_DPC_PTR_TAG"),
        0x1158 => Some("S_DPC_SYM_TAG_MAP"),
        0x1159 => Some("S_ARMSWITCHTABLE"),
        0x115a => Some("S_CALLEES"),
        0x115b => Some("S_CALLERS"),
        0x115c => Some("S_POGODATA"),
        0x115d => Some("S_INLINESITE2"),
        0x115e => Some("S_HEAPALLOCSITE"),
        0x115f => Some("S_MOD_TYPEREF"),
        0x1160 => Some("S_REF_MINIPDB"),
        0x1161 => Some("S_PDBMAP"),
        0x1162 => Some("S_GDATA_HLSL32"),
        0x1163 => Some("S_LDATA_HLSL32"),
        0x1164 => Some("S_GDATA_HLSL32_EX"),
        0x1165 => Some("S_LDATA_HLSL32_EX"),
        0x1166 => Some("S_FRAMEREG"),
        0x1167 => Some("S_FASTLINK"),
        0x1168 => Some("S_INLINEES"),
        0x1169 => Some("S_HOTPATCHFUNC"),
        0x1170 => Some("S_BPREL32_INDIR"),
        0x1171 => Some("S_REGREL32_INDIR"),
        0x1172 => Some("S_GPROC32EX"),
        0x1173 => Some("S_LPROC32EX"),
        0x1174 => Some("S_GPROC32EX_ID"),
        0x1175 => Some("S_LPROC32EX_ID"),
        0x1176 => Some("S_STATICLOCAL"),
        0x1177 => Some("S_DEFRANGE_REGISTER_REL_INDIR"),
        0x1178 => Some("S_BPREL32_ENCTMP"),
        0x1179 => Some("S_REGREL32_ENCTMP"),
        0x117a => Some("S_BPREL32_INDIR_ENCTMP"),
        0x117b => Some("S_REGREL32_INDIR_ENCTMP"),
        0x117c => Some("S_ASSOCIATION"),
        0x117d => Some("S_HYBRIDRANGE"),
        0x117e => Some("S_SOURCELINK"),
        0x117f => Some("S_DEFRANGE_CONSTVAL_FULL_SCOPE"),
        0x1180 => Some("S_DEFRANGE_GLOBALSYM_FULL_SCOPE"),
        _ => None,
    }
}

/// The character used to display a byte of a kind code: the byte itself when it is printable
/// ASCII, otherwise `_`.
pub open spec fn display_byte(b: u8) -> char {
    if 32 <= b && b <= 126 {
        b as char
    } else {
        '_'
    }
}

pub fn display_byte_char(b: u8) -> (c: char)
    ensures
        c == display_byte(b),
{
    if 32 <= b && b <= 126 {
        b as char
    } else {
        '_'
    }
}

impl SymKind {
    /// The name of this code, if it is a known one.
    pub fn name(self) -> (r: Option<&'static str>)
        ensures
            r == sym_kind_name(self.0),
    {
        match self.0 {
            0x0001 => Some("S_COMPILE"),
            0x0006 => Some("S_END"),
            0x0007 => Some("S_SKIP"),
            0x0008 => Some("S_CVRESERVE"),
            0x0009 => Some("S_OBJNAME_ST"),
            0x000d => Some("S_RETURN"),
            0x0400 => Some("S_PROCREF_ST"),
            0x0401 => Some("S_DATAREF_SET"),
            0x0402 => Some("S_ALIGN"),
            0x0403 => Some("S_LPROCREF_ST"),
            0x0404 => Some("S_OEM"),
            0x1000 => Some("S_TI16_MAX"),
            0x1001 => Some("S_REGISTER_ST"),
            0x1002 => Some("S_CONSTANT_ST"),
            0x1003 => Some("S_UDT_ST"),
            0x1004 => Some("S_COBOLUDT_ST"),
            0x1005 => Some("S_MANYREG_ST"),
            0x1006 => Some("S_BPREL32_ST"),
            0x1007 => Some("S_LDATA32_ST"),
            0x1008 => Some("S_GDATA32_ST"),
            0x1009 => Some("S_PUB32_ST"),
            0x100a => Some("S_LPROC32_ST"),
            0x100b => Some("S_GPROC32_ST"),
            0x100c => Some("S_VFTABLE32"),
            0x100d => Some("S_REGREL32_ST"),
            0x100e => Some("S_LTHREAD32_ST"),
            0x100f => Some("S_GTHREAD32_ST"),
            0x1012 => Some("S_FRAMEPROC"),
            0x1019 => Some("S_ANNOTATION"),
            0x1101 => Some("S_OBJNAME"),
            0x1102 => Some("S_THUNK32"),
            0x1103 => Some("S_BLOCK32"),
            0x1105 => Some("S_LABEL32"),
            0x1106 => Some("S_REGISTER"),
            0x1107 => Some("S_CONSTANT"),
            0x1108 => Some("S_UDT"),
            0x110b => Some("S_BPREL32"),
            0x110c => Some("S_LDATA32"),
            0x110d => Some("S_GDATA32"),
            0x110e => Some("S_PUB32"),
            0x110f => Some("S_LPROC32"),
            0x1110 => Some("S_GPROC32"),
            0x1111 => Some("S_REGREL32"),
            0x1112 => Some("S_LTHREAD32"),
            0x1113 => Some("S_GTHREAD32"),
            0x1116 => Some("S_COMPILE2"),
            0x111c => Some("S_LMANDATA"),
            0x111d => Some("S_GMANDATA"),
            0x1120 => Some("S_MANSLOT"),
            0x1121 => Some("S_MANMANYREG"),
            0x1122 => Some("S_MANREGREL"),
            0x1123 => Some("S_MANMANYREG2"),
            0x1124 => Some("S_UNAMESPACE"),
            0x1125 => Some("S_PROCREF"),
            0x1126 => Some("S_DATAREF"),
            0x1127 => Some("S_LPROCREF"),
            0x1128 => Some("S_ANNOTATIONREF"),
            0x1129 => Some("S_TOKENREF"),
            0x112a => Some("S_GMANPROC"),
            0x112b => Some("S_LMANPROC"),
            0x112c => Some("S_TRAMPOLINE"),
            0x112d => Some("S_MANCONSTANT"),
            0x112e => Some("S_ATTR_FRAMEREL"),
            0x112f => Some("S_ATTR_REGISTER"),
            0x1130 => Some("S_ATTR_REGREL"),
            0x1131 => Some("S_ATTR_MANYREG"),
            0x1132 => Some("S_SEPCODE"),
            0x1133 => Some("S_LOCAL_2005"),
            0x1134 => Some("S_DEFRANGE_2005"),
            0x1135 => Some("S_DEFRANGE2_2005"),
            0x1136 => Some("S_SECTION"),
            0x1137 => Some("S_COFFGROUP"),
            0x1138 => Some("S_EXPORT"),
            0x1139 => Some("S_CALLSITEINFO"),
            0x113a => Some("S_FRAMECOOKIE"),
            0x113b => Some("S_DISCARDED"),
            0x113c => Some("S_COMPILE3"),
            0x113d => Some("S_ENVBLOCK"),
            0x113e => Some("S_LOCAL"),
            0x113f => Some("S_DEFRANGE"),
            0x1140 => Some("S_DEFRANGE_SUBFIELD"),
            0x1141 => Some("S_DEFRANGE_REGISTER"),
            0x1142 => Some("S_DEFRANGE_FRAMEPOINTER_REL"),
            0x1143 => Some("S_DEFRANGE_SUBFIELD_REGISTER"),
            0x1144 => Some("S_DEFRANGE_FRAMEPOINTER_REL_FULL_SCOPE"),
            0x1145 => Some("S_DEFRANGE_REGISTER_REL"),
            0x1146 => Some("S_LPROC32_ID"),
            0x1147 => Some("S_GPROC32_ID"),
            0x1148 => Some("S_LPROCMIPS_ID"),
            0x1149 => Some("S_GPROCMIPS_ID"),
            0x114a => Some("S_LPROCIA64_ID"),
            0x114b => Some("S_GPROCIA64_ID"),
            0x114c => Some("S_BUILDINFO"),
            0x114d => Some("S_INLINESITE"),
            0x114e => Some("S_INLINESITE_END"),
            0x114f => Some("S_PROC_ID_END"),
            0x1150 => Some("S_DEFRANGE_HLSL"),
            0x1151 => Some("S_GDATA_HLSL"),
            0x1152 => Some("S_LDATA_HLSL"),
            0x1153 => Some("S_FILESTATIC"),
            0x1154 => Some("S_LOCAL_DPC_GROUPSHARED"),
            0x1155 => Some("S_LPROC32_DPC"),
            0x1156 => Some("S_LPROC32_DPC_ID"),
            0x1157 => Some("S_DEFRANGE_DPC_PTR_TAG"),
            0x1158 => Some("S_DPC_SYM_TAG_MAP"),
            0x1159 => Some("S_ARMSWITCHTABLE"),
            0x115a => Some("S_CALLEES"),
            0x115b => Some("S_CALLERS"),
            0x115c => Some("S_POGODATA"),
            0x115d => Some("S_INLINESITE2"),
            0x115e => Some("S_HEAPALLOCSITE"),
            0x115f => Some("S_MOD_TYPEREF"),
            0x1160 => Some("S_REF_MINIPDB"),
            0x1161 => Some("S_PDBMAP"),
            0x1162 => Some("S_GDATA_HLSL32"),
            0x1163 => Some("S_LDATA_HLSL32"),
            0x1164 => Some("S_GDATA_HLSL32_EX"),
            0x1165 => Some("S_LDATA_HLSL32_EX"),
            0x1166 => Some("S_FRAMEREG"),
            0x1167 => Some("S_FASTLINK"),
            0x1168 => Some("S_INLINEES"),
            0x1169 => Some("S_HOTPATCHFUNC"),
            0x1170 => Some("S_BPREL32_INDIR"),
            0x1171 => Some("S_REGREL32_INDIR"),
            0x1172 => Some("S_GPROC32EX"),
            0x1173 => Some("S_LPROC32EX"),
            0x1174 => Some("S_GPROC32EX_ID"),
            0x1175 => Some("S_LPROC32EX_ID"),
            0x1176 => Some("S_STATICLOCAL"),
            0x1177 => Some("S_DEFRANGE_REGISTER_REL_INDIR"),
            0x1178 => Some("S_BPREL32_ENCTMP"),
            0x1179 => Some("S_REGREL32_ENCTMP"),
            0x117a => Some("S_BPREL32_INDIR_ENCTMP"),
            0x117b => Some("S_REGREL32_INDIR_ENCTMP"),
            0x117c => Some("S_ASSOCIATION"),
            0x117d => Some("S_HYBRIDRANGE"),
            0x117e => Some("S_SOURCELINK"),
            0x117f => Some("S_DEFRANGE_CONSTVAL_FULL_SCOPE"),
            0x1180 => Some("S_DEFRANGE_GLOBALSYM_FULL_SCOPE"),
            _ => None,
        }
    }

    /// The text that `Debug` shows for this kind: its name, or its code in hexadecimal followed by
    /// its two bytes (high byte first) as characters.
    pub fn to_debug_string(&self) -> (s: String)
        ensures
            s@ == sym_kind_debug(*self),
    {
        let mut s = String::new();
        match self.name() {
            Some(n) => {
                push_str(&mut s, n);
                assert(s@ =~= n@);
            },
            None => {
                push_str(&mut s, "S_(??");
                push_hex(&mut s, self.0 as u64, 4);
                push_str(&mut s, " ");
                push_char(&mut s, display_byte_char((self.0 / 0x100) as u8));
                push_char(&mut s, display_byte_char((self.0 % 0x100) as u8));
                push_str(&mut s, ")");
                assert(s@ =~= "S_(??"@ + hex_padded(self.0 as nat, 4) + " "@ + seq![
                    display_byte((self.0 / 0x100) as u8),
                    display_byte((self.0 % 0x100) as u8),
                ] + ")"@);
            },
        }
        s
    }

    /// True if this `SymKind` starts a "block". All symbols that start a block begin with a
    /// block header (parent and end offsets).
    pub fn starts_block(self) -> (b: bool)
        ensures
            b <==> spec_starts_block(self),
    {
        self == SymKind(S_GPROC32) || self == SymKind(S_LPROC32) || self == SymKind(S_LPROC32_DPC)
            || self == SymKind(S_LPROC32_DPC_ID) || self == SymKind(S_GPROC32_ID) || self
            == SymKind(S_BLOCK32) || self == SymKind(S_THUNK32) || self == SymKind(S_INLINESITE)
            || self == SymKind(S_INLINESITE2) || self == SymKind(S_SEPCODE) || self
            == SymKind(S_GMANPROC) || self == SymKind(S_LMANPROC)
    }

    /// Indicates whether this `SymKind` ends a scope.
    pub fn ends_scope(self) -> (b: bool)
        ensures
            b <==> spec_ends_scope(self),
    {
        self == SymKind(S_END) || self == SymKind(S_PROC_ID_END) || self == SymKind(S_INLINESITE_END)
    }

    /// Returns `true` if this symbol can be the _target_ of a "reference to symbol" in the
    /// Global Symbol Stream.
    pub fn is_refsym_target(self) -> (b: bool)
        ensures
            b <==> spec_is_refsym_target(self),
    {
        self == SymKind(S_GPROC32) || self == SymKind(S_LPROC32) || self == SymKind(S_GMANPROC)
            || self == SymKind(S_LMANPROC) || self == SymKind(S_GDATA32) || self
            == SymKind(S_LDATA32) || self == SymKind(S_ANNOTATION)
    }

    /// Returns `true` if this symbol can be the _source_ of a "reference to symbol" in the
    /// Global Symbol Stream.
    pub fn is_refsym_source(self) -> (b: bool)
        ensures
            b <==> (self == SymKind(S_LPROCREF) || self == SymKind(S_PROCREF) || self
                == SymKind(S_ANNOTATIONREF) || self == SymKind(S_TOKENREF) || self
                == SymKind(S_DATAREF)),
    {
        self == SymKind(S_LPROCREF) || self == SymKind(S_PROCREF) || self
            == SymKind(S_ANNOTATIONREF) || self == SymKind(S_TOKENREF) || self == SymKind(S_DATAREF)
    }
}

/// The text that `Debug` shows for a kind: its name, or its code in hexadecimal followed by its
/// two bytes (high byte first) as characters.
pub open spec fn sym_kind_debug(k: SymKind) -> Seq<char> {
    match sym_kind_name(k.0) {
        Some(n) => n@,
        None => "S_(??"@ + hex_padded(k.0 as nat, 4) + " "@ + seq![
            display_byte((k.0 / 0x100) as u8),
            display_byte((k.0 % 0x100) as u8),
        ] + ")"@,
    }
}

/// The kinds whose records begin with a block header and open a scope.
pub open spec fn spec_starts_block(k: SymKind) -> bool {
    k == SymKind(S_GPROC32) || k == SymKind(S_LPROC32) || k == SymKind(S_LPROC32_DPC) || k
        == SymKind(S_LPROC32_DPC_ID) || k == SymKind(S_GPROC32_ID) || k == SymKind(S_BLOCK32) || k
        == SymKind(S_THUNK32) || k == SymKind(S_INLINESITE) || k == SymKind(S_INLINESITE2) || k
        == SymKind(S_SEPCODE) || k == SymKind(S_GMANPROC) || k == SymKind(S_LMANPROC)
}

/// The kinds that can be the target of a "reference to symbol" in the Global Symbol Stream.
pub open spec fn spec_is_refsym_target(k: SymKind) -> bool {
    k == SymKind(S_GPROC32) || k == SymKind(S_LPROC32) || k == SymKind(S_GMANPROC) || k
        == SymKind(S_LMANPROC) || k == SymKind(S_GDATA32) || k == SymKind(S_LDATA32) || k
        == SymKind(S_ANNOTATION)
}

/// The kinds that close a scope.
pub open spec fn spec_ends_scope(k: SymKind) -> bool {
    k == SymKind(S_END) || k == SymKind(S_PROC_ID_END) || k == SymKind(S_INLINESITE_END)
}

/// No kind both starts and ends a scope.
pub proof fn lemma_no_kind_starts_and_ends_scope(k: SymKind)
    ensures
        !(spec_starts_block(k) && spec_ends_scope(k)),
{
}

} // verus!
