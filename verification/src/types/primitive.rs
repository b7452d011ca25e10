//! Primitive types

use vstd::prelude::*;
use crate::types::TypeIndex;
use crate::text::{dec_chars, push_dec, push_hex, push_str, hex_padded};

verus! {

pub const PRIMITIVE_TYPE_SPECIAL: u32 = 0;
pub const PRIMITIVE_TYPE_SIGNED_INT: u32 = 1;
pub const PRIMITIVE_TYPE_UNSIGNED_INT: u32 = 2;
pub const PRIMITIVE_TYPE_BOOL: u32 = 3;
pub const PRIMITIVE_TYPE_REAL: u32 = 4;
pub const PRIMITIVE_TYPE_COMPLEX: u32 = 5;
pub const PRIMITIVE_TYPE_SPECIAL2: u32 = 6;
pub const PRIMITIVE_TYPE_REALLY_INT: u32 = 7;

/// Primitive type: `none`
pub const T_NOTYPE: u32 = 0x0000;
/// Primitive type: `absolute symbol`
pub const T_ABS: u32 = 0x0001;
/// Primitive type: `segment type`
pub const T_SEGMENT: u32 = 0x0002;
/// Primitive type: `void`
pub const T_VOID: u32 = 0x0003;
/// Primitive type: `BASIC 8 byte currency value`
pub const T_CURRENCY: u32 = 0x0004;
/// Primitive type: `Near BASIC string`
pub const T_NBASICSTR: u32 = 0x0005;
/// Primitive type: `Far BASIC string`
pub const T_FBASICSTR: u32 = 0x0006;
/// Primitive type: `<type-not-translated>`
pub const T_NOTTRANS: u32 = 0x0007;
/// Primitive type: `HRESULT`
pub const T_HRESULT: u32 = 0x0008;
/// Primitive type: `char`
pub const T_CHAR: u32 = 0x0010;
/// Primitive type: `short`
pub const T_SHORT: u32 = 0x0011;
/// Primitive type: `long`
pub const T_LONG: u32 = 0x0012;
/// Primitive type: `long long`
pub const T_QUAD: u32 = 0x0013;
/// Primitive type: `__int128`
pub const T_OCT: u32 = 0x0014;
/// Primitive type: `unsigned char`
pub const T_UCHAR: u32 = 0x0020;
/// Primitive type: `unsigned short`
pub const T_USHORT: u32 = 0x0021;
/// Primitive type: `unsigned long`
pub const T_ULONG: u32 = 0x0022;
/// Primitive type: `unsigned long long`
pub const T_UQUAD: u32 = 0x0023;
/// Primitive type: `unsigned __int128`
pub const T_UOCT: u32 = 0x0024;
/// Primitive type: `bool`
pub const T_BOOL8: u32 = 0x0030;
/// Primitive type: `bool16`
pub const T_BOOL16: u32 = 0x0031;
/// Primitive type: `bool32`
pub const T_BOOL32: u32 = 0x0032;
/// Primitive type: `bool64`
pub const T_BOOL64: u32 = 0x0033;
/// Primitive type: `float`
pub const T_REAL32: u32 = 0x0040;
/// Primitive type: `double`
pub const T_REAL64: u32 = 0x0041;
/// Primitive type: `80 bit real`
pub const T_REAL80: u32 = 0x0042;
/// Primitive type: `128 bit real`
pub const T_REAL128: u32 = 0x0043;
/// Primitive type: `48 bit real`
pub const T_REAL48: u32 = 0x0044;
/// Primitive type: `32 bit PP real`
pub const T_REAL32PP: u32 = 0x0045;
/// Primitive type: `16 bit real`
pub const T_REAL16: u32 = 0x0046;
/// Primitive type: `32 bit complex`
pub const T_CPLX32: u32 = 0x0050;
/// Primitive type: `64 bit complex`
pub const T_CPLX64: u32 = 0x0051;
/// Primitive type: `80 bit complex`
pub const T_CPLX80: u32 = 0x0052;
/// Primitive type: `128 bit complex`
pub const T_CPLX128: u32 = 0x0053;
/// Primitive type: `bit`
pub const T_BIT: u32 = 0x0060;
/// Primitive type: `Pascal CHAR`
pub const T_PASCHAR: u32 = 0x0061;
/// Primitive type: `32-bit BOOL where true is 0xffffffff`
pub const T_BOOL32FF: u32 = 0x0062;
/// Primitive type: `__int8`
pub const T_INT1: u32 = 0x0068;
/// Primitive type: `unsigned __int8`
pub const T_UINT1: u32 = 0x0069;
/// Primitive type: `char`
pub const T_RCHAR: u32 = 0x0070;
/// Primitive type: `wchar_t`
pub const T_WCHAR: u32 = 0x0071;
/// Primitive type: `__int16`
pub const T_INT2: u32 = 0x0072;
/// Primitive type: `unsigned __int16`
pub const T_UINT2: u32 = 0x0073;
/// Primitive type: `__int32`
pub const T_INT4: u32 = 0x0074;
/// Primitive type: `unsigned __int32`
pub const T_UINT4: u32 = 0x0075;
/// Primitive type: `__int64`
pub const T_INT8: u32 = 0x0076;
/// Primitive type: `unsigned __int64`
pub const T_UINT8: u32 = 0x0077;
/// Primitive type: `128 bit signed int`
pub const T_INT16: u32 = 0x0078;
/// Primitive type: `128 bit unsigned int`
pub const T_UINT16: u32 = 0x0079;
/// Primitive type: `char16`
pub const T_CHAR16: u32 = 0x007a;
/// Primitive type: `char32`
pub const T_CHAR32: u32 = 0x007b;
/// Primitive type: `near pointer to void`
pub const T_PVOID: u32 = 0x0103;
/// Primitive type: `16 bit pointer to 8 bit signed`
pub const T_PCHAR: u32 = 0x0110;
/// Primitive type: `16 bit pointer to 16 bit signed`
pub const T_PSHORT: u32 = 0x0111;
/// Primitive type: `16 bit pointer to 32 bit signed`
pub const T_PLONG: u32 = 0x0112;
/// Primitive type: `16 bit pointer to 64 bit signed`
pub const T_PQUAD: u32 = 0x0113;
/// Primitive type: `16 bit pointer to 128 bit signed`
pub const T_POCT: u32 = 0x0114;
/// Primitive type: `16 bit pointer to 8 bit unsigned`
pub const T_PUCHAR: u32 = 0x0120;
/// Primitive type: `16 bit pointer to 16 bit unsigned`
pub const T_PUSHORT: u32 = 0x0121;
/// Primitive type: `16 bit pointer to 32 bit unsigned`
pub const T_PULONG: u32 = 0x0122;
/// Primitive type: `16 bit pointer to 64 bit unsigned`
pub const T_PUQUAD: u32 = 0x0123;
/// Primitive type: `16 bit pointer to 128 bit unsigned`
pub const T_PUOCT: u32 = 0x0124;
/// Primitive type: `16 bit pointer to  8 bit boolean`
pub const T_PBOOL08: u32 = 0x0130;
/// Primitive type: `16 bit pointer to 16 bit boolean`
pub const T_PBOOL16: u32 = 0x0131;
/// Primitive type: `16 bit pointer to 32 bit boolean`
pub const T_PBOOL32: u32 = 0x0132;
/// Primitive type: `16 bit pointer to 64 bit boolean`
pub const T_PBOOL64: u32 = 0x0133;
/// Primitive type: `16 bit pointer to 32 bit real`
pub const T_PREAL32: u32 = 0x0140;
/// Primitive type: `16 bit pointer to 64 bit real`
pub const T_PREAL64: u32 = 0x0141;
/// Primitive type: `16 bit pointer to 80 bit real`
pub const T_PREAL80: u32 = 0x0142;
/// Primitive type: `16 bit pointer to 128 bit real`
pub const T_PREAL128: u32 = 0x0143;
/// Primitive type: `16 bit pointer to 48 bit real`
pub const T_PREAL48: u32 = 0x0144;
/// Primitive type: `16 bit pointer to 32 bit PP real`
pub const T_PREAL32PP: u32 = 0x0145;
/// Primitive type: `16 bit pointer to 16 bit real`
pub const T_PREAL16: u32 = 0x0146;
/// Primitive type: `16 bit pointer to 32 bit complex`
pub const T_PCPLX32: u32 = 0x0150;
/// Primitive type: `16 bit pointer to 64 bit complex`
pub const T_PCPLX64: u32 = 0x0151;
/// Primitive type: `16 bit pointer to 80 bit complex`
pub const T_PCPLX80: u32 = 0x0152;
/// Primitive type: `16 bit pointer to 128 bit complex`
pub const T_PCPLX128: u32 = 0x0153;
/// Primitive type: `16 bit pointer to 8 bit signed int`
pub const T_PINT1: u32 = 0x0168;
/// Primitive type: `16 bit pointer to 8 bit unsigned int`
pub const T_PUINT1: u32 = 0x0169;
/// Primitive type: `16 bit pointer to a real char`
pub const T_PRCHAR: u32 = 0x0170;
/// Primitive type: `16 bit pointer to a wide char`
pub const T_PWCHAR: u32 = 0x0171;
/// Primitive type: `16 bit pointer to 16 bit signed int`
pub const T_PINT2: u32 = 0x0172;
/// Primitive type: `16 bit pointer to 16 bit unsigned int`
pub const T_PUINT2: u32 = 0x0173;
/// Primitive type: `16 bit pointer to 32 bit signed int`
pub const T_PINT4: u32 = 0x0174;
/// Primitive type: `16 bit pointer to 32 bit unsigned int`
pub const T_PUINT4: u32 = 0x0175;
/// Primitive type: `16 bit pointer to 64 bit signed int`
pub const T_PINT8: u32 = 0x0176;
/// Primitive type: `16 bit pointer to 64 bit unsigned int`
pub const T_PUINT8: u32 = 0x0177;
/// Primitive type: `16 bit pointer to 128 bit signed int`
pub const T_PINT16: u32 = 0x0178;
/// Primitive type: `16 bit pointer to 128 bit unsigned int`
pub const T_PUINT16: u32 = 0x0179;
/// Primitive type: `far pointer to void`
pub const T_PFVOID: u32 = 0x0203;
/// Primitive type: `16:16 far pointer to 8 bit signed`
pub const T_PFCHAR: u32 = 0x0210;
/// Primitive type: `16:16 far pointer to 16 bit signed`
pub const T_PFSHORT: u32 = 0x0211;
/// Primitive type: `16:16 far pointer to 32 bit signed`
pub const T_PFLONG: u32 = 0x0212;
/// Primitive type: `16:16 far pointer to 64 bit signed`
pub const T_PFQUAD: u32 = 0x0213;
/// Primitive type: `16:16 far pointer to 128 bit signed`
pub const T_PFOCT: u32 = 0x0214;
/// Primitive type: `16:16 far pointer to 8 bit unsigned`
pub const T_PFUCHAR: u32 = 0x0220;
/// Primitive type: `16:16 far pointer to 16 bit unsigned`
pub const T_PFUSHORT: u32 = 0x0221;
/// Primitive type: `16:16 far pointer to 32 bit unsigned`
pub const T_PFULONG: u32 = 0x0222;
/// Primitive type: `16:16 far pointer to 64 bit unsigned`
pub const T_PFUQUAD: u32 = 0x0223;
/// Primitive type: `16:16 far pointer to 128 bit unsigned`
pub const T_PFUOCT: u32 = 0x0224;
/// Primitive type: `16:16 far pointer to  8 bit boolean`
pub const T_PFBOOL08: u32 = 0x0230;
/// Primitive type: `16:16 far pointer to 16 bit boolean`
pub const T_PFBOOL16: u32 = 0x0231;
/// Primitive type: `16:16 far pointer to 32 bit boolean`
pub const T_PFBOOL32: u32 = 0x0232;
/// Primitive type: `16:16 far pointer to 64 bit boolean`
pub const T_PFBOOL64: u32 = 0x0233;
/// Primitive type: `16:16 far pointer to 32 bit real`
pub const T_PFREAL32: u32 = 0x0240;
/// Primitive type: `16:16 far pointer to 64 bit real`
pub const T_PFREAL64: u32 = 0x0241;
/// Primitive type: `16:16 far pointer to 80 bit real`
pub const T_PFREAL80: u32 = 0x0242;
/// Primitive type: `16:16 far pointer to 128 bit real`
pub const T_PFREAL128: u32 = 0x0243;
/// Primitive type: `16:16 far pointer to 48 bit real`
pub const T_PFREAL48: u32 = 0x0244;
/// Primitive type: `16:16 far pointer to 32 bit PP real`
pub const T_PFREAL32PP: u32 = 0x0245;
/// Primitive type: `16:16 far pointer to 16 bit real`
pub const T_PFREAL16: u32 = 0x0246;
/// Primitive type: `16:16 far pointer to 32 bit complex`
pub const T_PFCPLX32: u32 = 0x0250;
/// Primitive type: `16:16 far pointer to 64 bit complex`
pub const T_PFCPLX64: u32 = 0x0251;
/// Primitive type: `16:16 far pointer to 80 bit complex`
pub const T_PFCPLX80: u32 = 0x0252;
/// Primitive type: `16:16 far pointer to 128 bit complex`
pub const T_PFCPLX128: u32 = 0x0253;
/// Primitive type: `16:16 far pointer to 8 bit signed int`
pub const T_PFINT1: u32 = 0x0268;
/// Primitive type: `16:16 far pointer to 8 bit unsigned int`
pub const T_PFUINT1: u32 = 0x0269;
/// Primitive type: `16:16 far pointer to a real char`
pub const T_PFRCHAR: u32 = 0x0270;
/// Primitive type: `16:16 far pointer to a wide char`
pub const T_PFWCHAR: u32 = 0x0271;
/// Primitive type: `16:16 far pointer to 16 bit signed int`
pub const T_PFINT2: u32 = 0x0272;
/// Primitive type: `16:16 far pointer to 16 bit unsigned int`
pub const T_PFUINT2: u32 = 0x0273;
/// Primitive type: `16:16 far pointer to 32 bit signed int`
pub const T_PFINT4: u32 = 0x0274;
/// Primitive type: `16:16 far pointer to 32 bit unsigned int`
pub const T_PFUINT4: u32 = 0x0275;
/// Primitive type: `16:16 far pointer to 64 bit signed int`
pub const T_PFINT8: u32 = 0x0276;
/// Primitive type: `16:16 far pointer to 64 bit unsigned int`
pub const T_PFUINT8: u32 = 0x0277;
/// Primitive type: `16:16 far pointer to 128 bit signed int`
pub const T_PFINT16: u32 = 0x0278;
/// Primitive type: `16:16 far pointer to 128 bit unsigned int`
pub const T_PFUINT16: u32 = 0x0279;
/// Primitive type: `huge pointer to void`
pub const T_PHVOID: u32 = 0x0303;
/// Primitive type: `16:16 huge pointer to 8 bit signed`
pub const T_PHCHAR: u32 = 0x0310;
/// Primitive type: `16:16 huge pointer to 16 bit signed`
pub const T_PHSHORT: u32 = 0x0311;
/// Primitive type: `16:16 huge pointer to 32 bit signed`
pub const T_PHLONG: u32 = 0x0312;
/// Primitive type: `16:16 huge pointer to 64 bit signed`
pub const T_PHQUAD: u32 = 0x0313;
/// Primitive type: `16:16 huge pointer to 128 bit signed`
pub const T_PHOCT: u32 = 0x0314;
/// Primitive type: `16:16 huge pointer to 8 bit unsigned`
pub const T_PHUCHAR: u32 = 0x0320;
/// Primitive type: `16:16 huge pointer to 16 bit unsigned`
pub const T_PHUSHORT: u32 = 0x0321;
/// Primitive type: `16:16 huge pointer to 32 bit unsigned`
pub const T_PHULONG: u32 = 0x0322;
/// Primitive type: `16:16 huge pointer to 64 bit unsigned`
pub const T_PHUQUAD: u32 = 0x0323;
/// Primitive type: `16:16 huge pointer to 128 bit unsigned`
pub const T_PHUOCT: u32 = 0x0324;
/// Primitive type: `16:16 huge pointer to  8 bit boolean`
pub const T_PHBOOL08: u32 = 0x0330;
/// Primitive type: `16:16 huge pointer to 16 bit boolean`
pub const T_PHBOOL16: u32 = 0x0331;
/// Primitive type: `16:16 huge pointer to 32 bit boolean`
pub const T_PHBOOL32: u32 = 0x0332;
/// Primitive type: `16:16 huge pointer to 64 bit boolean`
pub const T_PHBOOL64: u32 = 0x0333;
/// Primitive type: `16:16 huge pointer to 32 bit real`
pub const T_PHREAL32: u32 = 0x0340;
/// Primitive type: `16:16 huge pointer to 64 bit real`
pub const T_PHREAL64: u32 = 0x0341;
/// Primitive type: `16:16 huge pointer to 80 bit real`
pub const T_PHREAL80: u32 = 0x0342;
/// Primitive type: `16:16 huge pointer to 128 bit real`
pub const T_PHREAL128: u32 = 0x0343;
/// Primitive type: `16:16 huge pointer to 48 bit real`
pub const T_PHREAL48: u32 = 0x0344;
/// Primitive type: `16:16 huge pointer to 32 bit PP real`
pub const T_PHREAL32PP: u32 = 0x0345;
/// Primitive type: `16:16 huge pointer to 16 bit real`
pub const T_PHREAL16: u32 = 0x0346;
/// Primitive type: `16:16 huge pointer to 32 bit complex`
pub const T_PHCPLX32: u32 = 0x0350;
/// Primitive type: `16:16 huge pointer to 64 bit complex`
pub const T_PHCPLX64: u32 = 0x0351;
/// Primitive type: `16:16 huge pointer to 80 bit complex`
pub const T_PHCPLX80: u32 = 0x0352;
/// Primitive type: `16:16 huge pointer to 128 bit real`
pub const T_PHCPLX128: u32 = 0x0353;
/// Primitive type: `16:16 huge pointer to 8 bit signed int`
pub const T_PHINT1: u32 = 0x0368;
/// Primitive type: `16:16 huge pointer to 8 bit unsigned int`
pub const T_PHUINT1: u32 = 0x0369;
/// Primitive type: `16:16 huge pointer to a real char`
pub const T_PHRCHAR: u32 = 0x0370;
/// Primitive type: `16:16 huge pointer to a wide char`
pub const T_PHWCHAR: u32 = 0x0371;
/// Primitive type: `16:16 huge pointer to 16 bit signed int`
pub const T_PHINT2: u32 = 0x0372;
/// Primitive type: `16:16 huge pointer to 16 bit unsigned int`
pub const T_PHUINT2: u32 = 0x0373;
/// Primitive type: `16:16 huge pointer to 32 bit signed int`
pub const T_PHINT4: u32 = 0x0374;
/// Primitive type: `16:16 huge pointer to 32 bit unsigned int`
pub const T_PHUINT4: u32 = 0x0375;
/// Primitive type: `16:16 huge pointer to 64 bit signed int`
pub const T_PHINT8: u32 = 0x0376;
/// Primitive type: `16:16 huge pointer to 64 bit unsigned int`
pub const T_PHUINT8: u32 = 0x0377;
/// Primitive type: `16:16 huge pointer to 128 bit signed int`
pub const T_PHINT16: u32 = 0x0378;
/// Primitive type: `16:16 huge pointer to 128 bit unsigned int`
pub const T_PHUINT16: u32 = 0x0379;
/// Primitive type: `void *`
pub const T_32PVOID: u32 = 0x0403;
/// Primitive type: `HRESULT *`
pub const T_32PHRESULT: u32 = 0x0408;
/// Primitive type: `char *`
pub const T_32PCHAR: u32 = 0x0410;
/// Primitive type: `short *`
pub const T_32PSHORT: u32 = 0x0411;
/// Primitive type: `long *`
pub const T_32PLONG: u32 = 0x0412;
/// Primitive type: `long long *`
pub const T_32PQUAD: u32 = 0x0413;
/// Primitive type: `__int128 *`
pub const T_32POCT: u32 = 0x0414;
/// Primitive type: `unsigned char *`
pub const T_32PUCHAR: u32 = 0x0420;
/// Primitive type: `unsigned short *`
pub const T_32PUSHORT: u32 = 0x0421;
/// Primitive type: `unsigned __int32 *`
pub const T_32PULONG: u32 = 0x0422;
/// Primitive type: `long long *`
pub const T_32PUQUAD: u32 = 0x0423;
/// Primitive type: `unsigned __int128 *`
pub const T_32PUOCT: u32 = 0x0424;
/// Primitive type: `bool *`
pub const T_32PBOOL08: u32 = 0x0430;
/// Primitive type: `bool16 *`
pub const T_32PBOOL16: u32 = 0x0431;
/// Primitive type: `bool32 *`
pub const T_32PBOOL32: u32 = 0x0432;
/// Primitive type: `bool64 *`
pub const T_32PBOOL64: u32 = 0x0433;
/// Primitive type: `float *`
pub const T_32PREAL32: u32 = 0x0440;
/// Primitive type: `double *`
pub const T_32PREAL64: u32 = 0x0441;
/// Primitive type: `32 bit pointer to 80 bit real`
pub const T_32PREAL80: u32 = 0x0442;
/// Primitive type: `32 bit pointer to 128 bit real`
pub const T_32PREAL128: u32 = 0x0443;
/// Primitive type: `32 bit pointer to 48 bit real`
pub const T_32PREAL48: u32 = 0x0444;
/// Primitive type: `32 bit pointer to 32 bit PP real`
pub const T_32PREAL32PP: u32 = 0x0445;
/// Primitive type: `32 bit pointer to 16 bit real`
pub const T_32PREAL16: u32 = 0x0446;
/// Primitive type: `32 bit pointer to 32 bit complex`
pub const T_32PCPLX32: u32 = 0x0450;
/// Primitive type: `32 bit pointer to 64 bit complex`
pub const T_32PCPLX64: u32 = 0x0451;
/// Primitive type: `32 bit pointer to 80 bit complex`
pub const T_32PCPLX80: u32 = 0x0452;
/// Primitive type: `32 bit pointer to 128 bit complex`
pub const T_32PCPLX128: u32 = 0x0453;
/// Primitive type: `__int8 *`
pub const T_32PINT1: u32 = 0x0468;
/// Primitive type: `unsigned __int8 *`
pub const T_32PUINT1: u32 = 0x0469;
/// Primitive type: `char *`
pub const T_32PRCHAR: u32 = 0x0470;
/// Primitive type: `wchar_t *`
pub const T_32PWCHAR: u32 = 0x0471;
/// Primitive type: `__int16 *`
pub const T_32PINT2: u32 = 0x0472;
/// Primitive type: `unsigned __int16 *`
pub const T_32PUINT2: u32 = 0x0473;
/// Primitive type: `__int32 *`
pub const T_32PINT4: u32 = 0x0474;
/// Primitive type: `unsigned __int32 *`
pub const T_32PUINT4: u32 = 0x0475;
/// Primitive type: `__int64 *`
pub const T_32PINT8: u32 = 0x0476;
/// Primitive type: `unsigned __int64 *`
pub const T_32PUINT8: u32 = 0x0477;
/// Primitive type: `32 bit pointer to 128 bit signed int`
pub const T_32PINT16: u32 = 0x0478;
/// Primitive type: `32 bit pointer to 128 bit unsigned int`
pub const T_32PUINT16: u32 = 0x0479;
/// Primitive type: `char16 *`
pub const T_32PCHAR16: u32 = 0x047a;
/// Primitive type: `char32 *`
pub const T_32PCHAR32: u32 = 0x047b;
/// Primitive type: `16:32 pointer to void`
pub const T_32PFVOID: u32 = 0x0503;
/// Primitive type: `16:32 pointer to 8 bit signed`
pub const T_32PFCHAR: u32 = 0x0510;
/// Primitive type: `16:32 pointer to 16 bit signed`
pub const T_32PFSHORT: u32 = 0x0511;
/// Primitive type: `16:32 pointer to 32 bit signed`
pub const T_32PFLONG: u32 = 0x0512;
/// Primitive type: `16:32 pointer to 64 bit signed`
pub const T_32PFQUAD: u32 = 0x0513;
/// Primitive type: `16:32 pointer to 128 bit signed`
pub const T_32PFOCT: u32 = 0x0514;
/// Primitive type: `16:32 pointer to 8 bit unsigned`
pub const T_32PFUCHAR: u32 = 0x0520;
/// Primitive type: `16:32 pointer to 16 bit unsigned`
pub const T_32PFUSHORT: u32 = 0x0521;
/// Primitive type: `16:32 pointer to 32 bit unsigned`
pub const T_32PFULONG: u32 = 0x0522;
/// Primitive type: `16:32 pointer to 64 bit unsigned`
pub const T_32PFUQUAD: u32 = 0x0523;
/// Primitive type: `16:32 pointer to 128 bit unsigned`
pub const T_32PFUOCT: u32 = 0x0524;
/// Primitive type: `16:32 pointer to 8 bit boolean`
pub const T_32PFBOOL08: u32 = 0x0530;
/// Primitive type: `16:32 pointer to 16 bit boolean`
pub const T_32PFBOOL16: u32 = 0x0531;
/// Primitive type: `16:32 pointer to 32 bit boolean`
pub const T_32PFBOOL32: u32 = 0x0532;
/// Primitive type: `16:32 pointer to 64 bit boolean`
pub const T_32PFBOOL64: u32 = 0x0533;
/// Primitive type: `16:32 pointer to 32 bit real`
pub const T_32PFREAL32: u32 = 0x0540;
/// Primitive type: `16:32 pointer to 64 bit real`
pub const T_32PFREAL64: u32 = 0x0541;
/// Primitive type: `16:32 pointer to 80 bit real`
pub const T_32PFREAL80: u32 = 0x0542;
/// Primitive type: `16:32 pointer to 128 bit real`
pub const T_32PFREAL128: u32 = 0x0543;
/// Primitive type: `16:32 pointer to 48 bit real`
pub const T_32PFREAL48: u32 = 0x0544;
/// Primitive type: `16:32 pointer to 32 bit PP real`
pub const T_32PFREAL32PP: u32 = 0x0545;
/// Primitive type: `16:32 pointer to 16 bit real`
pub const T_32PFREAL16: u32 = 0x0546;
/// Primitive type: `16:32 pointer to 32 bit complex`
pub const T_32PFCPLX32: u32 = 0x0550;
/// Primitive type: `16:32 pointer to 64 bit complex`
pub const T_32PFCPLX64: u32 = 0x0551;
/// Primitive type: `16:32 pointer to 80 bit complex`
pub const T_32PFCPLX80: u32 = 0x0552;
/// Primitive type: `16:32 pointer to 128 bit complex`
pub const T_32PFCPLX128: u32 = 0x0553;
/// Primitive type: `16:32 pointer to 8 bit signed int`
pub const T_32PFINT1: u32 = 0x0568;
/// Primitive type: `16:32 pointer to 8 bit unsigned int`
pub const T_32PFUINT1: u32 = 0x0569;
/// Primitive type: `16:32 pointer to a real char`
pub const T_32PFRCHAR: u32 = 0x0570;
/// Primitive type: `16:32 pointer to a wide char`
pub const T_32PFWCHAR: u32 = 0x0571;
/// Primitive type: `16:32 pointer to 16 bit signed int`
pub const T_32PFINT2: u32 = 0x0572;
/// Primitive type: `16:32 pointer to 16 bit unsigned int`
pub const T_32PFUINT2: u32 = 0x0573;
/// Primitive type: `16:32 pointer to 32 bit signed int`
pub const T_32PFINT4: u32 = 0x0574;
/// Primitive type: `16:32 pointer to 32 bit unsigned int`
pub const T_32PFUINT4: u32 = 0x0575;
/// Primitive type: `16:32 pointer to 64 bit signed int`
pub const T_32PFINT8: u32 = 0x0576;
/// Primitive type: `16:32 pointer to 64 bit unsigned int`
pub const T_32PFUINT8: u32 = 0x0577;
/// Primitive type: `16:32 pointer to 128 bit signed int`
pub const T_32PFINT16: u32 = 0x0578;
/// Primitive type: `16:32 pointer to 128 bit unsigned int`
pub const T_32PFUINT16: u32 = 0x0579;
/// Primitive type: `void *`
pub const T_64PVOID: u32 = 0x0603;
/// Primitive type: `HRESULT *`
pub const T_64PHRESULT: u32 = 0x0608;
/// Primitive type: `char *`
pub const T_64PCHAR: u32 = 0x0610;
/// Primitive type: `short *`
pub const T_64PSHORT: u32 = 0x0611;
/// Primitive type: `long *`
pub const T_64PLONG: u32 = 0x0612;
/// Primitive type: `long long *`
pub const T_64PQUAD: u32 = 0x0613;
/// Primitive type: `__int128 *`
pub const T_64POCT: u32 = 0x0614;
/// Primitive type: `unsigned char *`
pub const T_64PPUCHAR: u32 = 0x0620;
/// Primitive type: `unsigned short *`
pub const T_64PUSHORT: u32 = 0x0621;
/// Primitive type: `unsigned __int32 *`
pub const T_64PULONG: u32 = 0x0622;
/// Primitive type: `long long *`
pub const T_64PUQUAD: u32 = 0x0623;
/// Primitive type: `unsigned __int128 *`
pub const T_64PUOCT: u32 = 0x0624;
/// Primitive type: `bool *`
pub const T_64PBOOL08: u32 = 0x0630;
/// Primitive type: `bool16 *`
pub const T_64PBOOL16: u32 = 0x0631;
/// Primitive type: `bool32 *`
pub const T_64PBOOL32: u32 = 0x0632;
/// Primitive type: `bool64 *`
pub const T_64PBOOL64: u32 = 0x0633;
/// Primitive type: `float *`
pub const T_64PREAL32: u32 = 0x0640;
/// Primitive type: `double *`
pub const T_64PREAL64: u32 = 0x0641;
/// Primitive type: `64 bit pointer to 80 bit real`
pub const T_64PREAL80: u32 = 0x0642;
/// Primitive type: `64 bit pointer to 128 bit real`
pub const T_64PREAL128: u32 = 0x0643;
/// Primitive type: `64 bit pointer to 48 bit real`
pub const T_64PREAL48: u32 = 0x0644;
/// Primitive type: `64 bit pointer to 32 bit PP real`
pub const T_64PREAL32PP: u32 = 0x0645;
/// Primitive type: `64 bit pointer to 16 bit real`
pub const T_64PREAL16: u32 = 0x0646;
/// Primitive type: `64 bit pointer to 32 bit complex`
pub const T_64PCPLX32: u32 = 0x0650;
/// Primitive type: `64 bit pointer to 64 bit complex`
pub const T_64PCPLX64: u32 = 0x0651;
/// Primitive type: `64 bit pointer to 80 bit complex`
pub const T_64PCPLX80: u32 = 0x0652;
/// Primitive type: `64 bit pointer to 128 bit complex`
pub const T_64PCPLX128: u32 = 0x0653;
/// Primitive type: `__int8 *`
pub const T_64PINT1: u32 = 0x0668;
/// Primitive type: `unsigned __int8 *`
pub const T_64PUINT1: u32 = 0x0669;
/// Primitive type: `char *`
pub const T_64PRCHAR: u32 = 0x0670;
/// Primitive type: `wchar_t *`
pub const T_64PWCHAR: u32 = 0x0671;
/// Primitive type: `__int16 *`
pub const T_64PINT2: u32 = 0x0672;
/// Primitive type: `unsigned __int16 *`
pub const T_64PUINT2: u32 = 0x0673;
/// Primitive type: `__int32 *`
pub const T_64PINT4: u32 = 0x0674;
/// Primitive type: `unsigned __int32 *`
pub const T_64PUINT4: u32 = 0x0675;
/// Primitive type: `__int64 *`
pub const T_64PINT8: u32 = 0x0676;
/// Primitive type: `unsigned __int64 *`
pub const T_64PUINT8: u32 = 0x0677;
/// Primitive type: `64 bit pointer to 128 bit signed int`
pub const T_64PINT16: u32 = 0x0678;
/// Primitive type: `64 bit pointer to 128 bit unsigned int`
pub const T_64PUINT16: u32 = 0x0679;
/// Primitive type: `char16 *`
pub const T_64PCHAR16: u32 = 0x067a;
/// Primitive type: `char32 *`
pub const T_64PCHAR32: u32 = 0x067b;

/// The spec name of each primitive type.
pub open spec fn primitive_name(v: u32) -> Option<&'static str> {
    match v {
        0x0000 => Some("T_NOTYPE"),
        0x0001 => Some("T_ABS"),
        0x0002 => Some("T_SEGMENT"),
        0x0003 => Some("T_VOID"),
        0x0004 => Some("T_CURRENCY"),
        0x0005 => Some("T_NBASICSTR"),
        0x0006 => Some("T_FBASICSTR"),
        0x0007 => Some("T_NOTTRANS"),
        0x0008 => Some("T_HRESULT"),
        0x0010 => Some("T_CHAR"),
        0x0011 => Some("T_SHORT"),
        0x0012 => Some("T_LONG"),
        0x0013 => Some("T_QUAD"),
        0x0014 => Some("T_OCT"),
        0x0020 => Some("T_UCHAR"),
        0x0021 => Some("T_USHORT"),
        0x0022 => Some("T_ULONG"),
        0x0023 => Some("T_UQUAD"),
        0x0024 => Some("T_UOCT"),
        0x0030 => Some("T_BOOL8"),
        0x0031 => Some("T_BOOL16"),
        0x0032 => Some("T_BOOL32"),
        0x0033 => Some("T_BOOL64"),
        0x0040 => Some("T_REAL32"),
        0x0041 => Some("T_REAL64"),
        0x0042 => Some("T_REAL80"),
        0x0043 => Some("T_REAL128"),
        0x0044 => Some("T_REAL48"),
        0x0045 => Some("T_REAL32PP"),
        0x0046 => Some("T_REAL16"),
        0x0050 => Some("T_CPLX32"),
        0x0051 => Some("T_CPLX64"),
        0x0052 => Some("T_CPLX80"),
        0x0053 => Some("T_CPLX128"),
        0x0060 => Some("T_BIT"),
        0x0061 => Some("T_PASCHAR"),
        0x0062 => Some("T_BOOL32FF"),
        0x0068 => Some("T_INT1"),
        0x0069 => Some("T_UINT1"),
        0x0070 => Some("T_RCHAR"),
        0x0071 => Some("T_WCHAR"),
        0x0072 => Some("T_INT2"),
        0x0073 => Some("T_UINT2"),
        0x0074 => Some("T_INT4"),
        0x0075 => Some("T_UINT4"),
        0x0076 => Some("T_INT8"),
        0x0077 => Some("T_UINT8"),
        0x0078 => Some("T_INT16"),
        0x0079 => Some("T_UINT16"),
        0x007a => Some("T_CHAR16"),
        0x007b => Some("T_CHAR32"),
        0x0103 => Some("T_PVOID"),
        0x0110 => Some("T_PCHAR"),
        0x0111 => Some("T_PSHORT"),
        0x0112 => Some("T_PLONG"),
        0x0113 => Some("T_PQUAD"),
        0x0114 => Some("T_POCT"),
        0x0120 => Some("T_PUCHAR"),
        0x0121 => Some("T_PUSHORT"),
        0x0122 => Some("T_PULONG"),
        0x0123 => Some("T_PUQUAD"),
        0x0124 => Some("T_PUOCT"),
        0x0130 => Some("T_PBOOL08"),
        0x0131 => Some("T_PBOOL16"),
        0x0132 => Some("T_PBOOL32"),
        0x0133 => Some("T_PBOOL64"),
        0x0140 => Some("T_PREAL32"),
        0x0141 => Some("T_PREAL64"),
        0x0142 => Some("T_PREAL80"),
        0x0143 => Some("T_PREAL128"),
        0x0144 => Some("T_PREAL48"),
        0x0145 => Some("T_PREAL32PP"),
        0x0146 => Some("T_PREAL16"),
        0x0150 => Some("T_PCPLX32"),
        0x0151 => Some("T_PCPLX64"),
        0x0152 => Some("T_PCPLX80"),
        0x0153 => Some("T_PCPLX128"),
        0x0168 => Some("T_PINT1"),
        0x0169 => Some("T_PUINT1"),
        0x0170 => Some("T_PRCHAR"),
        0x0171 => Some("T_PWCHAR"),
        0x0172 => Some("T_PINT2"),
        0x0173 => Some("T_PUINT2"),
        0x0174 => Some("T_PINT4"),
        0x0175 => Some("T_PUINT4"),
        0x0176 => Some("T_PINT8"),
        0x0177 => Some("T_PUINT8"),
        0x0178 => Some("T_PINT16"),
        0x0179 => Some("T_PUINT16"),
        0x0203 => Some("T_PFVOID"),
        0x0210 => Some("T_PFCHAR"),
        0x0211 => Some("T_PFSHORT"),
        0x0212 => Some("T_PFLONG"),
        0x0213 => Some("T_PFQUAD"),
        0x0214 => Some("T_PFOCT"),
        0x0220 => Some("T_PFUCHAR"),
        0x0221 => Some("T_PFUSHORT"),
        0x0222 => Some("T_PFULONG"),
        0x0223 => Some("T_PFUQUAD"),
        0x0224 => Some("T_PFUOCT"),
        0x0230 => Some("T_PFBOOL08"),
        0x0231 => Some("T_PFBOOL16"),
        0x0232 => Some("T_PFBOOL32"),
        0x0233 => Some("T_PFBOOL64"),
        0x0240 => Some("T_PFREAL32"),
        0x0241 => Some("T_PFREAL64"),
        0x0242 => Some("T_PFREAL80"),
        0x0243 => Some("T_PFREAL128"),
        0x0244 => Some("T_PFREAL48"),
        0x0245 => Some("T_PFREAL32PP"),
        0x0246 => Some("T_PFREAL16"),
        0x0250 => Some("T_PFCPLX32"),
        0x0251 => Some("T_PFCPLX64"),
        0x0252 => Some("T_PFCPLX80"),
        0x0253 => Some("T_PFCPLX128"),
        0x0268 => Some("T_PFINT1"),
        0x0269 => Some("T_PFUINT1"),
        0x0270 => Some("T_PFRCHAR"),
        0x0271 => Some("T_PFWCHAR"),
        0x0272 => Some("T_PFINT2"),
        0x0273 => Some("T_PFUINT2"),
        0x0274 => Some("T_PFINT4"),
        0x0275 => Some("T_PFUINT4"),
        0x0276 => Some("T_PFINT8"),
        0x0277 => Some("T_PFUINT8"),
        0x0278 => Some("T_PFINT16"),
        0x0279 => Some("T_PFUINT16"),
        0x0303 => Some("T_PHVOID"),
        0x0310 => Some("T_PHCHAR"),
        0x0311 => Some("T_PHSHORT"),
        0x0312 => Some("T_PHLONG"),
        0x0313 => Some("T_PHQUAD"),
        0x0314 => Some("T_PHOCT"),
        0x0320 => Some("T_PHUCHAR"),
        0x0321 => Some("T_PHUSHORT"),
        0x0322 => Some("T_PHULONG"),
        0x0323 => Some("T_PHUQUAD"),
        0x0324 => Some("T_PHUOCT"),
        0x0330 => Some("T_PHBOOL08"),
        0x0331 => Some("T_PHBOOL16"),
        0x0332 => Some("T_PHBOOL32"),
        0x0333 => Some("T_PHBOOL64"),
        0x0340 => Some("T_PHREAL32"),
        0x0341 => Some("T_PHREAL64"),
        0x0342 => Some("T_PHREAL80"),
        0x0343 => Some("T_PHREAL128"),
        0x0344 => Some("T_PHREAL48"),
        0x0345 => Some("T_PHREAL32PP"),
        0x0346 => Some("T_PHREAL16"),
        0x0350 => Some("T_PHCPLX32"),
        0x0351 => Some("T_PHCPLX64"),
        0x0352 => Some("T_PHCPLX80"),
        0x0353 => Some("T_PHCPLX128"),
        0x0368 => Some("T_PHINT1"),
        0x0369 => Some("T_PHUINT1"),
        0x0370 => Some("T_PHRCHAR"),
        0x0371 => Some("T_PHWCHAR"),
        0x0372 => Some("T_PHINT2"),
        0x0373 => Some("T_PHUINT2"),
        0x0374 => Some("T_PHINT4"),
        0x0375 => Some("T_PHUINT4"),
        0x0376 => Some("T_PHINT8"),
        0x0377 => Some("T_PHUINT8"),
        0x0378 => Some("T_PHINT16"),
        0x0379 => Some("T_PHUINT16"),
        0x0403 => Some("T_32PVOID"),
        0x0408 => Some("T_32PHRESULT"),
        0x0410 => Some("T_32PCHAR"),
        0x0411 => Some("T_32PSHORT"),
        0x0412 => Some("T_32PLONG"),
        0x0413 => Some("T_32PQUAD"),
        0x0414 => Some("T_32POCT"),
        0x0420 => Some("T_32PUCHAR"),
        0x0421 => Some("T_32PUSHORT"),
        0x0422 => Some("T_32PULONG"),
        0x0423 => Some("T_32PUQUAD"),
        0x0424 => Some("T_32PUOCT"),
        0x0430 => Some("T_32PBOOL08"),
        0x0431 => Some("T_32PBOOL16"),
        0x0432 => Some("T_32PBOOL32"),
        0x0433 => Some("T_32PBOOL64"),
        0x0440 => Some("T_32PREAL32"),
        0x0441 => Some("T_32PREAL64"),
        0x0442 => Some("T_32PREAL80"),
        0x0443 => Some("T_32PREAL128"),
        0x0444 => Some("T_32PREAL48"),
        0x0445 => Some("T_32PREAL32PP"),
        0x0446 => Some("T_32PREAL16"),
        0x0450 => Some("T_32PCPLX32"),
        0x0451 => Some("T_32PCPLX64"),
        0x0452 => Some("T_32PCPLX80"),
        0x0453 => Some("T_32PCPLX128"),
        0x0468 => Some("T_32PINT1"),
        0x0469 => Some("T_32PUINT1"),
        0x0470 => Some("T_32PRCHAR"),
        0x0471 => Some("T_32PWCHAR"),
        0x0472 => Some("T_32PINT2"),
        0x0473 => Some("T_32PUINT2"),
        0x0474 => Some("T_32PINT4"),
        0x0475 => Some("T_32PUINT4"),
        0x0476 => Some("T_32PINT8"),
        0x0477 => Some("T_32PUINT8"),
        0x0478 => Some("T_32PINT16"),
        0x0479 => Some("T_32PUINT16"),
        0x047a => Some("T_32PCHAR16"),
        0x047b => Some("T_32PCHAR32"),
        0x0503 => Some("T_32PFVOID"),
        0x0510 => Some("T_32PFCHAR"),
        0x0511 => Some("T_32PFSHORT"),
        0x0512 => Some("T_32PFLONG"),
        0x0513 => Some("T_32PFQUAD"),
        0x0514 => Some("T_32PFOCT"),
        0x0520 => Some("T_32PFUCHAR"),
        0x0521 => Some("T_32PFUSHORT"),
        0x0522 => Some("T_32PFULONG"),
        0x0523 => Some("T_32PFUQUAD"),
        0x0524 => Some("T_32PFUOCT"),
        0x0530 => Some("T_32PFBOOL08"),
        0x0531 => Some("T_32PFBOOL16"),
        0x0532 => Some("T_32PFBOOL32"),
        0x0533 => Some("T_32PFBOOL64"),
        0x0540 => Some("T_32PFREAL32"),
        0x0541 => Some("T_32PFREAL64"),
        0x0542 => Some("T_32PFREAL80"),
        0x0543 => Some("T_32PFREAL128"),
        0x0544 => Some("T_32PFREAL48"),
        0x0545 => Some("T_32PFREAL32PP"),
        0x0546 => Some("T_32PFREAL16"),
        0x0550 => Some("T_32PFCPLX32"),
        0x0551 => Some("T_32PFCPLX64"),
        0x0552 => Some("T_32PFCPLX80"),
        0x0553 => Some("T_32PFCPLX128"),
        0x0568 => Some("T_32PFINT1"),
        0x0569 => Some("T_32PFUINT1"),
        0x0570 => Some("T_32PFRCHAR"),
        0x0571 => Some("T_32PFWCHAR"),
        0x0572 => Some("T_32PFINT2"),
        0x0573 => Some("T_32PFUINT2"),
        0x0574 => Some("T_32PFINT4"),
        0x0575 => Some("T_32PFUINT4"),
        0x0576 => Some("T_32PFINT8"),
        0x0577 => Some("T_32PFUINT8"),
        0x0578 => Some("T_32PFINT16"),
        0x0579 => Some("T_32PFUINT16"),
        0x0603 => Some("T_64PVOID"),
        0x0608 => Some("T_64PHRESULT"),
        0x0610 => Some("T_64PCHAR"),
        0x0611 => Some("T_64PSHORT"),
        0x0612 => Some("T_64PLONG"),
        0x0613 => Some("T_64PQUAD"),
        0x0614 => Some("T_64POCT"),
        0x0620 => Some("T_64PPUCHAR"),
        0x0621 => Some("T_64PUSHORT"),
        0x0622 => Some("T_64PULONG"),
        0x0623 => Some("T_64PUQUAD"),
        0x0624 => Some("T_64PUOCT"),
        0x0630 => Some("T_64PBOOL08"),
        0x0631 => Some("T_64PBOOL16"),
        0x0632 => Some("T_64PBOOL32"),
        0x0633 => Some("T_64PBOOL64"),
        0x0640 => Some("T_64PREAL32"),
        0x0641 => Some("T_64PREAL64"),
        0x0642 => Some("T_64PREAL80"),
        0x0643 => Some("T_64PREAL128"),
        0x0644 => Some("T_64PREAL48"),
        0x0645 => Some("T_64PREAL32PP"),
        0x0646 => Some("T_64PREAL16"),
        0x0650 => Some("T_64PCPLX32"),
        0x0651 => Some("T_64PCPLX64"),
        0x0652 => Some("T_64PCPLX80"),
        0x0653 => Some("T_64PCPLX128"),
        0x0668 => Some("T_64PINT1"),
        0x0669 => Some("T_64PUINT1"),
        0x0670 => Some("T_64PRCHAR"),
        0x0671 => Some("T_64PWCHAR"),
        0x0672 => Some("T_64PINT2"),
        0x0673 => Some("T_64PUINT2"),
        0x0674 => Some("T_64PINT4"),
        0x0675 => Some("T_64PUINT4"),
        0x0676 => Some("T_64PINT8"),
        0x0677 => Some("T_64PUINT8"),
        0x0678 => Some("T_64PINT16"),
        0x0679 => Some("T_64PUINT16"),
        0x067a => Some("T_64PCHAR16"),
        0x067b => Some("T_64PCHAR32"),
        _ => None,
    }
}

/// The C/C++ name (description) of each primitive type.
pub open spec fn primitive_description(v: u32) -> Option<&'static str> {
    match v {
        0x0000 => Some("none"),
        0x0001 => Some("absolute symbol"),
        0x0002 => Some("segment type"),
        0x0003 => Some("void"),
        0x0004 => Some("BASIC 8 byte currency value"),
        0x0005 => Some("Near BASIC string"),
        0x0006 => Some("Far BASIC string"),
        0x0007 => Some("<type-not-translated>"),
        0x0008 => Some("HRESULT"),
        0x0010 => Some("char"),
        0x0011 => Some("short"),
        0x0012 => Some("long"),
        0x0013 => Some("long long"),
        0x0014 => Some("__int128"),
        0x0020 => Some("unsigned char"),
        0x0021 => Some("unsigned short"),
        0x0022 => Some("unsigned long"),
        0x0023 => Some("unsigned long long"),
        0x0024 => Some("unsigned __int128"),
        0x0030 => Some("bool"),
        0x0031 => Some("bool16"),
        0x0032 => Some("bool32"),
        0x0033 => Some("bool64"),
        0x0040 => Some("float"),
        0x0041 => Some("double"),
        0x0042 => Some("80 bit real"),
        0x0043 => Some("128 bit real"),
        0x0044 => Some("48 bit real"),
        0x0045 => Some("32 bit PP real"),
        0x0046 => Some("16 bit real"),
        0x0050 => Some("32 bit complex"),
        0x0051 => Some("64 bit complex"),
        0x0052 => Some("80 bit complex"),
        0x0053 => Some("128 bit complex"),
        0x0060 => Some("bit"),
        0x0061 => Some("Pascal CHAR"),
        0x0062 => Some("32-bit BOOL where true is 0xffffffff"),
        0x0068 => Some("__int8"),
        0x0069 => Some("unsigned __int8"),
        0x0070 => Some("char"),
        0x0071 => Some("wchar_t"),
        0x0072 => Some("__int16"),
        0x0073 => Some("unsigned __int16"),
        0x0074 => Some("__int32"),
        0x0075 => Some("unsigned __int32"),
        0x0076 => Some("__int64"),
        0x0077 => Some("unsigned __int64"),
        0x0078 => Some("128 bit signed int"),
        0x0079 => Some("128 bit unsigned int"),
        0x007a => Some("char16"),
        0x007b => Some("char32"),
        0x0103 => Some("near pointer to void"),
        0x0110 => Some("16 bit pointer to 8 bit signed"),
        0x0111 => Some("16 bit pointer to 16 bit signed"),
        0x0112 => Some("16 bit pointer to 32 bit signed"),
        0x0113 => Some("16 bit pointer to 64 bit signed"),
        0x0114 => Some("16 bit pointer to 128 bit signed"),
        0x0120 => Some("16 bit pointer to 8 bit unsigned"),
        0x0121 => Some("16 bit pointer to 16 bit unsigned"),
        0x0122 => Some("16 bit pointer to 32 bit unsigned"),
        0x0123 => Some("16 bit pointer to 64 bit unsigned"),
        0x0124 => Some("16 bit pointer to 128 bit unsigned"),
        0x0130 => Some("16 bit pointer to  8 bit boolean"),
        0x0131 => Some("16 bit pointer to 16 bit boolean"),
        0x0132 => Some("16 bit pointer to 32 bit boolean"),
        0x0133 => Some("16 bit pointer to 64 bit boolean"),
        0x0140 => Some("16 bit pointer to 32 bit real"),
        0x0141 => Some("16 bit pointer to 64 bit real"),
        0x0142 => Some("16 bit pointer to 80 bit real"),
        0x0143 => Some("16 bit pointer to 128 bit real"),
        0x0144 => Some("16 bit pointer to 48 bit real"),
        0x0145 => Some("16 bit pointer to 32 bit PP real"),
        0x0146 => Some("16 bit pointer to 16 bit real"),
        0x0150 => Some("16 bit pointer to 32 bit complex"),
        0x0151 => Some("16 bit pointer to 64 bit complex"),
        0x0152 => Some("16 bit pointer to 80 bit complex"),
        0x0153 => Some("16 bit pointer to 128 bit complex"),
        0x0168 => Some("16 bit pointer to 8 bit signed int"),
        0x0169 => Some("16 bit pointer to 8 bit unsigned int"),
        0x0170 => Some("16 bit pointer to a real char"),
        0x0171 => Some("16 bit pointer to a wide char"),
        0x0172 => Some("16 bit pointer to 16 bit signed int"),
        0x0173 => Some("16 bit pointer to 16 bit unsigned int"),
        0x0174 => Some("16 bit pointer to 32 bit signed int"),
        0x0175 => Some("16 bit pointer to 32 bit unsigned int"),
        0x0176 => Some("16 bit pointer to 64 bit signed int"),
        0x0177 => Some("16 bit pointer to 64 bit unsigned int"),
        0x0178 => Some("16 bit pointer to 128 bit signed int"),
        0x0179 => Some("16 bit pointer to 128 bit unsigned int"),
        0x0203 => Some("far pointer to void"),
        0x0210 => Some("16:16 far pointer to 8 bit signed"),
        0x0211 => Some("16:16 far pointer to 16 bit signed"),
        0x0212 => Some("16:16 far pointer to 32 bit signed"),
        0x0213 => Some("16:16 far pointer to 64 bit signed"),
        0x0214 => Some("16:16 far pointer to 128 bit signed"),
        0x0220 => Some("16:16 far pointer to 8 bit unsigned"),
        0x0221 => Some("16:16 far pointer to 16 bit unsigned"),
        0x0222 => Some("16:16 far pointer to 32 bit unsigned"),
        0x0223 => Some("16:16 far pointer to 64 bit unsigned"),
        0x0224 => Some("16:16 far pointer to 128 bit unsigned"),
        0x0230 => Some("16:16 far pointer to  8 bit boolean"),
        0x0231 => Some("16:16 far pointer to 16 bit boolean"),
        0x0232 => Some("16:16 far pointer to 32 bit boolean"),
        0x0233 => Some("16:16 far pointer to 64 bit boolean"),
        0x0240 => Some("16:16 far pointer to 32 bit real"),
        0x0241 => Some("16:16 far pointer to 64 bit real"),
        0x0242 => Some("16:16 far pointer to 80 bit real"),
        0x0243 => Some("16:16 far pointer to 128 bit real"),
        0x0244 => Some("16:16 far pointer to 48 bit real"),
        0x0245 => Some("16:16 far pointer to 32 bit PP real"),
        0x0246 => Some("16:16 far pointer to 16 bit real"),
        0x0250 => Some("16:16 far pointer to 32 bit complex"),
        0x0251 => Some("16:16 far pointer to 64 bit complex"),
        0x0252 => Some("16:16 far pointer to 80 bit complex"),
        0x0253 => Some("16:16 far pointer to 128 bit complex"),
        0x0268 => Some("16:16 far pointer to 8 bit signed int"),
        0x0269 => Some("16:16 far pointer to 8 bit unsigned int"),
        0x0270 => Some("16:16 far pointer to a real char"),
        0x0271 => Some("16:16 far pointer to a wide char"),
        0x0272 => Some("16:16 far pointer to 16 bit signed int"),
        0x0273 => Some("16:16 far pointer to 16 bit unsigned int"),
        0x0274 => Some("16:16 far pointer to 32 bit signed int"),
        0x0275 => Some("16:16 far pointer to 32 bit unsigned int"),
        0x0276 => Some("16:16 far pointer to 64 bit signed int"),
        0x0277 => Some("16:16 far pointer to 64 bit unsigned int"),
        0x0278 => Some("16:16 far pointer to 128 bit signed int"),
        0x0279 => Some("16:16 far pointer to 128 bit unsigned int"),
        0x0303 => Some("huge pointer to void"),
        0x0310 => Some("16:16 huge pointer to 8 bit signed"),
        0x0311 => Some("16:16 huge pointer to 16 bit signed"),
        0x0312 => Some("16:16 huge pointer to 32 bit signed"),
        0x0313 => Some("16:16 huge pointer to 64 bit signed"),
        0x0314 => Some("16:16 huge pointer to 128 bit signed"),
        0x0320 => Some("16:16 huge pointer to 8 bit unsigned"),
        0x0321 => Some("16:16 huge pointer to 16 bit unsigned"),
        0x0322 => Some("16:16 huge pointer to 32 bit unsigned"),
        0x0323 => Some("16:16 huge pointer to 64 bit unsigned"),
        0x0324 => Some("16:16 huge pointer to 128 bit unsigned"),
        0x0330 => Some("16:16 huge pointer to  8 bit boolean"),
        0x0331 => Some("16:16 huge pointer to 16 bit boolean"),
        0x0332 => Some("16:16 huge pointer to 32 bit boolean"),
        0x0333 => Some("16:16 huge pointer to 64 bit boolean"),
        0x0340 => Some("16:16 huge pointer to 32 bit real"),
        0x0341 => Some("16:16 huge pointer to 64 bit real"),
        0x0342 => Some("16:16 huge pointer to 80 bit real"),
        0x0343 => Some("16:16 huge pointer to 128 bit real"),
        0x0344 => Some("16:16 huge pointer to 48 bit real"),
        0x0345 => Some("16:16 huge pointer to 32 bit PP real"),
        0x0346 => Some("16:16 huge pointer to 16 bit real"),
        0x0350 => Some("16:16 huge pointer to 32 bit complex"),
        0x0351 => Some("16:16 huge pointer to 64 bit complex"),
        0x0352 => Some("16:16 huge pointer to 80 bit complex"),
        0x0353 => Some("16:16 huge pointer to 128 bit real"),
        0x0368 => Some("16:16 huge pointer to 8 bit signed int"),
        0x0369 => Some("16:16 huge pointer to 8 bit unsigned int"),
        0x0370 => Some("16:16 huge pointer to a real char"),
        0x0371 => Some("16:16 huge pointer to a wide char"),
        0x0372 => Some("16:16 huge pointer to 16 bit signed int"),
        0x0373 => Some("16:16 huge pointer to 16 bit unsigned int"),
        0x0374 => Some("16:16 huge pointer to 32 bit signed int"),
        0x0375 => Some("16:16 huge pointer to 32 bit unsigned int"),
        0x0376 => Some("16:16 huge pointer to 64 bit signed int"),
        0x0377 => Some("16:16 huge pointer to 64 bit unsigned int"),
        0x0378 => Some("16:16 huge pointer to 128 bit signed int"),
        0x0379 => Some("16:16 huge pointer to 128 bit unsigned int"),
        0x0403 => Some("void *"),
        0x0408 => Some("HRESULT *"),
        0x0410 => Some("char *"),
        0x0411 => Some("short *"),
        0x0412 => Some("long *"),
        0x0413 => Some("long long *"),
        0x0414 => Some("__int128 *"),
        0x0420 => Some("unsigned char *"),
        0x0421 => Some("unsigned short *"),
        0x0422 => Some("unsigned __int32 *"),
        0x0423 => Some("long long *"),
        0x0424 => Some("unsigned __int128 *"),
        0x0430 => Some("bool *"),
        0x0431 => Some("bool16 *"),
        0x0432 => Some("bool32 *"),
        0x0433 => Some("bool64 *"),
        0x0440 => Some("float *"),
        0x0441 => Some("double *"),
        0x0442 => Some("32 bit pointer to 80 bit real"),
        0x0443 => Some("32 bit pointer to 128 bit real"),
        0x0444 => Some("32 bit pointer to 48 bit real"),
        0x0445 => Some("32 bit pointer to 32 bit PP real"),
        0x0446 => Some("32 bit pointer to 16 bit real"),
        0x0450 => Some("32 bit pointer to 32 bit complex"),
        0x0451 => Some("32 bit pointer to 64 bit complex"),
        0x0452 => Some("32 bit pointer to 80 bit complex"),
        0x0453 => Some("32 bit pointer to 128 bit complex"),
        0x0468 => Some("__int8 *"),
        0x0469 => Some("unsigned __int8 *"),
        0x0470 => Some("char *"),
        0x0471 => Some("wchar_t *"),
        0x0472 => Some("__int16 *"),
        0x0473 => Some("unsigned __int16 *"),
        0x0474 => Some("__int32 *"),
        0x0475 => Some("unsigned __int32 *"),
        0x0476 => Some("__int64 *"),
        0x0477 => Some("unsigned __int64 *"),
        0x0478 => Some("32 bit pointer to 128 bit signed int"),
        0x0479 => Some("32 bit pointer to 128 bit unsigned int"),
        0x047a => Some("char16 *"),
        0x047b => Some("char32 *"),
        0x0503 => Some("16:32 pointer to void"),
        0x0510 => Some("16:32 pointer to 8 bit signed"),
        0x0511 => Some("16:32 pointer to 16 bit signed"),
        0x0512 => Some("16:32 pointer to 32 bit signed"),
        0x0513 => Some("16:32 pointer to 64 bit signed"),
        0x0514 => Some("16:32 pointer to 128 bit signed"),
        0x0520 => Some("16:32 pointer to 8 bit unsigned"),
        0x0521 => Some("16:32 pointer to 16 bit unsigned"),
        0x0522 => Some("16:32 pointer to 32 bit unsigned"),
        0x0523 => Some("16:32 pointer to 64 bit unsigned"),
        0x0524 => Some("16:32 pointer to 128 bit unsigned"),
        0x0530 => Some("16:32 pointer to 8 bit boolean"),
        0x0531 => Some("16:32 pointer to 16 bit boolean"),
        0x0532 => Some("16:32 pointer to 32 bit boolean"),
        0x0533 => Some("16:32 pointer to 64 bit boolean"),
        0x0540 => Some("16:32 pointer to 32 bit real"),
        0x0541 => Some("16:32 pointer to 64 bit real"),
        0x0542 => Some("16:32 pointer to 80 bit real"),
        0x0543 => Some("16:32 pointer to 128 bit real"),
        0x0544 => Some("16:32 pointer to 48 bit real"),
        0x0545 => Some("16:32 pointer to 32 bit PP real"),
        0x0546 => Some("16:32 pointer to 16 bit real"),
        0x0550 => Some("16:32 pointer to 32 bit complex"),
        0x0551 => Some("16:32 pointer to 64 bit complex"),
        0x0552 => Some("16:32 pointer to 80 bit complex"),
        0x0553 => Some("16:32 pointer to 128 bit complex"),
        0x0568 => Some("16:32 pointer to 8 bit signed int"),
        0x0569 => Some("16:32 pointer to 8 bit unsigned int"),
        0x0570 => Some("16:32 pointer to a real char"),
        0x0571 => Some("16:32 pointer to a wide char"),
        0x0572 => Some("16:32 pointer to 16 bit signed int"),
        0x0573 => Some("16:32 pointer to 16 bit unsigned int"),
        0x0574 => Some("16:32 pointer to 32 bit signed int"),
        0x0575 => Some("16:32 pointer to 32 bit unsigned int"),
        0x0576 => Some("16:32 pointer to 64 bit signed int"),
        0x0577 => Some("16:32 pointer to 64 bit unsigned int"),
        0x0578 => Some("16:32 pointer to 128 bit signed int"),
        0x0579 => Some("16:32 pointer to 128 bit unsigned int"),
        0x0603 => Some("void *"),
        0x0608 => Some("HRESULT *"),
        0x0610 => Some("char *"),
        0x0611 => Some("short *"),
        0x0612 => Some("long *"),
        0x0613 => Some("long long *"),
        0x0614 => Some("__int128 *"),
        0x0620 => Some("unsigned char *"),
        0x0621 => Some("unsigned short *"),
        0x0622 => Some("unsigned __int32 *"),
        0x0623 => Some("long long *"),
        0x0624 => Some("unsigned __int128 *"),
        0x0630 => Some("bool *"),
        0x0631 => Some("bool16 *"),
        0x0632 => Some("bool32 *"),
        0x0633 => Some("bool64 *"),
        0x0640 => Some("float *"),
        0x0641 => Some("double *"),
        0x0642 => Some("64 bit pointer to 80 bit real"),
        0x0643 => Some("64 bit pointer to 128 bit real"),
        0x0644 => Some("64 bit pointer to 48 bit real"),
        0x0645 => Some("64 bit pointer to 32 bit PP real"),
        0x0646 => Some("64 bit pointer to 16 bit real"),
        0x0650 => Some("64 bit pointer to 32 bit complex"),
        0x0651 => Some("64 bit pointer to 64 bit complex"),
        0x0652 => Some("64 bit pointer to 80 bit complex"),
        0x0653 => Some("64 bit pointer to 128 bit complex"),
        0x0668 => Some("__int8 *"),
        0x0669 => Some("unsigned __int8 *"),
        0x0670 => Some("char *"),
        0x0671 => Some("wchar_t *"),
        0x0672 => Some("__int16 *"),
        0x0673 => Some("unsigned __int16 *"),
        0x0674 => Some("__int32 *"),
        0x0675 => Some("unsigned __int32 *"),
        0x0676 => Some("__int64 *"),
        0x0677 => Some("unsigned __int64 *"),
        0x0678 => Some("64 bit pointer to 128 bit signed int"),
        0x0679 => Some("64 bit pointer to 128 bit unsigned int"),
        0x067a => Some("char16 *"),
        0x067b => Some("char32 *"),
        _ => None,
    }
}

/// Looks up the spec name of a primitive type.
pub fn get_primitive_name(v: u32) -> (r: Option<&'static str>)
    ensures
        r == primitive_name(v),
{
    match v {
        0x0000 => Some("T_NOTYPE"),
        0x0001 => Some("T_ABS"),
        0x0002 => Some("T_SEGMENT"),
        0x0003 => Some("T_VOID"),
        0x0004 => Some("T_CURRENCY"),
        0x0005 => Some("T_NBASICSTR"),
        0x0006 => Some("T_FBASICSTR"),
        0x0007 => Some("T_NOTTRANS"),
        0x0008 => Some("T_HRESULT"),
        0x0010 => Some("T_CHAR"),
        0x0011 => Some("T_SHORT"),
        0x0012 => Some("T_LONG"),
        0x0013 => Some("T_QUAD"),
        0x0014 => Some("T_OCT"),
        0x0020 => Some("T_UCHAR"),
        0x0021 => Some("T_USHORT"),
        0x0022 => Some("T_ULONG"),
        0x0023 => Some("T_UQUAD"),
        0x0024 => Some("T_UOCT"),
        0x0030 => Some("T_BOOL8"),
        0x0031 => Some("T_BOOL16"),
        0x0032 => Some("T_BOOL32"),
        0x0033 => Some("T_BOOL64"),
        0x0040 => Some("T_REAL32"),
        0x0041 => Some("T_REAL64"),
        0x0042 => Some("T_REAL80"),
        0x0043 => Some("T_REAL128"),
        0x0044 => Some("T_REAL48"),
        0x0045 => Some("T_REAL32PP"),
        0x0046 => Some("T_REAL16"),
        0x0050 => Some("T_CPLX32"),
        0x0051 => Some("T_CPLX64"),
        0x0052 => Some("T_CPLX80"),
        0x0053 => Some("T_CPLX128"),
        0x0060 => Some("T_BIT"),
        0x0061 => Some("T_PASCHAR"),
        0x0062 => Some("T_BOOL32FF"),
        0x0068 => Some("T_INT1"),
        0x0069 => Some("T_UINT1"),
        0x0070 => Some("T_RCHAR"),
        0x0071 => Some("T_WCHAR"),
        0x0072 => Some("T_INT2"),
        0x0073 => Some("T_UINT2"),
        0x0074 => Some("T_INT4"),
        0x0075 => Some("T_UINT4"),
        0x0076 => Some("T_INT8"),
        0x0077 => Some("T_UINT8"),
        0x0078 => Some("T_INT16"),
        0x0079 => Some("T_UINT16"),
        0x007a => Some("T_CHAR16"),
        0x007b => Some("T_CHAR32"),
        0x0103 => Some("T_PVOID"),
        0x0110 => Some("T_PCHAR"),
        0x0111 => Some("T_PSHORT"),
        0x0112 => Some("T_PLONG"),
        0x0113 => Some("T_PQUAD"),
        0x0114 => Some("T_POCT"),
        0x0120 => Some("T_PUCHAR"),
        0x0121 => Some("T_PUSHORT"),
        0x0122 => Some("T_PULONG"),
        0x0123 => Some("T_PUQUAD"),
        0x0124 => Some("T_PUOCT"),
        0x0130 => Some("T_PBOOL08"),
        0x0131 => Some("T_PBOOL16"),
        0x0132 => Some("T_PBOOL32"),
        0x0133 => Some("T_PBOOL64"),
        0x0140 => Some("T_PREAL32"),
        0x0141 => Some("T_PREAL64"),
        0x0142 => Some("T_PREAL80"),
        0x0143 => Some("T_PREAL128"),
        0x0144 => Some("T_PREAL48"),
        0x0145 => Some("T_PREAL32PP"),
        0x0146 => Some("T_PREAL16"),
        0x0150 => Some("T_PCPLX32"),
        0x0151 => Some("T_PCPLX64"),
        0x0152 => Some("T_PCPLX80"),
        0x0153 => Some("T_PCPLX128"),
        0x0168 => Some("T_PINT1"),
        0x0169 => Some("T_PUINT1"),
        0x0170 => Some("T_PRCHAR"),
        0x0171 => Some("T_PWCHAR"),
        0x0172 => Some("T_PINT2"),
        0x0173 => Some("T_PUINT2"),
        0x0174 => Some("T_PINT4"),
        0x0175 => Some("T_PUINT4"),
        0x0176 => Some("T_PINT8"),
        0x0177 => Some("T_PUINT8"),
        0x0178 => Some("T_PINT16"),
        0x0179 => Some("T_PUINT16"),
        0x0203 => Some("T_PFVOID"),
        0x0210 => Some("T_PFCHAR"),
        0x0211 => Some("T_PFSHORT"),
        0x0212 => Some("T_PFLONG"),
        0x0213 => Some("T_PFQUAD"),
        0x0214 => Some("T_PFOCT"),
        0x0220 => Some("T_PFUCHAR"),
        0x0221 => Some("T_PFUSHORT"),
        0x0222 => Some("T_PFULONG"),
        0x0223 => Some("T_PFUQUAD"),
        0x0224 => Some("T_PFUOCT"),
        0x0230 => Some("T_PFBOOL08"),
        0x0231 => Some("T_PFBOOL16"),
        0x0232 => Some("T_PFBOOL32"),
        0x0233 => Some("T_PFBOOL64"),
        0x0240 => Some("T_PFREAL32"),
        0x0241 => Some("T_PFREAL64"),
        0x0242 => Some("T_PFREAL80"),
        0x0243 => Some("T_PFREAL128"),
        0x0244 => Some("T_PFREAL48"),
        0x0245 => Some("T_PFREAL32PP"),
        0x0246 => Some("T_PFREAL16"),
        0x0250 => Some("T_PFCPLX32"),
        0x0251 => Some("T_PFCPLX64"),
        0x0252 => Some("T_PFCPLX80"),
        0x0253 => Some("T_PFCPLX128"),
        0x0268 => Some("T_PFINT1"),
        0x0269 => Some("T_PFUINT1"),
        0x0270 => Some("T_PFRCHAR"),
        0x0271 => Some("T_PFWCHAR"),
        0x0272 => Some("T_PFINT2"),
        0x0273 => Some("T_PFUINT2"),
        0x0274 => Some("T_PFINT4"),
        0x0275 => Some("T_PFUINT4"),
        0x0276 => Some("T_PFINT8"),
        0x0277 => Some("T_PFUINT8"),
        0x0278 => Some("T_PFINT16"),
        0x0279 => Some("T_PFUINT16"),
        0x0303 => Some("T_PHVOID"),
        0x0310 => Some("T_PHCHAR"),
        0x0311 => Some("T_PHSHORT"),
        0x0312 => Some("T_PHLONG"),
        0x0313 => Some("T_PHQUAD"),
        0x0314 => Some("T_PHOCT"),
        0x0320 => Some("T_PHUCHAR"),
        0x0321 => Some("T_PHUSHORT"),
        0x0322 => Some("T_PHULONG"),
        0x0323 => Some("T_PHUQUAD"),
        0x0324 => Some("T_PHUOCT"),
        0x0330 => Some("T_PHBOOL08"),
        0x0331 => Some("T_PHBOOL16"),
        0x0332 => Some("T_PHBOOL32"),
        0x0333 => Some("T_PHBOOL64"),
        0x0340 => Some("T_PHREAL32"),
        0x0341 => Some("T_PHREAL64"),
        0x0342 => Some("T_PHREAL80"),
        0x0343 => Some("T_PHREAL128"),
        0x0344 => Some("T_PHREAL48"),
        0x0345 => Some("T_PHREAL32PP"),
        0x0346 => Some("T_PHREAL16"),
        0x0350 => Some("T_PHCPLX32"),
        0x0351 => Some("T_PHCPLX64"),
        0x0352 => Some("T_PHCPLX80"),
        0x0353 => Some("T_PHCPLX128"),
        0x0368 => Some("T_PHINT1"),
        0x0369 => Some("T_PHUINT1"),
        0x0370 => Some("T_PHRCHAR"),
        0x0371 => Some("T_PHWCHAR"),
        0x0372 => Some("T_PHINT2"),
        0x0373 => Some("T_PHUINT2"),
        0x0374 => Some("T_PHINT4"),
        0x0375 => Some("T_PHUINT4"),
        0x0376 => Some("T_PHINT8"),
        0x0377 => Some("T_PHUINT8"),
        0x0378 => Some("T_PHINT16"),
        0x0379 => Some("T_PHUINT16"),
        0x0403 => Some("T_32PVOID"),
        0x0408 => Some("T_32PHRESULT"),
        0x0410 => Some("T_32PCHAR"),
        0x0411 => Some("T_32PSHORT"),
        0x0412 => Some("T_32PLONG"),
        0x0413 => Some("T_32PQUAD"),
        0x0414 => Some("T_32POCT"),
        0x0420 => Some("T_32PUCHAR"),
        0x0421 => Some("T_32PUSHORT"),
        0x0422 => Some("T_32PULONG"),
        0x0423 => Some("T_32PUQUAD"),
        0x0424 => Some("T_32PUOCT"),
        0x0430 => Some("T_32PBOOL08"),
        0x0431 => Some("T_32PBOOL16"),
        0x0432 => Some("T_32PBOOL32"),
        0x0433 => Some("T_32PBOOL64"),
        0x0440 => Some("T_32PREAL32"),
        0x0441 => Some("T_32PREAL64"),
        0x0442 => Some("T_32PREAL80"),
        0x0443 => Some("T_32PREAL128"),
        0x0444 => Some("T_32PREAL48"),
        0x0445 => Some("T_32PREAL32PP"),
        0x0446 => Some("T_32PREAL16"),
        0x0450 => Some("T_32PCPLX32"),
        0x0451 => Some("T_32PCPLX64"),
        0x0452 => Some("T_32PCPLX80"),
        0x0453 => Some("T_32PCPLX128"),
        0x0468 => Some("T_32PINT1"),
        0x0469 => Some("T_32PUINT1"),
        0x0470 => Some("T_32PRCHAR"),
        0x0471 => Some("T_32PWCHAR"),
        0x0472 => Some("T_32PINT2"),
        0x0473 => Some("T_32PUINT2"),
        0x0474 => Some("T_32PINT4"),
        0x0475 => Some("T_32PUINT4"),
        0x0476 => Some("T_32PINT8"),
        0x0477 => Some("T_32PUINT8"),
        0x0478 => Some("T_32PINT16"),
        0x0479 => Some("T_32PUINT16"),
        0x047a => Some("T_32PCHAR16"),
        0x047b => Some("T_32PCHAR32"),
        0x0503 => Some("T_32PFVOID"),
        0x0510 => Some("T_32PFCHAR"),
        0x0511 => Some("T_32PFSHORT"),
        0x0512 => Some("T_32PFLONG"),
        0x0513 => Some("T_32PFQUAD"),
        0x0514 => Some("T_32PFOCT"),
        0x0520 => Some("T_32PFUCHAR"),
        0x0521 => Some("T_32PFUSHORT"),
        0x0522 => Some("T_32PFULONG"),
        0x0523 => Some("T_32PFUQUAD"),
        0x0524 => Some("T_32PFUOCT"),
        0x0530 => Some("T_32PFBOOL08"),
        0x0531 => Some("T_32PFBOOL16"),
        0x0532 => Some("T_32PFBOOL32"),
        0x0533 => Some("T_32PFBOOL64"),
        0x0540 => Some("T_32PFREAL32"),
        0x0541 => Some("T_32PFREAL64"),
        0x0542 => Some("T_32PFREAL80"),
        0x0543 => Some("T_32PFREAL128"),
        0x0544 => Some("T_32PFREAL48"),
        0x0545 => Some("T_32PFREAL32PP"),
        0x0546 => Some("T_32PFREAL16"),
        0x0550 => Some("T_32PFCPLX32"),
        0x0551 => Some("T_32PFCPLX64"),
        0x0552 => Some("T_32PFCPLX80"),
        0x0553 => Some("T_32PFCPLX128"),
        0x0568 => Some("T_32PFINT1"),
        0x0569 => Some("T_32PFUINT1"),
        0x0570 => Some("T_32PFRCHAR"),
        0x0571 => Some("T_32PFWCHAR"),
        0x0572 => Some("T_32PFINT2"),
        0x0573 => Some("T_32PFUINT2"),
        0x0574 => Some("T_32PFINT4"),
        0x0575 => Some("T_32PFUINT4"),
        0x0576 => Some("T_32PFINT8"),
        0x0577 => Some("T_32PFUINT8"),
        0x0578 => Some("T_32PFINT16"),
        0x0579 => Some("T_32PFUINT16"),
        0x0603 => Some("T_64PVOID"),
        0x0608 => Some("T_64PHRESULT"),
        0x0610 => Some("T_64PCHAR"),
        0x0611 => Some("T_64PSHORT"),
        0x0612 => Some("T_64PLONG"),
        0x0613 => Some("T_64PQUAD"),
        0x0614 => Some("T_64POCT"),
        0x0620 => Some("T_64PPUCHAR"),
        0x0621 => Some("T_64PUSHORT"),
        0x0622 => Some("T_64PULONG"),
        0x0623 => Some("T_64PUQUAD"),
        0x0624 => Some("T_64PUOCT"),
        0x0630 => Some("T_64PBOOL08"),
        0x0631 => Some("T_64PBOOL16"),
        0x0632 => Some("T_64PBOOL32"),
        0x0633 => Some("T_64PBOOL64"),
        0x0640 => Some("T_64PREAL32"),
        0x0641 => Some("T_64PREAL64"),
        0x0642 => Some("T_64PREAL80"),
        0x0643 => Some("T_64PREAL128"),
        0x0644 => Some("T_64PREAL48"),
        0x0645 => Some("T_64PREAL32PP"),
        0x0646 => Some("T_64PREAL16"),
        0x0650 => Some("T_64PCPLX32"),
        0x0651 => Some("T_64PCPLX64"),
        0x0652 => Some("T_64PCPLX80"),
        0x0653 => Some("T_64PCPLX128"),
        0x0668 => Some("T_64PINT1"),
        0x0669 => Some("T_64PUINT1"),
        0x0670 => Some("T_64PRCHAR"),
        0x0671 => Some("T_64PWCHAR"),
        0x0672 => Some("T_64PINT2"),
        0x0673 => Some("T_64PUINT2"),
        0x0674 => Some("T_64PINT4"),
        0x0675 => Some("T_64PUINT4"),
        0x0676 => Some("T_64PINT8"),
        0x0677 => Some("T_64PUINT8"),
        0x0678 => Some("T_64PINT16"),
        0x0679 => Some("T_64PUINT16"),
        0x067a => Some("T_64PCHAR16"),
        0x067b => Some("T_64PCHAR32"),
        _ => None,
    }
}

/// Looks up the C/C++ name of a primitive type.
pub fn get_primitive_description(v: u32) -> (r: Option<&'static str>)
    ensures
        r == primitive_description(v),
{
    match v {
        0x0000 => Some("none"),
        0x0001 => Some("absolute symbol"),
        0x0002 => Some("segment type"),
        0x0003 => Some("void"),
        0x0004 => Some("BASIC 8 byte currency value"),
        0x0005 => Some("Near BASIC string"),
        0x0006 => Some("Far BASIC string"),
        0x0007 => Some("<type-not-translated>"),
        0x0008 => Some("HRESULT"),
        0x0010 => Some("char"),
        0x0011 => Some("short"),
        0x0012 => Some("long"),
        0x0013 => Some("long long"),
        0x0014 => Some("__int128"),
        0x0020 => Some("unsigned char"),
        0x0021 => Some("unsigned short"),
        0x0022 => Some("unsigned long"),
        0x0023 => Some("unsigned long long"),
        0x0024 => Some("unsigned __int128"),
        0x0030 => Some("bool"),
        0x0031 => Some("bool16"),
        0x0032 => Some("bool32"),
        0x0033 => Some("bool64"),
        0x0040 => Some("float"),
        0x0041 => Some("double"),
        0x0042 => Some("80 bit real"),
        0x0043 => Some("128 bit real"),
        0x0044 => Some("48 bit real"),
        0x0045 => Some("32 bit PP real"),
        0x0046 => Some("16 bit real"),
        0x0050 => Some("32 bit complex"),
        0x0051 => Some("64 bit complex"),
        0x0052 => Some("80 bit complex"),
        0x0053 => Some("128 bit complex"),
        0x0060 => Some("bit"),
        0x0061 => Some("Pascal CHAR"),
        0x0062 => Some("32-bit BOOL where true is 0xffffffff"),
        0x0068 => Some("__int8"),
        0x0069 => Some("unsigned __int8"),
        0x0070 => Some("char"),
        0x0071 => Some("wchar_t"),
        0x0072 => Some("__int16"),
        0x0073 => Some("unsigned __int16"),
        0x0074 => Some("__int32"),
        0x0075 => Some("unsigned __int32"),
        0x0076 => Some("__int64"),
        0x0077 => Some("unsigned __int64"),
        0x0078 => Some("128 bit signed int"),
        0x0079 => Some("128 bit unsigned int"),
        0x007a => Some("char16"),
        0x007b => Some("char32"),
        0x0103 => Some("near pointer to void"),
        0x0110 => Some("16 bit pointer to 8 bit signed"),
        0x0111 => Some("16 bit pointer to 16 bit signed"),
        0x0112 => Some("16 bit pointer to 32 bit signed"),
        0x0113 => Some("16 bit pointer to 64 bit signed"),
        0x0114 => Some("16 bit pointer to 128 bit signed"),
        0x0120 => Some("16 bit pointer to 8 bit unsigned"),
        0x0121 => Some("16 bit pointer to 16 bit unsigned"),
        0x0122 => Some("16 bit pointer to 32 bit unsigned"),
        0x0123 => Some("16 bit pointer to 64 bit unsigned"),
        0x0124 => Some("16 bit pointer to 128 bit unsigned"),
        0x0130 => Some("16 bit pointer to  8 bit boolean"),
        0x0131 => Some("16 bit pointer to 16 bit boolean"),
        0x0132 => Some("16 bit pointer to 32 bit boolean"),
        0x0133 => Some("16 bit pointer to 64 bit boolean"),
        0x0140 => Some("16 bit pointer to 32 bit real"),
        0x0141 => Some("16 bit pointer to 64 bit real"),
        0x0142 => Some("16 bit pointer to 80 bit real"),
        0x0143 => Some("16 bit pointer to 128 bit real"),
        0x0144 => Some("16 bit pointer to 48 bit real"),
        0x0145 => Some("16 bit pointer to 32 bit PP real"),
        0x0146 => Some("16 bit pointer to 16 bit real"),
        0x0150 => Some("16 bit pointer to 32 bit complex"),
        0x0151 => Some("16 bit pointer to 64 bit complex"),
        0x0152 => Some("16 bit pointer to 80 bit complex"),
        0x0153 => Some("16 bit pointer to 128 bit complex"),
        0x0168 => Some("16 bit pointer to 8 bit signed int"),
        0x0169 => Some("16 bit pointer to 8 bit unsigned int"),
        0x0170 => Some("16 bit pointer to a real char"),
        0x0171 => Some("16 bit pointer to a wide char"),
        0x0172 => Some("16 bit pointer to 16 bit signed int"),
        0x0173 => Some("16 bit pointer to 16 bit unsigned int"),
        0x0174 => Some("16 bit pointer to 32 bit signed int"),
        0x0175 => Some("16 bit pointer to 32 bit unsigned int"),
        0x0176 => Some("16 bit pointer to 64 bit signed int"),
        0x0177 => Some("16 bit pointer to 64 bit unsigned int"),
        0x0178 => Some("16 bit pointer to 128 bit signed int"),
        0x0179 => Some("16 bit pointer to 128 bit unsigned int"),
        0x0203 => Some("far pointer to void"),
        0x0210 => Some("16:16 far pointer to 8 bit signed"),
        0x0211 => Some("16:16 far pointer to 16 bit signed"),
        0x0212 => Some("16:16 far pointer to 32 bit signed"),
        0x0213 => Some("16:16 far pointer to 64 bit signed"),
        0x0214 => Some("16:16 far pointer to 128 bit signed"),
        0x0220 => Some("16:16 far pointer to 8 bit unsigned"),
        0x0221 => Some("16:16 far pointer to 16 bit unsigned"),
        0x0222 => Some("16:16 far pointer to 32 bit unsigned"),
        0x0223 => Some("16:16 far pointer to 64 bit unsigned"),
        0x0224 => Some("16:16 far pointer to 128 bit unsigned"),
        0x0230 => Some("16:16 far pointer to  8 bit boolean"),
        0x0231 => Some("16:16 far pointer to 16 bit boolean"),
        0x0232 => Some("16:16 far pointer to 32 bit boolean"),
        0x0233 => Some("16:16 far pointer to 64 bit boolean"),
        0x0240 => Some("16:16 far pointer to 32 bit real"),
        0x0241 => Some("16:16 far pointer to 64 bit real"),
        0x0242 => Some("16:16 far pointer to 80 bit real"),
        0x0243 => Some("16:16 far pointer to 128 bit real"),
        0x0244 => Some("16:16 far pointer to 48 bit real"),
        0x0245 => Some("16:16 far pointer to 32 bit PP real"),
        0x0246 => Some("16:16 far pointer to 16 bit real"),
        0x0250 => Some("16:16 far pointer to 32 bit complex"),
        0x0251 => Some("16:16 far pointer to 64 bit complex"),
        0x0252 => Some("16:16 far pointer to 80 bit complex"),
        0x0253 => Some("16:16 far pointer to 128 bit complex"),
        0x0268 => Some("16:16 far pointer to 8 bit signed int"),
        0x0269 => Some("16:16 far pointer to 8 bit unsigned int"),
        0x0270 => Some("16:16 far pointer to a real char"),
        0x0271 => Some("16:16 far pointer to a wide char"),
        0x0272 => Some("16:16 far pointer to 16 bit signed int"),
        0x0273 => Some("16:16 far pointer to 16 bit unsigned int"),
        0x0274 => Some("16:16 far pointer to 32 bit signed int"),
        0x0275 => Some("16:16 far pointer to 32 bit unsigned int"),
        0x0276 => Some("16:16 far pointer to 64 bit signed int"),
        0x0277 => Some("16:16 far pointer to 64 bit unsigned int"),
        0x0278 => Some("16:16 far pointer to 128 bit signed int"),
        0x0279 => Some("16:16 far pointer to 128 bit unsigned int"),
        0x0303 => Some("huge pointer to void"),
        0x0310 => Some("16:16 huge pointer to 8 bit signed"),
        0x0311 => Some("16:16 huge pointer to 16 bit signed"),
        0x0312 => Some("16:16 huge pointer to 32 bit signed"),
        0x0313 => Some("16:16 huge pointer to 64 bit signed"),
        0x0314 => Some("16:16 huge pointer to 128 bit signed"),
        0x0320 => Some("16:16 huge pointer to 8 bit unsigned"),
        0x0321 => Some("16:16 huge pointer to 16 bit unsigned"),
        0x0322 => Some("16:16 huge pointer to 32 bit unsigned"),
        0x0323 => Some("16:16 huge pointer to 64 bit unsigned"),
        0x0324 => Some("16:16 huge pointer to 128 bit unsigned"),
        0x0330 => Some("16:16 huge pointer to  8 bit boolean"),
        0x0331 => Some("16:16 huge pointer to 16 bit boolean"),
        0x0332 => Some("16:16 huge pointer to 32 bit boolean"),
        0x0333 => Some("16:16 huge pointer to 64 bit boolean"),
        0x0340 => Some("16:16 huge pointer to 32 bit real"),
        0x0341 => Some("16:16 huge pointer to 64 bit real"),
        0x0342 => Some("16:16 huge pointer to 80 bit real"),
        0x0343 => Some("16:16 huge pointer to 128 bit real"),
        0x0344 => Some("16:16 huge pointer to 48 bit real"),
        0x0345 => Some("16:16 huge pointer to 32 bit PP real"),
        0x0346 => Some("16:16 huge pointer to 16 bit real"),
        0x0350 => Some("16:16 huge pointer to 32 bit complex"),
        0x0351 => Some("16:16 huge pointer to 64 bit complex"),
        0x0352 => Some("16:16 huge pointer to 80 bit complex"),
        0x0353 => Some("16:16 huge pointer to 128 bit real"),
        0x0368 => Some("16:16 huge pointer to 8 bit signed int"),
        0x0369 => Some("16:16 huge pointer to 8 bit unsigned int"),
        0x0370 => Some("16:16 huge pointer to a real char"),
        0x0371 => Some("16:16 huge pointer to a wide char"),
        0x0372 => Some("16:16 huge pointer to 16 bit signed int"),
        0x0373 => Some("16:16 huge pointer to 16 bit unsigned int"),
        0x0374 => Some("16:16 huge pointer to 32 bit signed int"),
        0x0375 => Some("16:16 huge pointer to 32 bit unsigned int"),
        0x0376 => Some("16:16 huge pointer to 64 bit signed int"),
        0x0377 => Some("16:16 huge pointer to 64 bit unsigned int"),
        0x0378 => Some("16:16 huge pointer to 128 bit signed int"),
        0x0379 => Some("16:16 huge pointer to 128 bit unsigned int"),
        0x0403 => Some("void *"),
        0x0408 => Some("HRESULT *"),
        0x0410 => Some("char *"),
        0x0411 => Some("short *"),
        0x0412 => Some("long *"),
        0x0413 => Some("long long *"),
        0x0414 => Some("__int128 *"),
        0x0420 => Some("unsigned char *"),
        0x0421 => Some("unsigned short *"),
        0x0422 => Some("unsigned __int32 *"),
        0x0423 => Some("long long *"),
        0x0424 => Some("unsigned __int128 *"),
        0x0430 => Some("bool *"),
        0x0431 => Some("bool16 *"),
        0x0432 => Some("bool32 *"),
        0x0433 => Some("bool64 *"),
        0x0440 => Some("float *"),
        0x0441 => Some("double *"),
        0x0442 => Some("32 bit pointer to 80 bit real"),
        0x0443 => Some("32 bit pointer to 128 bit real"),
        0x0444 => Some("32 bit pointer to 48 bit real"),
        0x0445 => Some("32 bit pointer to 32 bit PP real"),
        0x0446 => Some("32 bit pointer to 16 bit real"),
        0x0450 => Some("32 bit pointer to 32 bit complex"),
        0x0451 => Some("32 bit pointer to 64 bit complex"),
        0x0452 => Some("32 bit pointer to 80 bit complex"),
        0x0453 => Some("32 bit pointer to 128 bit complex"),
        0x0468 => Some("__int8 *"),
        0x0469 => Some("unsigned __int8 *"),
        0x0470 => Some("char *"),
        0x0471 => Some("wchar_t *"),
        0x0472 => Some("__int16 *"),
        0x0473 => Some("unsigned __int16 *"),
        0x0474 => Some("__int32 *"),
        0x0475 => Some("unsigned __int32 *"),
        0x0476 => Some("__int64 *"),
        0x0477 => Some("unsigned __int64 *"),
        0x0478 => Some("32 bit pointer to 128 bit signed int"),
        0x0479 => Some("32 bit pointer to 128 bit unsigned int"),
        0x047a => Some("char16 *"),
        0x047b => Some("char32 *"),
        0x0503 => Some("16:32 pointer to void"),
        0x0510 => Some("16:32 pointer to 8 bit signed"),
        0x0511 => Some("16:32 pointer to 16 bit signed"),
        0x0512 => Some("16:32 pointer to 32 bit signed"),
        0x0513 => Some("16:32 pointer to 64 bit signed"),
        0x0514 => Some("16:32 pointer to 128 bit signed"),
        0x0520 => Some("16:32 pointer to 8 bit unsigned"),
        0x0521 => Some("16:32 pointer to 16 bit unsigned"),
        0x0522 => Some("16:32 pointer to 32 bit unsigned"),
        0x0523 => Some("16:32 pointer to 64 bit unsigned"),
        0x0524 => Some("16:32 pointer to 128 bit unsigned"),
        0x0530 => Some("16:32 pointer to 8 bit boolean"),
        0x0531 => Some("16:32 pointer to 16 bit boolean"),
        0x0532 => Some("16:32 pointer to 32 bit boolean"),
        0x0533 => Some("16:32 pointer to 64 bit boolean"),
        0x0540 => Some("16:32 pointer to 32 bit real"),
        0x0541 => Some("16:32 pointer to 64 bit real"),
        0x0542 => Some("16:32 pointer to 80 bit real"),
        0x0543 => Some("16:32 pointer to 128 bit real"),
        0x0544 => Some("16:32 pointer to 48 bit real"),
        0x0545 => Some("16:32 pointer to 32 bit PP real"),
        0x0546 => Some("16:32 pointer to 16 bit real"),
        0x0550 => Some("16:32 pointer to 32 bit complex"),
        0x0551 => Some("16:32 pointer to 64 bit complex"),
        0x0552 => Some("16:32 pointer to 80 bit complex"),
        0x0553 => Some("16:32 pointer to 128 bit complex"),
        0x0568 => Some("16:32 pointer to 8 bit signed int"),
        0x0569 => Some("16:32 pointer to 8 bit unsigned int"),
        0x0570 => Some("16:32 pointer to a real char"),
        0x0571 => Some("16:32 pointer to a wide char"),
        0x0572 => Some("16:32 pointer to 16 bit signed int"),
        0x0573 => Some("16:32 pointer to 16 bit unsigned int"),
        0x0574 => Some("16:32 pointer to 32 bit signed int"),
        0x0575 => Some("16:32 pointer to 32 bit unsigned int"),
        0x0576 => Some("16:32 pointer to 64 bit signed int"),
        0x0577 => Some("16:32 pointer to 64 bit unsigned int"),
        0x0578 => Some("16:32 pointer to 128 bit signed int"),
        0x0579 => Some("16:32 pointer to 128 bit unsigned int"),
        0x0603 => Some("void *"),
        0x0608 => Some("HRESULT *"),
        0x0610 => Some("char *"),
        0x0611 => Some("short *"),
        0x0612 => Some("long *"),
        0x0613 => Some("long long *"),
        0x0614 => Some("__int128 *"),
        0x0620 => Some("unsigned char *"),
        0x0621 => Some("unsigned short *"),
        0x0622 => Some("unsigned __int32 *"),
        0x0623 => Some("long long *"),
        0x0624 => Some("unsigned __int128 *"),
        0x0630 => Some("bool *"),
        0x0631 => Some("bool16 *"),
        0x0632 => Some("bool32 *"),
        0x0633 => Some("bool64 *"),
        0x0640 => Some("float *"),
        0x0641 => Some("double *"),
        0x0642 => Some("64 bit pointer to 80 bit real"),
        0x0643 => Some("64 bit pointer to 128 bit real"),
        0x0644 => Some("64 bit pointer to 48 bit real"),
        0x0645 => Some("64 bit pointer to 32 bit PP real"),
        0x0646 => Some("64 bit pointer to 16 bit real"),
        0x0650 => Some("64 bit pointer to 32 bit complex"),
        0x0651 => Some("64 bit pointer to 64 bit complex"),
        0x0652 => Some("64 bit pointer to 80 bit complex"),
        0x0653 => Some("64 bit pointer to 128 bit complex"),
        0x0668 => Some("__int8 *"),
        0x0669 => Some("unsigned __int8 *"),
        0x0670 => Some("char *"),
        0x0671 => Some("wchar_t *"),
        0x0672 => Some("__int16 *"),
        0x0673 => Some("unsigned __int16 *"),
        0x0674 => Some("__int32 *"),
        0x0675 => Some("unsigned __int32 *"),
        0x0676 => Some("__int64 *"),
        0x0677 => Some("unsigned __int64 *"),
        0x0678 => Some("64 bit pointer to 128 bit signed int"),
        0x0679 => Some("64 bit pointer to 128 bit unsigned int"),
        0x067a => Some("char16 *"),
        0x067b => Some("char32 *"),
        _ => None,
    }
}

/// The name of the kind of a primitive type (bits 4..8 of its index), if it is a known kind.
pub open spec fn primitive_kind_name(k: u32) -> Option<&'static str> {
    if k == PRIMITIVE_TYPE_SPECIAL {
        Some("special")
    } else if k == PRIMITIVE_TYPE_SIGNED_INT {
        Some("signed_integer")
    } else if k == PRIMITIVE_TYPE_UNSIGNED_INT {
        Some("unsigned_integer")
    } else if k == PRIMITIVE_TYPE_BOOL {
        Some("bool")
    } else if k == PRIMITIVE_TYPE_REAL {
        Some("real")
    } else if k == PRIMITIVE_TYPE_COMPLEX {
        Some("complex")
    } else if k == PRIMITIVE_TYPE_SPECIAL2 {
        Some("special2")
    } else if k == PRIMITIVE_TYPE_REALLY_INT {
        Some("really_integer")
    } else {
        None
    }
}

/// The text that `dump_primitive_type_index` writes for a type index.
pub open spec fn primitive_dump(t: u32) -> Seq<char> {
    match primitive_name(t) {
        Some(n) => n@,
        None => {
            let mode = (t / 0x100) % 8;
            let prim_ty = (t / 0x10) % 0x10;
            let size = t % 8;
            "??PRIM(0x"@ + hex_padded(t as nat, 4) + ") { ty: "@ + (match primitive_kind_name(prim_ty) {
                Some(k) => k@,
                None => "??"@ + dec_chars(prim_ty as nat),
            }) + ", mode: "@ + dec_chars(mode as nat) + ", size: "@ + dec_chars(size as nat)
                + " }"@
        },
    }
}

/// Writes a `TypeIndex` to `out`. For use only with primitive types.
pub fn dump_primitive_type_index(out: &mut String, type_index: TypeIndex)
    ensures
        final(out)@ == old(out)@ + primitive_dump(type_index.0),
{
    let t = type_index.0;
    match get_primitive_name(t) {
        Some(s) => {
            push_str(out, s);
        },
        None => {
            let mode = (t / 0x100) % 8;
            let prim_ty = (t / 0x10) % 0x10;
            let size = t % 8;
            push_str(out, "??PRIM(0x");
            push_hex(out, t as u64, 4);
            push_str(out, ") { ty: ");
            let ghost mid = out@;
            if prim_ty == PRIMITIVE_TYPE_SPECIAL {
                push_str(out, "special");
            } else if prim_ty == PRIMITIVE_TYPE_SIGNED_INT {
                push_str(out, "signed_integer");
            } else if prim_ty == PRIMITIVE_TYPE_UNSIGNED_INT {
                push_str(out, "unsigned_integer");
            } else if prim_ty == PRIMITIVE_TYPE_BOOL {
                push_str(out, "bool");
            } else if prim_ty == PRIMITIVE_TYPE_REAL {
                push_str(out, "real");
            } else if prim_ty == PRIMITIVE_TYPE_COMPLEX {
                push_str(out, "complex");
            } else if prim_ty == PRIMITIVE_TYPE_SPECIAL2 {
                push_str(out, "special2");
            } else if prim_ty == PRIMITIVE_TYPE_REALLY_INT {
                push_str(out, "really_integer");
            } else {
                push_str(out, "??");
                push_dec(out, prim_ty as u64);
            }
            let ghost mid2 = out@;
            push_str(out, ", mode: ");
            push_dec(out, mode as u64);
            push_str(out, ", size: ");
            push_dec(out, size as u64);
            push_str(out, " }");
            assert(mid2 == mid + (match primitive_kind_name(prim_ty) {
                Some(k) => k@,
                None => "??"@ + dec_chars(prim_ty as nat),
            }));
            assert(out@ =~= old(out)@ + primitive_dump(t));
        },
    }
}

} // verus!
