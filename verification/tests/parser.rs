use bstr::ByteSlice;
use mspdb::parser::{Parse, Parser, ParserError};
use mspdb::types::TypeIndex;
use std::borrow::Cow;

#[test]
fn empty() {
    assert!(Parser::new(&[]).is_empty());
    assert!(!Parser::new(&[42]).is_empty());
}

#[test]
fn len() {
    assert_eq!(Parser::new(&[]).len(), 0);
    assert_eq!(Parser::new(&[42]).len(), 1);
}

#[test]
fn ints() {
    let bytes = &[
        0x12, 0x34, // u16
        0x56, 0x78, 0xaa, 0xee, // u32
        0x55, 0x33, // u16
    ];

    let mut p = Parser::new(bytes);
    assert_eq!(p.len(), 8);
    assert_eq!(p.u16().unwrap(), 0x3412);
    assert_eq!(p.len(), 6);
    assert_eq!(p.u32().unwrap(), 0xeeaa_7856);
    assert_eq!(p.len(), 2);
    assert_eq!(p.u8().unwrap(), 0x55);
    assert_eq!(p.len(), 1);
    assert_eq!(p.i8().unwrap(), 0x33);
    assert_eq!(p.len(), 0);
    assert!(p.is_empty());

    // Integers do not need to be aligned.
    let mut p = Parser::new(bytes);
    p.u8().unwrap();
    assert_eq!(p.u16().unwrap(), 0x5634);
    assert_eq!(p.u32().unwrap(), 0x55_ee_aa_78);

    let mut p = Parser::new(&[1, 2, 3, 4]);
    assert_eq!(p.u32().unwrap(), 0x04_03_02_01);
    assert!(p.is_empty());

    let mut p = Parser::new(&[1, 2, 3, 4]);
    assert_eq!(p.type_index().unwrap(), TypeIndex(0x04_03_02_01));
    assert!(p.is_empty());
}

#[test]
fn strz() {
    assert!(Parser::new(&[]).strz().is_err());
    assert!(Parser::new(b"x").strz().is_err());

    assert_eq!(
        Parser::new(&[b'f', b'o', b'o', 0])
            .strz()
            .unwrap()
            .to_str()
            .unwrap(),
        "foo"
    );
}

#[test]
fn strz_bad_utf8() {
    let buf: &[u8] = b"\x80 bad\0second string \xe2\x9c\x85\0";
    let mut p = Parser::new(buf);

    let bad_raw = p.strz().unwrap();
    assert!(bad_raw.to_str().is_err());
    assert_eq!(bad_raw, &[0x80, b' ', b'b', b'a', b'd']);
    let bad_lossy: Cow<str> = bad_raw.to_str_lossy();
    assert!(matches!(bad_lossy, Cow::Owned(_)));
    assert_eq!(bad_lossy, "\u{fffd} bad");

    let good = p.strz().unwrap();
    let good_str: &str = good.to_str().unwrap();
    assert_eq!(good_str, "second string ✅");

    assert!(p.is_empty());
}

#[test]
fn strt() {
    let buf = b"\x03abc123";
    let mut p = Parser::new(buf);
    let s = p.strt().unwrap();
    assert_eq!(s, "abc");
    assert_eq!(p.into_rest(), b"123");
}

#[test]
fn rest() {
    let mut p = Parser::new(&[1, 2, 3, 4, 5]);
    assert_eq!(p.u8().unwrap(), 1);

    assert_eq!(p.peek_rest(), &[2, 3, 4, 5]);

    let rest = p.take_rest();
    assert_eq!(rest, &[2, 3, 4, 5]);
    assert!(p.is_empty());
}

#[test]
fn into_rest() {
    let mut p = Parser::new(&[1, 2, 3, 4, 5]);
    assert_eq!(p.u8().unwrap(), 1);
    let rest = p.into_rest();
    assert_eq!(rest, &[2, 3, 4, 5]);
}

#[test]
fn needs() {
    let p = Parser::new(&[10, 20]);
    assert!(matches!(p.needs(0), Ok(_)));
    assert!(matches!(p.needs(2), Ok(_)));
    assert!(matches!(p.needs(3), Err(_)));
}

#[test]
fn skip() {
    let mut p = Parser::new(&[1, 2, 3, 4, 5]);
    p.skip(2).unwrap();
    assert_eq!(p.u16().unwrap(), 0x403);
}

#[derive(PartialEq, Eq, Debug)]
struct Bar {
    b: u8,
    a: u8,
    r: u8,
}

impl<'a> Parse<'a> for Bar {
    fn from_parser(p: &mut Parser<'a>) -> Result<Self, ParserError> {
        let b = p.u8()?;
        let a = p.u8()?;
        let r = p.u8()?;
        Ok(Bar { b, a, r })
    }
}

#[test]
fn get() {
    let buf = &[b'b', b'a', b'r', 4, 5];
    let mut p = Parser::new(buf);

    let bar: Bar = p.get().unwrap();
    assert_eq!(bar.b, b'b');
    assert_eq!(bar.a, b'a');
    assert_eq!(bar.r, b'r');

    assert!(p.get::<Bar>().is_err());
    assert_eq!(p.len(), 2);
}

#[test]
fn signed_and_wide_ints() {
    let mut p = Parser::new(&[0xff, 0xfe, 0xff, 0x00, 0x00, 0x00, 0x80]);
    assert_eq!(p.i8().unwrap(), -1);
    assert_eq!(p.i16().unwrap(), -2);
    assert_eq!(p.i32().unwrap(), i32::MIN);
    assert!(p.is_empty());

    let mut p = Parser::new(&[1, 2, 3, 4, 5, 6, 7, 8, 9]);
    assert_eq!(p.u64().unwrap(), 0x0807_0605_0403_0201);
    assert!(p.u16().is_err());
    assert_eq!(p.len(), 1);
}

#[test]
fn strt_rejects_bad_utf8_and_short_input() {
    assert!(Parser::new(b"\x02\xff\xfe").strt().is_err());
    assert!(Parser::new(b"\x05ab").strt().is_err());
    let mut p = Parser::new(b"\x05ab");
    assert!(p.strt_raw().is_err());
    assert_eq!(p.len(), 3);
}

use mspdb::encoder::Encoder;
use mspdb::parser::ParserMut;

#[test]
fn encoder_appends_to_buffer() {
    let mut buf = vec![9u8];
    {
        let mut e = Encoder::new(&mut buf);
        e.u16(0x3412);
        e.u32(0x04030201);
        e.bytes(&[]);
        e.bytes(&[0xaa, 0xbb]);
        e.strz(b"hi");
        assert_eq!(e.len(), 12);
        assert!(!e.is_empty());
    }
    assert_eq!(buf, vec![9, 0x12, 0x34, 1, 2, 3, 4, 0xaa, 0xbb, b'h', b'i', 0]);
    assert_eq!(Parser::new(&buf[1..3]).u16(), Ok(0x3412));
    assert_eq!(Parser::new(&buf[3..7]).type_index(), Ok(TypeIndex(0x04030201)));
}

#[test]
fn parser_mut_skip_strz_leaves_bytes() {
    let mut buf = *b"\x80 bad\0second string \xe2\x9c\x85\0";
    let copy = buf;
    {
        let mut p = ParserMut::new(&mut buf);
        assert!(p.skip_strz().is_ok());
        assert_eq!(p.peek_rest(), b"second string \xe2\x9c\x85\0");
        assert!(p.skip_strz().is_ok());
        assert!(p.is_empty());
        assert!(p.skip_strz().is_err());
    }
    assert_eq!(buf, copy);
}

#[test]
fn parser_mut_peek_rest_mut_writes_through() {
    let mut buf = [1u8, 2, 3, 4];
    {
        let mut p = ParserMut::new(&mut buf);
        assert_eq!(p.u8(), Ok(1));
        let rest = p.peek_rest_mut();
        assert_eq!(rest, &[2, 3, 4]);
        rest[0] = 9;
        assert_eq!(p.peek_rest(), &[9, 3, 4]);
    }
    assert_eq!(buf, [1, 9, 3, 4]);
}
