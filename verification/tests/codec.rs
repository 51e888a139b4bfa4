use genie::codec::{
    bytes_until_nul, get_be, get_le, put_be, put_le, put_opt_u16, put_opt_u32, read_bytes,
    read_i16_le, read_i32_le, read_i8, read_opt_u16, read_opt_u32, read_u16_le, read_u32_le,
    read_u64_le, ReadError,
};
use genie::deflate::{deflate, inflate};
use genie::serializer::{Bool, F32LE, I128BE, I16BE, I32LE, U16LE, U32BE, U64LE, U8};
use genie::text::{chars_of, i64_decimal, parse_u32, same_text, string_of, u64_decimal};

#[test]
fn little_and_big_endian() {
    let data = [0x01, 0x02, 0x03, 0x04, 0x05, 0x06, 0x07, 0x08];
    assert_eq!(get_le(&data, 0, 4), 0x0403_0201);
    assert_eq!(get_be(&data, 0, 4), 0x0102_0304);
    assert_eq!(get_le(&data, 6, 2), 0x0807);
    let mut out = vec![];
    put_le(&mut out, 0x0a0b0c, 3);
    put_be(&mut out, 0x0a0b0c, 3);
    assert_eq!(out, vec![0x0c, 0x0b, 0x0a, 0x0a, 0x0b, 0x0c]);
    assert_eq!(read_u16_le(&data, 1), Ok((0x0302, 3)));
    assert_eq!(read_u32_le(&data, 4), Ok((0x0807_0605, 8)));
    assert_eq!(read_u64_le(&data, 0), Ok((0x0807_0605_0403_0201, 8)));
    assert_eq!(read_u32_le(&data, 5), Err(ReadError::UnexpectedEof));
}

#[test]
fn signed_reads() {
    let data = [0xff, 0xfe, 0xff, 0xff, 0xff];
    assert_eq!(read_i8(&data, 0), Ok((-1, 1)));
    assert_eq!(read_i16_le(&data, 0), Ok((-257, 2)));
    assert_eq!(read_i32_le(&data, 1), Ok((-2, 5)));
    assert_eq!(read_bytes(&data, 3, 2), Ok((vec![0xff, 0xff], 5)));
    assert_eq!(read_bytes(&data, 3, 3), Err(ReadError::UnexpectedEof));
}

#[test]
fn optional_numbers() {
    let mut out = vec![];
    put_opt_u16(&mut out, None);
    put_opt_u16(&mut out, Some(7));
    put_opt_u32(&mut out, None);
    put_opt_u32(&mut out, Some(9));
    assert_eq!(out, vec![0xff, 0xff, 7, 0, 0xff, 0xff, 0xff, 0xff, 9, 0, 0, 0]);
    assert_eq!(read_opt_u16(&out, 0), Ok((None, 2)));
    assert_eq!(read_opt_u16(&out, 2), Ok((Some(7), 4)));
    assert_eq!(read_opt_u32(&out, 4), Ok((None, 8)));
    assert_eq!(read_opt_u32(&out, 8), Ok((Some(9), 12)));
}

#[test]
fn nul_terminated_bytes() {
    assert_eq!(bytes_until_nul(b"abc\0def"), b"abc".to_vec());
    assert_eq!(bytes_until_nul(b"abc"), b"abc".to_vec());
    assert_eq!(bytes_until_nul(b"\0"), Vec::<u8>::new());
}

#[test]
fn serializers() {
    let mut out = vec![];
    U16LE::serialize(&mut out, 0x1234);
    U32BE::serialize(&mut out, 0xdead_beef);
    I16BE::serialize(&mut out, -2);
    U8::serialize(&mut out, 9);
    Bool::serialize(&mut out, true);
    assert_eq!(out, vec![0x34, 0x12, 0xde, 0xad, 0xbe, 0xef, 0xff, 0xfe, 9, 1]);
    assert_eq!(U16LE::deserialize(&out, 0), Ok((0x1234, 2)));
    assert_eq!(U32BE::deserialize(&out, 2), Ok((0xdead_beef, 6)));
    assert_eq!(I16BE::deserialize(&out, 6), Ok((-2, 8)));
    assert_eq!(U8::deserialize(&out, 8), Ok((9, 9)));
    assert_eq!(Bool::deserialize(&out, 9), Ok((true, 10)));
    assert_eq!(Bool::deserialize(&[2], 0), Ok((true, 1)));
    assert_eq!(U64LE::deserialize(&out, 4), Err(ReadError::UnexpectedEof));
    let mut wide = vec![];
    I128BE::serialize(&mut wide, -1);
    assert_eq!(wide, vec![0xff; 16]);
    assert_eq!(I128BE::deserialize(&wide, 0), Ok((-1, 16)));
    let mut ints = vec![];
    I32LE::serialize(&mut ints, i32::MIN);
    assert_eq!(ints, vec![0, 0, 0, 0x80]);
}

#[test]
fn float_bit_patterns() {
    let mut out = vec![];
    F32LE::serialize(&mut out, 1.5f32.to_bits());
    assert_eq!(out, 1.5f32.to_le_bytes().to_vec());
    let (bits, pos) = F32LE::deserialize(&out, 0).unwrap();
    assert_eq!(f32::from_bits(bits), 1.5);
    assert_eq!(pos, 4);
}

#[test]
fn deflate_round_trip() {
    let data = b"hotkeys hotkeys hotkeys hotkeys".to_vec();
    let compressed = deflate(&data).unwrap();
    assert_ne!(compressed, data);
    assert_eq!(inflate(&compressed), Some(data));
    assert_eq!(inflate(&[0xff, 0xff]), None);
}

#[test]
fn decimal_text() {
    assert_eq!(u64_decimal(0), vec!['0']);
    assert_eq!(u64_decimal(90210), chars_of("90210"));
    assert_eq!(i64_decimal(-45), chars_of("-45"));
    assert_eq!(i64_decimal(i64::MIN), chars_of("-9223372036854775808"));
    assert_eq!(parse_u32(&chars_of("4294967295")), Some(u32::MAX));
    assert_eq!(parse_u32(&chars_of("4294967296")), None);
    assert_eq!(parse_u32(&chars_of("12a")), None);
    assert_eq!(parse_u32(&chars_of("")), None);
    assert_eq!(parse_u32(&chars_of("+7")), Some(7));
}

#[test]
fn text_helpers() {
    assert_eq!(string_of(&['h', '\u{e9}']), "h\u{e9}");
    assert!(same_text("abc", "abc"));
    assert!(!same_text("abc", "abd"));
}
