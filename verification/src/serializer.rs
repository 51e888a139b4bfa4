//! Field codecs for declaring binary record layouts.
//!
//! Each unit struct names one field encoding. `deserialize` reads a value at a
//! position of a byte buffer and returns it with the position after it;
//! `serialize` appends the encoding of a value to an output buffer.
//! Floating-point fields are carried as their IEEE-754 bit patterns.
use crate::codec::{
    be_at, be_bytes, get_be, get_le, le_at, le_bytes, lemma_pow256_values, put_be, put_le, read_u8,
    signed_of, unsigned_of, ReadError,
};
use vstd::prelude::*;

verus! {

/// `u128` field, big-endian.
pub struct U128BE;

impl U128BE {
    pub fn deserialize(input: &[u8], pos: usize) -> (r: Result<(u128, usize), ReadError>)
        ensures
            r is Ok <==> pos + 16 <= input.len(),
            r matches Ok((v, p)) ==> v == be_at(input@, pos as int, 16) && p == pos + 16,
            r matches Err(e) ==> e == ReadError::UnexpectedEof,
    {
        proof {
            lemma_pow256_values();
        }
        if pos <= input.len() && 16 <= input.len() - pos {
            let u = get_be(input, pos, 16);
            let v: u128 = u as u128;
            Ok((v, pos + 16))
        } else {
            Err(ReadError::UnexpectedEof)
        }
    }

    pub fn serialize(output: &mut Vec<u8>, val: u128)
        ensures
            final(output)@ == old(output)@ + be_bytes(val as nat, 16),
    {
        proof {
            lemma_pow256_values();
        }
        let u: u128 = val as u128;
        put_be(output, u, 16);
    }
}

/// `u128` field, little-endian.
pub struct U128LE;

impl U128LE {
    pub fn deserialize(input: &[u8], pos: usize) -> (r: Result<(u128, usize), ReadError>)
        ensures
            r is Ok <==> pos + 16 <= input.len(),
            r matches Ok((v, p)) ==> v == le_at(input@, pos as int, 16) && p == pos + 16,
            r matches Err(e) ==> e == ReadError::UnexpectedEof,
    {
        proof {
            lemma_pow256_values();
        }
        if pos <= input.len() && 16 <= input.len() - pos {
            let u = get_le(input, pos, 16);
            let v: u128 = u as u128;
            Ok((v, pos + 16))
        } else {
            Err(ReadError::UnexpectedEof)
        }
    }

    pub fn serialize(output: &mut Vec<u8>, val: u128)
        ensures
            final(output)@ == old(output)@ + le_bytes(val as nat, 16),
    {
        proof {
            lemma_pow256_values();
        }
        let u: u128 = val as u128;
        put_le(output, u, 16);
    }
}

/// `i128` field, big-endian.
pub struct I128BE;

impl I128BE {
    pub fn deserialize(input: &[u8], pos: usize) -> (r: Result<(i128, usize), ReadError>)
        ensures
            r is Ok <==> pos + 16 <= input.len(),
            r matches Ok((v, p)) ==> v == signed_of(be_at(input@, pos as int, 16), 16) && p == pos + 16,
            r matches Err(e) ==> e == ReadError::UnexpectedEof,
    {
        proof {
            lemma_pow256_values();
        }
        if pos <= input.len() && 16 <= input.len() - pos {
            let u = get_be(input, pos, 16);
            let v: i128 = if u < 0x80000000000000000000000000000000 { u as i128 } else { ((u - 0x80000000000000000000000000000000) as i128) + i128::MIN };
            Ok((v, pos + 16))
        } else {
            Err(ReadError::UnexpectedEof)
        }
    }

    pub fn serialize(output: &mut Vec<u8>, val: i128)
        ensures
            final(output)@ == old(output)@ + be_bytes(unsigned_of(val as int, 16), 16),
    {
        proof {
            lemma_pow256_values();
        }
        let u: u128 = if val < 0 { ((val - i128::MIN) as u128) + 0x80000000000000000000000000000000 } else { val as u128 };
        put_be(output, u, 16);
    }
}

/// `i128` field, little-endian.
pub struct I128LE;

impl I128LE {
    pub fn deserialize(input: &[u8], pos: usize) -> (r: Result<(i128, usize), ReadError>)
        ensures
            r is Ok <==> pos + 16 <= input.len(),
            r matches Ok((v, p)) ==> v == signed_of(le_at(input@, pos as int, 16), 16) && p == pos + 16,
            r matches Err(e) ==> e == ReadError::UnexpectedEof,
    {
        proof {
            lemma_pow256_values();
        }
        if pos <= input.len() && 16 <= input.len() - pos {
            let u = get_le(input, pos, 16);
            let v: i128 = if u < 0x80000000000000000000000000000000 { u as i128 } else { ((u - 0x80000000000000000000000000000000) as i128) + i128::MIN };
            Ok((v, pos + 16))
        } else {
            Err(ReadError::UnexpectedEof)
        }
    }

    pub fn serialize(output: &mut Vec<u8>, val: i128)
        ensures
            final(output)@ == old(output)@ + le_bytes(unsigned_of(val as int, 16), 16),
    {
        proof {
            lemma_pow256_values();
        }
        let u: u128 = if val < 0 { ((val - i128::MIN) as u128) + 0x80000000000000000000000000000000 } else { val as u128 };
        put_le(output, u, 16);
    }
}

/// `u64` field, big-endian.
pub struct U64BE;

impl U64BE {
    pub fn deserialize(input: &[u8], pos: usize) -> (r: Result<(u64, usize), ReadError>)
        ensures
            r is Ok <==> pos + 8 <= input.len(),
            r matches Ok((v, p)) ==> v == be_at(input@, pos as int, 8) && p == pos + 8,
            r matches Err(e) ==> e == ReadError::UnexpectedEof,
    {
        proof {
            lemma_pow256_values();
        }
        if pos <= input.len() && 8 <= input.len() - pos {
            let u = get_be(input, pos, 8);
            let v: u64 = u as u64;
            Ok((v, pos + 8))
        } else {
            Err(ReadError::UnexpectedEof)
        }
    }

    pub fn serialize(output: &mut Vec<u8>, val: u64)
        ensures
            final(output)@ == old(output)@ + be_bytes(val as nat, 8),
    {
        proof {
            lemma_pow256_values();
        }
        let u: u128 = val as u128;
        put_be(output, u, 8);
    }
}

/// `u64` field, little-endian.
pub struct U64LE;

impl U64LE {
    pub fn deserialize(input: &[u8], pos: usize) -> (r: Result<(u64, usize), ReadError>)
        ensures
            r is Ok <==> pos + 8 <= input.len(),
            r matches Ok((v, p)) ==> v == le_at(input@, pos as int, 8) && p == pos + 8,
            r matches Err(e) ==> e == ReadError::UnexpectedEof,
    {
        proof {
            lemma_pow256_values();
        }
        if pos <= input.len() && 8 <= input.len() - pos {
            let u = get_le(input, pos, 8);
            let v: u64 = u as u64;
            Ok((v, pos + 8))
        } else {
            Err(ReadError::UnexpectedEof)
        }
    }

    pub fn serialize(output: &mut Vec<u8>, val: u64)
        ensures
            final(output)@ == old(output)@ + le_bytes(val as nat, 8),
    {
        proof {
            lemma_pow256_values();
        }
        let u: u128 = val as u128;
        put_le(output, u, 8);
    }
}

/// `i64` field, big-endian.
pub struct I64BE;

impl I64BE {
    pub fn deserialize(input: &[u8], pos: usize) -> (r: Result<(i64, usize), ReadError>)
        ensures
            r is Ok <==> pos + 8 <= input.len(),
            r matches Ok((v, p)) ==> v == signed_of(be_at(input@, pos as int, 8), 8) && p == pos + 8,
            r matches Err(e) ==> e == ReadError::UnexpectedEof,
    {
        proof {
            lemma_pow256_values();
        }
        if pos <= input.len() && 8 <= input.len() - pos {
            let u = get_be(input, pos, 8);
            let v: i64 = if u < 0x8000000000000000 { u as i64 } else { ((u - 0x8000000000000000) as i64) + i64::MIN };
            Ok((v, pos + 8))
        } else {
            Err(ReadError::UnexpectedEof)
        }
    }

    pub fn serialize(output: &mut Vec<u8>, val: i64)
        ensures
            final(output)@ == old(output)@ + be_bytes(unsigned_of(val as int, 8), 8),
    {
        proof {
            lemma_pow256_values();
        }
        let u: u128 = if val < 0 { ((val - i64::MIN) as u128) + 0x8000000000000000 } else { val as u128 };
        put_be(output, u, 8);
    }
}

/// `i64` field, little-endian.
pub struct I64LE;

impl I64LE {
    pub fn deserialize(input: &[u8], pos: usize) -> (r: Result<(i64, usize), ReadError>)
        ensures
            r is Ok <==> pos + 8 <= input.len(),
            r matches Ok((v, p)) ==> v == signed_of(le_at(input@, pos as int, 8), 8) && p == pos + 8,
            r matches Err(e) ==> e == ReadError::UnexpectedEof,
    {
        proof {
            lemma_pow256_values();
        }
        if pos <= input.len() && 8 <= input.len() - pos {
            let u = get_le(input, pos, 8);
            let v: i64 = if u < 0x8000000000000000 { u as i64 } else { ((u - 0x8000000000000000) as i64) + i64::MIN };
            Ok((v, pos + 8))
        } else {
            Err(ReadError::UnexpectedEof)
        }
    }

    pub fn serialize(output: &mut Vec<u8>, val: i64)
        ensures
            final(output)@ == old(output)@ + le_bytes(unsigned_of(val as int, 8), 8),
    {
        proof {
            lemma_pow256_values();
        }
        let u: u128 = if val < 0 { ((val - i64::MIN) as u128) + 0x8000000000000000 } else { val as u128 };
        put_le(output, u, 8);
    }
}

/// `u32` field, big-endian.
pub struct U32BE;

impl U32BE {
    pub fn deserialize(input: &[u8], pos: usize) -> (r: Result<(u32, usize), ReadError>)
        ensures
            r is Ok <==> pos + 4 <= input.len(),
            r matches Ok((v, p)) ==> v == be_at(input@, pos as int, 4) && p == pos + 4,
            r matches Err(e) ==> e == ReadError::UnexpectedEof,
    {
        proof {
            lemma_pow256_values();
        }
        if pos <= input.len() && 4 <= input.len() - pos {
            let u = get_be(input, pos, 4);
            let v: u32 = u as u32;
            Ok((v, pos + 4))
        } else {
            Err(ReadError::UnexpectedEof)
        }
    }

    pub fn serialize(output: &mut Vec<u8>, val: u32)
        ensures
            final(output)@ == old(output)@ + be_bytes(val as nat, 4),
    {
        proof {
            lemma_pow256_values();
        }
        let u: u128 = val as u128;
        put_be(output, u, 4);
    }
}

/// `u32` field, little-endian.
pub struct U32LE;

impl U32LE {
    pub fn deserialize(input: &[u8], pos: usize) -> (r: Result<(u32, usize), ReadError>)
        ensures
            r is Ok <==> pos + 4 <= input.len(),
            r matches Ok((v, p)) ==> v == le_at(input@, pos as int, 4) && p == pos + 4,
            r matches Err(e) ==> e == ReadError::UnexpectedEof,
    {
        proof {
            lemma_pow256_values();
        }
        if pos <= input.len() && 4 <= input.len() - pos {
            let u = get_le(input, pos, 4);
            let v: u32 = u as u32;
            Ok((v, pos + 4))
        } else {
            Err(ReadError::UnexpectedEof)
        }
    }

    pub fn serialize(output: &mut Vec<u8>, val: u32)
        ensures
            final(output)@ == old(output)@ + le_bytes(val as nat, 4),
    {
        proof {
            lemma_pow256_values();
        }
        let u: u128 = val as u128;
        put_le(output, u, 4);
    }
}

/// `i32` field, big-endian.
pub struct I32BE;

impl I32BE {
    pub fn deserialize(input: &[u8], pos: usize) -> (r: Result<(i32, usize), ReadError>)
        ensures
            r is Ok <==> pos + 4 <= input.len(),
            r matches Ok((v, p)) ==> v == signed_of(be_at(input@, pos as int, 4), 4) && p == pos + 4,
            r matches Err(e) ==> e == ReadError::UnexpectedEof,
    {
        proof {
            lemma_pow256_values();
        }
        if pos <= input.len() && 4 <= input.len() - pos {
            let u = get_be(input, pos, 4);
            let v: i32 = if u < 0x80000000 { u as i32 } else { ((u - 0x80000000) as i32) + i32::MIN };
            Ok((v, pos + 4))
        } else {
            Err(ReadError::UnexpectedEof)
        }
    }

    pub fn serialize(output: &mut Vec<u8>, val: i32)
        ensures
            final(output)@ == old(output)@ + be_bytes(unsigned_of(val as int, 4), 4),
    {
        proof {
            lemma_pow256_values();
        }
        let u: u128 = if val < 0 { ((val - i32::MIN) as u128) + 0x80000000 } else { val as u128 };
        put_be(output, u, 4);
    }
}

/// `i32` field, little-endian.
pub struct I32LE;

impl I32LE {
    pub fn deserialize(input: &[u8], pos: usize) -> (r: Result<(i32, usize), ReadError>)
        ensures
            r is Ok <==> pos + 4 <= input.len(),
            r matches Ok((v, p)) ==> v == signed_of(le_at(input@, pos as int, 4), 4) && p == pos + 4,
            r matches Err(e) ==> e == ReadError::UnexpectedEof,
    {
        proof {
            lemma_pow256_values();
        }
        if pos <= input.len() && 4 <= input.len() - pos {
            let u = get_le(input, pos, 4);
            let v: i32 = if u < 0x80000000 { u as i32 } else { ((u - 0x80000000) as i32) + i32::MIN };
            Ok((v, pos + 4))
        } else {
            Err(ReadError::UnexpectedEof)
        }
    }

    pub fn serialize(output: &mut Vec<u8>, val: i32)
        ensures
            final(output)@ == old(output)@ + le_bytes(unsigned_of(val as int, 4), 4),
    {
        proof {
            lemma_pow256_values();
        }
        let u: u128 = if val < 0 { ((val - i32::MIN) as u128) + 0x80000000 } else { val as u128 };
        put_le(output, u, 4);
    }
}

/// `u16` field, big-endian.
pub struct U16BE;

impl U16BE {
    pub fn deserialize(input: &[u8], pos: usize) -> (r: Result<(u16, usize), ReadError>)
        ensures
            r is Ok <==> pos + 2 <= input.len(),
            r matches Ok((v, p)) ==> v == be_at(input@, pos as int, 2) && p == pos + 2,
            r matches Err(e) ==> e == ReadError::UnexpectedEof,
    {
        proof {
            lemma_pow256_values();
        }
        if pos <= input.len() && 2 <= input.len() - pos {
            let u = get_be(input, pos, 2);
            let v: u16 = u as u16;
            Ok((v, pos + 2))
        } else {
            Err(ReadError::UnexpectedEof)
        }
    }

    pub fn serialize(output: &mut Vec<u8>, val: u16)
        ensures
            final(output)@ == old(output)@ + be_bytes(val as nat, 2),
    {
        proof {
            lemma_pow256_values();
        }
        let u: u128 = val as u128;
        put_be(output, u, 2);
    }
}

/// `u16` field, little-endian.
pub struct U16LE;

impl U16LE {
    pub fn deserialize(input: &[u8], pos: usize) -> (r: Result<(u16, usize), ReadError>)
        ensures
            r is Ok <==> pos + 2 <= input.len(),
            r matches Ok((v, p)) ==> v == le_at(input@, pos as int, 2) && p == pos + 2,
            r matches Err(e) ==> e == ReadError::UnexpectedEof,
    {
        proof {
            lemma_pow256_values();
        }
        if pos <= input.len() && 2 <= input.len() - pos {
            let u = get_le(input, pos, 2);
            let v: u16 = u as u16;
            Ok((v, pos + 2))
        } else {
            Err(ReadError::UnexpectedEof)
        }
    }

    pub fn serialize(output: &mut Vec<u8>, val: u16)
        ensures
            final(output)@ == old(output)@ + le_bytes(val as nat, 2),
    {
        proof {
            lemma_pow256_values();
        }
        let u: u128 = val as u128;
        put_le(output, u, 2);
    }
}

/// `i16` field, big-endian.
pub struct I16BE;

impl I16BE {
    pub fn deserialize(input: &[u8], pos: usize) -> (r: Result<(i16, usize), ReadError>)
        ensures
            r is Ok <==> pos + 2 <= input.len(),
            r matches Ok((v, p)) ==> v == signed_of(be_at(input@, pos as int, 2), 2) && p == pos + 2,
            r matches Err(e) ==> e == ReadError::UnexpectedEof,
    {
        proof {
            lemma_pow256_values();
        }
        if pos <= input.len() && 2 <= input.len() - pos {
            let u = get_be(input, pos, 2);
            let v: i16 = if u < 0x8000 { u as i16 } else { ((u - 0x8000) as i16) + i16::MIN };
            Ok((v, pos + 2))
        } else {
            Err(ReadError::UnexpectedEof)
        }
    }

    pub fn serialize(output: &mut Vec<u8>, val: i16)
        ensures
            final(output)@ == old(output)@ + be_bytes(unsigned_of(val as int, 2), 2),
    {
        proof {
            lemma_pow256_values();
        }
        let u: u128 = if val < 0 { ((val - i16::MIN) as u128) + 0x8000 } else { val as u128 };
        put_be(output, u, 2);
    }
}

/// `i16` field, little-endian.
pub struct I16LE;

impl I16LE {
    pub fn deserialize(input: &[u8], pos: usize) -> (r: Result<(i16, usize), ReadError>)
        ensures
            r is Ok <==> pos + 2 <= input.len(),
            r matches Ok((v, p)) ==> v == signed_of(le_at(input@, pos as int, 2), 2) && p == pos + 2,
            r matches Err(e) ==> e == ReadError::UnexpectedEof,
    {
        proof {
            lemma_pow256_values();
        }
        if pos <= input.len() && 2 <= input.len() - pos {
            let u = get_le(input, pos, 2);
            let v: i16 = if u < 0x8000 { u as i16 } else { ((u - 0x8000) as i16) + i16::MIN };
            Ok((v, pos + 2))
        } else {
            Err(ReadError::UnexpectedEof)
        }
    }

    pub fn serialize(output: &mut Vec<u8>, val: i16)
        ensures
            final(output)@ == old(output)@ + le_bytes(unsigned_of(val as int, 2), 2),
    {
        proof {
            lemma_pow256_values();
        }
        let u: u128 = if val < 0 { ((val - i16::MIN) as u128) + 0x8000 } else { val as u128 };
        put_le(output, u, 2);
    }
}

/// `u8` field, little-endian.
pub struct U8;

impl U8 {
    pub fn deserialize(input: &[u8], pos: usize) -> (r: Result<(u8, usize), ReadError>)
        ensures
            r is Ok <==> pos + 1 <= input.len(),
            r matches Ok((v, p)) ==> v == le_at(input@, pos as int, 1) && p == pos + 1,
            r matches Err(e) ==> e == ReadError::UnexpectedEof,
    {
        proof {
            lemma_pow256_values();
        }
        if pos <= input.len() && 1 <= input.len() - pos {
            let u = get_le(input, pos, 1);
            let v: u8 = u as u8;
            Ok((v, pos + 1))
        } else {
            Err(ReadError::UnexpectedEof)
        }
    }

    pub fn serialize(output: &mut Vec<u8>, val: u8)
        ensures
            final(output)@ == old(output)@ + le_bytes(val as nat, 1),
    {
        proof {
            lemma_pow256_values();
        }
        let u: u128 = val as u128;
        put_le(output, u, 1);
    }
}

/// `i8` field, little-endian.
pub struct I8;

impl I8 {
    pub fn deserialize(input: &[u8], pos: usize) -> (r: Result<(i8, usize), ReadError>)
        ensures
            r is Ok <==> pos + 1 <= input.len(),
            r matches Ok((v, p)) ==> v == signed_of(le_at(input@, pos as int, 1), 1) && p == pos + 1,
            r matches Err(e) ==> e == ReadError::UnexpectedEof,
    {
        proof {
            lemma_pow256_values();
        }
        if pos <= input.len() && 1 <= input.len() - pos {
            let u = get_le(input, pos, 1);
            let v: i8 = if u < 0x80 { u as i8 } else { ((u - 0x80) as i8) + i8::MIN };
            Ok((v, pos + 1))
        } else {
            Err(ReadError::UnexpectedEof)
        }
    }

    pub fn serialize(output: &mut Vec<u8>, val: i8)
        ensures
            final(output)@ == old(output)@ + le_bytes(unsigned_of(val as int, 1), 1),
    {
        proof {
            lemma_pow256_values();
        }
        let u: u128 = if val < 0 { ((val - i8::MIN) as u128) + 0x80 } else { val as u128 };
        put_le(output, u, 1);
    }
}

/// Floating-point field stored as 8 bytes, big-endian; the value is its
/// IEEE-754 bit pattern.
pub struct F64BE;

impl F64BE {
    pub fn deserialize(input: &[u8], pos: usize) -> (r: Result<(u64, usize), ReadError>)
        ensures
            r is Ok <==> pos + 8 <= input.len(),
            r matches Ok((v, p)) ==> v == be_at(input@, pos as int, 8) && p == pos + 8,
            r matches Err(e) ==> e == ReadError::UnexpectedEof,
    {
        U64BE::deserialize(input, pos)
    }

    pub fn serialize(output: &mut Vec<u8>, val: u64)
        ensures
            final(output)@ == old(output)@ + be_bytes(val as nat, 8),
    {
        U64BE::serialize(output, val)
    }
}

/// Floating-point field stored as 8 bytes, little-endian; the value is its
/// IEEE-754 bit pattern.
pub struct F64LE;

impl F64LE {
    pub fn deserialize(input: &[u8], pos: usize) -> (r: Result<(u64, usize), ReadError>)
        ensures
            r is Ok <==> pos + 8 <= input.len(),
            r matches Ok((v, p)) ==> v == le_at(input@, pos as int, 8) && p == pos + 8,
            r matches Err(e) ==> e == ReadError::UnexpectedEof,
    {
        U64LE::deserialize(input, pos)
    }

    pub fn serialize(output: &mut Vec<u8>, val: u64)
        ensures
            final(output)@ == old(output)@ + le_bytes(val as nat, 8),
    {
        U64LE::serialize(output, val)
    }
}

/// Floating-point field stored as 4 bytes, big-endian; the value is its
/// IEEE-754 bit pattern.
pub struct F32BE;

impl F32BE {
    pub fn deserialize(input: &[u8], pos: usize) -> (r: Result<(u32, usize), ReadError>)
        ensures
            r is Ok <==> pos + 4 <= input.len(),
            r matches Ok((v, p)) ==> v == be_at(input@, pos as int, 4) && p == pos + 4,
            r matches Err(e) ==> e == ReadError::UnexpectedEof,
    {
        U32BE::deserialize(input, pos)
    }

    pub fn serialize(output: &mut Vec<u8>, val: u32)
        ensures
            final(output)@ == old(output)@ + be_bytes(val as nat, 4),
    {
        U32BE::serialize(output, val)
    }
}

/// Floating-point field stored as 4 bytes, little-endian; the value is its
/// IEEE-754 bit pattern.
pub struct F32LE;

impl F32LE {
    pub fn deserialize(input: &[u8], pos: usize) -> (r: Result<(u32, usize), ReadError>)
        ensures
            r is Ok <==> pos + 4 <= input.len(),
            r matches Ok((v, p)) ==> v == le_at(input@, pos as int, 4) && p == pos + 4,
            r matches Err(e) ==> e == ReadError::UnexpectedEof,
    {
        U32LE::deserialize(input, pos)
    }

    pub fn serialize(output: &mut Vec<u8>, val: u32)
        ensures
            final(output)@ == old(output)@ + le_bytes(val as nat, 4),
    {
        U32LE::serialize(output, val)
    }
}

/// Boolean field stored as one byte; any nonzero byte reads as `true`.
pub struct Bool;

impl Bool {
    pub fn deserialize(input: &[u8], pos: usize) -> (r: Result<(bool, usize), ReadError>)
        ensures
            r is Ok <==> pos + 1 <= input.len(),
            r matches Ok((v, p)) ==> v == (input@[pos as int] != 0) && p == pos + 1,
            r matches Err(e) ==> e == ReadError::UnexpectedEof,
    {
        let (n, p) = read_u8(input, pos)?;
        Ok((n != 0, p))
    }

    pub fn serialize(output: &mut Vec<u8>, val: bool)
        ensures
            final(output)@ == old(output)@ + seq![if val { 1u8 } else { 0u8 }],
    {
        output.push(if val { 1u8 } else { 0u8 });
    }
}

} // verus!
