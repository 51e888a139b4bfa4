//! Field encodings shared by the records of a data file: bytes, signed bytes, flags, and
//! optional IDs stored as 16-bit numbers where `0xFFFF` stands for none.
use crate::codec::{
    i32_at, lemma_field_lens, lemma_pow256_values, lemma_signed_roundtrip, lemma_u32_field,
    opt_u32_at, opt_u32_bytes, put_u32_le, read_i32_le, read_u32_le, signed_of, u32_at, u32_bytes,
    unsigned_of, ReadError,
};
use crate::dat::ids::{GraphicID, SoundID, SpriteID, TechID, TerrainID, UnitTypeID};
use vstd::prelude::*;

verus! {

/// The signed byte stored at `pos`.
pub open spec fn i8_at(data: Seq<u8>, pos: int) -> i8 {
    signed_of(data[pos] as nat, 1) as i8
}

/// The byte that stores a signed byte.
pub open spec fn i8_bytes(v: i8) -> Seq<u8> {
    seq![unsigned_of(v as int, 1) as u8]
}

/// A flag stored at `pos`: any nonzero byte means set.
pub open spec fn flag_at(data: Seq<u8>, pos: int) -> bool {
    data[pos] != 0
}

/// The byte that stores a flag: 1 for set, 0 for clear.
pub open spec fn flag_bytes(b: bool) -> Seq<u8> {
    if b {
        seq![1u8]
    } else {
        seq![0u8]
    }
}

/// Reads a flag at `pos`.
pub fn read_flag(data: &[u8], pos: usize) -> (r: Result<(bool, usize), ReadError>)
    ensures
        r is Ok <==> pos + 1 <= data.len(),
        r matches Ok((v, p)) ==> v == flag_at(data@, pos as int) && p == pos + 1,
        r matches Err(e) ==> e == ReadError::UnexpectedEof,
{
    if pos < data.len() {
        Ok((data[pos] != 0, pos + 1))
    } else {
        Err(ReadError::UnexpectedEof)
    }
}

/// Appends a flag byte.
pub fn put_flag(out: &mut Vec<u8>, b: bool)
    ensures
        final(out)@ == old(out)@ + flag_bytes(b),
{
    out.push(if b { 1u8 } else { 0u8 });
}

/// A byte field reads back the value written into it.
pub proof fn lemma_u8_field(data: Seq<u8>, pos: int, v: u8)
    requires
        0 <= pos,
        pos + 1 <= data.len(),
        data.subrange(pos, pos + 1) == seq![v],
    ensures
        data[pos] == v,
{
    assert(data.subrange(pos, pos + 1)[0] == data[pos]);
}

/// A signed byte field reads back the value written into it.
pub proof fn lemma_i8_field(data: Seq<u8>, pos: int, v: i8)
    requires
        0 <= pos,
        pos + 1 <= data.len(),
        data.subrange(pos, pos + 1) == i8_bytes(v),
    ensures
        i8_at(data, pos) == v,
{
    assert(data.subrange(pos, pos + 1)[0] == data[pos]);
    lemma_pow256_values();
    lemma_signed_roundtrip(v as int, 1);
}

/// A flag field reads back the value written into it.
pub proof fn lemma_flag_field(data: Seq<u8>, pos: int, v: bool)
    requires
        0 <= pos,
        pos + 1 <= data.len(),
        data.subrange(pos, pos + 1) == flag_bytes(v),
    ensures
        flag_at(data, pos) == v,
{
    assert(data.subrange(pos, pos + 1)[0] == data[pos]);
}

/// An optional 16-bit ID that the game writes as a signed 16-bit number: none, or an ID of
/// at most `0x7FFF` (a larger one does not convert, and writing it panics).
pub open spec fn fits_i16(v: Option<u16>) -> bool {
    v matches Some(n) ==> n <= 0x7FFF
}

/// The number of an optional sprite.
pub open spec fn opt_sprite(o: Option<SpriteID>) -> Option<u16> {
    match o {
        Some(id) => Some(id@),
        None => None,
    }
}

/// The number of an optional sound.
pub open spec fn opt_sound(o: Option<SoundID>) -> Option<u16> {
    match o {
        Some(id) => Some(id@),
        None => None,
    }
}

/// The number of an optional unit type.
pub open spec fn opt_unit(o: Option<UnitTypeID>) -> Option<u16> {
    match o {
        Some(id) => Some(id@),
        None => None,
    }
}

/// The number of an optional terrain.
pub open spec fn opt_terrain(o: Option<TerrainID>) -> Option<u16> {
    match o {
        Some(id) => Some(id@),
        None => None,
    }
}

/// The number of an optional tech.
pub open spec fn opt_tech(o: Option<TechID>) -> Option<u16> {
    match o {
        Some(id) => Some(id@),
        None => None,
    }
}

/// The number of an optional graphic.
pub open spec fn opt_graphic(o: Option<GraphicID>) -> Option<u32> {
    match o {
        Some(id) => Some(id@),
        None => None,
    }
}

/// An optional graphic read from a 16-bit field.
pub open spec fn graphic_of16(o: Option<u16>) -> Option<u32> {
    match o {
        Some(n) => Some(n as u32),
        None => None,
    }
}

/// The 16-bit field of an optional graphic whose number fits.
pub open spec fn graphic_to16(o: Option<u32>) -> Option<u16> {
    match o {
        Some(n) => Some(n as u16),
        None => None,
    }
}

/// An optional graphic whose number the game can write as a signed 16-bit number.
pub open spec fn graphic_fits_i16(o: Option<u32>) -> bool {
    o matches Some(n) ==> n <= 0x7FFF
}

pub fn sprite_from_opt(o: Option<u16>) -> (r: Option<SpriteID>)
    ensures
        opt_sprite(r) == o,
{
    match o {
        Some(n) => Some(SpriteID::from(n)),
        None => None,
    }
}

pub fn sprite_to_opt(o: Option<SpriteID>) -> (r: Option<u16>)
    ensures
        r == opt_sprite(o),
{
    match o {
        Some(id) => Some(u16::from(id)),
        None => None,
    }
}

pub fn sound_from_opt(o: Option<u16>) -> (r: Option<SoundID>)
    ensures
        opt_sound(r) == o,
{
    match o {
        Some(n) => Some(SoundID::from(n)),
        None => None,
    }
}

pub fn sound_to_opt(o: Option<SoundID>) -> (r: Option<u16>)
    ensures
        r == opt_sound(o),
{
    match o {
        Some(id) => Some(u16::from(id)),
        None => None,
    }
}

pub fn unit_from_opt(o: Option<u16>) -> (r: Option<UnitTypeID>)
    ensures
        opt_unit(r) == o,
{
    match o {
        Some(n) => Some(UnitTypeID::from(n)),
        None => None,
    }
}

pub fn unit_to_opt(o: Option<UnitTypeID>) -> (r: Option<u16>)
    ensures
        r == opt_unit(o),
{
    match o {
        Some(id) => Some(u16::from(id)),
        None => None,
    }
}

pub fn terrain_from_opt(o: Option<u16>) -> (r: Option<TerrainID>)
    ensures
        opt_terrain(r) == o,
{
    match o {
        Some(n) => Some(TerrainID::from(n)),
        None => None,
    }
}

pub fn terrain_to_opt(o: Option<TerrainID>) -> (r: Option<u16>)
    ensures
        r == opt_terrain(o),
{
    match o {
        Some(id) => Some(u16::from(id)),
        None => None,
    }
}

pub fn tech_from_opt(o: Option<u16>) -> (r: Option<TechID>)
    ensures
        opt_tech(r) == o,
{
    match o {
        Some(n) => Some(TechID::from(n)),
        None => None,
    }
}

pub fn tech_to_opt(o: Option<TechID>) -> (r: Option<u16>)
    ensures
        r == opt_tech(o),
{
    match o {
        Some(id) => Some(u16::from(id)),
        None => None,
    }
}

pub fn graphic_from_opt(o: Option<u16>) -> (r: Option<GraphicID>)
    ensures
        opt_graphic(r) == graphic_of16(o),
{
    match o {
        Some(n) => Some(GraphicID::from(n as u32)),
        None => None,
    }
}

pub fn graphic_to_opt(o: Option<GraphicID>) -> (r: Option<u16>)
    requires
        graphic_fits_i16(opt_graphic(o)),
    ensures
        r == graphic_to16(opt_graphic(o)),
{
    match o {
        Some(id) => {
            let n = u32::from(id);
            Some(n as u16)
        },
        None => None,
    }
}

/// An optional 16-bit ID stored in 32 bits, `0xFFFF_FFFF` for none.
pub open spec fn opt32_id_at(data: Seq<u8>, pos: int) -> Option<u16> {
    match opt_u32_at(data, pos) {
        Some(n) => Some(n as u16),
        None => None,
    }
}

/// The 32-bit ID at `pos` is none or fits in 16 bits, as far as the input goes (a larger
/// one does not convert, and reading it panics).
pub open spec fn opt32_id_readable(data: Seq<u8>, pos: int) -> bool {
    pos + 4 <= data.len() ==> (opt_u32_at(data, pos) matches Some(n) ==> n <= 0xFFFF)
}

/// An optional 16-bit ID stored as a signed 32-bit number, negative for none.
pub open spec fn signed32_id_at(data: Seq<u8>, pos: int) -> Option<u16> {
    if i32_at(data, pos) < 0 {
        None
    } else {
        Some(i32_at(data, pos) as u16)
    }
}

/// The signed 32-bit ID at `pos` is negative or fits in 16 bits, as far as the input goes.
pub open spec fn signed32_id_readable(data: Seq<u8>, pos: int) -> bool {
    pos + 4 <= data.len() ==> i32_at(data, pos) <= 0xFFFF
}

/// The 32-bit field of an optional 16-bit ID.
pub open spec fn id32_of(v: Option<u16>) -> Option<u32> {
    match v {
        Some(n) => Some(n as u32),
        None => None,
    }
}

/// Reads an optional 16-bit ID stored in 32 bits.
pub fn read_opt_id32(data: &[u8], pos: usize) -> (r: Result<(Option<u16>, usize), ReadError>)
    requires
        opt32_id_readable(data@, pos as int),
    ensures
        r is Ok <==> pos + 4 <= data.len(),
        r matches Ok((v, p)) ==> v == opt32_id_at(data@, pos as int) && p == pos + 4,
        r matches Err(e) ==> e == ReadError::UnexpectedEof,
{
    let (n, p) = read_u32_le(data, pos)?;
    if n == 0xFFFF_FFFF {
        Ok((None, p))
    } else {
        Ok((Some(n as u16), p))
    }
}

/// Reads an optional 16-bit ID stored as a signed 32-bit number.
pub fn read_signed_id32(data: &[u8], pos: usize) -> (r: Result<(Option<u16>, usize), ReadError>)
    requires
        signed32_id_readable(data@, pos as int),
    ensures
        r is Ok <==> pos + 4 <= data.len(),
        r matches Ok((v, p)) ==> v == signed32_id_at(data@, pos as int) && p == pos + 4,
        r matches Err(e) ==> e == ReadError::UnexpectedEof,
{
    let (n, p) = read_i32_le(data, pos)?;
    if n < 0 {
        Ok((None, p))
    } else {
        Ok((Some(n as u16), p))
    }
}

/// Appends an optional 16-bit ID in 32 bits, `0xFFFF_FFFF` for none.
pub fn put_opt_id32(out: &mut Vec<u8>, v: Option<u16>)
    ensures
        final(out)@ == old(out)@ + opt_u32_bytes(id32_of(v)),
{
    match v {
        Some(n) => put_u32_le(out, n as u32),
        None => put_u32_le(out, 0xFFFF_FFFF),
    }
}

/// A 32-bit optional ID field reads back the ID written into it.
pub proof fn lemma_opt32_id_field(data: Seq<u8>, pos: int, v: Option<u16>)
    requires
        0 <= pos,
        pos + 4 <= data.len(),
        data.subrange(pos, pos + 4) == opt_u32_bytes(id32_of(v)),
    ensures
        opt32_id_at(data, pos) == v,
        opt32_id_readable(data, pos),
{
    match v {
        Some(n) => lemma_u32_field(data, pos, n as u32),
        None => lemma_u32_field(data, pos, 0xFFFF_FFFF),
    }
}

/// A signed 32-bit optional ID field reads back the ID written into it.
pub proof fn lemma_signed32_id_field(data: Seq<u8>, pos: int, v: Option<u16>)
    requires
        0 <= pos,
        pos + 4 <= data.len(),
        data.subrange(pos, pos + 4) == opt_u32_bytes(id32_of(v)),
    ensures
        signed32_id_at(data, pos) == v,
        signed32_id_readable(data, pos),
{
    lemma_pow256_values();
    crate::codec::lemma_le_value_bound(data.subrange(pos, pos + 4));
    match v {
        Some(n) => lemma_u32_field(data, pos, n as u32),
        None => lemma_u32_field(data, pos, 0xFFFF_FFFF),
    }
}

/// `x < c` for the `f32` numbers with the bit patterns `x` and `c`, where `c` is positive
/// and finite: `x` is a smaller positive number, or negative (not a NaN).
pub open spec fn f32_below(x: u32, c: u32) -> bool {
    x < c || (0x8000_0000 <= x && x <= 0xff80_0000)
}

/// `x >= c` for the `f32` numbers with the bit patterns `x` and `c`, where `c` is positive
/// and finite: `x` is a larger positive number or infinity (not a NaN).
pub open spec fn f32_at_least(x: u32, c: u32) -> bool {
    c <= x && x <= 0x7f80_0000
}

/// `x < c` for the bit patterns of `f32`s, `c` positive and finite.
pub fn f32_bits_below(x: u32, c: u32) -> (r: bool)
    ensures
        r == f32_below(x, c),
{
    x < c || (0x8000_0000 <= x && x <= 0xff80_0000)
}

/// `x >= c` for the bit patterns of `f32`s, `c` positive and finite.
pub fn f32_bits_at_least(x: u32, c: u32) -> (r: bool)
    ensures
        r == f32_at_least(x, c),
{
    c <= x && x <= 0x7f80_0000
}

} // verus!
