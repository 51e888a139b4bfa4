//! Small records inside unit type data: damage sprites, weapon and armour values, costs.
use crate::codec::{
    i16_at, i16_bytes, lemma_field_lens, lemma_i16_field, lemma_u16_field, put_i16_le,
    put_u16_le, read_i16_le, read_u16_le, read_u8, u16_at, u16_bytes, ReadError,
};
use crate::dat::ids::SpriteID;
use vstd::prelude::*;

verus! {

/// A sprite shown on a unit once it has taken a given share of damage.
#[derive(Debug, Default, Clone)]
pub struct DamageSprite {
    pub sprite: SpriteID,
    pub damage_percent: u16,
    pub flag: u8,
}

impl View for DamageSprite {
    type V = (u16, u16, u8);

    open spec fn view(&self) -> (u16, u16, u8) {
        (self.sprite@, self.damage_percent, self.flag)
    }
}

/// The damage sprite stored at `pos`: sprite ID, damage percentage and flag.
pub open spec fn damage_sprite_at(data: Seq<u8>, pos: int) -> (u16, u16, u8) {
    (u16_at(data, pos), u16_at(data, pos + 2), data[pos + 4])
}

/// The five bytes a damage sprite is stored as.
pub open spec fn damage_sprite_bytes(d: (u16, u16, u8)) -> Seq<u8> {
    u16_bytes(d.0) + u16_bytes(d.1) + seq![d.2]
}

impl DamageSprite {
    /// Read a damage sprite at `pos`; returns it and the position after it.
    pub fn read_from(input: &[u8], pos: usize) -> (r: Result<(Self, usize), ReadError>)
        ensures
            r is Ok <==> pos + 5 <= input.len(),
            r matches Ok((d, p)) ==> d@ == damage_sprite_at(input@, pos as int) && p == pos + 5,
            r matches Err(e) ==> e == ReadError::UnexpectedEof,
    {
        let (sprite, p) = read_u16_le(input, pos)?;
        let (damage_percent, p) = read_u16_le(input, p)?;
        let (flag, p) = read_u8(input, p)?;
        Ok((DamageSprite { sprite: SpriteID::from(sprite), damage_percent, flag }, p))
    }

    /// Append this damage sprite to `output`.
    pub fn write_to(&self, output: &mut Vec<u8>)
        ensures
            final(output)@ == old(output)@ + damage_sprite_bytes(self@),
    {
        put_u16_le(output, u16::from(self.sprite));
        put_u16_le(output, self.damage_percent);
        output.push(self.flag);
        assert(output@ =~= old(output)@ + damage_sprite_bytes(self@));
    }
}

/// A damage sprite that is written reads back unchanged, wherever it stands.
pub proof fn law_damage_sprite_read_of_write(prefix: Seq<u8>, d: (u16, u16, u8), suffix: Seq<u8>)
    ensures
        damage_sprite_bytes(d).len() == 5,
        damage_sprite_at(prefix + damage_sprite_bytes(d) + suffix, prefix.len() as int) == d,
{
    lemma_field_lens();
    let data = prefix + damage_sprite_bytes(d) + suffix;
    let p = prefix.len() as int;
    assert(data.subrange(p, p + 2) =~= u16_bytes(d.0));
    assert(data.subrange(p + 2, p + 4) =~= u16_bytes(d.1));
    lemma_u16_field(data, p, d.0);
    lemma_u16_field(data, p + 2, d.1);
    assert(data[p + 4] == d.2);
}

/// An attack or armour value of one class.
#[derive(Debug, Default, Clone, Copy)]
pub struct WeaponInfo {
    pub weapon_type: i16,
    pub value: i16,
}

impl View for WeaponInfo {
    type V = (i16, i16);

    open spec fn view(&self) -> (i16, i16) {
        (self.weapon_type, self.value)
    }
}

/// The weapon value stored at `pos`: its class and its amount.
pub open spec fn weapon_info_at(data: Seq<u8>, pos: int) -> (i16, i16) {
    (i16_at(data, pos), i16_at(data, pos + 2))
}

/// The four bytes a weapon value is stored as.
pub open spec fn weapon_info_bytes(w: (i16, i16)) -> Seq<u8> {
    i16_bytes(w.0) + i16_bytes(w.1)
}

impl WeaponInfo {
    /// Read a weapon value at `pos`; returns it and the position after it.
    pub fn read_from(input: &[u8], pos: usize) -> (r: Result<(Self, usize), ReadError>)
        ensures
            r is Ok <==> pos + 4 <= input.len(),
            r matches Ok((w, p)) ==> w@ == weapon_info_at(input@, pos as int) && p == pos + 4,
            r matches Err(e) ==> e == ReadError::UnexpectedEof,
    {
        let (weapon_type, p) = read_i16_le(input, pos)?;
        let (value, p) = read_i16_le(input, p)?;
        Ok((WeaponInfo { weapon_type, value }, p))
    }

    /// Append this weapon value to `output`.
    pub fn write_to(self, output: &mut Vec<u8>)
        ensures
            final(output)@ == old(output)@ + weapon_info_bytes(self@),
    {
        put_i16_le(output, self.weapon_type);
        put_i16_le(output, self.value);
        assert(output@ =~= old(output)@ + weapon_info_bytes(self@));
    }
}

/// A weapon value that is written reads back unchanged, wherever it stands.
pub proof fn law_weapon_info_read_of_write(prefix: Seq<u8>, w: (i16, i16), suffix: Seq<u8>)
    ensures
        weapon_info_bytes(w).len() == 4,
        weapon_info_at(prefix + weapon_info_bytes(w) + suffix, prefix.len() as int) == w,
{
    lemma_field_lens();
    let data = prefix + weapon_info_bytes(w) + suffix;
    let p = prefix.len() as int;
    assert(data.subrange(p, p + 2) =~= i16_bytes(w.0));
    assert(data.subrange(p + 2, p + 4) =~= i16_bytes(w.1));
    lemma_i16_field(data, p, w.0);
    lemma_i16_field(data, p + 2, w.1);
}

/// A cost (or gain) of a player attribute.
#[derive(Debug, Default, Clone, Copy)]
pub struct AttributeCost {
    /// The player attribute type to give/take.
    pub attribute_type: i16,
    /// The amount of that attribute that should be taken/given.
    pub amount: i16,
    /// Flag determining how and when this cost is counted.
    pub flag: u8,
}

impl View for AttributeCost {
    type V = (i16, i16, u8);

    open spec fn view(&self) -> (i16, i16, u8) {
        (self.attribute_type, self.amount, self.flag)
    }
}

/// The cost stored at `pos`: attribute, amount and flag; a padding byte follows them.
pub open spec fn attribute_cost_at(data: Seq<u8>, pos: int) -> (i16, i16, u8) {
    (i16_at(data, pos), i16_at(data, pos + 2), data[pos + 4])
}

/// The six bytes a cost is stored as, the last one a zero padding byte.
pub open spec fn attribute_cost_bytes(c: (i16, i16, u8)) -> Seq<u8> {
    i16_bytes(c.0) + i16_bytes(c.1) + seq![c.2, 0u8]
}

impl AttributeCost {
    /// Read a cost at `pos`, skipping the padding byte after it; returns it and the
    /// position after the padding.
    pub fn read_from(input: &[u8], pos: usize) -> (r: Result<(Self, usize), ReadError>)
        ensures
            r is Ok <==> pos + 6 <= input.len(),
            r matches Ok((c, p)) ==> c@ == attribute_cost_at(input@, pos as int) && p == pos + 6,
            r matches Err(e) ==> e == ReadError::UnexpectedEof,
    {
        let (attribute_type, p) = read_i16_le(input, pos)?;
        let (amount, p) = read_i16_le(input, p)?;
        let (flag, p) = read_u8(input, p)?;
        let (_padding, p) = read_u8(input, p)?;
        Ok((AttributeCost { attribute_type, amount, flag }, p))
    }

    /// Append this cost and a zero padding byte to `output`.
    pub fn write_to(self, output: &mut Vec<u8>)
        ensures
            final(output)@ == old(output)@ + attribute_cost_bytes(self@),
    {
        put_i16_le(output, self.attribute_type);
        put_i16_le(output, self.amount);
        output.push(self.flag);
        output.push(0u8);
        assert(output@ =~= old(output)@ + attribute_cost_bytes(self@));
    }
}

/// A cost that is written reads back unchanged, wherever it stands.
pub proof fn law_attribute_cost_read_of_write(prefix: Seq<u8>, c: (i16, i16, u8), suffix: Seq<u8>)
    ensures
        attribute_cost_bytes(c).len() == 6,
        attribute_cost_at(prefix + attribute_cost_bytes(c) + suffix, prefix.len() as int) == c,
{
    lemma_field_lens();
    let data = prefix + attribute_cost_bytes(c) + suffix;
    let p = prefix.len() as int;
    assert(data.subrange(p, p + 2) =~= i16_bytes(c.0));
    assert(data.subrange(p + 2, p + 4) =~= i16_bytes(c.1));
    lemma_i16_field(data, p, c.0);
    lemma_i16_field(data, p + 2, c.1);
    assert(data[p + 4] == c.2);
}

} // verus!
