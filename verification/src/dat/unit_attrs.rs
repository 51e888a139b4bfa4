//! The attributes of unit types by base class: the fixed-size records that follow the
//! static attributes of a unit type in a data file.
use crate::codec::{
    lemma_add_assoc, lemma_field_lens, lemma_opt_u16_field, lemma_pow256_values, lemma_u16_field, lemma_u32_field,
    opt_u16_at, opt_u16_bytes, put_opt_u16, put_u16_le, put_u32_le, read_opt_u16, read_u16_le,
    read_u32_le, read_u8, u16_at, u16_bytes, u32_at, u32_bytes, ReadError,
};
use crate::dat::fields::{
    fits_i16, lemma_u8_field, opt_sound, opt_sprite, opt_unit, sound_from_opt, sound_to_opt,
    sprite_from_opt, sprite_to_opt, unit_from_opt, unit_to_opt,
};
use crate::dat::ids::{SoundID, SpriteID, UnitTypeID};
use crate::dat::task::TaskList;
use vstd::prelude::*;

verus! {

/// A resource attribute that a unit of a type holds; its amount is the bit pattern of an `f32`.
#[derive(Debug, Default, Clone, Copy)]
pub struct UnitAttribute {
    pub attribute_type: u16,
    pub amount: u32,
    pub flag: u8,
}

impl View for UnitAttribute {
    type V = UnitAttributeView;

    open spec fn view(&self) -> UnitAttributeView {
        UnitAttributeView {
            attribute_type: self.attribute_type,
            amount: self.amount,
            flag: self.flag,
        }
    }
}

/// The fields of a resource attribute that a unit holds as values.
pub ghost struct UnitAttributeView {
    pub attribute_type: u16,
    pub amount: u32,
    pub flag: u8,
}

/// The resource attribute that a unit holds stored at `pos`.
pub open spec fn unit_attribute_at(data: Seq<u8>, pos: int) -> UnitAttributeView {
    UnitAttributeView {
        attribute_type: u16_at(data, pos),
        amount: u32_at(data, pos + 2),
        flag: data[pos + 6],
    }
}

/// The 7 bytes a resource attribute is stored as.
pub open spec fn unit_attribute_bytes(v: UnitAttributeView) -> Seq<u8> {
    u16_bytes(v.attribute_type)
        + u32_bytes(v.amount)
        + seq![v.flag]
}

/// The values that can be written: IDs that the game writes as signed numbers fit.
pub open spec fn unit_attribute_writable(v: UnitAttributeView) -> bool {
    true
}

/// The values that read back as written: IDs fit, and none is `0xFFFF`.
pub open spec fn unit_attribute_exact(v: UnitAttributeView) -> bool {
    true
}

impl UnitAttribute {
    /// Read a resource attribute at `pos`; returns it and the position after it.
    pub fn read_from(input: &[u8], pos: usize) -> (r: Result<(Self, usize), ReadError>)
        ensures
            r is Ok <==> pos + 7 <= input.len(),
            r matches Ok((x, q)) ==> x@ == unit_attribute_at(input@, pos as int) && q == pos + 7,
            r matches Err(e) ==> e == ReadError::UnexpectedEof,
    {
        let p = pos;
        let (attribute_type, p) = read_u16_le(input, p)?;
        let (amount, p) = read_u32_le(input, p)?;
        let (flag, p) = read_u8(input, p)?;
        Ok((UnitAttribute { attribute_type, amount, flag }, p))
    }

    /// Append this resource attribute to `output`.
    pub fn write_to(&self, output: &mut Vec<u8>)
        requires
            unit_attribute_writable(self@),
        ensures
            final(output)@ == old(output)@ + unit_attribute_bytes(self@),
    {
        let ghost s0 = output@;
        put_u16_le(output, self.attribute_type);
        let ghost mut acc = u16_bytes(self@.attribute_type);
        assert(output@ == s0 + acc);
        put_u32_le(output, self.amount);
        proof {
            lemma_add_assoc(s0, acc, u32_bytes(self@.amount));
            acc = acc + u32_bytes(self@.amount);
        }
        output.push(self.flag);
        proof {
            lemma_add_assoc(s0, acc, seq![self@.flag]);
            acc = acc + seq![self@.flag];
        }
        assert(acc == unit_attribute_bytes(self@));
    }
}

/// A resource attribute that is written reads back unchanged, wherever it stands.
pub proof fn law_unit_attribute_read_of_write(prefix: Seq<u8>, v: UnitAttributeView, suffix: Seq<u8>)
    requires
        unit_attribute_exact(v),
    ensures
        unit_attribute_bytes(v).len() == 7,
        unit_attribute_at(prefix + unit_attribute_bytes(v) + suffix, prefix.len() as int) == v,
{
    lemma_field_lens();
    lemma_pow256_values();
    let data = prefix + unit_attribute_bytes(v) + suffix;
    let p = prefix.len() as int;
    assert(data.subrange(p, p + 2) =~= u16_bytes(v.attribute_type));
    lemma_u16_field(data, p, v.attribute_type);
    assert(data.subrange(p + 2, p + 6) =~= u32_bytes(v.amount));
    lemma_u32_field(data, p + 2, v.amount);
    assert(data.subrange(p + 6, p + 7) =~= seq![v.flag]);
    lemma_u8_field(data, p + 6, v.flag);
}

/// A linked, or "annex", building: a piece of a building made of several pieces, at an offset in tiles from the centre of the owner (offsets are bit patterns of `f32`s).
#[derive(Debug, Default, Clone, Copy)]
pub struct LinkedBuilding {
    /// Unit type ID for this linked building.
    pub unit_id: UnitTypeID,
    /// X offset in tiles from the centre of the "owner" building.
    pub x_offset: u32,
    /// Y offset in tiles from the centre of the "owner" building.
    pub y_offset: u32,
}

impl View for LinkedBuilding {
    type V = LinkedBuildingView;

    open spec fn view(&self) -> LinkedBuildingView {
        LinkedBuildingView {
            unit_id: self.unit_id@,
            x_offset: self.x_offset,
            y_offset: self.y_offset,
        }
    }
}

/// The fields of a linked building as values.
pub ghost struct LinkedBuildingView {
    pub unit_id: u16,
    pub x_offset: u32,
    pub y_offset: u32,
}

/// The linked building stored at `pos`.
pub open spec fn linked_building_at(data: Seq<u8>, pos: int) -> LinkedBuildingView {
    LinkedBuildingView {
        unit_id: u16_at(data, pos),
        x_offset: u32_at(data, pos + 2),
        y_offset: u32_at(data, pos + 6),
    }
}

/// The 10 bytes a linked building is stored as.
pub open spec fn linked_building_bytes(v: LinkedBuildingView) -> Seq<u8> {
    u16_bytes(v.unit_id)
        + u32_bytes(v.x_offset)
        + u32_bytes(v.y_offset)
}

/// The values that can be written: IDs that the game writes as signed numbers fit.
pub open spec fn linked_building_writable(v: LinkedBuildingView) -> bool {
    true
}

/// The values that read back as written: IDs fit, and none is `0xFFFF`.
pub open spec fn linked_building_exact(v: LinkedBuildingView) -> bool {
    true
}

impl LinkedBuilding {
    /// Read a linked building at `pos`; returns it and the position after it.
    pub fn read_from(input: &[u8], pos: usize) -> (r: Result<(Self, usize), ReadError>)
        ensures
            r is Ok <==> pos + 10 <= input.len(),
            r matches Ok((x, q)) ==> x@ == linked_building_at(input@, pos as int) && q == pos + 10,
            r matches Err(e) ==> e == ReadError::UnexpectedEof,
    {
        let p = pos;
        let (unit_id, p) = read_u16_le(input, p)?;
        let unit_id = UnitTypeID::from(unit_id);
        let (x_offset, p) = read_u32_le(input, p)?;
        let (y_offset, p) = read_u32_le(input, p)?;
        Ok((LinkedBuilding { unit_id, x_offset, y_offset }, p))
    }

    /// Append this linked building to `output`.
    pub fn write_to(&self, output: &mut Vec<u8>)
        requires
            linked_building_writable(self@),
        ensures
            final(output)@ == old(output)@ + linked_building_bytes(self@),
    {
        let ghost s0 = output@;
        put_u16_le(output, u16::from(self.unit_id));
        let ghost mut acc = u16_bytes(self@.unit_id);
        assert(output@ == s0 + acc);
        put_u32_le(output, self.x_offset);
        proof {
            lemma_add_assoc(s0, acc, u32_bytes(self@.x_offset));
            acc = acc + u32_bytes(self@.x_offset);
        }
        put_u32_le(output, self.y_offset);
        proof {
            lemma_add_assoc(s0, acc, u32_bytes(self@.y_offset));
            acc = acc + u32_bytes(self@.y_offset);
        }
        assert(acc == linked_building_bytes(self@));
    }
}

/// A linked building that is written reads back unchanged, wherever it stands.
pub proof fn law_linked_building_read_of_write(prefix: Seq<u8>, v: LinkedBuildingView, suffix: Seq<u8>)
    requires
        linked_building_exact(v),
    ensures
        linked_building_bytes(v).len() == 10,
        linked_building_at(prefix + linked_building_bytes(v) + suffix, prefix.len() as int) == v,
{
    lemma_field_lens();
    lemma_pow256_values();
    let data = prefix + linked_building_bytes(v) + suffix;
    let p = prefix.len() as int;
    assert(data.subrange(p, p + 2) =~= u16_bytes(v.unit_id));
    lemma_u16_field(data, p, v.unit_id);
    assert(data.subrange(p + 2, p + 6) =~= u32_bytes(v.x_offset));
    lemma_u32_field(data, p + 2, v.x_offset);
    assert(data.subrange(p + 6, p + 10) =~= u32_bytes(v.y_offset));
    lemma_u32_field(data, p + 6, v.y_offset);
}

/// Attributes of unit types that are animated: the speed, as the bit pattern of an `f32`.
#[derive(Debug, Default, Clone)]
pub struct AnimatedUnitTypeAttributes {
    pub speed: u32,
}

impl View for AnimatedUnitTypeAttributes {
    type V = AnimatedView;

    open spec fn view(&self) -> AnimatedView {
        AnimatedView {
            speed: self.speed,
        }
    }
}

/// The fields of a animated unit type attributes as values.
pub ghost struct AnimatedView {
    pub speed: u32,
}

/// The animated unit type attributes stored at `pos`.
pub open spec fn animated_attrs_at(data: Seq<u8>, pos: int) -> AnimatedView {
    AnimatedView {
        speed: u32_at(data, pos),
    }
}

/// The 4 bytes the animated attributes are stored as.
pub open spec fn animated_attrs_bytes(v: AnimatedView) -> Seq<u8> {
    u32_bytes(v.speed)
}

/// The values that can be written: IDs that the game writes as signed numbers fit.
pub open spec fn animated_attrs_writable(v: AnimatedView) -> bool {
    true
}

/// The values that read back as written: IDs fit, and none is `0xFFFF`.
pub open spec fn animated_attrs_exact(v: AnimatedView) -> bool {
    true
}

impl AnimatedUnitTypeAttributes {
    /// Read the animated attributes at `pos`; returns them and the position after them.
    pub fn read_from(input: &[u8], pos: usize) -> (r: Result<(Self, usize), ReadError>)
        ensures
            r is Ok <==> pos + 4 <= input.len(),
            r matches Ok((x, q)) ==> x@ == animated_attrs_at(input@, pos as int) && q == pos + 4,
            r matches Err(e) ==> e == ReadError::UnexpectedEof,
    {
        let p = pos;
        let (speed, p) = read_u32_le(input, p)?;
        Ok((AnimatedUnitTypeAttributes { speed }, p))
    }

    /// Append the animated attributes to `output`.
    pub fn write_to(&self, output: &mut Vec<u8>)
        requires
            animated_attrs_writable(self@),
        ensures
            final(output)@ == old(output)@ + animated_attrs_bytes(self@),
    {
        let ghost s0 = output@;
        put_u32_le(output, self.speed);
        let ghost mut acc = u32_bytes(self@.speed);
        assert(output@ == s0 + acc);
        assert(acc == animated_attrs_bytes(self@));
    }
}

/// Animated attributes that are written read back unchanged, wherever they stand.
pub proof fn law_animated_attrs_read_of_write(prefix: Seq<u8>, v: AnimatedView, suffix: Seq<u8>)
    requires
        animated_attrs_exact(v),
    ensures
        animated_attrs_bytes(v).len() == 4,
        animated_attrs_at(prefix + animated_attrs_bytes(v) + suffix, prefix.len() as int) == v,
{
    lemma_field_lens();
    lemma_pow256_values();
    let data = prefix + animated_attrs_bytes(v) + suffix;
    let p = prefix.len() as int;
    assert(data.subrange(p, p + 4) =~= u32_bytes(v.speed));
    lemma_u32_field(data, p, v.speed);
}

/// Attributes of unit types that move; speeds, radii and spacings are bit patterns of `f32`s.
#[derive(Debug, Default, Clone)]
pub struct MovingUnitTypeAttributes {
    pub move_sprite: Option<SpriteID>,
    pub run_sprite: Option<SpriteID>,
    pub turn_speed: u32,
    pub size_class: u8,
    pub trailing_unit: Option<UnitTypeID>,
    pub trailing_options: u8,
    pub trailing_spacing: u32,
    pub move_algorithm: u8,
    pub turn_radius: u32,
    pub turn_radius_speed: u32,
    pub maximum_yaw_per_second_moving: u32,
    pub stationary_yaw_revolution_time: u32,
    pub maximum_yaw_per_second_stationary: u32,
}

impl View for MovingUnitTypeAttributes {
    type V = MovingView;

    open spec fn view(&self) -> MovingView {
        MovingView {
            move_sprite: opt_sprite(self.move_sprite),
            run_sprite: opt_sprite(self.run_sprite),
            turn_speed: self.turn_speed,
            size_class: self.size_class,
            trailing_unit: opt_unit(self.trailing_unit),
            trailing_options: self.trailing_options,
            trailing_spacing: self.trailing_spacing,
            move_algorithm: self.move_algorithm,
            turn_radius: self.turn_radius,
            turn_radius_speed: self.turn_radius_speed,
            maximum_yaw_per_second_moving: self.maximum_yaw_per_second_moving,
            stationary_yaw_revolution_time: self.stationary_yaw_revolution_time,
            maximum_yaw_per_second_stationary: self.maximum_yaw_per_second_stationary,
        }
    }
}

/// The fields of a moving unit type attributes as values.
pub ghost struct MovingView {
    pub move_sprite: Option<u16>,
    pub run_sprite: Option<u16>,
    pub turn_speed: u32,
    pub size_class: u8,
    pub trailing_unit: Option<u16>,
    pub trailing_options: u8,
    pub trailing_spacing: u32,
    pub move_algorithm: u8,
    pub turn_radius: u32,
    pub turn_radius_speed: u32,
    pub maximum_yaw_per_second_moving: u32,
    pub stationary_yaw_revolution_time: u32,
    pub maximum_yaw_per_second_stationary: u32,
}

/// The moving unit type attributes stored at `pos`.
pub open spec fn moving_attrs_at(data: Seq<u8>, pos: int) -> MovingView {
    MovingView {
        move_sprite: opt_u16_at(data, pos),
        run_sprite: opt_u16_at(data, pos + 2),
        turn_speed: u32_at(data, pos + 4),
        size_class: data[pos + 8],
        trailing_unit: opt_u16_at(data, pos + 9),
        trailing_options: data[pos + 11],
        trailing_spacing: u32_at(data, pos + 12),
        move_algorithm: data[pos + 16],
        turn_radius: u32_at(data, pos + 17),
        turn_radius_speed: u32_at(data, pos + 21),
        maximum_yaw_per_second_moving: u32_at(data, pos + 25),
        stationary_yaw_revolution_time: u32_at(data, pos + 29),
        maximum_yaw_per_second_stationary: u32_at(data, pos + 33),
    }
}

/// Part 1 of the bytes of a moving unit type attributes.
pub open spec fn moving_attrs_bytes_1(v: MovingView) -> Seq<u8> {
    opt_u16_bytes(v.move_sprite)
        + opt_u16_bytes(v.run_sprite)
        + u32_bytes(v.turn_speed)
        + seq![v.size_class]
        + opt_u16_bytes(v.trailing_unit)
        + seq![v.trailing_options]
        + u32_bytes(v.trailing_spacing)
}

/// Part 2 of the bytes of a moving unit type attributes.
pub open spec fn moving_attrs_bytes_2(v: MovingView) -> Seq<u8> {
    seq![v.move_algorithm]
        + u32_bytes(v.turn_radius)
        + u32_bytes(v.turn_radius_speed)
        + u32_bytes(v.maximum_yaw_per_second_moving)
        + u32_bytes(v.stationary_yaw_revolution_time)
        + u32_bytes(v.maximum_yaw_per_second_stationary)
}

/// The 37 bytes the moving attributes are stored as.
pub open spec fn moving_attrs_bytes(v: MovingView) -> Seq<u8> {
    moving_attrs_bytes_1(v)
        + moving_attrs_bytes_2(v)
}

/// The values that can be written: IDs that the game writes as signed numbers fit.
pub open spec fn moving_attrs_writable(v: MovingView) -> bool {
    fits_i16(v.move_sprite)
    && fits_i16(v.run_sprite)
    && fits_i16(v.trailing_unit)
}

/// The values that read back as written: IDs fit, and none is `0xFFFF`.
pub open spec fn moving_attrs_exact(v: MovingView) -> bool {
    fits_i16(v.move_sprite)
    && fits_i16(v.run_sprite)
    && fits_i16(v.trailing_unit)
}

impl MovingUnitTypeAttributes {
    /// Read the moving attributes at `pos`; returns them and the position after them.
    pub fn read_from(input: &[u8], pos: usize) -> (r: Result<(Self, usize), ReadError>)
        ensures
            r is Ok <==> pos + 37 <= input.len(),
            r matches Ok((x, q)) ==> x@ == moving_attrs_at(input@, pos as int) && q == pos + 37,
            r matches Err(e) ==> e == ReadError::UnexpectedEof,
    {
        let p = pos;
        let (move_sprite, p) = read_opt_u16(input, p)?;
        let move_sprite = sprite_from_opt(move_sprite);
        let (run_sprite, p) = read_opt_u16(input, p)?;
        let run_sprite = sprite_from_opt(run_sprite);
        let (turn_speed, p) = read_u32_le(input, p)?;
        let (size_class, p) = read_u8(input, p)?;
        let (trailing_unit, p) = read_opt_u16(input, p)?;
        let trailing_unit = unit_from_opt(trailing_unit);
        let (trailing_options, p) = read_u8(input, p)?;
        let (trailing_spacing, p) = read_u32_le(input, p)?;
        let (move_algorithm, p) = read_u8(input, p)?;
        let (turn_radius, p) = read_u32_le(input, p)?;
        let (turn_radius_speed, p) = read_u32_le(input, p)?;
        let (maximum_yaw_per_second_moving, p) = read_u32_le(input, p)?;
        let (stationary_yaw_revolution_time, p) = read_u32_le(input, p)?;
        let (maximum_yaw_per_second_stationary, p) = read_u32_le(input, p)?;
        Ok((MovingUnitTypeAttributes { move_sprite, run_sprite, turn_speed, size_class, trailing_unit, trailing_options, trailing_spacing, move_algorithm, turn_radius, turn_radius_speed, maximum_yaw_per_second_moving, stationary_yaw_revolution_time, maximum_yaw_per_second_stationary }, p))
    }

    fn write_part_1(&self, output: &mut Vec<u8>)
        requires
            moving_attrs_writable(self@),
        ensures
            final(output)@ == old(output)@ + moving_attrs_bytes_1(self@),
    {
        let ghost s0 = output@;
        put_opt_u16(output, sprite_to_opt(self.move_sprite));
        let ghost mut acc = opt_u16_bytes(self@.move_sprite);
        assert(output@ == s0 + acc);
        put_opt_u16(output, sprite_to_opt(self.run_sprite));
        proof {
            lemma_add_assoc(s0, acc, opt_u16_bytes(self@.run_sprite));
            acc = acc + opt_u16_bytes(self@.run_sprite);
        }
        put_u32_le(output, self.turn_speed);
        proof {
            lemma_add_assoc(s0, acc, u32_bytes(self@.turn_speed));
            acc = acc + u32_bytes(self@.turn_speed);
        }
        output.push(self.size_class);
        proof {
            lemma_add_assoc(s0, acc, seq![self@.size_class]);
            acc = acc + seq![self@.size_class];
        }
        put_opt_u16(output, unit_to_opt(self.trailing_unit));
        proof {
            lemma_add_assoc(s0, acc, opt_u16_bytes(self@.trailing_unit));
            acc = acc + opt_u16_bytes(self@.trailing_unit);
        }
        output.push(self.trailing_options);
        proof {
            lemma_add_assoc(s0, acc, seq![self@.trailing_options]);
            acc = acc + seq![self@.trailing_options];
        }
        put_u32_le(output, self.trailing_spacing);
        proof {
            lemma_add_assoc(s0, acc, u32_bytes(self@.trailing_spacing));
            acc = acc + u32_bytes(self@.trailing_spacing);
        }
        assert(acc == moving_attrs_bytes_1(self@));
    }

    fn write_part_2(&self, output: &mut Vec<u8>)
        requires
            moving_attrs_writable(self@),
        ensures
            final(output)@ == old(output)@ + moving_attrs_bytes_2(self@),
    {
        let ghost s0 = output@;
        output.push(self.move_algorithm);
        let ghost mut acc = seq![self@.move_algorithm];
        assert(output@ == s0 + acc);
        put_u32_le(output, self.turn_radius);
        proof {
            lemma_add_assoc(s0, acc, u32_bytes(self@.turn_radius));
            acc = acc + u32_bytes(self@.turn_radius);
        }
        put_u32_le(output, self.turn_radius_speed);
        proof {
            lemma_add_assoc(s0, acc, u32_bytes(self@.turn_radius_speed));
            acc = acc + u32_bytes(self@.turn_radius_speed);
        }
        put_u32_le(output, self.maximum_yaw_per_second_moving);
        proof {
            lemma_add_assoc(s0, acc, u32_bytes(self@.maximum_yaw_per_second_moving));
            acc = acc + u32_bytes(self@.maximum_yaw_per_second_moving);
        }
        put_u32_le(output, self.stationary_yaw_revolution_time);
        proof {
            lemma_add_assoc(s0, acc, u32_bytes(self@.stationary_yaw_revolution_time));
            acc = acc + u32_bytes(self@.stationary_yaw_revolution_time);
        }
        put_u32_le(output, self.maximum_yaw_per_second_stationary);
        proof {
            lemma_add_assoc(s0, acc, u32_bytes(self@.maximum_yaw_per_second_stationary));
            acc = acc + u32_bytes(self@.maximum_yaw_per_second_stationary);
        }
        assert(acc == moving_attrs_bytes_2(self@));
    }

    /// Append the moving attributes to `output`; each ID goes into a signed 16-bit field.
    pub fn write_to(&self, output: &mut Vec<u8>)
        requires
            moving_attrs_writable(self@),
        ensures
            final(output)@ == old(output)@ + moving_attrs_bytes(self@),
    {
        self.write_part_1(output);
        self.write_part_2(output);
        assert(output@ =~= old(output)@ + moving_attrs_bytes(self@));
    }
}

/// Moving attributes that are written read back unchanged, wherever they stand, when their IDs fit.
pub proof fn law_moving_attrs_read_of_write(prefix: Seq<u8>, v: MovingView, suffix: Seq<u8>)
    requires
        moving_attrs_exact(v),
    ensures
        moving_attrs_bytes(v).len() == 37,
        moving_attrs_at(prefix + moving_attrs_bytes(v) + suffix, prefix.len() as int) == v,
{
    lemma_field_lens();
    lemma_pow256_values();
    assert(opt_u16_bytes(v.move_sprite).len() == 2);
    assert(opt_u16_bytes(v.run_sprite).len() == 2);
    assert(opt_u16_bytes(v.trailing_unit).len() == 2);
    let data = prefix + moving_attrs_bytes(v) + suffix;
    let p = prefix.len() as int;
    assert((prefix) + moving_attrs_bytes_1(v) + (moving_attrs_bytes_2(v) + suffix) =~= data);
    lemma_moving_attrs_part_1(prefix, v, moving_attrs_bytes_2(v) + suffix);
    assert((prefix + moving_attrs_bytes_1(v)) + moving_attrs_bytes_2(v) + (suffix) =~= data);
    lemma_moving_attrs_part_2(prefix + moving_attrs_bytes_1(v), v, suffix);
}

/// The fields of part 1 of the bytes of a MovingView stand at their offsets.
pub open spec fn moving_attrs_part_1_holds(data: Seq<u8>, p: int, v: MovingView) -> bool {
    &&& opt_u16_at(data, p) == v.move_sprite
    &&& opt_u16_at(data, p + 2) == v.run_sprite
    &&& u32_at(data, p + 4) == v.turn_speed
    &&& data[p + 8] == v.size_class
    &&& opt_u16_at(data, p + 9) == v.trailing_unit
    &&& data[p + 11] == v.trailing_options
    &&& u32_at(data, p + 12) == v.trailing_spacing
}

proof fn lemma_moving_attrs_part_1(prefix: Seq<u8>, v: MovingView, suffix: Seq<u8>)
    requires
        moving_attrs_exact(v),
    ensures
        moving_attrs_bytes_1(v).len() == 16,
        moving_attrs_part_1_holds(prefix + moving_attrs_bytes_1(v) + suffix, prefix.len() as int, v),
{
    lemma_field_lens();
    lemma_pow256_values();
    assert(opt_u16_bytes(v.move_sprite).len() == 2);
    assert(opt_u16_bytes(v.run_sprite).len() == 2);
    assert(opt_u16_bytes(v.trailing_unit).len() == 2);
    let data = prefix + moving_attrs_bytes_1(v) + suffix;
    let p = prefix.len() as int;
    assert(data.subrange(p, p + 2) =~= opt_u16_bytes(v.move_sprite));
    lemma_opt_u16_field(data, p, v.move_sprite);
    assert(data.subrange(p + 2, p + 4) =~= opt_u16_bytes(v.run_sprite));
    lemma_opt_u16_field(data, p + 2, v.run_sprite);
    assert(data.subrange(p + 4, p + 8) =~= u32_bytes(v.turn_speed));
    lemma_u32_field(data, p + 4, v.turn_speed);
    assert(data.subrange(p + 8, p + 9) =~= seq![v.size_class]);
    lemma_u8_field(data, p + 8, v.size_class);
    assert(data.subrange(p + 9, p + 11) =~= opt_u16_bytes(v.trailing_unit));
    lemma_opt_u16_field(data, p + 9, v.trailing_unit);
    assert(data.subrange(p + 11, p + 12) =~= seq![v.trailing_options]);
    lemma_u8_field(data, p + 11, v.trailing_options);
    assert(data.subrange(p + 12, p + 16) =~= u32_bytes(v.trailing_spacing));
    lemma_u32_field(data, p + 12, v.trailing_spacing);
}

/// The fields of part 2 of the bytes of a MovingView stand at their offsets.
pub open spec fn moving_attrs_part_2_holds(data: Seq<u8>, p: int, v: MovingView) -> bool {
    &&& data[p] == v.move_algorithm
    &&& u32_at(data, p + 1) == v.turn_radius
    &&& u32_at(data, p + 5) == v.turn_radius_speed
    &&& u32_at(data, p + 9) == v.maximum_yaw_per_second_moving
    &&& u32_at(data, p + 13) == v.stationary_yaw_revolution_time
    &&& u32_at(data, p + 17) == v.maximum_yaw_per_second_stationary
}

proof fn lemma_moving_attrs_part_2(prefix: Seq<u8>, v: MovingView, suffix: Seq<u8>)
    requires
        moving_attrs_exact(v),
    ensures
        moving_attrs_bytes_2(v).len() == 21,
        moving_attrs_part_2_holds(prefix + moving_attrs_bytes_2(v) + suffix, prefix.len() as int, v),
{
    lemma_field_lens();
    lemma_pow256_values();
    let data = prefix + moving_attrs_bytes_2(v) + suffix;
    let p = prefix.len() as int;
    assert(data.subrange(p, p + 1) =~= seq![v.move_algorithm]);
    lemma_u8_field(data, p, v.move_algorithm);
    assert(data.subrange(p + 1, p + 5) =~= u32_bytes(v.turn_radius));
    lemma_u32_field(data, p + 1, v.turn_radius);
    assert(data.subrange(p + 5, p + 9) =~= u32_bytes(v.turn_radius_speed));
    lemma_u32_field(data, p + 5, v.turn_radius_speed);
    assert(data.subrange(p + 9, p + 13) =~= u32_bytes(v.maximum_yaw_per_second_moving));
    lemma_u32_field(data, p + 9, v.maximum_yaw_per_second_moving);
    assert(data.subrange(p + 13, p + 17) =~= u32_bytes(v.stationary_yaw_revolution_time));
    lemma_u32_field(data, p + 13, v.stationary_yaw_revolution_time);
    assert(data.subrange(p + 17, p + 21) =~= u32_bytes(v.maximum_yaw_per_second_stationary));
    lemma_u32_field(data, p + 17, v.maximum_yaw_per_second_stationary);
}

/// Attributes of unit types that can be tasked by a player; the radius and rate are bit patterns of `f32`s.
#[derive(Debug, Default, Clone)]
pub struct ActionUnitTypeAttributes {
    pub default_task: Option<u16>,
    pub search_radius: u32,
    pub work_rate: u32,
    pub drop_site: Option<UnitTypeID>,
    pub backup_drop_site: Option<UnitTypeID>,
    pub task_by_group: u8,
    pub command_sound: Option<SoundID>,
    pub move_sound: Option<SoundID>,
    /// Task list for older versions; newer game versions store the task list at the root of the
    /// data file, and use the unit type's copy ID to refer to one of those task lists.
    pub tasks: Option<TaskList>,
    pub run_pattern: u8,
}

impl View for ActionUnitTypeAttributes {
    type V = ActionView;

    open spec fn view(&self) -> ActionView {
        ActionView {
            default_task: self.default_task,
            search_radius: self.search_radius,
            work_rate: self.work_rate,
            drop_site: opt_unit(self.drop_site),
            backup_drop_site: opt_unit(self.backup_drop_site),
            task_by_group: self.task_by_group,
            command_sound: opt_sound(self.command_sound),
            move_sound: opt_sound(self.move_sound),
            run_pattern: self.run_pattern,
        }
    }
}

/// The fields of a action unit type attributes as values.
pub ghost struct ActionView {
    pub default_task: Option<u16>,
    pub search_radius: u32,
    pub work_rate: u32,
    pub drop_site: Option<u16>,
    pub backup_drop_site: Option<u16>,
    pub task_by_group: u8,
    pub command_sound: Option<u16>,
    pub move_sound: Option<u16>,
    pub run_pattern: u8,
}

/// The action unit type attributes stored at `pos`.
pub open spec fn action_attrs_at(data: Seq<u8>, pos: int) -> ActionView {
    ActionView {
        default_task: opt_u16_at(data, pos),
        search_radius: u32_at(data, pos + 2),
        work_rate: u32_at(data, pos + 6),
        drop_site: opt_u16_at(data, pos + 10),
        backup_drop_site: opt_u16_at(data, pos + 12),
        task_by_group: data[pos + 14],
        command_sound: opt_u16_at(data, pos + 15),
        move_sound: opt_u16_at(data, pos + 17),
        run_pattern: data[pos + 19],
    }
}

/// Part 1 of the bytes of a action unit type attributes.
pub open spec fn action_attrs_bytes_1(v: ActionView) -> Seq<u8> {
    opt_u16_bytes(v.default_task)
        + u32_bytes(v.search_radius)
        + u32_bytes(v.work_rate)
        + opt_u16_bytes(v.drop_site)
        + opt_u16_bytes(v.backup_drop_site)
        + seq![v.task_by_group]
        + opt_u16_bytes(v.command_sound)
}

/// Part 2 of the bytes of a action unit type attributes.
pub open spec fn action_attrs_bytes_2(v: ActionView) -> Seq<u8> {
    opt_u16_bytes(v.move_sound)
        + seq![v.run_pattern]
}

/// The 20 bytes the action attributes are stored as.
pub open spec fn action_attrs_bytes(v: ActionView) -> Seq<u8> {
    action_attrs_bytes_1(v)
        + action_attrs_bytes_2(v)
}

/// The values that can be written: IDs that the game writes as signed numbers fit.
pub open spec fn action_attrs_writable(v: ActionView) -> bool {
    fits_i16(v.default_task)
    && fits_i16(v.drop_site)
    && fits_i16(v.backup_drop_site)
    && fits_i16(v.command_sound)
    && fits_i16(v.move_sound)
}

/// The values that read back as written: IDs fit, and none is `0xFFFF`.
pub open spec fn action_attrs_exact(v: ActionView) -> bool {
    fits_i16(v.default_task)
    && fits_i16(v.drop_site)
    && fits_i16(v.backup_drop_site)
    && fits_i16(v.command_sound)
    && fits_i16(v.move_sound)
}

impl ActionUnitTypeAttributes {
    /// Read the action attributes at `pos`; returns them and the position after them. The task list is not stored here and is left empty.
    pub fn read_from(input: &[u8], pos: usize) -> (r: Result<(Self, usize), ReadError>)
        ensures
            r is Ok <==> pos + 20 <= input.len(),
            r matches Ok((x, q)) ==> x@ == action_attrs_at(input@, pos as int) && q == pos + 20,
            r matches Err(e) ==> e == ReadError::UnexpectedEof,
    {
        let p = pos;
        let (default_task, p) = read_opt_u16(input, p)?;
        let (search_radius, p) = read_u32_le(input, p)?;
        let (work_rate, p) = read_u32_le(input, p)?;
        let (drop_site, p) = read_opt_u16(input, p)?;
        let drop_site = unit_from_opt(drop_site);
        let (backup_drop_site, p) = read_opt_u16(input, p)?;
        let backup_drop_site = unit_from_opt(backup_drop_site);
        let (task_by_group, p) = read_u8(input, p)?;
        let (command_sound, p) = read_opt_u16(input, p)?;
        let command_sound = sound_from_opt(command_sound);
        let (move_sound, p) = read_opt_u16(input, p)?;
        let move_sound = sound_from_opt(move_sound);
        let (run_pattern, p) = read_u8(input, p)?;
        Ok((ActionUnitTypeAttributes { default_task, search_radius, work_rate, drop_site, backup_drop_site, task_by_group, command_sound, move_sound, run_pattern, tasks: None }, p))
    }

    fn write_part_1(&self, output: &mut Vec<u8>)
        requires
            action_attrs_writable(self@),
        ensures
            final(output)@ == old(output)@ + action_attrs_bytes_1(self@),
    {
        let ghost s0 = output@;
        put_opt_u16(output, self.default_task);
        let ghost mut acc = opt_u16_bytes(self@.default_task);
        assert(output@ == s0 + acc);
        put_u32_le(output, self.search_radius);
        proof {
            lemma_add_assoc(s0, acc, u32_bytes(self@.search_radius));
            acc = acc + u32_bytes(self@.search_radius);
        }
        put_u32_le(output, self.work_rate);
        proof {
            lemma_add_assoc(s0, acc, u32_bytes(self@.work_rate));
            acc = acc + u32_bytes(self@.work_rate);
        }
        put_opt_u16(output, unit_to_opt(self.drop_site));
        proof {
            lemma_add_assoc(s0, acc, opt_u16_bytes(self@.drop_site));
            acc = acc + opt_u16_bytes(self@.drop_site);
        }
        put_opt_u16(output, unit_to_opt(self.backup_drop_site));
        proof {
            lemma_add_assoc(s0, acc, opt_u16_bytes(self@.backup_drop_site));
            acc = acc + opt_u16_bytes(self@.backup_drop_site);
        }
        output.push(self.task_by_group);
        proof {
            lemma_add_assoc(s0, acc, seq![self@.task_by_group]);
            acc = acc + seq![self@.task_by_group];
        }
        put_opt_u16(output, sound_to_opt(self.command_sound));
        proof {
            lemma_add_assoc(s0, acc, opt_u16_bytes(self@.command_sound));
            acc = acc + opt_u16_bytes(self@.command_sound);
        }
        assert(acc == action_attrs_bytes_1(self@));
    }

    fn write_part_2(&self, output: &mut Vec<u8>)
        requires
            action_attrs_writable(self@),
        ensures
            final(output)@ == old(output)@ + action_attrs_bytes_2(self@),
    {
        let ghost s0 = output@;
        put_opt_u16(output, sound_to_opt(self.move_sound));
        let ghost mut acc = opt_u16_bytes(self@.move_sound);
        assert(output@ == s0 + acc);
        output.push(self.run_pattern);
        proof {
            lemma_add_assoc(s0, acc, seq![self@.run_pattern]);
            acc = acc + seq![self@.run_pattern];
        }
        assert(acc == action_attrs_bytes_2(self@));
    }

    /// Append the action attributes to `output`; each ID goes into a signed 16-bit field. The task list is not written.
    pub fn write_to(&self, output: &mut Vec<u8>)
        requires
            action_attrs_writable(self@),
        ensures
            final(output)@ == old(output)@ + action_attrs_bytes(self@),
    {
        self.write_part_1(output);
        self.write_part_2(output);
        assert(output@ =~= old(output)@ + action_attrs_bytes(self@));
    }
}

/// Action attributes that are written read back unchanged, wherever they stand, when their IDs fit; the task list is neither written nor read.
pub proof fn law_action_attrs_read_of_write(prefix: Seq<u8>, v: ActionView, suffix: Seq<u8>)
    requires
        action_attrs_exact(v),
    ensures
        action_attrs_bytes(v).len() == 20,
        action_attrs_at(prefix + action_attrs_bytes(v) + suffix, prefix.len() as int) == v,
{
    lemma_field_lens();
    lemma_pow256_values();
    assert(opt_u16_bytes(v.default_task).len() == 2);
    assert(opt_u16_bytes(v.drop_site).len() == 2);
    assert(opt_u16_bytes(v.backup_drop_site).len() == 2);
    assert(opt_u16_bytes(v.command_sound).len() == 2);
    assert(opt_u16_bytes(v.move_sound).len() == 2);
    let data = prefix + action_attrs_bytes(v) + suffix;
    let p = prefix.len() as int;
    assert((prefix) + action_attrs_bytes_1(v) + (action_attrs_bytes_2(v) + suffix) =~= data);
    lemma_action_attrs_part_1(prefix, v, action_attrs_bytes_2(v) + suffix);
    assert((prefix + action_attrs_bytes_1(v)) + action_attrs_bytes_2(v) + (suffix) =~= data);
    lemma_action_attrs_part_2(prefix + action_attrs_bytes_1(v), v, suffix);
}

/// The fields of part 1 of the bytes of a ActionView stand at their offsets.
pub open spec fn action_attrs_part_1_holds(data: Seq<u8>, p: int, v: ActionView) -> bool {
    &&& opt_u16_at(data, p) == v.default_task
    &&& u32_at(data, p + 2) == v.search_radius
    &&& u32_at(data, p + 6) == v.work_rate
    &&& opt_u16_at(data, p + 10) == v.drop_site
    &&& opt_u16_at(data, p + 12) == v.backup_drop_site
    &&& data[p + 14] == v.task_by_group
    &&& opt_u16_at(data, p + 15) == v.command_sound
}

proof fn lemma_action_attrs_part_1(prefix: Seq<u8>, v: ActionView, suffix: Seq<u8>)
    requires
        action_attrs_exact(v),
    ensures
        action_attrs_bytes_1(v).len() == 17,
        action_attrs_part_1_holds(prefix + action_attrs_bytes_1(v) + suffix, prefix.len() as int, v),
{
    lemma_field_lens();
    lemma_pow256_values();
    assert(opt_u16_bytes(v.default_task).len() == 2);
    assert(opt_u16_bytes(v.drop_site).len() == 2);
    assert(opt_u16_bytes(v.backup_drop_site).len() == 2);
    assert(opt_u16_bytes(v.command_sound).len() == 2);
    let data = prefix + action_attrs_bytes_1(v) + suffix;
    let p = prefix.len() as int;
    assert(data.subrange(p, p + 2) =~= opt_u16_bytes(v.default_task));
    lemma_opt_u16_field(data, p, v.default_task);
    assert(data.subrange(p + 2, p + 6) =~= u32_bytes(v.search_radius));
    lemma_u32_field(data, p + 2, v.search_radius);
    assert(data.subrange(p + 6, p + 10) =~= u32_bytes(v.work_rate));
    lemma_u32_field(data, p + 6, v.work_rate);
    assert(data.subrange(p + 10, p + 12) =~= opt_u16_bytes(v.drop_site));
    lemma_opt_u16_field(data, p + 10, v.drop_site);
    assert(data.subrange(p + 12, p + 14) =~= opt_u16_bytes(v.backup_drop_site));
    lemma_opt_u16_field(data, p + 12, v.backup_drop_site);
    assert(data.subrange(p + 14, p + 15) =~= seq![v.task_by_group]);
    lemma_u8_field(data, p + 14, v.task_by_group);
    assert(data.subrange(p + 15, p + 17) =~= opt_u16_bytes(v.command_sound));
    lemma_opt_u16_field(data, p + 15, v.command_sound);
}

/// The fields of part 2 of the bytes of a ActionView stand at their offsets.
pub open spec fn action_attrs_part_2_holds(data: Seq<u8>, p: int, v: ActionView) -> bool {
    &&& opt_u16_at(data, p) == v.move_sound
    &&& data[p + 2] == v.run_pattern
}

proof fn lemma_action_attrs_part_2(prefix: Seq<u8>, v: ActionView, suffix: Seq<u8>)
    requires
        action_attrs_exact(v),
    ensures
        action_attrs_bytes_2(v).len() == 3,
        action_attrs_part_2_holds(prefix + action_attrs_bytes_2(v) + suffix, prefix.len() as int, v),
{
    lemma_field_lens();
    lemma_pow256_values();
    assert(opt_u16_bytes(v.move_sound).len() == 2);
    let data = prefix + action_attrs_bytes_2(v) + suffix;
    let p = prefix.len() as int;
    assert(data.subrange(p, p + 2) =~= opt_u16_bytes(v.move_sound));
    lemma_opt_u16_field(data, p, v.move_sound);
    assert(data.subrange(p + 2, p + 3) =~= seq![v.run_pattern]);
    lemma_u8_field(data, p + 2, v.run_pattern);
}

/// Attributes of missile unit types; the ballistics ratio is the bit pattern of an `f32`.
#[derive(Debug, Default, Clone)]
pub struct MissileUnitTypeAttributes {
    pub missile_type: u8,
    pub targetting_type: u8,
    pub missile_hit_info: u8,
    pub missile_die_info: u8,
    pub area_effect_specials: u8,
    pub ballistics_ratio: u32,
}

impl View for MissileUnitTypeAttributes {
    type V = MissileView;

    open spec fn view(&self) -> MissileView {
        MissileView {
            missile_type: self.missile_type,
            targetting_type: self.targetting_type,
            missile_hit_info: self.missile_hit_info,
            missile_die_info: self.missile_die_info,
            area_effect_specials: self.area_effect_specials,
            ballistics_ratio: self.ballistics_ratio,
        }
    }
}

/// The fields of a missile unit type attributes as values.
pub ghost struct MissileView {
    pub missile_type: u8,
    pub targetting_type: u8,
    pub missile_hit_info: u8,
    pub missile_die_info: u8,
    pub area_effect_specials: u8,
    pub ballistics_ratio: u32,
}

/// The missile unit type attributes stored at `pos`.
pub open spec fn missile_attrs_at(data: Seq<u8>, pos: int) -> MissileView {
    MissileView {
        missile_type: data[pos],
        targetting_type: data[pos + 1],
        missile_hit_info: data[pos + 2],
        missile_die_info: data[pos + 3],
        area_effect_specials: data[pos + 4],
        ballistics_ratio: u32_at(data, pos + 5),
    }
}

/// The 9 bytes the missile attributes are stored as.
pub open spec fn missile_attrs_bytes(v: MissileView) -> Seq<u8> {
    seq![v.missile_type]
        + seq![v.targetting_type]
        + seq![v.missile_hit_info]
        + seq![v.missile_die_info]
        + seq![v.area_effect_specials]
        + u32_bytes(v.ballistics_ratio)
}

/// The values that can be written: IDs that the game writes as signed numbers fit.
pub open spec fn missile_attrs_writable(v: MissileView) -> bool {
    true
}

/// The values that read back as written: IDs fit, and none is `0xFFFF`.
pub open spec fn missile_attrs_exact(v: MissileView) -> bool {
    true
}

impl MissileUnitTypeAttributes {
    /// Read the missile attributes at `pos`; returns them and the position after them.
    pub fn read_from(input: &[u8], pos: usize) -> (r: Result<(Self, usize), ReadError>)
        ensures
            r is Ok <==> pos + 9 <= input.len(),
            r matches Ok((x, q)) ==> x@ == missile_attrs_at(input@, pos as int) && q == pos + 9,
            r matches Err(e) ==> e == ReadError::UnexpectedEof,
    {
        let p = pos;
        let (missile_type, p) = read_u8(input, p)?;
        let (targetting_type, p) = read_u8(input, p)?;
        let (missile_hit_info, p) = read_u8(input, p)?;
        let (missile_die_info, p) = read_u8(input, p)?;
        let (area_effect_specials, p) = read_u8(input, p)?;
        let (ballistics_ratio, p) = read_u32_le(input, p)?;
        Ok((MissileUnitTypeAttributes { missile_type, targetting_type, missile_hit_info, missile_die_info, area_effect_specials, ballistics_ratio }, p))
    }

    /// Append the missile attributes to `output`.
    pub fn write_to(&self, output: &mut Vec<u8>)
        requires
            missile_attrs_writable(self@),
        ensures
            final(output)@ == old(output)@ + missile_attrs_bytes(self@),
    {
        let ghost s0 = output@;
        output.push(self.missile_type);
        let ghost mut acc = seq![self@.missile_type];
        assert(output@ == s0 + acc);
        output.push(self.targetting_type);
        proof {
            lemma_add_assoc(s0, acc, seq![self@.targetting_type]);
            acc = acc + seq![self@.targetting_type];
        }
        output.push(self.missile_hit_info);
        proof {
            lemma_add_assoc(s0, acc, seq![self@.missile_hit_info]);
            acc = acc + seq![self@.missile_hit_info];
        }
        output.push(self.missile_die_info);
        proof {
            lemma_add_assoc(s0, acc, seq![self@.missile_die_info]);
            acc = acc + seq![self@.missile_die_info];
        }
        output.push(self.area_effect_specials);
        proof {
            lemma_add_assoc(s0, acc, seq![self@.area_effect_specials]);
            acc = acc + seq![self@.area_effect_specials];
        }
        put_u32_le(output, self.ballistics_ratio);
        proof {
            lemma_add_assoc(s0, acc, u32_bytes(self@.ballistics_ratio));
            acc = acc + u32_bytes(self@.ballistics_ratio);
        }
        assert(acc == missile_attrs_bytes(self@));
    }
}

/// Missile attributes that are written read back unchanged, wherever they stand.
pub proof fn law_missile_attrs_read_of_write(prefix: Seq<u8>, v: MissileView, suffix: Seq<u8>)
    requires
        missile_attrs_exact(v),
    ensures
        missile_attrs_bytes(v).len() == 9,
        missile_attrs_at(prefix + missile_attrs_bytes(v) + suffix, prefix.len() as int) == v,
{
    lemma_field_lens();
    lemma_pow256_values();
    let data = prefix + missile_attrs_bytes(v) + suffix;
    let p = prefix.len() as int;
    assert(data.subrange(p, p + 1) =~= seq![v.missile_type]);
    lemma_u8_field(data, p, v.missile_type);
    assert(data.subrange(p + 1, p + 2) =~= seq![v.targetting_type]);
    lemma_u8_field(data, p + 1, v.targetting_type);
    assert(data.subrange(p + 2, p + 3) =~= seq![v.missile_hit_info]);
    lemma_u8_field(data, p + 2, v.missile_hit_info);
    assert(data.subrange(p + 3, p + 4) =~= seq![v.missile_die_info]);
    lemma_u8_field(data, p + 3, v.missile_die_info);
    assert(data.subrange(p + 4, p + 5) =~= seq![v.area_effect_specials]);
    lemma_u8_field(data, p + 4, v.area_effect_specials);
    assert(data.subrange(p + 5, p + 9) =~= u32_bytes(v.ballistics_ratio));
    lemma_u32_field(data, p + 5, v.ballistics_ratio);
}


} // verus!
