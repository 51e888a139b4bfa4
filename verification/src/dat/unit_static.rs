//! The static attributes of unit types, which every unit type has, and unit types as a whole.
use crate::codec::{
    bytes_until_nul, i16_at, i16_bytes, lemma_field_lens, lemma_i16_field, lemma_opt_u16_field,
    lemma_add_assoc, lemma_pow256_values, lemma_u16_field, lemma_u32_field, opt_u16_at, opt_u16_bytes,
    push_bytes, put_i16_le, put_opt_u16, put_u16_le, put_u32_le, read_bytes, read_i16_le,
    read_opt_u16, read_u16_le, read_u32_le, read_u8, u16_at, u16_bytes, u32_at, u32_bytes,
    until_nul, ReadError,
};
use crate::dat::combat::{
    base_combat_at, base_combat_bytes, base_combat_writable, building_at, building_bytes,
    combat_at, combat_bytes, combat_tail_readable, BaseCombatUnitTypeAttributes, BaseCombatView,
    BuildingUnitTypeAttributes, BuildingView, CombatUnitTypeAttributes, CombatView,
};
use crate::dat::fields::{
    f32_below, f32_bits_below, fits_i16, flag_at, flag_bytes, graphic_fits_i16, graphic_from_opt,
    graphic_of16, graphic_to16, graphic_to_opt, lemma_flag_field, lemma_u8_field, opt_graphic,
    opt_sound, opt_sprite, opt_unit, put_flag, read_flag, sound_from_opt, sound_to_opt,
    sprite_from_opt, sprite_to_opt, unit_from_opt, unit_to_opt,
};
use crate::dat::ids::{GraphicID, SoundID, SpriteID, UnitTypeID};
use crate::dat::unit_attrs::{
    action_attrs_at, action_attrs_bytes, action_attrs_writable, animated_attrs_at,
    animated_attrs_bytes, missile_attrs_at, missile_attrs_bytes, moving_attrs_at,
    moving_attrs_bytes, moving_attrs_writable, unit_attribute_at, unit_attribute_bytes,
    ActionUnitTypeAttributes, ActionView, AnimatedUnitTypeAttributes, AnimatedView,
    MissileUnitTypeAttributes, MissileView, MovingUnitTypeAttributes, MovingView, UnitAttribute,
    UnitAttributeView,
};
use crate::dat::unit_fields::{damage_sprite_at, damage_sprite_bytes, DamageSprite};
use crate::dat::unit_type::{class_at_least, class_code, UnitBaseClass};
use crate::lang::encoding::decode_utf8_text;
use crate::lang::string_key::{KeyView, StringKey};
use arrayvec::ArrayVec;
use vstd::prelude::*;
use vstd::utf8::{decode_utf8, encode_utf8, valid_utf8};

verus! {

/// The bit pattern of the `f32` data version 11.55, from which unit types store object
/// flags.
pub const VERSION_11_55: u32 = 0x4138_cccd;

/// The fields of a main part of static unit type attributes as values.
pub ghost struct StaticBodyView {
    pub unit_class: u16,
    pub standing_sprite_1: Option<u16>,
    pub standing_sprite_2: Option<u16>,
    pub dying_sprite: Option<u16>,
    pub undead_sprite: Option<u16>,
    pub undead_flag: u8,
    pub hp: u16,
    pub los: u32,
    pub garrison_capacity: u8,
    pub radius_0: u32,
    pub radius_1: u32,
    pub radius_2: u32,
    pub train_sound: Option<u16>,
    pub damage_sound: Option<u16>,
    pub death_spawn: Option<u16>,
    pub sort_number: u8,
    pub can_be_built_on: bool,
    pub button_picture: Option<u32>,
    pub hide_in_scenario_editor: bool,
    pub portrait_picture: Option<u32>,
    pub enabled: bool,
    pub disabled: bool,
    pub tile_req_0: i16,
    pub tile_req_1: i16,
    pub center_tile_req_0: i16,
    pub center_tile_req_1: i16,
    pub construction_radius_0: u32,
    pub construction_radius_1: u32,
    pub elevation_flag: bool,
    pub fog_flag: bool,
    pub terrain_restriction_id: u16,
    pub movement_type: u8,
    pub attribute_max_amount: u16,
    pub attribute_rot: u32,
    pub area_effect_level: u8,
    pub combat_level: u8,
    pub select_level: u8,
    pub map_draw_level: u8,
    pub unit_level: u8,
    pub multiple_attribute_mod: u32,
    pub map_color: u8,
}

/// The main part of static unit type attributes stored at `pos`.
pub open spec fn static_body_at(data: Seq<u8>, pos: int) -> StaticBodyView {
    StaticBodyView {
        unit_class: u16_at(data, pos),
        standing_sprite_1: opt_u16_at(data, pos + 2),
        standing_sprite_2: opt_u16_at(data, pos + 4),
        dying_sprite: opt_u16_at(data, pos + 6),
        undead_sprite: opt_u16_at(data, pos + 8),
        undead_flag: data[pos + 10],
        hp: u16_at(data, pos + 11),
        los: u32_at(data, pos + 13),
        garrison_capacity: data[pos + 17],
        radius_0: u32_at(data, pos + 18),
        radius_1: u32_at(data, pos + 22),
        radius_2: u32_at(data, pos + 26),
        train_sound: opt_u16_at(data, pos + 30),
        damage_sound: opt_u16_at(data, pos + 32),
        death_spawn: opt_u16_at(data, pos + 34),
        sort_number: data[pos + 36],
        can_be_built_on: flag_at(data, pos + 37),
        button_picture: graphic_of16(opt_u16_at(data, pos + 38)),
        hide_in_scenario_editor: flag_at(data, pos + 40),
        portrait_picture: graphic_of16(opt_u16_at(data, pos + 41)),
        enabled: flag_at(data, pos + 43),
        disabled: flag_at(data, pos + 44),
        tile_req_0: i16_at(data, pos + 45),
        tile_req_1: i16_at(data, pos + 47),
        center_tile_req_0: i16_at(data, pos + 49),
        center_tile_req_1: i16_at(data, pos + 51),
        construction_radius_0: u32_at(data, pos + 53),
        construction_radius_1: u32_at(data, pos + 57),
        elevation_flag: flag_at(data, pos + 61),
        fog_flag: flag_at(data, pos + 62),
        terrain_restriction_id: u16_at(data, pos + 63),
        movement_type: data[pos + 65],
        attribute_max_amount: u16_at(data, pos + 66),
        attribute_rot: u32_at(data, pos + 68),
        area_effect_level: data[pos + 72],
        combat_level: data[pos + 73],
        select_level: data[pos + 74],
        map_draw_level: data[pos + 75],
        unit_level: data[pos + 76],
        multiple_attribute_mod: u32_at(data, pos + 77),
        map_color: data[pos + 81],
    }
}

/// Part 1 of the bytes of a main part of static unit type attributes.
pub open spec fn static_body_bytes_1(v: StaticBodyView) -> Seq<u8> {
    u16_bytes(v.unit_class)
        + opt_u16_bytes(v.standing_sprite_1)
        + opt_u16_bytes(v.standing_sprite_2)
        + opt_u16_bytes(v.dying_sprite)
        + opt_u16_bytes(v.undead_sprite)
        + seq![v.undead_flag]
        + u16_bytes(v.hp)
}

/// Part 2 of the bytes of a main part of static unit type attributes.
pub open spec fn static_body_bytes_2(v: StaticBodyView) -> Seq<u8> {
    u32_bytes(v.los)
        + seq![v.garrison_capacity]
        + u32_bytes(v.radius_0)
        + u32_bytes(v.radius_1)
        + u32_bytes(v.radius_2)
        + opt_u16_bytes(v.train_sound)
        + opt_u16_bytes(v.damage_sound)
}

/// Part 3 of the bytes of a main part of static unit type attributes.
pub open spec fn static_body_bytes_3(v: StaticBodyView) -> Seq<u8> {
    opt_u16_bytes(v.death_spawn)
        + seq![v.sort_number]
        + flag_bytes(v.can_be_built_on)
        + opt_u16_bytes(graphic_to16(v.button_picture))
        + flag_bytes(v.hide_in_scenario_editor)
        + opt_u16_bytes(graphic_to16(v.portrait_picture))
        + flag_bytes(v.enabled)
}

/// Part 4 of the bytes of a main part of static unit type attributes.
pub open spec fn static_body_bytes_4(v: StaticBodyView) -> Seq<u8> {
    flag_bytes(v.disabled)
        + i16_bytes(v.tile_req_0)
        + i16_bytes(v.tile_req_1)
        + i16_bytes(v.center_tile_req_0)
        + i16_bytes(v.center_tile_req_1)
        + u32_bytes(v.construction_radius_0)
        + u32_bytes(v.construction_radius_1)
}

/// Part 5 of the bytes of a main part of static unit type attributes.
pub open spec fn static_body_bytes_5(v: StaticBodyView) -> Seq<u8> {
    flag_bytes(v.elevation_flag)
        + flag_bytes(v.fog_flag)
        + u16_bytes(v.terrain_restriction_id)
        + seq![v.movement_type]
        + u16_bytes(v.attribute_max_amount)
        + u32_bytes(v.attribute_rot)
        + seq![v.area_effect_level]
}

/// Part 6 of the bytes of a main part of static unit type attributes.
pub open spec fn static_body_bytes_6(v: StaticBodyView) -> Seq<u8> {
    seq![v.combat_level]
        + seq![v.select_level]
        + seq![v.map_draw_level]
        + seq![v.unit_level]
        + u32_bytes(v.multiple_attribute_mod)
        + seq![v.map_color]
}

/// The 82 bytes the main part of static unit type attributes is stored as.
pub open spec fn static_body_bytes(v: StaticBodyView) -> Seq<u8> {
    static_body_bytes_1(v)
        + static_body_bytes_2(v)
        + static_body_bytes_3(v)
        + static_body_bytes_4(v)
        + static_body_bytes_5(v)
        + static_body_bytes_6(v)
}

/// The values that can be written: IDs that the game writes as signed numbers fit.
pub open spec fn static_body_writable(v: StaticBodyView) -> bool {
    fits_i16(v.standing_sprite_1)
    && fits_i16(v.standing_sprite_2)
    && fits_i16(v.dying_sprite)
    && fits_i16(v.undead_sprite)
    && fits_i16(v.train_sound)
    && fits_i16(v.damage_sound)
    && fits_i16(v.death_spawn)
    && graphic_fits_i16(v.button_picture)
    && graphic_fits_i16(v.portrait_picture)
}

/// The values that read back as written: IDs fit, and none is `0xFFFF`.
pub open spec fn static_body_exact(v: StaticBodyView) -> bool {
    fits_i16(v.standing_sprite_1)
    && fits_i16(v.standing_sprite_2)
    && fits_i16(v.dying_sprite)
    && fits_i16(v.undead_sprite)
    && fits_i16(v.train_sound)
    && fits_i16(v.damage_sound)
    && fits_i16(v.death_spawn)
    && graphic_fits_i16(v.button_picture)
    && graphic_fits_i16(v.portrait_picture)
}

/// The main part of static unit type attributes reads back as written, wherever it stands, when its IDs fit.
#[verifier::rlimit(100)]
pub proof fn law_static_body_read_of_write(prefix: Seq<u8>, v: StaticBodyView, suffix: Seq<u8>)
    requires
        static_body_exact(v),
    ensures
        static_body_bytes(v).len() == 82,
        static_body_at(prefix + static_body_bytes(v) + suffix, prefix.len() as int) == v,
{
    lemma_field_lens();
    lemma_pow256_values();
    assert(opt_u16_bytes(v.standing_sprite_1).len() == 2);
    assert(opt_u16_bytes(v.standing_sprite_2).len() == 2);
    assert(opt_u16_bytes(v.dying_sprite).len() == 2);
    assert(opt_u16_bytes(v.undead_sprite).len() == 2);
    assert(opt_u16_bytes(v.train_sound).len() == 2);
    assert(opt_u16_bytes(v.damage_sound).len() == 2);
    assert(opt_u16_bytes(v.death_spawn).len() == 2);
    assert(flag_bytes(v.can_be_built_on).len() == 1);
    assert(opt_u16_bytes(graphic_to16(v.button_picture)).len() == 2);
    assert(flag_bytes(v.hide_in_scenario_editor).len() == 1);
    assert(opt_u16_bytes(graphic_to16(v.portrait_picture)).len() == 2);
    assert(flag_bytes(v.enabled).len() == 1);
    assert(flag_bytes(v.disabled).len() == 1);
    assert(flag_bytes(v.elevation_flag).len() == 1);
    assert(flag_bytes(v.fog_flag).len() == 1);
    let data = prefix + static_body_bytes(v) + suffix;
    let p = prefix.len() as int;
    assert((prefix) + static_body_bytes_1(v) + (static_body_bytes_2(v) + static_body_bytes_3(v) + static_body_bytes_4(v) + static_body_bytes_5(v) + static_body_bytes_6(v) + suffix) =~= data);
    lemma_static_body_part_1(prefix, v, static_body_bytes_2(v) + static_body_bytes_3(v) + static_body_bytes_4(v) + static_body_bytes_5(v) + static_body_bytes_6(v) + suffix);
    assert((prefix + static_body_bytes_1(v)) + static_body_bytes_2(v) + (static_body_bytes_3(v) + static_body_bytes_4(v) + static_body_bytes_5(v) + static_body_bytes_6(v) + suffix) =~= data);
    lemma_static_body_part_2(prefix + static_body_bytes_1(v), v, static_body_bytes_3(v) + static_body_bytes_4(v) + static_body_bytes_5(v) + static_body_bytes_6(v) + suffix);
    assert((prefix + static_body_bytes_1(v) + static_body_bytes_2(v)) + static_body_bytes_3(v) + (static_body_bytes_4(v) + static_body_bytes_5(v) + static_body_bytes_6(v) + suffix) =~= data);
    lemma_static_body_part_3(prefix + static_body_bytes_1(v) + static_body_bytes_2(v), v, static_body_bytes_4(v) + static_body_bytes_5(v) + static_body_bytes_6(v) + suffix);
    assert((prefix + static_body_bytes_1(v) + static_body_bytes_2(v) + static_body_bytes_3(v)) + static_body_bytes_4(v) + (static_body_bytes_5(v) + static_body_bytes_6(v) + suffix) =~= data);
    lemma_static_body_part_4(prefix + static_body_bytes_1(v) + static_body_bytes_2(v) + static_body_bytes_3(v), v, static_body_bytes_5(v) + static_body_bytes_6(v) + suffix);
    assert((prefix + static_body_bytes_1(v) + static_body_bytes_2(v) + static_body_bytes_3(v) + static_body_bytes_4(v)) + static_body_bytes_5(v) + (static_body_bytes_6(v) + suffix) =~= data);
    lemma_static_body_part_5(prefix + static_body_bytes_1(v) + static_body_bytes_2(v) + static_body_bytes_3(v) + static_body_bytes_4(v), v, static_body_bytes_6(v) + suffix);
    assert((prefix + static_body_bytes_1(v) + static_body_bytes_2(v) + static_body_bytes_3(v) + static_body_bytes_4(v) + static_body_bytes_5(v)) + static_body_bytes_6(v) + (suffix) =~= data);
    lemma_static_body_part_6(prefix + static_body_bytes_1(v) + static_body_bytes_2(v) + static_body_bytes_3(v) + static_body_bytes_4(v) + static_body_bytes_5(v), v, suffix);
}

/// The fields of part 1 of the bytes of a StaticBodyView stand at their offsets.
pub open spec fn static_body_part_1_holds(data: Seq<u8>, p: int, v: StaticBodyView) -> bool {
    &&& u16_at(data, p) == v.unit_class
    &&& opt_u16_at(data, p + 2) == v.standing_sprite_1
    &&& opt_u16_at(data, p + 4) == v.standing_sprite_2
    &&& opt_u16_at(data, p + 6) == v.dying_sprite
    &&& opt_u16_at(data, p + 8) == v.undead_sprite
    &&& data[p + 10] == v.undead_flag
    &&& u16_at(data, p + 11) == v.hp
}

proof fn lemma_static_body_part_1(prefix: Seq<u8>, v: StaticBodyView, suffix: Seq<u8>)
    requires
        static_body_exact(v),
    ensures
        static_body_bytes_1(v).len() == 13,
        static_body_part_1_holds(prefix + static_body_bytes_1(v) + suffix, prefix.len() as int, v),
{
    lemma_field_lens();
    lemma_pow256_values();
    assert(opt_u16_bytes(v.standing_sprite_1).len() == 2);
    assert(opt_u16_bytes(v.standing_sprite_2).len() == 2);
    assert(opt_u16_bytes(v.dying_sprite).len() == 2);
    assert(opt_u16_bytes(v.undead_sprite).len() == 2);
    let data = prefix + static_body_bytes_1(v) + suffix;
    let p = prefix.len() as int;
    assert(data.subrange(p, p + 2) =~= u16_bytes(v.unit_class));
    lemma_u16_field(data, p, v.unit_class);
    assert(data.subrange(p + 2, p + 4) =~= opt_u16_bytes(v.standing_sprite_1));
    lemma_opt_u16_field(data, p + 2, v.standing_sprite_1);
    assert(data.subrange(p + 4, p + 6) =~= opt_u16_bytes(v.standing_sprite_2));
    lemma_opt_u16_field(data, p + 4, v.standing_sprite_2);
    assert(data.subrange(p + 6, p + 8) =~= opt_u16_bytes(v.dying_sprite));
    lemma_opt_u16_field(data, p + 6, v.dying_sprite);
    assert(data.subrange(p + 8, p + 10) =~= opt_u16_bytes(v.undead_sprite));
    lemma_opt_u16_field(data, p + 8, v.undead_sprite);
    assert(data.subrange(p + 10, p + 11) =~= seq![v.undead_flag]);
    lemma_u8_field(data, p + 10, v.undead_flag);
    assert(data.subrange(p + 11, p + 13) =~= u16_bytes(v.hp));
    lemma_u16_field(data, p + 11, v.hp);
}

/// The fields of part 2 of the bytes of a StaticBodyView stand at their offsets.
pub open spec fn static_body_part_2_holds(data: Seq<u8>, p: int, v: StaticBodyView) -> bool {
    &&& u32_at(data, p) == v.los
    &&& data[p + 4] == v.garrison_capacity
    &&& u32_at(data, p + 5) == v.radius_0
    &&& u32_at(data, p + 9) == v.radius_1
    &&& u32_at(data, p + 13) == v.radius_2
    &&& opt_u16_at(data, p + 17) == v.train_sound
    &&& opt_u16_at(data, p + 19) == v.damage_sound
}

proof fn lemma_static_body_part_2(prefix: Seq<u8>, v: StaticBodyView, suffix: Seq<u8>)
    requires
        static_body_exact(v),
    ensures
        static_body_bytes_2(v).len() == 21,
        static_body_part_2_holds(prefix + static_body_bytes_2(v) + suffix, prefix.len() as int, v),
{
    lemma_field_lens();
    lemma_pow256_values();
    assert(opt_u16_bytes(v.train_sound).len() == 2);
    assert(opt_u16_bytes(v.damage_sound).len() == 2);
    let data = prefix + static_body_bytes_2(v) + suffix;
    let p = prefix.len() as int;
    assert(data.subrange(p, p + 4) =~= u32_bytes(v.los));
    lemma_u32_field(data, p, v.los);
    assert(data.subrange(p + 4, p + 5) =~= seq![v.garrison_capacity]);
    lemma_u8_field(data, p + 4, v.garrison_capacity);
    assert(data.subrange(p + 5, p + 9) =~= u32_bytes(v.radius_0));
    lemma_u32_field(data, p + 5, v.radius_0);
    assert(data.subrange(p + 9, p + 13) =~= u32_bytes(v.radius_1));
    lemma_u32_field(data, p + 9, v.radius_1);
    assert(data.subrange(p + 13, p + 17) =~= u32_bytes(v.radius_2));
    lemma_u32_field(data, p + 13, v.radius_2);
    assert(data.subrange(p + 17, p + 19) =~= opt_u16_bytes(v.train_sound));
    lemma_opt_u16_field(data, p + 17, v.train_sound);
    assert(data.subrange(p + 19, p + 21) =~= opt_u16_bytes(v.damage_sound));
    lemma_opt_u16_field(data, p + 19, v.damage_sound);
}

/// The fields of part 3 of the bytes of a StaticBodyView stand at their offsets.
pub open spec fn static_body_part_3_holds(data: Seq<u8>, p: int, v: StaticBodyView) -> bool {
    &&& opt_u16_at(data, p) == v.death_spawn
    &&& data[p + 2] == v.sort_number
    &&& flag_at(data, p + 3) == v.can_be_built_on
    &&& graphic_of16(opt_u16_at(data, p + 4)) == v.button_picture
    &&& flag_at(data, p + 6) == v.hide_in_scenario_editor
    &&& graphic_of16(opt_u16_at(data, p + 7)) == v.portrait_picture
    &&& flag_at(data, p + 9) == v.enabled
}

proof fn lemma_static_body_part_3(prefix: Seq<u8>, v: StaticBodyView, suffix: Seq<u8>)
    requires
        static_body_exact(v),
    ensures
        static_body_bytes_3(v).len() == 10,
        static_body_part_3_holds(prefix + static_body_bytes_3(v) + suffix, prefix.len() as int, v),
{
    lemma_field_lens();
    lemma_pow256_values();
    assert(opt_u16_bytes(v.death_spawn).len() == 2);
    assert(flag_bytes(v.can_be_built_on).len() == 1);
    assert(opt_u16_bytes(graphic_to16(v.button_picture)).len() == 2);
    assert(flag_bytes(v.hide_in_scenario_editor).len() == 1);
    assert(opt_u16_bytes(graphic_to16(v.portrait_picture)).len() == 2);
    assert(flag_bytes(v.enabled).len() == 1);
    let data = prefix + static_body_bytes_3(v) + suffix;
    let p = prefix.len() as int;
    assert(data.subrange(p, p + 2) =~= opt_u16_bytes(v.death_spawn));
    lemma_opt_u16_field(data, p, v.death_spawn);
    assert(data.subrange(p + 2, p + 3) =~= seq![v.sort_number]);
    lemma_u8_field(data, p + 2, v.sort_number);
    assert(data.subrange(p + 3, p + 4) =~= flag_bytes(v.can_be_built_on));
    lemma_flag_field(data, p + 3, v.can_be_built_on);
    assert(data.subrange(p + 4, p + 6) =~= opt_u16_bytes(graphic_to16(v.button_picture)));
    lemma_opt_u16_field(data, p + 4, graphic_to16(v.button_picture));
    assert(data.subrange(p + 6, p + 7) =~= flag_bytes(v.hide_in_scenario_editor));
    lemma_flag_field(data, p + 6, v.hide_in_scenario_editor);
    assert(data.subrange(p + 7, p + 9) =~= opt_u16_bytes(graphic_to16(v.portrait_picture)));
    lemma_opt_u16_field(data, p + 7, graphic_to16(v.portrait_picture));
    assert(data.subrange(p + 9, p + 10) =~= flag_bytes(v.enabled));
    lemma_flag_field(data, p + 9, v.enabled);
}

/// The fields of part 4 of the bytes of a StaticBodyView stand at their offsets.
pub open spec fn static_body_part_4_holds(data: Seq<u8>, p: int, v: StaticBodyView) -> bool {
    &&& flag_at(data, p) == v.disabled
    &&& i16_at(data, p + 1) == v.tile_req_0
    &&& i16_at(data, p + 3) == v.tile_req_1
    &&& i16_at(data, p + 5) == v.center_tile_req_0
    &&& i16_at(data, p + 7) == v.center_tile_req_1
    &&& u32_at(data, p + 9) == v.construction_radius_0
    &&& u32_at(data, p + 13) == v.construction_radius_1
}

proof fn lemma_static_body_part_4(prefix: Seq<u8>, v: StaticBodyView, suffix: Seq<u8>)
    requires
        static_body_exact(v),
    ensures
        static_body_bytes_4(v).len() == 17,
        static_body_part_4_holds(prefix + static_body_bytes_4(v) + suffix, prefix.len() as int, v),
{
    lemma_field_lens();
    lemma_pow256_values();
    assert(flag_bytes(v.disabled).len() == 1);
    let data = prefix + static_body_bytes_4(v) + suffix;
    let p = prefix.len() as int;
    assert(data.subrange(p, p + 1) =~= flag_bytes(v.disabled));
    lemma_flag_field(data, p, v.disabled);
    assert(data.subrange(p + 1, p + 3) =~= i16_bytes(v.tile_req_0));
    lemma_i16_field(data, p + 1, v.tile_req_0);
    assert(data.subrange(p + 3, p + 5) =~= i16_bytes(v.tile_req_1));
    lemma_i16_field(data, p + 3, v.tile_req_1);
    assert(data.subrange(p + 5, p + 7) =~= i16_bytes(v.center_tile_req_0));
    lemma_i16_field(data, p + 5, v.center_tile_req_0);
    assert(data.subrange(p + 7, p + 9) =~= i16_bytes(v.center_tile_req_1));
    lemma_i16_field(data, p + 7, v.center_tile_req_1);
    assert(data.subrange(p + 9, p + 13) =~= u32_bytes(v.construction_radius_0));
    lemma_u32_field(data, p + 9, v.construction_radius_0);
    assert(data.subrange(p + 13, p + 17) =~= u32_bytes(v.construction_radius_1));
    lemma_u32_field(data, p + 13, v.construction_radius_1);
}

/// The fields of part 5 of the bytes of a StaticBodyView stand at their offsets.
pub open spec fn static_body_part_5_holds(data: Seq<u8>, p: int, v: StaticBodyView) -> bool {
    &&& flag_at(data, p) == v.elevation_flag
    &&& flag_at(data, p + 1) == v.fog_flag
    &&& u16_at(data, p + 2) == v.terrain_restriction_id
    &&& data[p + 4] == v.movement_type
    &&& u16_at(data, p + 5) == v.attribute_max_amount
    &&& u32_at(data, p + 7) == v.attribute_rot
    &&& data[p + 11] == v.area_effect_level
}

proof fn lemma_static_body_part_5(prefix: Seq<u8>, v: StaticBodyView, suffix: Seq<u8>)
    requires
        static_body_exact(v),
    ensures
        static_body_bytes_5(v).len() == 12,
        static_body_part_5_holds(prefix + static_body_bytes_5(v) + suffix, prefix.len() as int, v),
{
    lemma_field_lens();
    lemma_pow256_values();
    assert(flag_bytes(v.elevation_flag).len() == 1);
    assert(flag_bytes(v.fog_flag).len() == 1);
    let data = prefix + static_body_bytes_5(v) + suffix;
    let p = prefix.len() as int;
    assert(data.subrange(p, p + 1) =~= flag_bytes(v.elevation_flag));
    lemma_flag_field(data, p, v.elevation_flag);
    assert(data.subrange(p + 1, p + 2) =~= flag_bytes(v.fog_flag));
    lemma_flag_field(data, p + 1, v.fog_flag);
    assert(data.subrange(p + 2, p + 4) =~= u16_bytes(v.terrain_restriction_id));
    lemma_u16_field(data, p + 2, v.terrain_restriction_id);
    assert(data.subrange(p + 4, p + 5) =~= seq![v.movement_type]);
    lemma_u8_field(data, p + 4, v.movement_type);
    assert(data.subrange(p + 5, p + 7) =~= u16_bytes(v.attribute_max_amount));
    lemma_u16_field(data, p + 5, v.attribute_max_amount);
    assert(data.subrange(p + 7, p + 11) =~= u32_bytes(v.attribute_rot));
    lemma_u32_field(data, p + 7, v.attribute_rot);
    assert(data.subrange(p + 11, p + 12) =~= seq![v.area_effect_level]);
    lemma_u8_field(data, p + 11, v.area_effect_level);
}

/// The fields of part 6 of the bytes of a StaticBodyView stand at their offsets.
pub open spec fn static_body_part_6_holds(data: Seq<u8>, p: int, v: StaticBodyView) -> bool {
    &&& data[p] == v.combat_level
    &&& data[p + 1] == v.select_level
    &&& data[p + 2] == v.map_draw_level
    &&& data[p + 3] == v.unit_level
    &&& u32_at(data, p + 4) == v.multiple_attribute_mod
    &&& data[p + 8] == v.map_color
}

proof fn lemma_static_body_part_6(prefix: Seq<u8>, v: StaticBodyView, suffix: Seq<u8>)
    requires
        static_body_exact(v),
    ensures
        static_body_bytes_6(v).len() == 9,
        static_body_part_6_holds(prefix + static_body_bytes_6(v) + suffix, prefix.len() as int, v),
{
    lemma_field_lens();
    lemma_pow256_values();
    let data = prefix + static_body_bytes_6(v) + suffix;
    let p = prefix.len() as int;
    assert(data.subrange(p, p + 1) =~= seq![v.combat_level]);
    lemma_u8_field(data, p, v.combat_level);
    assert(data.subrange(p + 1, p + 2) =~= seq![v.select_level]);
    lemma_u8_field(data, p + 1, v.select_level);
    assert(data.subrange(p + 2, p + 3) =~= seq![v.map_draw_level]);
    lemma_u8_field(data, p + 2, v.map_draw_level);
    assert(data.subrange(p + 3, p + 4) =~= seq![v.unit_level]);
    lemma_u8_field(data, p + 3, v.unit_level);
    assert(data.subrange(p + 4, p + 8) =~= u32_bytes(v.multiple_attribute_mod));
    lemma_u32_field(data, p + 4, v.multiple_attribute_mod);
    assert(data.subrange(p + 8, p + 9) =~= seq![v.map_color]);
    lemma_u8_field(data, p + 8, v.map_color);
}

/// The fields of the main part of static unit type attributes, as read.
struct StaticBodyPart {
    unit_class: u16,
    standing_sprite_1: Option<SpriteID>,
    standing_sprite_2: Option<SpriteID>,
    dying_sprite: Option<SpriteID>,
    undead_sprite: Option<SpriteID>,
    undead_flag: u8,
    hp: u16,
    los: u32,
    garrison_capacity: u8,
    radius: (u32, u32, u32),
    train_sound: Option<SoundID>,
    damage_sound: Option<SoundID>,
    death_spawn: Option<UnitTypeID>,
    sort_number: u8,
    can_be_built_on: bool,
    button_picture: Option<GraphicID>,
    hide_in_scenario_editor: bool,
    portrait_picture: Option<GraphicID>,
    enabled: bool,
    disabled: bool,
    tile_req: (i16, i16),
    center_tile_req: (i16, i16),
    construction_radius: (u32, u32),
    elevation_flag: bool,
    fog_flag: bool,
    terrain_restriction_id: u16,
    movement_type: u8,
    attribute_max_amount: u16,
    attribute_rot: u32,
    area_effect_level: u8,
    combat_level: u8,
    select_level: u8,
    map_draw_level: u8,
    unit_level: u8,
    multiple_attribute_mod: u32,
    map_color: u8,
}

impl View for StaticBodyPart {
    type V = StaticBodyView;

    closed spec fn view(&self) -> StaticBodyView {
        StaticBodyView {
            unit_class: self.unit_class,
            standing_sprite_1: opt_sprite(self.standing_sprite_1),
            standing_sprite_2: opt_sprite(self.standing_sprite_2),
            dying_sprite: opt_sprite(self.dying_sprite),
            undead_sprite: opt_sprite(self.undead_sprite),
            undead_flag: self.undead_flag,
            hp: self.hp,
            los: self.los,
            garrison_capacity: self.garrison_capacity,
            radius_0: self.radius.0,
            radius_1: self.radius.1,
            radius_2: self.radius.2,
            train_sound: opt_sound(self.train_sound),
            damage_sound: opt_sound(self.damage_sound),
            death_spawn: opt_unit(self.death_spawn),
            sort_number: self.sort_number,
            can_be_built_on: self.can_be_built_on,
            button_picture: opt_graphic(self.button_picture),
            hide_in_scenario_editor: self.hide_in_scenario_editor,
            portrait_picture: opt_graphic(self.portrait_picture),
            enabled: self.enabled,
            disabled: self.disabled,
            tile_req_0: self.tile_req.0,
            tile_req_1: self.tile_req.1,
            center_tile_req_0: self.center_tile_req.0,
            center_tile_req_1: self.center_tile_req.1,
            construction_radius_0: self.construction_radius.0,
            construction_radius_1: self.construction_radius.1,
            elevation_flag: self.elevation_flag,
            fog_flag: self.fog_flag,
            terrain_restriction_id: self.terrain_restriction_id,
            movement_type: self.movement_type,
            attribute_max_amount: self.attribute_max_amount,
            attribute_rot: self.attribute_rot,
            area_effect_level: self.area_effect_level,
            combat_level: self.combat_level,
            select_level: self.select_level,
            map_draw_level: self.map_draw_level,
            unit_level: self.unit_level,
            multiple_attribute_mod: self.multiple_attribute_mod,
            map_color: self.map_color,
        }
    }
}

impl StaticBodyPart {
    fn read_from(input: &[u8], pos: usize) -> (r: Result<(Self, usize), ReadError>)
        ensures
            r is Ok <==> pos + 82 <= input.len(),
            r matches Ok((x, q)) ==> x@ == static_body_at(input@, pos as int) && q == pos + 82,
            r matches Err(e) ==> e == ReadError::UnexpectedEof,
    {
        let p = pos;
        let (unit_class, p) = read_u16_le(input, p)?;
        let (standing_sprite_1, p) = read_opt_u16(input, p)?;
        let standing_sprite_1 = sprite_from_opt(standing_sprite_1);
        let (standing_sprite_2, p) = read_opt_u16(input, p)?;
        let standing_sprite_2 = sprite_from_opt(standing_sprite_2);
        let (dying_sprite, p) = read_opt_u16(input, p)?;
        let dying_sprite = sprite_from_opt(dying_sprite);
        let (undead_sprite, p) = read_opt_u16(input, p)?;
        let undead_sprite = sprite_from_opt(undead_sprite);
        let (undead_flag, p) = read_u8(input, p)?;
        let (hp, p) = read_u16_le(input, p)?;
        let (los, p) = read_u32_le(input, p)?;
        let (garrison_capacity, p) = read_u8(input, p)?;
        let (radius_0, p) = read_u32_le(input, p)?;
        let (radius_1, p) = read_u32_le(input, p)?;
        let (radius_2, p) = read_u32_le(input, p)?;
        let (train_sound, p) = read_opt_u16(input, p)?;
        let train_sound = sound_from_opt(train_sound);
        let (damage_sound, p) = read_opt_u16(input, p)?;
        let damage_sound = sound_from_opt(damage_sound);
        let (death_spawn, p) = read_opt_u16(input, p)?;
        let death_spawn = unit_from_opt(death_spawn);
        let (sort_number, p) = read_u8(input, p)?;
        let (can_be_built_on, p) = read_flag(input, p)?;
        let (button_picture, p) = read_opt_u16(input, p)?;
        let button_picture = graphic_from_opt(button_picture);
        let (hide_in_scenario_editor, p) = read_flag(input, p)?;
        let (portrait_picture, p) = read_opt_u16(input, p)?;
        let portrait_picture = graphic_from_opt(portrait_picture);
        let (enabled, p) = read_flag(input, p)?;
        let (disabled, p) = read_flag(input, p)?;
        let (tile_req_0, p) = read_i16_le(input, p)?;
        let (tile_req_1, p) = read_i16_le(input, p)?;
        let (center_tile_req_0, p) = read_i16_le(input, p)?;
        let (center_tile_req_1, p) = read_i16_le(input, p)?;
        let (construction_radius_0, p) = read_u32_le(input, p)?;
        let (construction_radius_1, p) = read_u32_le(input, p)?;
        let (elevation_flag, p) = read_flag(input, p)?;
        let (fog_flag, p) = read_flag(input, p)?;
        let (terrain_restriction_id, p) = read_u16_le(input, p)?;
        let (movement_type, p) = read_u8(input, p)?;
        let (attribute_max_amount, p) = read_u16_le(input, p)?;
        let (attribute_rot, p) = read_u32_le(input, p)?;
        let (area_effect_level, p) = read_u8(input, p)?;
        let (combat_level, p) = read_u8(input, p)?;
        let (select_level, p) = read_u8(input, p)?;
        let (map_draw_level, p) = read_u8(input, p)?;
        let (unit_level, p) = read_u8(input, p)?;
        let (multiple_attribute_mod, p) = read_u32_le(input, p)?;
        let (map_color, p) = read_u8(input, p)?;
        Ok((StaticBodyPart { unit_class, standing_sprite_1, standing_sprite_2, dying_sprite, undead_sprite, undead_flag, hp, los, garrison_capacity, radius: (radius_0, radius_1, radius_2), train_sound, damage_sound, death_spawn, sort_number, can_be_built_on, button_picture, hide_in_scenario_editor, portrait_picture, enabled, disabled, tile_req: (tile_req_0, tile_req_1), center_tile_req: (center_tile_req_0, center_tile_req_1), construction_radius: (construction_radius_0, construction_radius_1), elevation_flag, fog_flag, terrain_restriction_id, movement_type, attribute_max_amount, attribute_rot, area_effect_level, combat_level, select_level, map_draw_level, unit_level, multiple_attribute_mod, map_color }, p))
    }
}

/// The fields of a part of static unit type attributes after the help string as values.
pub ghost struct StaticFlagsView {
    pub help_page_id: u32,
    pub hotkey_id: u32,
    pub recyclable: bool,
    pub track_as_resource: bool,
    pub create_doppleganger: bool,
    pub resource_group: u8,
    pub occlusion_mask: u8,
    pub obstruction_type: u8,
    pub selection_shape: u8,
}

/// The part of static unit type attributes after the help string stored at `pos`.
pub open spec fn static_flags_at(data: Seq<u8>, pos: int) -> StaticFlagsView {
    StaticFlagsView {
        help_page_id: u32_at(data, pos),
        hotkey_id: u32_at(data, pos + 4),
        recyclable: flag_at(data, pos + 8),
        track_as_resource: flag_at(data, pos + 9),
        create_doppleganger: flag_at(data, pos + 10),
        resource_group: data[pos + 11],
        occlusion_mask: data[pos + 12],
        obstruction_type: data[pos + 13],
        selection_shape: data[pos + 14],
    }
}

/// Part 1 of the bytes of a part of static unit type attributes after the help string.
pub open spec fn static_flags_bytes_1(v: StaticFlagsView) -> Seq<u8> {
    u32_bytes(v.help_page_id)
        + u32_bytes(v.hotkey_id)
        + flag_bytes(v.recyclable)
        + flag_bytes(v.track_as_resource)
        + flag_bytes(v.create_doppleganger)
        + seq![v.resource_group]
        + seq![v.occlusion_mask]
}

/// Part 2 of the bytes of a part of static unit type attributes after the help string.
pub open spec fn static_flags_bytes_2(v: StaticFlagsView) -> Seq<u8> {
    seq![v.obstruction_type]
        + seq![v.selection_shape]
}

/// The 15 bytes the part of static unit type attributes after the help string is stored as.
pub open spec fn static_flags_bytes(v: StaticFlagsView) -> Seq<u8> {
    static_flags_bytes_1(v)
        + static_flags_bytes_2(v)
}

/// The values that can be written: IDs that the game writes as signed numbers fit.
pub open spec fn static_flags_writable(v: StaticFlagsView) -> bool {
    true
}

/// The values that read back as written: IDs fit, and none is `0xFFFF`.
pub open spec fn static_flags_exact(v: StaticFlagsView) -> bool {
    true
}

/// The part of static unit type attributes after the help string reads back as written, wherever it stands, when its IDs fit.
pub proof fn law_static_flags_read_of_write(prefix: Seq<u8>, v: StaticFlagsView, suffix: Seq<u8>)
    requires
        static_flags_exact(v),
    ensures
        static_flags_bytes(v).len() == 15,
        static_flags_at(prefix + static_flags_bytes(v) + suffix, prefix.len() as int) == v,
{
    lemma_field_lens();
    lemma_pow256_values();
    assert(flag_bytes(v.recyclable).len() == 1);
    assert(flag_bytes(v.track_as_resource).len() == 1);
    assert(flag_bytes(v.create_doppleganger).len() == 1);
    let data = prefix + static_flags_bytes(v) + suffix;
    let p = prefix.len() as int;
    assert((prefix) + static_flags_bytes_1(v) + (static_flags_bytes_2(v) + suffix) =~= data);
    lemma_static_flags_part_1(prefix, v, static_flags_bytes_2(v) + suffix);
    assert((prefix + static_flags_bytes_1(v)) + static_flags_bytes_2(v) + (suffix) =~= data);
    lemma_static_flags_part_2(prefix + static_flags_bytes_1(v), v, suffix);
}

/// The fields of part 1 of the bytes of a StaticFlagsView stand at their offsets.
pub open spec fn static_flags_part_1_holds(data: Seq<u8>, p: int, v: StaticFlagsView) -> bool {
    &&& u32_at(data, p) == v.help_page_id
    &&& u32_at(data, p + 4) == v.hotkey_id
    &&& flag_at(data, p + 8) == v.recyclable
    &&& flag_at(data, p + 9) == v.track_as_resource
    &&& flag_at(data, p + 10) == v.create_doppleganger
    &&& data[p + 11] == v.resource_group
    &&& data[p + 12] == v.occlusion_mask
}

proof fn lemma_static_flags_part_1(prefix: Seq<u8>, v: StaticFlagsView, suffix: Seq<u8>)
    requires
        static_flags_exact(v),
    ensures
        static_flags_bytes_1(v).len() == 13,
        static_flags_part_1_holds(prefix + static_flags_bytes_1(v) + suffix, prefix.len() as int, v),
{
    lemma_field_lens();
    lemma_pow256_values();
    assert(flag_bytes(v.recyclable).len() == 1);
    assert(flag_bytes(v.track_as_resource).len() == 1);
    assert(flag_bytes(v.create_doppleganger).len() == 1);
    let data = prefix + static_flags_bytes_1(v) + suffix;
    let p = prefix.len() as int;
    assert(data.subrange(p, p + 4) =~= u32_bytes(v.help_page_id));
    lemma_u32_field(data, p, v.help_page_id);
    assert(data.subrange(p + 4, p + 8) =~= u32_bytes(v.hotkey_id));
    lemma_u32_field(data, p + 4, v.hotkey_id);
    assert(data.subrange(p + 8, p + 9) =~= flag_bytes(v.recyclable));
    lemma_flag_field(data, p + 8, v.recyclable);
    assert(data.subrange(p + 9, p + 10) =~= flag_bytes(v.track_as_resource));
    lemma_flag_field(data, p + 9, v.track_as_resource);
    assert(data.subrange(p + 10, p + 11) =~= flag_bytes(v.create_doppleganger));
    lemma_flag_field(data, p + 10, v.create_doppleganger);
    assert(data.subrange(p + 11, p + 12) =~= seq![v.resource_group]);
    lemma_u8_field(data, p + 11, v.resource_group);
    assert(data.subrange(p + 12, p + 13) =~= seq![v.occlusion_mask]);
    lemma_u8_field(data, p + 12, v.occlusion_mask);
}

/// The fields of part 2 of the bytes of a StaticFlagsView stand at their offsets.
pub open spec fn static_flags_part_2_holds(data: Seq<u8>, p: int, v: StaticFlagsView) -> bool {
    &&& data[p] == v.obstruction_type
    &&& data[p + 1] == v.selection_shape
}

proof fn lemma_static_flags_part_2(prefix: Seq<u8>, v: StaticFlagsView, suffix: Seq<u8>)
    requires
        static_flags_exact(v),
    ensures
        static_flags_bytes_2(v).len() == 2,
        static_flags_part_2_holds(prefix + static_flags_bytes_2(v) + suffix, prefix.len() as int, v),
{
    lemma_field_lens();
    lemma_pow256_values();
    let data = prefix + static_flags_bytes_2(v) + suffix;
    let p = prefix.len() as int;
    assert(data.subrange(p, p + 1) =~= seq![v.obstruction_type]);
    lemma_u8_field(data, p, v.obstruction_type);
    assert(data.subrange(p + 1, p + 2) =~= seq![v.selection_shape]);
    lemma_u8_field(data, p + 1, v.selection_shape);
}

/// The fields of the part of static unit type attributes after the help string, as read.
struct StaticFlagsPart {
    help_page_id: u32,
    hotkey_id: u32,
    recyclable: bool,
    track_as_resource: bool,
    create_doppleganger: bool,
    resource_group: u8,
    occlusion_mask: u8,
    obstruction_type: u8,
    selection_shape: u8,
}

impl View for StaticFlagsPart {
    type V = StaticFlagsView;

    closed spec fn view(&self) -> StaticFlagsView {
        StaticFlagsView {
            help_page_id: self.help_page_id,
            hotkey_id: self.hotkey_id,
            recyclable: self.recyclable,
            track_as_resource: self.track_as_resource,
            create_doppleganger: self.create_doppleganger,
            resource_group: self.resource_group,
            occlusion_mask: self.occlusion_mask,
            obstruction_type: self.obstruction_type,
            selection_shape: self.selection_shape,
        }
    }
}

impl StaticFlagsPart {
    fn read_from(input: &[u8], pos: usize) -> (r: Result<(Self, usize), ReadError>)
        ensures
            r is Ok <==> pos + 15 <= input.len(),
            r matches Ok((x, q)) ==> x@ == static_flags_at(input@, pos as int) && q == pos + 15,
            r matches Err(e) ==> e == ReadError::UnexpectedEof,
    {
        let p = pos;
        let (help_page_id, p) = read_u32_le(input, p)?;
        let (hotkey_id, p) = read_u32_le(input, p)?;
        let (recyclable, p) = read_flag(input, p)?;
        let (track_as_resource, p) = read_flag(input, p)?;
        let (create_doppleganger, p) = read_flag(input, p)?;
        let (resource_group, p) = read_u8(input, p)?;
        let (occlusion_mask, p) = read_u8(input, p)?;
        let (obstruction_type, p) = read_u8(input, p)?;
        let (selection_shape, p) = read_u8(input, p)?;
        Ok((StaticFlagsPart { help_page_id, hotkey_id, recyclable, track_as_resource, create_doppleganger, resource_group, occlusion_mask, obstruction_type, selection_shape }, p))
    }
}

/// The fields of a part of static unit type attributes after the object flags as values.
pub ghost struct StaticOutlineView {
    pub civilization: u8,
    pub attribute_piece: u8,
    pub outline_radius_0: u32,
    pub outline_radius_1: u32,
    pub outline_radius_2: u32,
}

/// The part of static unit type attributes after the object flags stored at `pos`.
pub open spec fn static_outline_at(data: Seq<u8>, pos: int) -> StaticOutlineView {
    StaticOutlineView {
        civilization: data[pos],
        attribute_piece: data[pos + 1],
        outline_radius_0: u32_at(data, pos + 2),
        outline_radius_1: u32_at(data, pos + 6),
        outline_radius_2: u32_at(data, pos + 10),
    }
}

/// The 14 bytes the part of static unit type attributes after the object flags is stored as.
pub open spec fn static_outline_bytes(v: StaticOutlineView) -> Seq<u8> {
    seq![v.civilization]
        + seq![v.attribute_piece]
        + u32_bytes(v.outline_radius_0)
        + u32_bytes(v.outline_radius_1)
        + u32_bytes(v.outline_radius_2)
}

/// The values that can be written: IDs that the game writes as signed numbers fit.
pub open spec fn static_outline_writable(v: StaticOutlineView) -> bool {
    true
}

/// The values that read back as written: IDs fit, and none is `0xFFFF`.
pub open spec fn static_outline_exact(v: StaticOutlineView) -> bool {
    true
}

/// The part of static unit type attributes after the object flags reads back as written, wherever it stands, when its IDs fit.
pub proof fn law_static_outline_read_of_write(prefix: Seq<u8>, v: StaticOutlineView, suffix: Seq<u8>)
    requires
        static_outline_exact(v),
    ensures
        static_outline_bytes(v).len() == 14,
        static_outline_at(prefix + static_outline_bytes(v) + suffix, prefix.len() as int) == v,
{
    lemma_field_lens();
    lemma_pow256_values();
    let data = prefix + static_outline_bytes(v) + suffix;
    let p = prefix.len() as int;
    assert(data.subrange(p, p + 1) =~= seq![v.civilization]);
    lemma_u8_field(data, p, v.civilization);
    assert(data.subrange(p + 1, p + 2) =~= seq![v.attribute_piece]);
    lemma_u8_field(data, p + 1, v.attribute_piece);
    assert(data.subrange(p + 2, p + 6) =~= u32_bytes(v.outline_radius_0));
    lemma_u32_field(data, p + 2, v.outline_radius_0);
    assert(data.subrange(p + 6, p + 10) =~= u32_bytes(v.outline_radius_1));
    lemma_u32_field(data, p + 6, v.outline_radius_1);
    assert(data.subrange(p + 10, p + 14) =~= u32_bytes(v.outline_radius_2));
    lemma_u32_field(data, p + 10, v.outline_radius_2);
}

/// The fields of the part of static unit type attributes after the object flags, as read.
struct StaticOutlinePart {
    civilization: u8,
    attribute_piece: u8,
    outline_radius: (u32, u32, u32),
}

impl View for StaticOutlinePart {
    type V = StaticOutlineView;

    closed spec fn view(&self) -> StaticOutlineView {
        StaticOutlineView {
            civilization: self.civilization,
            attribute_piece: self.attribute_piece,
            outline_radius_0: self.outline_radius.0,
            outline_radius_1: self.outline_radius.1,
            outline_radius_2: self.outline_radius.2,
        }
    }
}

impl StaticOutlinePart {
    fn read_from(input: &[u8], pos: usize) -> (r: Result<(Self, usize), ReadError>)
        ensures
            r is Ok <==> pos + 14 <= input.len(),
            r matches Ok((x, q)) ==> x@ == static_outline_at(input@, pos as int) && q == pos + 14,
            r matches Err(e) ==> e == ReadError::UnexpectedEof,
    {
        let p = pos;
        let (civilization, p) = read_u8(input, p)?;
        let (attribute_piece, p) = read_u8(input, p)?;
        let (outline_radius_0, p) = read_u32_le(input, p)?;
        let (outline_radius_1, p) = read_u32_le(input, p)?;
        let (outline_radius_2, p) = read_u32_le(input, p)?;
        Ok((StaticOutlinePart { civilization, attribute_piece, outline_radius: (outline_radius_0, outline_radius_1, outline_radius_2) }, p))
    }
}

/// The fields of a part of static unit type attributes after the damage sprites as values.
pub ghost struct StaticSoundsView {
    pub selected_sound: Option<u16>,
    pub death_sound: Option<u16>,
    pub attack_reaction: u8,
    pub convert_terrain_flag: u8,
}

/// The part of static unit type attributes after the damage sprites stored at `pos`.
pub open spec fn static_sounds_at(data: Seq<u8>, pos: int) -> StaticSoundsView {
    StaticSoundsView {
        selected_sound: opt_u16_at(data, pos),
        death_sound: opt_u16_at(data, pos + 2),
        attack_reaction: data[pos + 4],
        convert_terrain_flag: data[pos + 5],
    }
}

/// The 6 bytes the part of static unit type attributes after the damage sprites is stored as.
pub open spec fn static_sounds_bytes(v: StaticSoundsView) -> Seq<u8> {
    opt_u16_bytes(v.selected_sound)
        + opt_u16_bytes(v.death_sound)
        + seq![v.attack_reaction]
        + seq![v.convert_terrain_flag]
}

/// The values that can be written: IDs that the game writes as signed numbers fit.
pub open spec fn static_sounds_writable(v: StaticSoundsView) -> bool {
    fits_i16(v.selected_sound)
    && fits_i16(v.death_sound)
}

/// The values that read back as written: IDs fit, and none is `0xFFFF`.
pub open spec fn static_sounds_exact(v: StaticSoundsView) -> bool {
    fits_i16(v.selected_sound)
    && fits_i16(v.death_sound)
}

/// The part of static unit type attributes after the damage sprites reads back as written, wherever it stands, when its IDs fit.
pub proof fn law_static_sounds_read_of_write(prefix: Seq<u8>, v: StaticSoundsView, suffix: Seq<u8>)
    requires
        static_sounds_exact(v),
    ensures
        static_sounds_bytes(v).len() == 6,
        static_sounds_at(prefix + static_sounds_bytes(v) + suffix, prefix.len() as int) == v,
{
    lemma_field_lens();
    lemma_pow256_values();
    assert(opt_u16_bytes(v.selected_sound).len() == 2);
    assert(opt_u16_bytes(v.death_sound).len() == 2);
    let data = prefix + static_sounds_bytes(v) + suffix;
    let p = prefix.len() as int;
    assert(data.subrange(p, p + 2) =~= opt_u16_bytes(v.selected_sound));
    lemma_opt_u16_field(data, p, v.selected_sound);
    assert(data.subrange(p + 2, p + 4) =~= opt_u16_bytes(v.death_sound));
    lemma_opt_u16_field(data, p + 2, v.death_sound);
    assert(data.subrange(p + 4, p + 5) =~= seq![v.attack_reaction]);
    lemma_u8_field(data, p + 4, v.attack_reaction);
    assert(data.subrange(p + 5, p + 6) =~= seq![v.convert_terrain_flag]);
    lemma_u8_field(data, p + 5, v.convert_terrain_flag);
}

/// The fields of the part of static unit type attributes after the damage sprites, as read.
struct StaticSoundsPart {
    selected_sound: Option<SoundID>,
    death_sound: Option<SoundID>,
    attack_reaction: u8,
    convert_terrain_flag: u8,
}

impl View for StaticSoundsPart {
    type V = StaticSoundsView;

    closed spec fn view(&self) -> StaticSoundsView {
        StaticSoundsView {
            selected_sound: opt_sound(self.selected_sound),
            death_sound: opt_sound(self.death_sound),
            attack_reaction: self.attack_reaction,
            convert_terrain_flag: self.convert_terrain_flag,
        }
    }
}

impl StaticSoundsPart {
    fn read_from(input: &[u8], pos: usize) -> (r: Result<(Self, usize), ReadError>)
        ensures
            r is Ok <==> pos + 6 <= input.len(),
            r matches Ok((x, q)) ==> x@ == static_sounds_at(input@, pos as int) && q == pos + 6,
            r matches Err(e) ==> e == ReadError::UnexpectedEof,
    {
        let p = pos;
        let (selected_sound, p) = read_opt_u16(input, p)?;
        let selected_sound = sound_from_opt(selected_sound);
        let (death_sound, p) = read_opt_u16(input, p)?;
        let death_sound = sound_from_opt(death_sound);
        let (attack_reaction, p) = read_u8(input, p)?;
        let (convert_terrain_flag, p) = read_u8(input, p)?;
        Ok((StaticSoundsPart { selected_sound, death_sound, attack_reaction, convert_terrain_flag }, p))
    }
}

/// What a list of resource attributes of `arrayvec` holds, by value.
pub uninterp spec fn held_unit_attrs(v: ArrayVec<UnitAttribute, 3>) -> Seq<UnitAttributeView>;

/// `ArrayVec::new`: an empty list of resource attributes.
#[verifier::external_body]
fn unit_attrs_new() -> (v: ArrayVec<UnitAttribute, 3>)
    ensures
        held_unit_attrs(v) == Seq::<UnitAttributeView>::empty(),
{
    ArrayVec::new()
}

/// `ArrayVec::push`: appends a resource attribute; it panics on a full list, which
/// `requires` rules out.
#[verifier::external_body]
fn unit_attrs_push(v: &mut ArrayVec<UnitAttribute, 3>, a: UnitAttribute)
    requires
        held_unit_attrs(*old(v)).len() < 3,
    ensures
        held_unit_attrs(*final(v)) == held_unit_attrs(*old(v)).push(a@),
{
    v.push(a)
}

/// `ArrayVec::len`: the number of resource attributes, never more than the capacity of 3.
#[verifier::external_body]
fn unit_attrs_len(v: &ArrayVec<UnitAttribute, 3>) -> (n: usize)
    ensures
        n == held_unit_attrs(*v).len(),
        n <= 3,
{
    v.len()
}

/// `ArrayVec::as_slice` indexed at `i`: the resource attribute at that place.
#[verifier::external_body]
fn unit_attrs_get(v: &ArrayVec<UnitAttribute, 3>, i: usize) -> (a: UnitAttribute)
    requires
        i < held_unit_attrs(*v).len(),
    ensures
        a@ == held_unit_attrs(*v)[i as int],
{
    v.as_slice()[i]
}

/// The resource attributes of `s` whose type is not `0xFFFF`, in order.
pub open spec fn kept_unit_attrs(s: Seq<UnitAttributeView>) -> Seq<UnitAttributeView>
    decreases s.len(),
{
    if s.len() == 0 {
        s
    } else if s.last().attribute_type != 0xFFFF {
        kept_unit_attrs(s.drop_last()).push(s.last())
    } else {
        kept_unit_attrs(s.drop_last())
    }
}

/// The three resource attributes stored at `pos`.
pub open spec fn stored_unit_attrs(data: Seq<u8>, pos: int) -> Seq<UnitAttributeView> {
    seq![unit_attribute_at(data, pos), unit_attribute_at(data, pos + 7), unit_attribute_at(data, pos + 14)]
}

/// The resource attribute that stands for none: type `0xFFFF`, amount and flag zero.
pub open spec fn empty_unit_attr() -> UnitAttributeView {
    UnitAttributeView { attribute_type: 0xFFFF, amount: 0, flag: 0 }
}

/// The bytes of place `i` of a list of resource attributes: the attribute there, or none.
pub open spec fn unit_attr_slot_bytes(s: Seq<UnitAttributeView>, i: int) -> Seq<u8> {
    if i < s.len() {
        unit_attribute_bytes(s[i])
    } else {
        unit_attribute_bytes(empty_unit_attr())
    }
}

/// The bytes of the three places for resource attributes.
pub open spec fn unit_attr_slots_bytes(s: Seq<UnitAttributeView>) -> Seq<u8> {
    unit_attr_slot_bytes(s, 0) + unit_attr_slot_bytes(s, 1) + unit_attr_slot_bytes(s, 2)
}

/// Reads the three places for resource attributes at `pos`, keeping those whose type is
/// not `0xFFFF`.
fn read_unit_attrs(input: &[u8], pos: usize) -> (r: Result<(ArrayVec<UnitAttribute, 3>, usize), ReadError>)
    ensures
        r is Ok <==> pos + 21 <= input.len(),
        r matches Ok((l, p)) ==> held_unit_attrs(l) == kept_unit_attrs(stored_unit_attrs(input@, pos as int))
            && p == pos + 21,
        r matches Err(e) ==> e == ReadError::UnexpectedEof,
{
    let mut attrs = unit_attrs_new();
    let mut p = pos;
    let mut i: usize = 0;
    let ghost all = stored_unit_attrs(input@, pos as int);
    assert(all.take(0) =~= Seq::<UnitAttributeView>::empty());
    while i < 3
        invariant
            i <= 3,
            p == pos + 7 * i,
            i > 0 ==> p <= input.len(),
            all == stored_unit_attrs(input@, pos as int),
            held_unit_attrs(attrs) == kept_unit_attrs(all.take(i as int)),
            held_unit_attrs(attrs).len() <= i,
        decreases 3 - i,
    {
        let (attr, q) = UnitAttribute::read_from(input, p)?;
        proof {
            assert(all.take(i + 1).drop_last() =~= all.take(i as int));
            assert(all.take(i + 1).last() == all[i as int]);
            assert(all[i as int] == unit_attribute_at(input@, pos + 7 * i));
        }
        if attr.attribute_type != 0xFFFF {
            unit_attrs_push(&mut attrs, attr);
        }
        p = q;
        i = i + 1;
    }
    assert(all.take(3) =~= all);
    Ok((attrs, p))
}

/// Appends the three places for resource attributes: each attribute, then none.
fn write_unit_attrs(output: &mut Vec<u8>, attrs: &ArrayVec<UnitAttribute, 3>)
    ensures
        final(output)@ == old(output)@ + unit_attr_slots_bytes(held_unit_attrs(*attrs)),
{
    let ghost s = held_unit_attrs(*attrs);
    let n = unit_attrs_len(attrs);
    let mut i: usize = 0;
    let ghost mut acc: Seq<u8> = Seq::empty();
    while i < 3
        invariant
            i <= 3,
            n == s.len(),
            s == held_unit_attrs(*attrs),
            output@ == old(output)@ + acc,
            acc == (if i == 0 {
                Seq::<u8>::empty()
            } else if i == 1 {
                unit_attr_slot_bytes(s, 0)
            } else if i == 2 {
                unit_attr_slot_bytes(s, 0) + unit_attr_slot_bytes(s, 1)
            } else {
                unit_attr_slots_bytes(s)
            }),
        decreases 3 - i,
    {
        if i < n {
            let a = unit_attrs_get(attrs, i);
            a.write_to(output);
        } else {
            let a = UnitAttribute { attribute_type: 0xFFFF, amount: 0, flag: 0 };
            a.write_to(output);
        }
        proof {
            lemma_add_assoc(old(output)@, acc, unit_attr_slot_bytes(s, i as int));
            acc = acc + unit_attr_slot_bytes(s, i as int);
        }
        i = i + 1;
    }
}

/// The values of a list of damage sprites.
pub open spec fn damage_sprites_view(v: Seq<DamageSprite>) -> Seq<(u16, u16, u8)> {
    v.map_values(|d: DamageSprite| d@)
}

/// The `n` damage sprites stored from `pos` on.
pub open spec fn damage_sprites_at(data: Seq<u8>, pos: int, n: nat) -> Seq<(u16, u16, u8)> {
    Seq::new(n, |i: int| damage_sprite_at(data, pos + 5 * i))
}

/// The bytes of a list of damage sprites, one after the other.
pub open spec fn damage_sprites_bytes(s: Seq<(u16, u16, u8)>) -> Seq<u8>
    decreases s.len(),
{
    if s.len() == 0 {
        Seq::empty()
    } else {
        damage_sprites_bytes(s.drop_last()) + damage_sprite_bytes(s.last())
    }
}

/// Reads `n` damage sprites at `pos`.
fn read_damage_sprites(input: &[u8], pos: usize, n: u8) -> (r: Result<(Vec<DamageSprite>, usize), ReadError>)
    requires
        pos <= input.len(),
    ensures
        r is Ok <==> pos + 5 * n <= input.len(),
        r matches Ok((v, p)) ==> damage_sprites_view(v@) == damage_sprites_at(input@, pos as int, n as nat)
            && p == pos + 5 * n,
        r matches Err(e) ==> e == ReadError::UnexpectedEof,
{
    let mut v: Vec<DamageSprite> = Vec::new();
    let mut p = pos;
    let mut i: u8 = 0;
    while i < n
        invariant
            i <= n,
            p == pos + 5 * i,
            p <= input.len(),
            v@.len() == i,
            forall|j: int| 0 <= j < i ==> #[trigger] v@[j]@ == damage_sprite_at(input@, pos + 5 * j),
        decreases n - i,
    {
        match DamageSprite::read_from(input, p) {
            Ok((d, q)) => {
                v.push(d);
                p = q;
            },
            Err(e) => {
                return Err(e);
            },
        }
        i = i + 1;
    }
    assert(damage_sprites_view(v@) =~= damage_sprites_at(input@, pos as int, n as nat));
    Ok((v, p))
}

/// Appends damage sprites, one after the other.
fn write_damage_sprites(output: &mut Vec<u8>, v: &Vec<DamageSprite>)
    ensures
        final(output)@ == old(output)@ + damage_sprites_bytes(damage_sprites_view(v@)),
{
    let ghost s0 = output@;
    let ghost w = damage_sprites_view(v@);
    assert(w.take(0) =~= Seq::<(u16, u16, u8)>::empty());
    let mut i: usize = 0;
    while i < v.len()
        invariant
            i <= v.len(),
            w == damage_sprites_view(v@),
            output@ == s0 + damage_sprites_bytes(w.take(i as int)),
        decreases v.len() - i,
    {
        v[i].write_to(output);
        proof {
            assert(w.take(i + 1).drop_last() =~= w.take(i as int));
            assert(w.take(i + 1).last() == v@[i as int]@);
        }
        i = i + 1;
    }
    assert(w.take(v.len() as int) =~= w);
}

/// The attributes that every unit type has; the line of sight, radii, the rotting rate and
/// the attribute modifier are bit patterns of `f32`s.
#[derive(Debug, Default)]
pub struct StaticUnitTypeAttributes {
    name: String,
    pub id: UnitTypeID,
    pub string_id: StringKey,
    string_id2: Option<StringKey>,
    pub unit_class: u16,
    pub standing_sprite_1: Option<SpriteID>,
    pub standing_sprite_2: Option<SpriteID>,
    pub dying_sprite: Option<SpriteID>,
    pub undead_sprite: Option<SpriteID>,
    pub undead_flag: u8,
    pub hp: u16,
    pub los: u32,
    pub garrison_capacity: u8,
    pub radius: (u32, u32, u32),
    pub train_sound: Option<SoundID>,
    pub damage_sound: Option<SoundID>,
    pub death_spawn: Option<UnitTypeID>,
    pub sort_number: u8,
    pub can_be_built_on: bool,
    pub button_picture: Option<GraphicID>,
    pub hide_in_scenario_editor: bool,
    pub portrait_picture: Option<GraphicID>,
    pub enabled: bool,
    pub disabled: bool,
    pub tile_req: (i16, i16),
    pub center_tile_req: (i16, i16),
    pub construction_radius: (u32, u32),
    pub elevation_flag: bool,
    pub fog_flag: bool,
    pub terrain_restriction_id: u16,
    pub movement_type: u8,
    pub attribute_max_amount: u16,
    pub attribute_rot: u32,
    pub area_effect_level: u8,
    pub combat_level: u8,
    pub select_level: u8,
    pub map_draw_level: u8,
    pub unit_level: u8,
    pub multiple_attribute_mod: u32,
    pub map_color: u8,
    pub help_string_id: StringKey,
    pub help_page_id: u32,
    pub hotkey_id: u32,
    pub recyclable: bool,
    pub track_as_resource: bool,
    pub create_doppleganger: bool,
    pub resource_group: u8,
    pub occlusion_mask: u8,
    pub obstruction_type: u8,
    pub selection_shape: u8,
    pub object_flags: u32,
    pub civilization: u8,
    pub attribute_piece: u8,
    pub outline_radius: (u32, u32, u32),
    pub attributes: ArrayVec<UnitAttribute, 3>,
    pub damage_sprites: Vec<DamageSprite>,
    pub selected_sound: Option<SoundID>,
    pub death_sound: Option<SoundID>,
    pub attack_reaction: u8,
    pub convert_terrain_flag: u8,
    pub copy_id: u16,
    pub unit_group: u16,
}

impl Clone for StaticUnitTypeAttributes {
    fn clone(&self) -> (r: Self) {
        StaticUnitTypeAttributes {
            name: self.name.clone(),
            id: self.id,
            string_id: self.string_id.clone(),
            string_id2: match &self.string_id2 {
                Some(k) => Some(k.clone()),
                None => None,
            },
            help_string_id: self.help_string_id.clone(),
            object_flags: self.object_flags,
            attributes: self.attributes.clone(),
            damage_sprites: self.damage_sprites.clone(),
            copy_id: self.copy_id,
            unit_group: self.unit_group,
            unit_class: self.unit_class,
            standing_sprite_1: self.standing_sprite_1,
            standing_sprite_2: self.standing_sprite_2,
            dying_sprite: self.dying_sprite,
            undead_sprite: self.undead_sprite,
            undead_flag: self.undead_flag,
            hp: self.hp,
            los: self.los,
            garrison_capacity: self.garrison_capacity,
            radius: self.radius,
            train_sound: self.train_sound,
            damage_sound: self.damage_sound,
            death_spawn: self.death_spawn,
            sort_number: self.sort_number,
            can_be_built_on: self.can_be_built_on,
            button_picture: self.button_picture,
            hide_in_scenario_editor: self.hide_in_scenario_editor,
            portrait_picture: self.portrait_picture,
            enabled: self.enabled,
            disabled: self.disabled,
            tile_req: self.tile_req,
            center_tile_req: self.center_tile_req,
            construction_radius: self.construction_radius,
            elevation_flag: self.elevation_flag,
            fog_flag: self.fog_flag,
            terrain_restriction_id: self.terrain_restriction_id,
            movement_type: self.movement_type,
            attribute_max_amount: self.attribute_max_amount,
            attribute_rot: self.attribute_rot,
            area_effect_level: self.area_effect_level,
            combat_level: self.combat_level,
            select_level: self.select_level,
            map_draw_level: self.map_draw_level,
            unit_level: self.unit_level,
            multiple_attribute_mod: self.multiple_attribute_mod,
            map_color: self.map_color,
            help_page_id: self.help_page_id,
            hotkey_id: self.hotkey_id,
            recyclable: self.recyclable,
            track_as_resource: self.track_as_resource,
            create_doppleganger: self.create_doppleganger,
            resource_group: self.resource_group,
            occlusion_mask: self.occlusion_mask,
            obstruction_type: self.obstruction_type,
            selection_shape: self.selection_shape,
            civilization: self.civilization,
            attribute_piece: self.attribute_piece,
            outline_radius: self.outline_radius,
            selected_sound: self.selected_sound,
            death_sound: self.death_sound,
            attack_reaction: self.attack_reaction,
            convert_terrain_flag: self.convert_terrain_flag,
        }
    }
}

/// The key of an optional string key.
pub open spec fn opt_key(k: Option<StringKey>) -> Option<KeyView> {
    match k {
        Some(s) => Some(s@),
        None => None,
    }
}

/// The values of static unit type attributes.
pub ghost struct StaticView {
    pub name: Seq<char>,
    pub id: u16,
    pub string_id: KeyView,
    pub string_id2: Option<KeyView>,
    pub s2: StaticBodyView,
    pub help_string_id: KeyView,
    pub s3: StaticFlagsView,
    pub object_flags: u32,
    pub s4: StaticOutlineView,
    pub attributes: Seq<UnitAttributeView>,
    pub damage_sprites: Seq<(u16, u16, u8)>,
    pub s5: StaticSoundsView,
    pub copy_id: u16,
    pub unit_group: u16,
}

impl View for StaticUnitTypeAttributes {
    type V = StaticView;

    closed spec fn view(&self) -> StaticView {
        StaticView {
            name: self.name@,
            id: self.id@,
            string_id: self.string_id@,
            string_id2: opt_key(self.string_id2),
            s2: StaticBodyView {
                unit_class: self.unit_class,
                standing_sprite_1: opt_sprite(self.standing_sprite_1),
                standing_sprite_2: opt_sprite(self.standing_sprite_2),
                dying_sprite: opt_sprite(self.dying_sprite),
                undead_sprite: opt_sprite(self.undead_sprite),
                undead_flag: self.undead_flag,
                hp: self.hp,
                los: self.los,
                garrison_capacity: self.garrison_capacity,
                radius_0: self.radius.0,
                radius_1: self.radius.1,
                radius_2: self.radius.2,
                train_sound: opt_sound(self.train_sound),
                damage_sound: opt_sound(self.damage_sound),
                death_spawn: opt_unit(self.death_spawn),
                sort_number: self.sort_number,
                can_be_built_on: self.can_be_built_on,
                button_picture: opt_graphic(self.button_picture),
                hide_in_scenario_editor: self.hide_in_scenario_editor,
                portrait_picture: opt_graphic(self.portrait_picture),
                enabled: self.enabled,
                disabled: self.disabled,
                tile_req_0: self.tile_req.0,
                tile_req_1: self.tile_req.1,
                center_tile_req_0: self.center_tile_req.0,
                center_tile_req_1: self.center_tile_req.1,
                construction_radius_0: self.construction_radius.0,
                construction_radius_1: self.construction_radius.1,
                elevation_flag: self.elevation_flag,
                fog_flag: self.fog_flag,
                terrain_restriction_id: self.terrain_restriction_id,
                movement_type: self.movement_type,
                attribute_max_amount: self.attribute_max_amount,
                attribute_rot: self.attribute_rot,
                area_effect_level: self.area_effect_level,
                combat_level: self.combat_level,
                select_level: self.select_level,
                map_draw_level: self.map_draw_level,
                unit_level: self.unit_level,
                multiple_attribute_mod: self.multiple_attribute_mod,
                map_color: self.map_color,
            },
            help_string_id: self.help_string_id@,
            s3: StaticFlagsView {
                help_page_id: self.help_page_id,
                hotkey_id: self.hotkey_id,
                recyclable: self.recyclable,
                track_as_resource: self.track_as_resource,
                create_doppleganger: self.create_doppleganger,
                resource_group: self.resource_group,
                occlusion_mask: self.occlusion_mask,
                obstruction_type: self.obstruction_type,
                selection_shape: self.selection_shape,
            },
            object_flags: self.object_flags,
            s4: StaticOutlineView {
                civilization: self.civilization,
                attribute_piece: self.attribute_piece,
                outline_radius_0: self.outline_radius.0,
                outline_radius_1: self.outline_radius.1,
                outline_radius_2: self.outline_radius.2,
            },
            attributes: held_unit_attrs(self.attributes),
            damage_sprites: damage_sprites_view(self.damage_sprites@),
            s5: StaticSoundsView {
                selected_sound: opt_sound(self.selected_sound),
                death_sound: opt_sound(self.death_sound),
                attack_reaction: self.attack_reaction,
                convert_terrain_flag: self.convert_terrain_flag,
            },
            copy_id: self.copy_id,
            unit_group: self.unit_group,
        }
    }
}

/// Whether unit types read from a data file of this version store object flags: from data
/// version 11.55 on (and for a version that is not a number).
pub open spec fn reads_object_flags(version: u32) -> bool {
    !f32_below(version, VERSION_11_55)
}

/// The positions of the parts of the static attributes stored at `pos`: the main part, the
/// help string, the part after it, the object flags, the outline part, the resource
/// attributes and the damage sprite count.
pub open spec fn static_layout(pos: int, version: u32) -> (int, int, int, int, int, int, int) {
    let b2 = pos + 8;
    let h = b2 + 82;
    let b3 = h + 4;
    let fo = b3 + 15;
    let b4 = if reads_object_flags(version) {
        fo + 4
    } else {
        fo
    };
    let a = b4 + 14;
    (b2, h, b3, fo, b4, a, a + 21)
}

/// The bytes of the name of the static attributes stored at `pos`, if the input holds the
/// fixed parts and the damage sprites before it; with the positions of the sounds part and
/// of the name.
pub open spec fn static_name_span(data: Seq<u8>, pos: int, version: u32) -> Option<(int, int, int)> {
    let (b2, h, b3, fo, b4, a, c) = static_layout(pos, version);
    if c + 1 > data.len() {
        None
    } else {
        let q1 = c + 1 + 5 * (data[c] as int);
        let nm = q1 + 6;
        Some((q1, nm, nm + u16_at(data, pos) as int))
    }
}

/// The static unit type attributes stored at `pos` in a data file of the given version:
/// the length of the name, the ID, the string IDs, the main part, the help string, the
/// flags, the object flags where the version has them, the outline part, three places for
/// resource attributes (those whose type is not `0xFFFF` are kept), the damage sprites
/// after their count, the sounds part, the name (up to its first NUL, as UTF-8), the copy
/// ID and the unit group; and the position after them.
pub open spec fn static_at(data: Seq<u8>, pos: int, version: u32) -> Option<(StaticView, int)> {
    let (b2, h, b3, fo, b4, a, c) = static_layout(pos, version);
    match static_name_span(data, pos, version) {
        None => None,
        Some((q1, nm, q2)) => if q2 + 4 > data.len() {
            None
        } else {
            Some(
                (
                    StaticView {
                        name: decode_utf8(until_nul(data.subrange(nm, q2))),
                        id: u16_at(data, pos + 2),
                        string_id: KeyView::Num(u16_at(data, pos + 4) as u32),
                        string_id2: match opt_u16_at(data, pos + 6) {
                            Some(k) => Some(KeyView::Num(k as u32)),
                            None => None,
                        },
                        s2: static_body_at(data, b2),
                        help_string_id: KeyView::Num(u32_at(data, h)),
                        s3: static_flags_at(data, b3),
                        object_flags: if reads_object_flags(version) {
                            u32_at(data, fo)
                        } else {
                            0
                        },
                        s4: static_outline_at(data, b4),
                        attributes: kept_unit_attrs(stored_unit_attrs(data, a)),
                        damage_sprites: damage_sprites_at(data, c + 1, data[c] as nat),
                        s5: static_sounds_at(data, q1),
                        copy_id: u16_at(data, q2),
                        unit_group: u16_at(data, q2 + 2),
                    },
                    q2 + 4,
                ),
            )
        },
    }
}

/// The name of the static attributes at `pos` is UTF-8 up to its first NUL, where the input
/// holds it (reading other bytes panics).
pub open spec fn static_readable(data: Seq<u8>, pos: int, version: u32) -> bool {
    match static_name_span(data, pos, version) {
        Some((q1, nm, q2)) => q2 <= data.len() ==> valid_utf8(until_nul(data.subrange(nm, q2))),
        None => true,
    }
}

/// The 16-bit number of a string key that is a small number.
pub open spec fn key16(k: KeyView) -> u16 {
    match k {
        KeyView::Num(n) => n as u16,
        KeyView::Name(_) => 0,
    }
}

/// The 32-bit number of a numeric string key.
pub open spec fn key32(k: KeyView) -> u32 {
    match k {
        KeyView::Num(n) => n,
        KeyView::Name(_) => 0,
    }
}

/// A string key that converts to a signed 16-bit number.
pub open spec fn key_fits_i16(k: KeyView) -> bool {
    k matches KeyView::Num(n) && n <= 0x7FFF
}

/// An optional string key that can be written: none, or a key that fits.
pub open spec fn opt_key_writable(k: Option<KeyView>) -> bool {
    k matches Some(key) ==> key_fits_i16(key)
}

/// The 16-bit field of an optional string key.
pub open spec fn opt_key16(k: Option<KeyView>) -> Option<u16> {
    match k {
        Some(key) => Some(key16(key)),
        None => None,
    }
}

/// The first bytes of static unit type attributes: the length of the name (truncated to 16
/// bits), the ID and the first string ID.
pub open spec fn static_head_bytes(v: StaticView) -> Seq<u8> {
    u16_bytes(encode_utf8(v.name).len() as u16) + u16_bytes(v.id) + u16_bytes(key16(v.string_id))
}

/// The bytes of static unit type attributes after the second string ID.
pub open spec fn static_rest_bytes(v: StaticView) -> Seq<u8> {
    static_body_bytes(v.s2) + u32_bytes(key32(v.help_string_id)) + static_flags_bytes(v.s3)
        + u32_bytes(v.object_flags) + static_outline_bytes(v.s4) + unit_attr_slots_bytes(
        v.attributes,
    ) + seq![v.damage_sprites.len() as u8] + damage_sprites_bytes(v.damage_sprites)
        + static_sounds_bytes(v.s5) + encode_utf8(v.name) + u16_bytes(v.copy_id) + u16_bytes(
        v.unit_group,
    )
}

/// The bytes static unit type attributes are stored as. The object flags are written
/// whatever the version.
pub open spec fn static_bytes(v: StaticView) -> Seq<u8> {
    static_head_bytes(v) + opt_u16_bytes(opt_key16(v.string_id2)) + static_rest_bytes(v)
}

/// The static attributes that can be written without a panic: the first string ID converts
/// to a signed 16-bit number, the help string ID is a number, the IDs written as signed
/// numbers fit, and there are at most 255 damage sprites.
pub open spec fn static_writable(v: StaticView) -> bool {
    &&& key_fits_i16(v.string_id)
    &&& v.help_string_id is Num
    &&& static_body_writable(v.s2)
    &&& static_sounds_writable(v.s5)
    &&& v.damage_sprites.len() <= 255
}

impl StaticUnitTypeAttributes {
    /// The name of the unit type.
    pub fn name(&self) -> (s: &str)
        ensures
            s@ == self@.name,
    {
        self.name.as_str()
    }

    /// Read static unit type attributes at `pos` in a data file whose version has the given
    /// `f32` bit pattern; returns them and the position after them.
    #[verifier::rlimit(100)]
    pub fn read_from(input: &[u8], pos: usize, version: u32) -> (r: Result<(Self, usize), ReadError>)
        requires
            static_readable(input@, pos as int, version),
        ensures
            match static_at(input@, pos as int, version) {
                Some((v, q)) => r matches Ok((a, p)) && a@ == v && p == q,
                None => r == Err::<(Self, usize), ReadError>(ReadError::UnexpectedEof),
            },
    {
        let (name_len, p) = read_u16_le(input, pos)?;
        let (id, p) = read_u16_le(input, p)?;
        let id = UnitTypeID::from(id);
        let (string_id, p) = read_u16_le(input, p)?;
        let string_id = StringKey::Num(string_id as u32);
        let (string_id2, p) = read_opt_u16(input, p)?;
        let string_id2 = match string_id2 {
            Some(k) => Some(StringKey::Num(k as u32)),
            None => None,
        };
        let (b2, p) = StaticBodyPart::read_from(input, p)?;
        let (help_string_id, p) = read_u32_le(input, p)?;
        let help_string_id = StringKey::Num(help_string_id);
        let (b3, p) = StaticFlagsPart::read_from(input, p)?;
        let (object_flags, p) = if f32_bits_below(version, VERSION_11_55) {
            (0u32, p)
        } else {
            read_u32_le(input, p)?
        };
        let (b4, p) = StaticOutlinePart::read_from(input, p)?;
        let (attributes, p) = read_unit_attrs(input, p)?;
        let (num_damage_sprites, p) = read_u8(input, p)?;
        let (damage_sprites, p) = read_damage_sprites(input, p, num_damage_sprites)?;
        let (b5, p) = StaticSoundsPart::read_from(input, p)?;
        let (bytes, p) = read_bytes(input, p, name_len as usize)?;
        let kept = bytes_until_nul(bytes.as_slice());
        let name = match decode_utf8_text(kept.as_slice()) {
            Some(text) => text.to_owned(),
            None => {
                assert(false);
                return Err(ReadError::InvalidData);
            },
        };
        let (copy_id, p) = read_u16_le(input, p)?;
        let (unit_group, p) = read_u16_le(input, p)?;
        Ok((StaticUnitTypeAttributes { name, id, string_id, string_id2, help_string_id, object_flags, attributes, damage_sprites, copy_id, unit_group, unit_class: b2.unit_class, standing_sprite_1: b2.standing_sprite_1, standing_sprite_2: b2.standing_sprite_2, dying_sprite: b2.dying_sprite, undead_sprite: b2.undead_sprite, undead_flag: b2.undead_flag, hp: b2.hp, los: b2.los, garrison_capacity: b2.garrison_capacity, radius: b2.radius, train_sound: b2.train_sound, damage_sound: b2.damage_sound, death_spawn: b2.death_spawn, sort_number: b2.sort_number, can_be_built_on: b2.can_be_built_on, button_picture: b2.button_picture, hide_in_scenario_editor: b2.hide_in_scenario_editor, portrait_picture: b2.portrait_picture, enabled: b2.enabled, disabled: b2.disabled, tile_req: b2.tile_req, center_tile_req: b2.center_tile_req, construction_radius: b2.construction_radius, elevation_flag: b2.elevation_flag, fog_flag: b2.fog_flag, terrain_restriction_id: b2.terrain_restriction_id, movement_type: b2.movement_type, attribute_max_amount: b2.attribute_max_amount, attribute_rot: b2.attribute_rot, area_effect_level: b2.area_effect_level, combat_level: b2.combat_level, select_level: b2.select_level, map_draw_level: b2.map_draw_level, unit_level: b2.unit_level, multiple_attribute_mod: b2.multiple_attribute_mod, map_color: b2.map_color, help_page_id: b3.help_page_id, hotkey_id: b3.hotkey_id, recyclable: b3.recyclable, track_as_resource: b3.track_as_resource, create_doppleganger: b3.create_doppleganger, resource_group: b3.resource_group, occlusion_mask: b3.occlusion_mask, obstruction_type: b3.obstruction_type, selection_shape: b3.selection_shape, civilization: b4.civilization, attribute_piece: b4.attribute_piece, outline_radius: b4.outline_radius, selected_sound: b5.selected_sound, death_sound: b5.death_sound, attack_reaction: b5.attack_reaction, convert_terrain_flag: b5.convert_terrain_flag }, p))
    }

    /// Append these attributes to `output`. The object flags are written whatever the
    /// version. If the second string ID is a name or a number that does not fit in a signed
    /// 16-bit number, `InvalidData` is returned after the first bytes were written.
    #[verifier::rlimit(100)]
    pub fn write_to(&self, output: &mut Vec<u8>) -> (r: Result<(), ReadError>)
        requires
            static_writable(self@),
        ensures
            r is Ok <==> opt_key_writable(self@.string_id2),
            r is Ok ==> final(output)@ == old(output)@ + static_bytes(self@),
            r matches Err(e) ==> e == ReadError::InvalidData && final(output)@ == old(output)@
                + static_head_bytes(self@),
    {
        let name_bytes = self.name.as_str().as_bytes();
        put_u16_le(output, name_bytes.len() as u16);
        put_u16_le(output, u16::from(self.id));
        let string_id: u16 = match &self.string_id {
            StringKey::Num(n) => *n as u16,
            StringKey::Name(_) => 0,
        };
        put_u16_le(output, string_id);
        assert(output@ =~= old(output)@ + static_head_bytes(self@));
        let string_id2: Option<u16> = match &self.string_id2 {
            None => None,
            Some(StringKey::Num(n)) => {
                if *n <= 0x7FFF {
                    Some(*n as u16)
                } else {
                    return Err(ReadError::InvalidData);
                }
            },
            Some(StringKey::Name(_)) => {
                return Err(ReadError::InvalidData);
            },
        };
        put_opt_u16(output, string_id2);
        self.write_rest(output);
        assert(output@ =~= old(output)@ + static_bytes(self@));
        Ok(())
    }

    fn write_rest(&self, output: &mut Vec<u8>)
        requires
            static_writable(self@),
        ensures
            final(output)@ == old(output)@ + static_rest_bytes(self@),
    {
        let ghost v = self@;
        self.write_static_body(output);
        let ghost mut acc = static_body_bytes(v.s2);
        let help: u32 = match &self.help_string_id {
            StringKey::Num(n) => *n,
            StringKey::Name(_) => 0,
        };
        put_u32_le(output, help);
        proof {
            lemma_add_assoc(old(output)@, acc, u32_bytes(key32(v.help_string_id)));
            acc = acc + u32_bytes(key32(v.help_string_id));
        }
        self.write_static_flags(output);
        proof {
            lemma_add_assoc(old(output)@, acc, static_flags_bytes(v.s3));
            acc = acc + static_flags_bytes(v.s3);
        }
        put_u32_le(output, self.object_flags);
        proof {
            lemma_add_assoc(old(output)@, acc, u32_bytes(v.object_flags));
            acc = acc + u32_bytes(v.object_flags);
        }
        self.write_static_outline(output);
        proof {
            lemma_add_assoc(old(output)@, acc, static_outline_bytes(v.s4));
            acc = acc + static_outline_bytes(v.s4);
        }
        write_unit_attrs(output, &self.attributes);
        proof {
            lemma_add_assoc(old(output)@, acc, unit_attr_slots_bytes(v.attributes));
            acc = acc + unit_attr_slots_bytes(v.attributes);
        }
        output.push(self.damage_sprites.len() as u8);
        proof {
            lemma_add_assoc(old(output)@, acc, seq![v.damage_sprites.len() as u8]);
            acc = acc + seq![v.damage_sprites.len() as u8];
        }
        write_damage_sprites(output, &self.damage_sprites);
        proof {
            lemma_add_assoc(old(output)@, acc, damage_sprites_bytes(v.damage_sprites));
            acc = acc + damage_sprites_bytes(v.damage_sprites);
        }
        self.write_static_sounds(output);
        proof {
            lemma_add_assoc(old(output)@, acc, static_sounds_bytes(v.s5));
            acc = acc + static_sounds_bytes(v.s5);
        }
        push_bytes(output, self.name.as_str().as_bytes());
        proof {
            lemma_add_assoc(old(output)@, acc, encode_utf8(v.name));
            acc = acc + encode_utf8(v.name);
        }
        put_u16_le(output, self.copy_id);
        proof {
            lemma_add_assoc(old(output)@, acc, u16_bytes(v.copy_id));
            acc = acc + u16_bytes(v.copy_id);
        }
        put_u16_le(output, self.unit_group);
        proof {
            lemma_add_assoc(old(output)@, acc, u16_bytes(v.unit_group));
            acc = acc + u16_bytes(v.unit_group);
        }
    }

    fn write_static_body_1(&self, output: &mut Vec<u8>)
        requires
            static_body_writable(self@.s2),
        ensures
            final(output)@ == old(output)@ + static_body_bytes_1(self@.s2),
    {
        let ghost s0 = output@;
        put_u16_le(output, self.unit_class);
        let ghost mut acc = u16_bytes(self@.s2.unit_class);
        assert(output@ == s0 + acc);
        put_opt_u16(output, sprite_to_opt(self.standing_sprite_1));
        proof {
            lemma_add_assoc(s0, acc, opt_u16_bytes(self@.s2.standing_sprite_1));
            acc = acc + opt_u16_bytes(self@.s2.standing_sprite_1);
        }
        put_opt_u16(output, sprite_to_opt(self.standing_sprite_2));
        proof {
            lemma_add_assoc(s0, acc, opt_u16_bytes(self@.s2.standing_sprite_2));
            acc = acc + opt_u16_bytes(self@.s2.standing_sprite_2);
        }
        put_opt_u16(output, sprite_to_opt(self.dying_sprite));
        proof {
            lemma_add_assoc(s0, acc, opt_u16_bytes(self@.s2.dying_sprite));
            acc = acc + opt_u16_bytes(self@.s2.dying_sprite);
        }
        put_opt_u16(output, sprite_to_opt(self.undead_sprite));
        proof {
            lemma_add_assoc(s0, acc, opt_u16_bytes(self@.s2.undead_sprite));
            acc = acc + opt_u16_bytes(self@.s2.undead_sprite);
        }
        output.push(self.undead_flag);
        proof {
            lemma_add_assoc(s0, acc, seq![self@.s2.undead_flag]);
            acc = acc + seq![self@.s2.undead_flag];
        }
        put_u16_le(output, self.hp);
        proof {
            lemma_add_assoc(s0, acc, u16_bytes(self@.s2.hp));
            acc = acc + u16_bytes(self@.s2.hp);
        }
        assert(acc == static_body_bytes_1(self@.s2));
    }

    fn write_static_body_2(&self, output: &mut Vec<u8>)
        requires
            static_body_writable(self@.s2),
        ensures
            final(output)@ == old(output)@ + static_body_bytes_2(self@.s2),
    {
        let ghost s0 = output@;
        put_u32_le(output, self.los);
        let ghost mut acc = u32_bytes(self@.s2.los);
        assert(output@ == s0 + acc);
        output.push(self.garrison_capacity);
        proof {
            lemma_add_assoc(s0, acc, seq![self@.s2.garrison_capacity]);
            acc = acc + seq![self@.s2.garrison_capacity];
        }
        put_u32_le(output, self.radius.0);
        proof {
            lemma_add_assoc(s0, acc, u32_bytes(self@.s2.radius_0));
            acc = acc + u32_bytes(self@.s2.radius_0);
        }
        put_u32_le(output, self.radius.1);
        proof {
            lemma_add_assoc(s0, acc, u32_bytes(self@.s2.radius_1));
            acc = acc + u32_bytes(self@.s2.radius_1);
        }
        put_u32_le(output, self.radius.2);
        proof {
            lemma_add_assoc(s0, acc, u32_bytes(self@.s2.radius_2));
            acc = acc + u32_bytes(self@.s2.radius_2);
        }
        put_opt_u16(output, sound_to_opt(self.train_sound));
        proof {
            lemma_add_assoc(s0, acc, opt_u16_bytes(self@.s2.train_sound));
            acc = acc + opt_u16_bytes(self@.s2.train_sound);
        }
        put_opt_u16(output, sound_to_opt(self.damage_sound));
        proof {
            lemma_add_assoc(s0, acc, opt_u16_bytes(self@.s2.damage_sound));
            acc = acc + opt_u16_bytes(self@.s2.damage_sound);
        }
        assert(acc == static_body_bytes_2(self@.s2));
    }

    fn write_static_body_3(&self, output: &mut Vec<u8>)
        requires
            static_body_writable(self@.s2),
        ensures
            final(output)@ == old(output)@ + static_body_bytes_3(self@.s2),
    {
        let ghost s0 = output@;
        put_opt_u16(output, unit_to_opt(self.death_spawn));
        let ghost mut acc = opt_u16_bytes(self@.s2.death_spawn);
        assert(output@ == s0 + acc);
        output.push(self.sort_number);
        proof {
            lemma_add_assoc(s0, acc, seq![self@.s2.sort_number]);
            acc = acc + seq![self@.s2.sort_number];
        }
        put_flag(output, self.can_be_built_on);
        proof {
            lemma_add_assoc(s0, acc, flag_bytes(self@.s2.can_be_built_on));
            acc = acc + flag_bytes(self@.s2.can_be_built_on);
        }
        put_opt_u16(output, graphic_to_opt(self.button_picture));
        proof {
            lemma_add_assoc(s0, acc, opt_u16_bytes(graphic_to16(self@.s2.button_picture)));
            acc = acc + opt_u16_bytes(graphic_to16(self@.s2.button_picture));
        }
        put_flag(output, self.hide_in_scenario_editor);
        proof {
            lemma_add_assoc(s0, acc, flag_bytes(self@.s2.hide_in_scenario_editor));
            acc = acc + flag_bytes(self@.s2.hide_in_scenario_editor);
        }
        put_opt_u16(output, graphic_to_opt(self.portrait_picture));
        proof {
            lemma_add_assoc(s0, acc, opt_u16_bytes(graphic_to16(self@.s2.portrait_picture)));
            acc = acc + opt_u16_bytes(graphic_to16(self@.s2.portrait_picture));
        }
        put_flag(output, self.enabled);
        proof {
            lemma_add_assoc(s0, acc, flag_bytes(self@.s2.enabled));
            acc = acc + flag_bytes(self@.s2.enabled);
        }
        assert(acc == static_body_bytes_3(self@.s2));
    }

    fn write_static_body_4(&self, output: &mut Vec<u8>)
        requires
            static_body_writable(self@.s2),
        ensures
            final(output)@ == old(output)@ + static_body_bytes_4(self@.s2),
    {
        let ghost s0 = output@;
        put_flag(output, self.disabled);
        let ghost mut acc = flag_bytes(self@.s2.disabled);
        assert(output@ == s0 + acc);
        put_i16_le(output, self.tile_req.0);
        proof {
            lemma_add_assoc(s0, acc, i16_bytes(self@.s2.tile_req_0));
            acc = acc + i16_bytes(self@.s2.tile_req_0);
        }
        put_i16_le(output, self.tile_req.1);
        proof {
            lemma_add_assoc(s0, acc, i16_bytes(self@.s2.tile_req_1));
            acc = acc + i16_bytes(self@.s2.tile_req_1);
        }
        put_i16_le(output, self.center_tile_req.0);
        proof {
            lemma_add_assoc(s0, acc, i16_bytes(self@.s2.center_tile_req_0));
            acc = acc + i16_bytes(self@.s2.center_tile_req_0);
        }
        put_i16_le(output, self.center_tile_req.1);
        proof {
            lemma_add_assoc(s0, acc, i16_bytes(self@.s2.center_tile_req_1));
            acc = acc + i16_bytes(self@.s2.center_tile_req_1);
        }
        put_u32_le(output, self.construction_radius.0);
        proof {
            lemma_add_assoc(s0, acc, u32_bytes(self@.s2.construction_radius_0));
            acc = acc + u32_bytes(self@.s2.construction_radius_0);
        }
        put_u32_le(output, self.construction_radius.1);
        proof {
            lemma_add_assoc(s0, acc, u32_bytes(self@.s2.construction_radius_1));
            acc = acc + u32_bytes(self@.s2.construction_radius_1);
        }
        assert(acc == static_body_bytes_4(self@.s2));
    }

    fn write_static_body_5(&self, output: &mut Vec<u8>)
        requires
            static_body_writable(self@.s2),
        ensures
            final(output)@ == old(output)@ + static_body_bytes_5(self@.s2),
    {
        let ghost s0 = output@;
        put_flag(output, self.elevation_flag);
        let ghost mut acc = flag_bytes(self@.s2.elevation_flag);
        assert(output@ == s0 + acc);
        put_flag(output, self.fog_flag);
        proof {
            lemma_add_assoc(s0, acc, flag_bytes(self@.s2.fog_flag));
            acc = acc + flag_bytes(self@.s2.fog_flag);
        }
        put_u16_le(output, self.terrain_restriction_id);
        proof {
            lemma_add_assoc(s0, acc, u16_bytes(self@.s2.terrain_restriction_id));
            acc = acc + u16_bytes(self@.s2.terrain_restriction_id);
        }
        output.push(self.movement_type);
        proof {
            lemma_add_assoc(s0, acc, seq![self@.s2.movement_type]);
            acc = acc + seq![self@.s2.movement_type];
        }
        put_u16_le(output, self.attribute_max_amount);
        proof {
            lemma_add_assoc(s0, acc, u16_bytes(self@.s2.attribute_max_amount));
            acc = acc + u16_bytes(self@.s2.attribute_max_amount);
        }
        put_u32_le(output, self.attribute_rot);
        proof {
            lemma_add_assoc(s0, acc, u32_bytes(self@.s2.attribute_rot));
            acc = acc + u32_bytes(self@.s2.attribute_rot);
        }
        output.push(self.area_effect_level);
        proof {
            lemma_add_assoc(s0, acc, seq![self@.s2.area_effect_level]);
            acc = acc + seq![self@.s2.area_effect_level];
        }
        assert(acc == static_body_bytes_5(self@.s2));
    }

    fn write_static_body_6(&self, output: &mut Vec<u8>)
        requires
            static_body_writable(self@.s2),
        ensures
            final(output)@ == old(output)@ + static_body_bytes_6(self@.s2),
    {
        let ghost s0 = output@;
        output.push(self.combat_level);
        let ghost mut acc = seq![self@.s2.combat_level];
        assert(output@ == s0 + acc);
        output.push(self.select_level);
        proof {
            lemma_add_assoc(s0, acc, seq![self@.s2.select_level]);
            acc = acc + seq![self@.s2.select_level];
        }
        output.push(self.map_draw_level);
        proof {
            lemma_add_assoc(s0, acc, seq![self@.s2.map_draw_level]);
            acc = acc + seq![self@.s2.map_draw_level];
        }
        output.push(self.unit_level);
        proof {
            lemma_add_assoc(s0, acc, seq![self@.s2.unit_level]);
            acc = acc + seq![self@.s2.unit_level];
        }
        put_u32_le(output, self.multiple_attribute_mod);
        proof {
            lemma_add_assoc(s0, acc, u32_bytes(self@.s2.multiple_attribute_mod));
            acc = acc + u32_bytes(self@.s2.multiple_attribute_mod);
        }
        output.push(self.map_color);
        proof {
            lemma_add_assoc(s0, acc, seq![self@.s2.map_color]);
            acc = acc + seq![self@.s2.map_color];
        }
        assert(acc == static_body_bytes_6(self@.s2));
    }

    fn write_static_body(&self, output: &mut Vec<u8>)
        requires
            static_body_writable(self@.s2),
        ensures
            final(output)@ == old(output)@ + static_body_bytes(self@.s2),
    {
        self.write_static_body_1(output);
        self.write_static_body_2(output);
        self.write_static_body_3(output);
        self.write_static_body_4(output);
        self.write_static_body_5(output);
        self.write_static_body_6(output);
        assert(output@ =~= old(output)@ + static_body_bytes(self@.s2));
    }

    fn write_static_flags_1(&self, output: &mut Vec<u8>)
        requires
            static_flags_writable(self@.s3),
        ensures
            final(output)@ == old(output)@ + static_flags_bytes_1(self@.s3),
    {
        let ghost s0 = output@;
        put_u32_le(output, self.help_page_id);
        let ghost mut acc = u32_bytes(self@.s3.help_page_id);
        assert(output@ == s0 + acc);
        put_u32_le(output, self.hotkey_id);
        proof {
            lemma_add_assoc(s0, acc, u32_bytes(self@.s3.hotkey_id));
            acc = acc + u32_bytes(self@.s3.hotkey_id);
        }
        put_flag(output, self.recyclable);
        proof {
            lemma_add_assoc(s0, acc, flag_bytes(self@.s3.recyclable));
            acc = acc + flag_bytes(self@.s3.recyclable);
        }
        put_flag(output, self.track_as_resource);
        proof {
            lemma_add_assoc(s0, acc, flag_bytes(self@.s3.track_as_resource));
            acc = acc + flag_bytes(self@.s3.track_as_resource);
        }
        put_flag(output, self.create_doppleganger);
        proof {
            lemma_add_assoc(s0, acc, flag_bytes(self@.s3.create_doppleganger));
            acc = acc + flag_bytes(self@.s3.create_doppleganger);
        }
        output.push(self.resource_group);
        proof {
            lemma_add_assoc(s0, acc, seq![self@.s3.resource_group]);
            acc = acc + seq![self@.s3.resource_group];
        }
        output.push(self.occlusion_mask);
        proof {
            lemma_add_assoc(s0, acc, seq![self@.s3.occlusion_mask]);
            acc = acc + seq![self@.s3.occlusion_mask];
        }
        assert(acc == static_flags_bytes_1(self@.s3));
    }

    fn write_static_flags_2(&self, output: &mut Vec<u8>)
        requires
            static_flags_writable(self@.s3),
        ensures
            final(output)@ == old(output)@ + static_flags_bytes_2(self@.s3),
    {
        let ghost s0 = output@;
        output.push(self.obstruction_type);
        let ghost mut acc = seq![self@.s3.obstruction_type];
        assert(output@ == s0 + acc);
        output.push(self.selection_shape);
        proof {
            lemma_add_assoc(s0, acc, seq![self@.s3.selection_shape]);
            acc = acc + seq![self@.s3.selection_shape];
        }
        assert(acc == static_flags_bytes_2(self@.s3));
    }

    fn write_static_flags(&self, output: &mut Vec<u8>)
        requires
            static_flags_writable(self@.s3),
        ensures
            final(output)@ == old(output)@ + static_flags_bytes(self@.s3),
    {
        self.write_static_flags_1(output);
        self.write_static_flags_2(output);
        assert(output@ =~= old(output)@ + static_flags_bytes(self@.s3));
    }

    fn write_static_outline(&self, output: &mut Vec<u8>)
        requires
            static_outline_writable(self@.s4),
        ensures
            final(output)@ == old(output)@ + static_outline_bytes(self@.s4),
    {
        let ghost s0 = output@;
        output.push(self.civilization);
        let ghost mut acc = seq![self@.s4.civilization];
        assert(output@ == s0 + acc);
        output.push(self.attribute_piece);
        proof {
            lemma_add_assoc(s0, acc, seq![self@.s4.attribute_piece]);
            acc = acc + seq![self@.s4.attribute_piece];
        }
        put_u32_le(output, self.outline_radius.0);
        proof {
            lemma_add_assoc(s0, acc, u32_bytes(self@.s4.outline_radius_0));
            acc = acc + u32_bytes(self@.s4.outline_radius_0);
        }
        put_u32_le(output, self.outline_radius.1);
        proof {
            lemma_add_assoc(s0, acc, u32_bytes(self@.s4.outline_radius_1));
            acc = acc + u32_bytes(self@.s4.outline_radius_1);
        }
        put_u32_le(output, self.outline_radius.2);
        proof {
            lemma_add_assoc(s0, acc, u32_bytes(self@.s4.outline_radius_2));
            acc = acc + u32_bytes(self@.s4.outline_radius_2);
        }
        assert(acc == static_outline_bytes(self@.s4));
    }

    fn write_static_sounds(&self, output: &mut Vec<u8>)
        requires
            static_sounds_writable(self@.s5),
        ensures
            final(output)@ == old(output)@ + static_sounds_bytes(self@.s5),
    {
        let ghost s0 = output@;
        put_opt_u16(output, sound_to_opt(self.selected_sound));
        let ghost mut acc = opt_u16_bytes(self@.s5.selected_sound);
        assert(output@ == s0 + acc);
        put_opt_u16(output, sound_to_opt(self.death_sound));
        proof {
            lemma_add_assoc(s0, acc, opt_u16_bytes(self@.s5.death_sound));
            acc = acc + opt_u16_bytes(self@.s5.death_sound);
        }
        output.push(self.attack_reaction);
        proof {
            lemma_add_assoc(s0, acc, seq![self@.s5.attack_reaction]);
            acc = acc + seq![self@.s5.attack_reaction];
        }
        output.push(self.convert_terrain_flag);
        proof {
            lemma_add_assoc(s0, acc, seq![self@.s5.convert_terrain_flag]);
            acc = acc + seq![self@.s5.convert_terrain_flag];
        }
        assert(acc == static_sounds_bytes(self@.s5));
    }

}

/// A unit type: its base class, its static attributes, and the attributes of each class
/// that its base class inherits from.
///
/// When the base class is changed, the attributes must be kept in step with it: writing a
/// unit type whose attributes do not match its class panics, which `requires` rules out.
#[derive(Debug, Clone)]
pub struct UnitType {
    /// The base class for this unit type.
    pub unit_base_class: UnitBaseClass,
    /// The static unit type attributes: these are always available.
    pub static_: StaticUnitTypeAttributes,
    /// Animated unit type attributes, available if the base class is at least `Animated`.
    pub animated: Option<AnimatedUnitTypeAttributes>,
    /// Moving unit type attributes, available if the base class is at least `Moving`.
    pub moving: Option<MovingUnitTypeAttributes>,
    /// Action unit type attributes, available if the base class is at least `Action`.
    pub action: Option<ActionUnitTypeAttributes>,
    /// Base combat unit type attributes, available if the base class is at least `BaseCombat`.
    pub base_combat: Option<BaseCombatUnitTypeAttributes>,
    /// Missile unit type attributes, available if the base class is at least `Missile`.
    pub missile: Option<MissileUnitTypeAttributes>,
    /// Combat unit type attributes, available if the base class is at least `Combat`.
    pub combat: Option<CombatUnitTypeAttributes>,
    /// Building unit type attributes, available if the base class is at least `Building`.
    pub building: Option<BuildingUnitTypeAttributes>,
}

/// The values of a unit type.
pub ghost struct UnitTypeView {
    pub unit_base_class: UnitBaseClass,
    pub static_: StaticView,
    pub animated: Option<AnimatedView>,
    pub moving: Option<MovingView>,
    pub action: Option<ActionView>,
    pub base_combat: Option<BaseCombatView>,
    pub missile: Option<MissileView>,
    pub combat: Option<CombatView>,
    pub building: Option<BuildingView>,
}

/// The value of optional attributes.
pub open spec fn opt_animated(a: Option<AnimatedUnitTypeAttributes>) -> Option<AnimatedView> {
    match a {
        Some(x) => Some(x@),
        None => None,
    }
}

pub open spec fn opt_moving(a: Option<MovingUnitTypeAttributes>) -> Option<MovingView> {
    match a {
        Some(x) => Some(x@),
        None => None,
    }
}

pub open spec fn opt_action(a: Option<ActionUnitTypeAttributes>) -> Option<ActionView> {
    match a {
        Some(x) => Some(x@),
        None => None,
    }
}

pub open spec fn opt_base_combat(a: Option<BaseCombatUnitTypeAttributes>) -> Option<BaseCombatView> {
    match a {
        Some(x) => Some(x@),
        None => None,
    }
}

pub open spec fn opt_missile(a: Option<MissileUnitTypeAttributes>) -> Option<MissileView> {
    match a {
        Some(x) => Some(x@),
        None => None,
    }
}

pub open spec fn opt_combat(a: Option<CombatUnitTypeAttributes>) -> Option<CombatView> {
    match a {
        Some(x) => Some(x@),
        None => None,
    }
}

pub open spec fn opt_building(a: Option<BuildingUnitTypeAttributes>) -> Option<BuildingView> {
    match a {
        Some(x) => Some(x@),
        None => None,
    }
}

impl View for UnitType {
    type V = UnitTypeView;

    open spec fn view(&self) -> UnitTypeView {
        UnitTypeView {
            unit_base_class: self.unit_base_class,
            static_: self.static_@,
            animated: opt_animated(self.animated),
            moving: opt_moving(self.moving),
            action: opt_action(self.action),
            base_combat: opt_base_combat(self.base_combat),
            missile: opt_missile(self.missile),
            combat: opt_combat(self.combat),
            building: opt_building(self.building),
        }
    }
}

/// The class with the given code, if any.
pub open spec fn class_of_code(n: u8) -> Option<UnitBaseClass> {
    if exists|c: UnitBaseClass| class_code(c) == n {
        Some(choose|c: UnitBaseClass| class_code(c) == n)
    } else {
        None
    }
}

/// A fixed-size block of `len` bytes at `q` that a unit of class `c` has if it is at least
/// `b`: its position after, `None` if the input ends first.
pub open spec fn block_end(data: Seq<u8>, q: int, c: UnitBaseClass, b: UnitBaseClass, len: int) -> Option<int> {
    if class_at_least(c, b) {
        if q + len > data.len() {
            None
        } else {
            Some(q + len)
        }
    } else {
        Some(q)
    }
}

/// The positions after the static attributes and after each block up to the missile
/// attributes, of the unit type stored at `pos`; `None` if the input ends first.
pub open spec fn unit_type_prefix(data: Seq<u8>, pos: int, version: u32) -> Option<(UnitBaseClass, StaticView, int, int, int, int, int, int)> {
    if pos + 1 > data.len() {
        None
    } else {
        match class_of_code(data[pos]) {
            None => None,
            Some(c) => match static_at(data, pos + 1, version) {
                None => None,
                Some((s, q0)) => match block_end(data, q0, c, UnitBaseClass::Animated, 4) {
                    None => None,
                    Some(q1) => match block_end(data, q1, c, UnitBaseClass::Moving, 37) {
                        None => None,
                        Some(q2) => match block_end(data, q2, c, UnitBaseClass::Action, 20) {
                            None => None,
                            Some(q3) => {
                                let bc = if class_at_least(c, UnitBaseClass::BaseCombat) {
                                    match base_combat_at(data, q3, version) {
                                        Some((_, q)) => Some(q),
                                        None => None,
                                    }
                                } else {
                                    Some(q3)
                                };
                                match bc {
                                    None => None,
                                    Some(q4) => match block_end(data, q4, c, UnitBaseClass::Missile, 9) {
                                        None => None,
                                        Some(q5) => Some((c, s, q0, q1, q2, q3, q4, q5)),
                                    },
                                }
                            },
                        },
                    },
                },
            },
        }
    }
}

/// The unit type stored at `pos` in a data file of the given version: the code of its base
/// class, its static attributes, and the blocks of the classes that its class inherits
/// from, in order; and the position after it.
pub open spec fn unit_type_at(data: Seq<u8>, pos: int, version: u32) -> Option<(UnitTypeView, int)> {
    match unit_type_prefix(data, pos, version) {
        None => None,
        Some((c, s, q0, q1, q2, q3, q4, q5)) => {
            let cb = if class_at_least(c, UnitBaseClass::Combat) {
                match combat_at(data, q5) {
                    Some((v, q)) => Some((Some(v), q)),
                    None => None,
                }
            } else {
                Some((None, q5))
            };
            match cb {
                None => None,
                Some((combat, q6)) => {
                    let bd = if class_at_least(c, UnitBaseClass::Building) {
                        match building_at(data, q6, version) {
                            Some((v, q)) => Some((Some(v), q)),
                            None => None,
                        }
                    } else {
                        Some((None, q6))
                    };
                    match bd {
                        None => None,
                        Some((building, q7)) => Some(
                            (
                                UnitTypeView {
                                    unit_base_class: c,
                                    static_: s,
                                    animated: if class_at_least(c, UnitBaseClass::Animated) {
                                        Some(animated_attrs_at(data, q0))
                                    } else {
                                        None
                                    },
                                    moving: if class_at_least(c, UnitBaseClass::Moving) {
                                        Some(moving_attrs_at(data, q1))
                                    } else {
                                        None
                                    },
                                    action: if class_at_least(c, UnitBaseClass::Action) {
                                        Some(action_attrs_at(data, q2))
                                    } else {
                                        None
                                    },
                                    base_combat: if class_at_least(c, UnitBaseClass::BaseCombat) {
                                        match base_combat_at(data, q3, version) {
                                            Some((v, _)) => Some(v),
                                            None => None,
                                        }
                                    } else {
                                        None
                                    },
                                    missile: if class_at_least(c, UnitBaseClass::Missile) {
                                        Some(missile_attrs_at(data, q4))
                                    } else {
                                        None
                                    },
                                    combat,
                                    building,
                                },
                                q7,
                            ),
                        ),
                    }
                },
            }
        },
    }
}

/// The unit type at `pos` can be read without a panic: its class code is known, its name
/// is UTF-8, and the 32-bit IDs of its combat attributes, where it has them, fit.
pub open spec fn unit_type_readable(data: Seq<u8>, pos: int, version: u32) -> bool {
    &&& pos + 1 <= data.len() ==> class_of_code(data[pos]) is Some
    &&& static_readable(data, pos + 1, version)
    &&& match unit_type_prefix(data, pos, version) {
        Some((c, s, q0, q1, q2, q3, q4, q5)) => class_at_least(c, UnitBaseClass::Combat)
            ==> combat_tail_readable(data, q5 + 18),
        None => true,
    }
}

/// A unit type whose attributes match its base class: it has the attributes of exactly the
/// classes that its class inherits from.
pub open spec fn unit_type_consistent(v: UnitTypeView) -> bool {
    &&& v.animated is Some <==> class_at_least(v.unit_base_class, UnitBaseClass::Animated)
    &&& v.moving is Some <==> class_at_least(v.unit_base_class, UnitBaseClass::Moving)
    &&& v.action is Some <==> class_at_least(v.unit_base_class, UnitBaseClass::Action)
    &&& v.base_combat is Some <==> class_at_least(v.unit_base_class, UnitBaseClass::BaseCombat)
    &&& v.missile is Some <==> class_at_least(v.unit_base_class, UnitBaseClass::Missile)
    &&& v.combat is Some <==> class_at_least(v.unit_base_class, UnitBaseClass::Combat)
    &&& v.building is Some <==> class_at_least(v.unit_base_class, UnitBaseClass::Building)
}

/// A unit type that can be written without a panic in a data file of the given version.
pub open spec fn unit_type_writable(v: UnitTypeView, version: u32) -> bool {
    &&& unit_type_consistent(v)
    &&& static_writable(v.static_)
    &&& (v.moving matches Some(m) ==> moving_attrs_writable(m))
    &&& (v.action matches Some(a) ==> action_attrs_writable(a))
    &&& (v.base_combat matches Some(b) ==> base_combat_writable(b, version))
}

/// The bytes of optional animated attributes: none for none.
pub open spec fn animated_opt_bytes(v: Option<AnimatedView>) -> Seq<u8> {
    match v {
        Some(x) => animated_attrs_bytes(x),
        None => Seq::empty(),
    }
}

/// The bytes of optional moving attributes: none for none.
pub open spec fn moving_opt_bytes(v: Option<MovingView>) -> Seq<u8> {
    match v {
        Some(x) => moving_attrs_bytes(x),
        None => Seq::empty(),
    }
}

/// The bytes of optional action attributes: none for none.
pub open spec fn action_opt_bytes(v: Option<ActionView>) -> Seq<u8> {
    match v {
        Some(x) => action_attrs_bytes(x),
        None => Seq::empty(),
    }
}

/// The bytes of optional base combat attributes: none for none.
pub open spec fn base_combat_opt_bytes(v: Option<BaseCombatView>, version: u32) -> Seq<u8> {
    match v {
        Some(x) => base_combat_bytes(x, version),
        None => Seq::empty(),
    }
}

/// The bytes of optional missile attributes: none for none.
pub open spec fn missile_opt_bytes(v: Option<MissileView>) -> Seq<u8> {
    match v {
        Some(x) => missile_attrs_bytes(x),
        None => Seq::empty(),
    }
}

/// The bytes of optional combat attributes: none for none.
pub open spec fn combat_opt_bytes(v: Option<CombatView>) -> Seq<u8> {
    match v {
        Some(x) => combat_bytes(x),
        None => Seq::empty(),
    }
}

/// The bytes of optional building attributes: none for none.
pub open spec fn building_opt_bytes(v: Option<BuildingView>, version: u32) -> Seq<u8> {
    match v {
        Some(x) => building_bytes(x, version),
        None => Seq::empty(),
    }
}

/// The bytes after the static attributes of a unit type, in a data file of the given version.
pub open spec fn unit_type_blocks_bytes(v: UnitTypeView, version: u32) -> Seq<u8> {
    animated_opt_bytes(v.animated) + moving_opt_bytes(v.moving) + action_opt_bytes(v.action)
        + base_combat_opt_bytes(v.base_combat, version) + missile_opt_bytes(v.missile)
        + combat_opt_bytes(v.combat) + building_opt_bytes(v.building, version)
}

impl UnitType {
    /// Read a unit type at `pos` in a data file whose version has the given `f32` bit
    /// pattern; returns it and the position after it.
    pub fn read_from(input: &[u8], pos: usize, version: u32) -> (r: Result<(Self, usize), ReadError>)
        requires
            unit_type_readable(input@, pos as int, version),
        ensures
            match unit_type_at(input@, pos as int, version) {
                Some((v, q)) => r matches Ok((u, p)) && u@ == v && p == q,
                None => r == Err::<(Self, usize), ReadError>(ReadError::UnexpectedEof),
            },
    {
        let (code, p) = read_u8(input, pos)?;
        let unit_base_class = match UnitBaseClass::try_from(code) {
            Ok(c) => c,
            Err(_) => {
                assert(false);
                return Err(ReadError::InvalidData);
            },
        };
        proof {
            crate::dat::unit_type::law_class_code_injective(unit_base_class, class_of_code(code)->0);
        }
        let (static_, p) = StaticUnitTypeAttributes::read_from(input, p, version)?;
        let (animated, p) = if unit_base_class.at_least(UnitBaseClass::Animated) {
            let (a, p) = AnimatedUnitTypeAttributes::read_from(input, p)?;
            (Some(a), p)
        } else {
            (None, p)
        };
        let (moving, p) = if unit_base_class.at_least(UnitBaseClass::Moving) {
            let (a, p) = MovingUnitTypeAttributes::read_from(input, p)?;
            (Some(a), p)
        } else {
            (None, p)
        };
        let (action, p) = if unit_base_class.at_least(UnitBaseClass::Action) {
            let (a, p) = ActionUnitTypeAttributes::read_from(input, p)?;
            (Some(a), p)
        } else {
            (None, p)
        };
        let (base_combat, p) = if unit_base_class.at_least(UnitBaseClass::BaseCombat) {
            let (a, p) = BaseCombatUnitTypeAttributes::read_from(input, p, version)?;
            (Some(a), p)
        } else {
            (None, p)
        };
        let (missile, p) = if unit_base_class.at_least(UnitBaseClass::Missile) {
            let (a, p) = MissileUnitTypeAttributes::read_from(input, p)?;
            (Some(a), p)
        } else {
            (None, p)
        };
        let (combat, p) = if unit_base_class.at_least(UnitBaseClass::Combat) {
            let (a, p) = CombatUnitTypeAttributes::read_from(input, p)?;
            (Some(a), p)
        } else {
            (None, p)
        };
        let (building, p) = if unit_base_class.at_least(UnitBaseClass::Building) {
            let (a, p) = BuildingUnitTypeAttributes::read_from(input, p, version)?;
            (Some(a), p)
        } else {
            (None, p)
        };
        Ok((UnitType { unit_base_class, static_, animated, moving, action, base_combat, missile, combat, building }, p))
    }

    /// Append this unit type to `output` for a data file whose version has the given `f32`
    /// bit pattern. Its static attributes may fail to be written (see
    /// `StaticUnitTypeAttributes::write_to`); then nothing more is written.
    #[verifier::rlimit(100)]
    pub fn write_to(&self, output: &mut Vec<u8>, version: u32) -> (r: Result<(), ReadError>)
        requires
            unit_type_writable(self@, version),
        ensures
            r is Ok <==> opt_key_writable(self@.static_.string_id2),
            r is Ok ==> final(output)@ == old(output)@ + seq![class_code(self.unit_base_class)]
                + static_bytes(self@.static_) + unit_type_blocks_bytes(self@, version),
            r matches Err(e) ==> e == ReadError::InvalidData && final(output)@ == old(output)@
                + seq![class_code(self.unit_base_class)] + static_head_bytes(self@.static_),
    {
        output.push(self.unit_base_class.code());
        match self.static_.write_to(output) {
            Ok(()) => {},
            Err(e) => {
                return Err(e);
            },
        }
        let ghost mid = output@;
        self.write_blocks(output, version);
        assert(output@ =~= mid + unit_type_blocks_bytes(self@, version));
        Ok(())
    }

    fn write_blocks(&self, output: &mut Vec<u8>, version: u32)
        requires
            self@.moving matches Some(m) ==> moving_attrs_writable(m),
            self@.action matches Some(a) ==> action_attrs_writable(a),
            self@.base_combat matches Some(b) ==> base_combat_writable(b, version),
        ensures
            final(output)@ == old(output)@ + unit_type_blocks_bytes(self@, version),
    {
        let ghost mid = old(output)@;
        match &self.animated {
            Some(a) => a.write_to(output),
            None => {},
        }
        let ghost mut acc = animated_opt_bytes(self@.animated);
        assert(output@ =~= mid + acc);
        match &self.moving {
            Some(a) => a.write_to(output),
            None => {},
        }
        proof {
            lemma_add_assoc(mid, acc, moving_opt_bytes(self@.moving));
            acc = acc + moving_opt_bytes(self@.moving);
        }
        match &self.action {
            Some(a) => a.write_to(output),
            None => {},
        }
        proof {
            lemma_add_assoc(mid, acc, action_opt_bytes(self@.action));
            acc = acc + action_opt_bytes(self@.action);
        }
        match &self.base_combat {
            Some(a) => a.write_to(output, version),
            None => {},
        }
        proof {
            lemma_add_assoc(mid, acc, base_combat_opt_bytes(self@.base_combat, version));
            acc = acc + base_combat_opt_bytes(self@.base_combat, version);
        }
        match &self.missile {
            Some(a) => a.write_to(output),
            None => {},
        }
        proof {
            lemma_add_assoc(mid, acc, missile_opt_bytes(self@.missile));
            acc = acc + missile_opt_bytes(self@.missile);
        }
        match &self.combat {
            Some(a) => a.write_to(output),
            None => {},
        }
        proof {
            lemma_add_assoc(mid, acc, combat_opt_bytes(self@.combat));
            acc = acc + combat_opt_bytes(self@.combat);
        }
        match &self.building {
            Some(a) => a.write_to(output, version),
            None => {},
        }
        proof {
            lemma_add_assoc(mid, acc, building_opt_bytes(self@.building, version));
            acc = acc + building_opt_bytes(self@.building, version);
        }
    }
}

} // verus!
