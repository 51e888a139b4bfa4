//! Attributes of unit types that fight, and of buildings.
use crate::codec::{
    i16_at, i16_bytes, i32_at, lemma_field_lens, lemma_i16_field, lemma_opt_u16_field,
    lemma_add_assoc, lemma_pow256_values, lemma_u16_field, lemma_u32_field, opt_u16_at, opt_u16_bytes,
    opt_u32_at, opt_u32_bytes, put_i16_le, put_i8, put_opt_u16, put_u16_le, put_u32_le,
    read_i16_le, read_i8, read_opt_u16, read_u16_le, read_u32_le, read_u8, u16_at, u16_bytes,
    u32_at, u32_bytes, unsigned_of, ReadError,
};
use crate::dat::fields::{
    f32_at_least, f32_below, f32_bits_at_least, f32_bits_below, flag_at, flag_bytes, i8_at,
    i8_bytes, id32_of, lemma_flag_field, lemma_i8_field, lemma_opt32_id_field,
    lemma_signed32_id_field, lemma_u8_field, opt32_id_at, opt32_id_readable, opt_sound,
    opt_sprite, opt_tech, opt_terrain, opt_unit, put_flag, put_opt_id32, read_flag,
    read_opt_id32, read_signed_id32, signed32_id_at, signed32_id_readable, sound_from_opt,
    sound_to_opt, sprite_from_opt, sprite_to_opt, tech_from_opt, tech_to_opt, terrain_from_opt,
    terrain_to_opt, unit_from_opt, unit_to_opt,
};
use crate::dat::ids::{SoundID, SpriteID, TechID, TerrainID, UnitTypeID};
use crate::dat::unit_attrs::{
    linked_building_at, linked_building_bytes, LinkedBuilding, LinkedBuildingView,
};
use crate::dat::unit_fields::{
    attribute_cost_at, attribute_cost_bytes, weapon_info_at, weapon_info_bytes, AttributeCost,
    WeaponInfo,
};
use arrayvec::ArrayVec;
use vstd::prelude::*;

verus! {

/// The bit pattern of the `f32` data version 11.52, from which the base armour takes two
/// bytes.
pub const VERSION_11_52: u32 = 0x4138_51ec;

/// The bit pattern of the `f32` data version 11.53, from which buildings have a snow sprite.
pub const VERSION_11_53: u32 = 0x4138_7ae1;

/// The fields of a base combat tail as values.
pub ghost struct BaseCombatTailView {
    pub defense_terrain_bonus: Option<u16>,
    pub weapon_range_max: u32,
    pub area_effect_range: u32,
    pub attack_speed: u32,
    pub missile_id: Option<u16>,
    pub base_hit_chance: i16,
    pub break_off_combat: i8,
    pub frame_delay: i16,
    pub weapon_offset_0: u32,
    pub weapon_offset_1: u32,
    pub weapon_offset_2: u32,
    pub blast_level_offense: i8,
    pub weapon_range_min: u32,
    pub missed_missile_spread: u32,
    pub fight_sprite: Option<u16>,
    pub displayed_armor: i16,
    pub displayed_attack: i16,
    pub displayed_range: u32,
    pub displayed_reload_time: u32,
}

/// The base combat tail stored at `pos`.
pub open spec fn bc_tail_at(data: Seq<u8>, pos: int) -> BaseCombatTailView {
    BaseCombatTailView {
        defense_terrain_bonus: opt_u16_at(data, pos),
        weapon_range_max: u32_at(data, pos + 2),
        area_effect_range: u32_at(data, pos + 6),
        attack_speed: u32_at(data, pos + 10),
        missile_id: opt_u16_at(data, pos + 14),
        base_hit_chance: i16_at(data, pos + 16),
        break_off_combat: i8_at(data, pos + 18),
        frame_delay: i16_at(data, pos + 19),
        weapon_offset_0: u32_at(data, pos + 21),
        weapon_offset_1: u32_at(data, pos + 25),
        weapon_offset_2: u32_at(data, pos + 29),
        blast_level_offense: i8_at(data, pos + 33),
        weapon_range_min: u32_at(data, pos + 34),
        missed_missile_spread: u32_at(data, pos + 38),
        fight_sprite: opt_u16_at(data, pos + 42),
        displayed_armor: i16_at(data, pos + 44),
        displayed_attack: i16_at(data, pos + 46),
        displayed_range: u32_at(data, pos + 48),
        displayed_reload_time: u32_at(data, pos + 52),
    }
}

/// Part 1 of the bytes of a base combat tail.
pub open spec fn bc_tail_bytes_1(v: BaseCombatTailView) -> Seq<u8> {
    opt_u16_bytes(v.defense_terrain_bonus)
        + u32_bytes(v.weapon_range_max)
        + u32_bytes(v.area_effect_range)
        + u32_bytes(v.attack_speed)
        + opt_u16_bytes(v.missile_id)
        + i16_bytes(v.base_hit_chance)
        + i8_bytes(v.break_off_combat)
}

/// Part 2 of the bytes of a base combat tail.
pub open spec fn bc_tail_bytes_2(v: BaseCombatTailView) -> Seq<u8> {
    i16_bytes(v.frame_delay)
        + u32_bytes(v.weapon_offset_0)
        + u32_bytes(v.weapon_offset_1)
        + u32_bytes(v.weapon_offset_2)
        + i8_bytes(v.blast_level_offense)
        + u32_bytes(v.weapon_range_min)
        + u32_bytes(v.missed_missile_spread)
}

/// Part 3 of the bytes of a base combat tail.
pub open spec fn bc_tail_bytes_3(v: BaseCombatTailView) -> Seq<u8> {
    opt_u16_bytes(v.fight_sprite)
        + i16_bytes(v.displayed_armor)
        + i16_bytes(v.displayed_attack)
        + u32_bytes(v.displayed_range)
        + u32_bytes(v.displayed_reload_time)
}

/// The 56 bytes the fixed part after the armour values is stored as.
pub open spec fn bc_tail_bytes(v: BaseCombatTailView) -> Seq<u8> {
    bc_tail_bytes_1(v)
        + bc_tail_bytes_2(v)
        + bc_tail_bytes_3(v)
}

/// The values that can be written: IDs that the game writes as signed numbers fit.
pub open spec fn bc_tail_writable(v: BaseCombatTailView) -> bool {
    true
}

/// The values that read back as written: IDs fit, and none is `0xFFFF`.
pub open spec fn bc_tail_exact(v: BaseCombatTailView) -> bool {
    v.defense_terrain_bonus != Some(0xFFFFu16)
    && v.missile_id != Some(0xFFFFu16)
    && v.fight_sprite != Some(0xFFFFu16)
}

/// The fixed part of base combat attributes reads back as written, wherever it stands.
pub proof fn law_bc_tail_read_of_write(prefix: Seq<u8>, v: BaseCombatTailView, suffix: Seq<u8>)
    requires
        bc_tail_exact(v),
    ensures
        bc_tail_bytes(v).len() == 56,
        bc_tail_at(prefix + bc_tail_bytes(v) + suffix, prefix.len() as int) == v,
{
    lemma_field_lens();
    lemma_pow256_values();
    assert(opt_u16_bytes(v.defense_terrain_bonus).len() == 2);
    assert(opt_u16_bytes(v.missile_id).len() == 2);
    assert(opt_u16_bytes(v.fight_sprite).len() == 2);
    let data = prefix + bc_tail_bytes(v) + suffix;
    let p = prefix.len() as int;
    assert((prefix) + bc_tail_bytes_1(v) + (bc_tail_bytes_2(v) + bc_tail_bytes_3(v) + suffix) =~= data);
    lemma_bc_tail_part_1(prefix, v, bc_tail_bytes_2(v) + bc_tail_bytes_3(v) + suffix);
    assert((prefix + bc_tail_bytes_1(v)) + bc_tail_bytes_2(v) + (bc_tail_bytes_3(v) + suffix) =~= data);
    lemma_bc_tail_part_2(prefix + bc_tail_bytes_1(v), v, bc_tail_bytes_3(v) + suffix);
    assert((prefix + bc_tail_bytes_1(v) + bc_tail_bytes_2(v)) + bc_tail_bytes_3(v) + (suffix) =~= data);
    lemma_bc_tail_part_3(prefix + bc_tail_bytes_1(v) + bc_tail_bytes_2(v), v, suffix);
}

/// The fields of part 1 of the bytes of a BaseCombatTailView stand at their offsets.
pub open spec fn bc_tail_part_1_holds(data: Seq<u8>, p: int, v: BaseCombatTailView) -> bool {
    &&& opt_u16_at(data, p) == v.defense_terrain_bonus
    &&& u32_at(data, p + 2) == v.weapon_range_max
    &&& u32_at(data, p + 6) == v.area_effect_range
    &&& u32_at(data, p + 10) == v.attack_speed
    &&& opt_u16_at(data, p + 14) == v.missile_id
    &&& i16_at(data, p + 16) == v.base_hit_chance
    &&& i8_at(data, p + 18) == v.break_off_combat
}

proof fn lemma_bc_tail_part_1(prefix: Seq<u8>, v: BaseCombatTailView, suffix: Seq<u8>)
    requires
        bc_tail_exact(v),
    ensures
        bc_tail_bytes_1(v).len() == 19,
        bc_tail_part_1_holds(prefix + bc_tail_bytes_1(v) + suffix, prefix.len() as int, v),
{
    lemma_field_lens();
    lemma_pow256_values();
    assert(opt_u16_bytes(v.defense_terrain_bonus).len() == 2);
    assert(opt_u16_bytes(v.missile_id).len() == 2);
    let data = prefix + bc_tail_bytes_1(v) + suffix;
    let p = prefix.len() as int;
    assert(data.subrange(p, p + 2) =~= opt_u16_bytes(v.defense_terrain_bonus));
    lemma_opt_u16_field(data, p, v.defense_terrain_bonus);
    assert(data.subrange(p + 2, p + 6) =~= u32_bytes(v.weapon_range_max));
    lemma_u32_field(data, p + 2, v.weapon_range_max);
    assert(data.subrange(p + 6, p + 10) =~= u32_bytes(v.area_effect_range));
    lemma_u32_field(data, p + 6, v.area_effect_range);
    assert(data.subrange(p + 10, p + 14) =~= u32_bytes(v.attack_speed));
    lemma_u32_field(data, p + 10, v.attack_speed);
    assert(data.subrange(p + 14, p + 16) =~= opt_u16_bytes(v.missile_id));
    lemma_opt_u16_field(data, p + 14, v.missile_id);
    assert(data.subrange(p + 16, p + 18) =~= i16_bytes(v.base_hit_chance));
    lemma_i16_field(data, p + 16, v.base_hit_chance);
    assert(data.subrange(p + 18, p + 19) =~= i8_bytes(v.break_off_combat));
    lemma_i8_field(data, p + 18, v.break_off_combat);
}

/// The fields of part 2 of the bytes of a BaseCombatTailView stand at their offsets.
pub open spec fn bc_tail_part_2_holds(data: Seq<u8>, p: int, v: BaseCombatTailView) -> bool {
    &&& i16_at(data, p) == v.frame_delay
    &&& u32_at(data, p + 2) == v.weapon_offset_0
    &&& u32_at(data, p + 6) == v.weapon_offset_1
    &&& u32_at(data, p + 10) == v.weapon_offset_2
    &&& i8_at(data, p + 14) == v.blast_level_offense
    &&& u32_at(data, p + 15) == v.weapon_range_min
    &&& u32_at(data, p + 19) == v.missed_missile_spread
}

proof fn lemma_bc_tail_part_2(prefix: Seq<u8>, v: BaseCombatTailView, suffix: Seq<u8>)
    requires
        bc_tail_exact(v),
    ensures
        bc_tail_bytes_2(v).len() == 23,
        bc_tail_part_2_holds(prefix + bc_tail_bytes_2(v) + suffix, prefix.len() as int, v),
{
    lemma_field_lens();
    lemma_pow256_values();
    let data = prefix + bc_tail_bytes_2(v) + suffix;
    let p = prefix.len() as int;
    assert(data.subrange(p, p + 2) =~= i16_bytes(v.frame_delay));
    lemma_i16_field(data, p, v.frame_delay);
    assert(data.subrange(p + 2, p + 6) =~= u32_bytes(v.weapon_offset_0));
    lemma_u32_field(data, p + 2, v.weapon_offset_0);
    assert(data.subrange(p + 6, p + 10) =~= u32_bytes(v.weapon_offset_1));
    lemma_u32_field(data, p + 6, v.weapon_offset_1);
    assert(data.subrange(p + 10, p + 14) =~= u32_bytes(v.weapon_offset_2));
    lemma_u32_field(data, p + 10, v.weapon_offset_2);
    assert(data.subrange(p + 14, p + 15) =~= i8_bytes(v.blast_level_offense));
    lemma_i8_field(data, p + 14, v.blast_level_offense);
    assert(data.subrange(p + 15, p + 19) =~= u32_bytes(v.weapon_range_min));
    lemma_u32_field(data, p + 15, v.weapon_range_min);
    assert(data.subrange(p + 19, p + 23) =~= u32_bytes(v.missed_missile_spread));
    lemma_u32_field(data, p + 19, v.missed_missile_spread);
}

/// The fields of part 3 of the bytes of a BaseCombatTailView stand at their offsets.
pub open spec fn bc_tail_part_3_holds(data: Seq<u8>, p: int, v: BaseCombatTailView) -> bool {
    &&& opt_u16_at(data, p) == v.fight_sprite
    &&& i16_at(data, p + 2) == v.displayed_armor
    &&& i16_at(data, p + 4) == v.displayed_attack
    &&& u32_at(data, p + 6) == v.displayed_range
    &&& u32_at(data, p + 10) == v.displayed_reload_time
}

proof fn lemma_bc_tail_part_3(prefix: Seq<u8>, v: BaseCombatTailView, suffix: Seq<u8>)
    requires
        bc_tail_exact(v),
    ensures
        bc_tail_bytes_3(v).len() == 14,
        bc_tail_part_3_holds(prefix + bc_tail_bytes_3(v) + suffix, prefix.len() as int, v),
{
    lemma_field_lens();
    lemma_pow256_values();
    assert(opt_u16_bytes(v.fight_sprite).len() == 2);
    let data = prefix + bc_tail_bytes_3(v) + suffix;
    let p = prefix.len() as int;
    assert(data.subrange(p, p + 2) =~= opt_u16_bytes(v.fight_sprite));
    lemma_opt_u16_field(data, p, v.fight_sprite);
    assert(data.subrange(p + 2, p + 4) =~= i16_bytes(v.displayed_armor));
    lemma_i16_field(data, p + 2, v.displayed_armor);
    assert(data.subrange(p + 4, p + 6) =~= i16_bytes(v.displayed_attack));
    lemma_i16_field(data, p + 4, v.displayed_attack);
    assert(data.subrange(p + 6, p + 10) =~= u32_bytes(v.displayed_range));
    lemma_u32_field(data, p + 6, v.displayed_range);
    assert(data.subrange(p + 10, p + 14) =~= u32_bytes(v.displayed_reload_time));
    lemma_u32_field(data, p + 10, v.displayed_reload_time);
}

/// The fields of a combat tail as values.
pub ghost struct CombatTailView {
    pub create_time: u16,
    pub create_at_building: Option<u16>,
    pub create_button: i8,
    pub rear_attack_modifier: u32,
    pub flank_attack_modifier: u32,
    pub hero_flag: u8,
    pub garrison_sprite: Option<u16>,
    pub volley_fire_amount: u32,
    pub max_attacks_in_volley: i8,
    pub volley_spread_0: u32,
    pub volley_spread_1: u32,
    pub volley_start_spread_adjustment: u32,
    pub volley_missile: Option<u16>,
    pub special_attack_sprite: Option<u16>,
    pub special_attack_flag: i8,
    pub displayed_pierce_armor: i16,
}

/// The combat tail stored at `pos`.
pub open spec fn combat_tail_at(data: Seq<u8>, pos: int) -> CombatTailView {
    CombatTailView {
        create_time: u16_at(data, pos),
        create_at_building: opt_u16_at(data, pos + 2),
        create_button: i8_at(data, pos + 4),
        rear_attack_modifier: u32_at(data, pos + 5),
        flank_attack_modifier: u32_at(data, pos + 9),
        hero_flag: data[pos + 14],
        garrison_sprite: signed32_id_at(data, pos + 15),
        volley_fire_amount: u32_at(data, pos + 19),
        max_attacks_in_volley: i8_at(data, pos + 23),
        volley_spread_0: u32_at(data, pos + 24),
        volley_spread_1: u32_at(data, pos + 28),
        volley_start_spread_adjustment: u32_at(data, pos + 32),
        volley_missile: opt32_id_at(data, pos + 36),
        special_attack_sprite: opt32_id_at(data, pos + 40),
        special_attack_flag: i8_at(data, pos + 44),
        displayed_pierce_armor: i16_at(data, pos + 45),
    }
}

/// Part 1 of the bytes of a combat tail.
pub open spec fn combat_tail_bytes_1(v: CombatTailView) -> Seq<u8> {
    u16_bytes(v.create_time)
        + opt_u16_bytes(v.create_at_building)
        + i8_bytes(v.create_button)
        + u32_bytes(v.rear_attack_modifier)
        + u32_bytes(v.flank_attack_modifier)
        + seq![0u8]
        + seq![v.hero_flag]
}

/// Part 2 of the bytes of a combat tail.
pub open spec fn combat_tail_bytes_2(v: CombatTailView) -> Seq<u8> {
    opt_u32_bytes(id32_of(v.garrison_sprite))
        + u32_bytes(v.volley_fire_amount)
        + i8_bytes(v.max_attacks_in_volley)
        + u32_bytes(v.volley_spread_0)
        + u32_bytes(v.volley_spread_1)
        + u32_bytes(v.volley_start_spread_adjustment)
        + opt_u32_bytes(id32_of(v.volley_missile))
}

/// Part 3 of the bytes of a combat tail.
pub open spec fn combat_tail_bytes_3(v: CombatTailView) -> Seq<u8> {
    opt_u32_bytes(id32_of(v.special_attack_sprite))
        + i8_bytes(v.special_attack_flag)
        + i16_bytes(v.displayed_pierce_armor)
}

/// The 47 bytes the part after the costs is stored as.
pub open spec fn combat_tail_bytes(v: CombatTailView) -> Seq<u8> {
    combat_tail_bytes_1(v)
        + combat_tail_bytes_2(v)
        + combat_tail_bytes_3(v)
}

/// The values that can be written: IDs that the game writes as signed numbers fit.
pub open spec fn combat_tail_writable(v: CombatTailView) -> bool {
    true
}

/// The 32-bit IDs stored at `pos` fit in 16 bits, as far as the input goes.
pub open spec fn combat_tail_readable(data: Seq<u8>, pos: int) -> bool {
    signed32_id_readable(data, pos + 15)
    && opt32_id_readable(data, pos + 36)
    && opt32_id_readable(data, pos + 40)
}

/// The values that read back as written: IDs fit, and none is `0xFFFF`.
pub open spec fn combat_tail_exact(v: CombatTailView) -> bool {
    v.create_at_building != Some(0xFFFFu16)
}

/// The part of combat attributes after the costs reads back as written, wherever it stands.
pub proof fn law_combat_tail_read_of_write(prefix: Seq<u8>, v: CombatTailView, suffix: Seq<u8>)
    requires
        combat_tail_exact(v),
    ensures
        combat_tail_bytes(v).len() == 47,
        combat_tail_at(prefix + combat_tail_bytes(v) + suffix, prefix.len() as int) == v,
        combat_tail_readable(prefix + combat_tail_bytes(v) + suffix, prefix.len() as int),
{
    lemma_field_lens();
    lemma_pow256_values();
    assert(opt_u16_bytes(v.create_at_building).len() == 2);
    assert(opt_u32_bytes(id32_of(v.garrison_sprite)).len() == 4);
    assert(opt_u32_bytes(id32_of(v.volley_missile)).len() == 4);
    assert(opt_u32_bytes(id32_of(v.special_attack_sprite)).len() == 4);
    let data = prefix + combat_tail_bytes(v) + suffix;
    let p = prefix.len() as int;
    assert((prefix) + combat_tail_bytes_1(v) + (combat_tail_bytes_2(v) + combat_tail_bytes_3(v) + suffix) =~= data);
    lemma_combat_tail_part_1(prefix, v, combat_tail_bytes_2(v) + combat_tail_bytes_3(v) + suffix);
    assert((prefix + combat_tail_bytes_1(v)) + combat_tail_bytes_2(v) + (combat_tail_bytes_3(v) + suffix) =~= data);
    lemma_combat_tail_part_2(prefix + combat_tail_bytes_1(v), v, combat_tail_bytes_3(v) + suffix);
    assert((prefix + combat_tail_bytes_1(v) + combat_tail_bytes_2(v)) + combat_tail_bytes_3(v) + (suffix) =~= data);
    lemma_combat_tail_part_3(prefix + combat_tail_bytes_1(v) + combat_tail_bytes_2(v), v, suffix);
}

/// The fields of part 1 of the bytes of a CombatTailView stand at their offsets.
pub open spec fn combat_tail_part_1_holds(data: Seq<u8>, p: int, v: CombatTailView) -> bool {
    &&& u16_at(data, p) == v.create_time
    &&& opt_u16_at(data, p + 2) == v.create_at_building
    &&& i8_at(data, p + 4) == v.create_button
    &&& u32_at(data, p + 5) == v.rear_attack_modifier
    &&& u32_at(data, p + 9) == v.flank_attack_modifier
    &&& data[p + 14] == v.hero_flag
}

proof fn lemma_combat_tail_part_1(prefix: Seq<u8>, v: CombatTailView, suffix: Seq<u8>)
    requires
        combat_tail_exact(v),
    ensures
        combat_tail_bytes_1(v).len() == 15,
        combat_tail_part_1_holds(prefix + combat_tail_bytes_1(v) + suffix, prefix.len() as int, v),
{
    lemma_field_lens();
    lemma_pow256_values();
    assert(opt_u16_bytes(v.create_at_building).len() == 2);
    let data = prefix + combat_tail_bytes_1(v) + suffix;
    let p = prefix.len() as int;
    assert(data.subrange(p, p + 2) =~= u16_bytes(v.create_time));
    lemma_u16_field(data, p, v.create_time);
    assert(data.subrange(p + 2, p + 4) =~= opt_u16_bytes(v.create_at_building));
    lemma_opt_u16_field(data, p + 2, v.create_at_building);
    assert(data.subrange(p + 4, p + 5) =~= i8_bytes(v.create_button));
    lemma_i8_field(data, p + 4, v.create_button);
    assert(data.subrange(p + 5, p + 9) =~= u32_bytes(v.rear_attack_modifier));
    lemma_u32_field(data, p + 5, v.rear_attack_modifier);
    assert(data.subrange(p + 9, p + 13) =~= u32_bytes(v.flank_attack_modifier));
    lemma_u32_field(data, p + 9, v.flank_attack_modifier);
    assert(data.subrange(p + 14, p + 15) =~= seq![v.hero_flag]);
    lemma_u8_field(data, p + 14, v.hero_flag);
}

/// The fields of part 2 of the bytes of a CombatTailView stand at their offsets.
pub open spec fn combat_tail_part_2_holds(data: Seq<u8>, p: int, v: CombatTailView) -> bool {
    &&& signed32_id_at(data, p) == v.garrison_sprite
    &&& signed32_id_readable(data, p)
    &&& u32_at(data, p + 4) == v.volley_fire_amount
    &&& i8_at(data, p + 8) == v.max_attacks_in_volley
    &&& u32_at(data, p + 9) == v.volley_spread_0
    &&& u32_at(data, p + 13) == v.volley_spread_1
    &&& u32_at(data, p + 17) == v.volley_start_spread_adjustment
    &&& opt32_id_at(data, p + 21) == v.volley_missile
    &&& opt32_id_readable(data, p + 21)
}

proof fn lemma_combat_tail_part_2(prefix: Seq<u8>, v: CombatTailView, suffix: Seq<u8>)
    requires
        combat_tail_exact(v),
    ensures
        combat_tail_bytes_2(v).len() == 25,
        combat_tail_part_2_holds(prefix + combat_tail_bytes_2(v) + suffix, prefix.len() as int, v),
{
    lemma_field_lens();
    lemma_pow256_values();
    assert(opt_u32_bytes(id32_of(v.garrison_sprite)).len() == 4);
    assert(opt_u32_bytes(id32_of(v.volley_missile)).len() == 4);
    let data = prefix + combat_tail_bytes_2(v) + suffix;
    let p = prefix.len() as int;
    assert(data.subrange(p, p + 4) =~= opt_u32_bytes(id32_of(v.garrison_sprite)));
    lemma_signed32_id_field(data, p, v.garrison_sprite);
    assert(data.subrange(p + 4, p + 8) =~= u32_bytes(v.volley_fire_amount));
    lemma_u32_field(data, p + 4, v.volley_fire_amount);
    assert(data.subrange(p + 8, p + 9) =~= i8_bytes(v.max_attacks_in_volley));
    lemma_i8_field(data, p + 8, v.max_attacks_in_volley);
    assert(data.subrange(p + 9, p + 13) =~= u32_bytes(v.volley_spread_0));
    lemma_u32_field(data, p + 9, v.volley_spread_0);
    assert(data.subrange(p + 13, p + 17) =~= u32_bytes(v.volley_spread_1));
    lemma_u32_field(data, p + 13, v.volley_spread_1);
    assert(data.subrange(p + 17, p + 21) =~= u32_bytes(v.volley_start_spread_adjustment));
    lemma_u32_field(data, p + 17, v.volley_start_spread_adjustment);
    assert(data.subrange(p + 21, p + 25) =~= opt_u32_bytes(id32_of(v.volley_missile)));
    lemma_opt32_id_field(data, p + 21, v.volley_missile);
}

/// The fields of part 3 of the bytes of a CombatTailView stand at their offsets.
pub open spec fn combat_tail_part_3_holds(data: Seq<u8>, p: int, v: CombatTailView) -> bool {
    &&& opt32_id_at(data, p) == v.special_attack_sprite
    &&& opt32_id_readable(data, p)
    &&& i8_at(data, p + 4) == v.special_attack_flag
    &&& i16_at(data, p + 5) == v.displayed_pierce_armor
}

proof fn lemma_combat_tail_part_3(prefix: Seq<u8>, v: CombatTailView, suffix: Seq<u8>)
    requires
        combat_tail_exact(v),
    ensures
        combat_tail_bytes_3(v).len() == 7,
        combat_tail_part_3_holds(prefix + combat_tail_bytes_3(v) + suffix, prefix.len() as int, v),
{
    lemma_field_lens();
    lemma_pow256_values();
    assert(opt_u32_bytes(id32_of(v.special_attack_sprite)).len() == 4);
    let data = prefix + combat_tail_bytes_3(v) + suffix;
    let p = prefix.len() as int;
    assert(data.subrange(p, p + 4) =~= opt_u32_bytes(id32_of(v.special_attack_sprite)));
    lemma_opt32_id_field(data, p, v.special_attack_sprite);
    assert(data.subrange(p + 4, p + 5) =~= i8_bytes(v.special_attack_flag));
    lemma_i8_field(data, p + 4, v.special_attack_flag);
    assert(data.subrange(p + 5, p + 7) =~= i16_bytes(v.displayed_pierce_armor));
    lemma_i16_field(data, p + 5, v.displayed_pierce_armor);
}

/// The fields of a building head as values.
pub ghost struct BuildingHeadView {
    pub connect_flag: u8,
    pub facet: i16,
    pub destroy_on_build: bool,
    pub on_build_make_unit: Option<u16>,
    pub on_build_make_tile: Option<u16>,
    pub on_build_make_overlay: i16,
    pub on_build_make_tech: Option<u16>,
    pub can_burn: bool,
}

/// The building head stored at `pos`.
pub open spec fn building_head_at(data: Seq<u8>, pos: int) -> BuildingHeadView {
    BuildingHeadView {
        connect_flag: data[pos],
        facet: i16_at(data, pos + 1),
        destroy_on_build: flag_at(data, pos + 3),
        on_build_make_unit: opt_u16_at(data, pos + 4),
        on_build_make_tile: opt_u16_at(data, pos + 6),
        on_build_make_overlay: i16_at(data, pos + 8),
        on_build_make_tech: opt_u16_at(data, pos + 10),
        can_burn: flag_at(data, pos + 12),
    }
}

/// Part 1 of the bytes of a building head.
pub open spec fn building_head_bytes_1(v: BuildingHeadView) -> Seq<u8> {
    seq![v.connect_flag]
        + i16_bytes(v.facet)
        + flag_bytes(v.destroy_on_build)
        + opt_u16_bytes(v.on_build_make_unit)
        + opt_u16_bytes(v.on_build_make_tile)
        + i16_bytes(v.on_build_make_overlay)
        + opt_u16_bytes(v.on_build_make_tech)
}

/// Part 2 of the bytes of a building head.
pub open spec fn building_head_bytes_2(v: BuildingHeadView) -> Seq<u8> {
    flag_bytes(v.can_burn)
}

/// The 13 bytes the part before the linked buildings is stored as.
pub open spec fn building_head_bytes(v: BuildingHeadView) -> Seq<u8> {
    building_head_bytes_1(v)
        + building_head_bytes_2(v)
}

/// The values that can be written: IDs that the game writes as signed numbers fit.
pub open spec fn building_head_writable(v: BuildingHeadView) -> bool {
    true
}

/// The values that read back as written: IDs fit, and none is `0xFFFF`.
pub open spec fn building_head_exact(v: BuildingHeadView) -> bool {
    v.on_build_make_unit != Some(0xFFFFu16)
    && v.on_build_make_tile != Some(0xFFFFu16)
    && v.on_build_make_tech != Some(0xFFFFu16)
}

/// The part of building attributes before the linked buildings reads back as written.
pub proof fn law_building_head_read_of_write(prefix: Seq<u8>, v: BuildingHeadView, suffix: Seq<u8>)
    requires
        building_head_exact(v),
    ensures
        building_head_bytes(v).len() == 13,
        building_head_at(prefix + building_head_bytes(v) + suffix, prefix.len() as int) == v,
{
    lemma_field_lens();
    lemma_pow256_values();
    assert(flag_bytes(v.destroy_on_build).len() == 1);
    assert(opt_u16_bytes(v.on_build_make_unit).len() == 2);
    assert(opt_u16_bytes(v.on_build_make_tile).len() == 2);
    assert(opt_u16_bytes(v.on_build_make_tech).len() == 2);
    assert(flag_bytes(v.can_burn).len() == 1);
    let data = prefix + building_head_bytes(v) + suffix;
    let p = prefix.len() as int;
    assert((prefix) + building_head_bytes_1(v) + (building_head_bytes_2(v) + suffix) =~= data);
    lemma_building_head_part_1(prefix, v, building_head_bytes_2(v) + suffix);
    assert((prefix + building_head_bytes_1(v)) + building_head_bytes_2(v) + (suffix) =~= data);
    lemma_building_head_part_2(prefix + building_head_bytes_1(v), v, suffix);
}

/// The fields of part 1 of the bytes of a BuildingHeadView stand at their offsets.
pub open spec fn building_head_part_1_holds(data: Seq<u8>, p: int, v: BuildingHeadView) -> bool {
    &&& data[p] == v.connect_flag
    &&& i16_at(data, p + 1) == v.facet
    &&& flag_at(data, p + 3) == v.destroy_on_build
    &&& opt_u16_at(data, p + 4) == v.on_build_make_unit
    &&& opt_u16_at(data, p + 6) == v.on_build_make_tile
    &&& i16_at(data, p + 8) == v.on_build_make_overlay
    &&& opt_u16_at(data, p + 10) == v.on_build_make_tech
}

proof fn lemma_building_head_part_1(prefix: Seq<u8>, v: BuildingHeadView, suffix: Seq<u8>)
    requires
        building_head_exact(v),
    ensures
        building_head_bytes_1(v).len() == 12,
        building_head_part_1_holds(prefix + building_head_bytes_1(v) + suffix, prefix.len() as int, v),
{
    lemma_field_lens();
    lemma_pow256_values();
    assert(flag_bytes(v.destroy_on_build).len() == 1);
    assert(opt_u16_bytes(v.on_build_make_unit).len() == 2);
    assert(opt_u16_bytes(v.on_build_make_tile).len() == 2);
    assert(opt_u16_bytes(v.on_build_make_tech).len() == 2);
    let data = prefix + building_head_bytes_1(v) + suffix;
    let p = prefix.len() as int;
    assert(data.subrange(p, p + 1) =~= seq![v.connect_flag]);
    lemma_u8_field(data, p, v.connect_flag);
    assert(data.subrange(p + 1, p + 3) =~= i16_bytes(v.facet));
    lemma_i16_field(data, p + 1, v.facet);
    assert(data.subrange(p + 3, p + 4) =~= flag_bytes(v.destroy_on_build));
    lemma_flag_field(data, p + 3, v.destroy_on_build);
    assert(data.subrange(p + 4, p + 6) =~= opt_u16_bytes(v.on_build_make_unit));
    lemma_opt_u16_field(data, p + 4, v.on_build_make_unit);
    assert(data.subrange(p + 6, p + 8) =~= opt_u16_bytes(v.on_build_make_tile));
    lemma_opt_u16_field(data, p + 6, v.on_build_make_tile);
    assert(data.subrange(p + 8, p + 10) =~= i16_bytes(v.on_build_make_overlay));
    lemma_i16_field(data, p + 8, v.on_build_make_overlay);
    assert(data.subrange(p + 10, p + 12) =~= opt_u16_bytes(v.on_build_make_tech));
    lemma_opt_u16_field(data, p + 10, v.on_build_make_tech);
}

/// The fields of part 2 of the bytes of a BuildingHeadView stand at their offsets.
pub open spec fn building_head_part_2_holds(data: Seq<u8>, p: int, v: BuildingHeadView) -> bool {
    &&& flag_at(data, p) == v.can_burn
}

proof fn lemma_building_head_part_2(prefix: Seq<u8>, v: BuildingHeadView, suffix: Seq<u8>)
    requires
        building_head_exact(v),
    ensures
        building_head_bytes_2(v).len() == 1,
        building_head_part_2_holds(prefix + building_head_bytes_2(v) + suffix, prefix.len() as int, v),
{
    lemma_field_lens();
    lemma_pow256_values();
    assert(flag_bytes(v.can_burn).len() == 1);
    let data = prefix + building_head_bytes_2(v) + suffix;
    let p = prefix.len() as int;
    assert(data.subrange(p, p + 1) =~= flag_bytes(v.can_burn));
    lemma_flag_field(data, p, v.can_burn);
}

/// The fields of a building tail as values.
pub ghost struct BuildingTailView {
    pub construction_unit: Option<u16>,
    pub transform_unit: Option<u16>,
    pub transform_sound: Option<u16>,
    pub construction_sound: Option<u16>,
    pub garrison_type: i8,
    pub garrison_heal_rate: u32,
    pub garrison_repair_rate: u32,
    pub salvage_unit: Option<u16>,
}

/// The building tail stored at `pos`.
pub open spec fn building_tail_at(data: Seq<u8>, pos: int) -> BuildingTailView {
    BuildingTailView {
        construction_unit: opt_u16_at(data, pos),
        transform_unit: opt_u16_at(data, pos + 2),
        transform_sound: opt_u16_at(data, pos + 4),
        construction_sound: opt_u16_at(data, pos + 6),
        garrison_type: i8_at(data, pos + 8),
        garrison_heal_rate: u32_at(data, pos + 9),
        garrison_repair_rate: u32_at(data, pos + 13),
        salvage_unit: opt_u16_at(data, pos + 17),
    }
}

/// Part 1 of the bytes of a building tail.
pub open spec fn building_tail_bytes_1(v: BuildingTailView) -> Seq<u8> {
    opt_u16_bytes(v.construction_unit)
        + opt_u16_bytes(v.transform_unit)
        + opt_u16_bytes(v.transform_sound)
        + opt_u16_bytes(v.construction_sound)
        + i8_bytes(v.garrison_type)
        + u32_bytes(v.garrison_heal_rate)
        + u32_bytes(v.garrison_repair_rate)
}

/// Part 2 of the bytes of a building tail.
pub open spec fn building_tail_bytes_2(v: BuildingTailView) -> Seq<u8> {
    opt_u16_bytes(v.salvage_unit)
}

/// The 19 bytes the part after the linked buildings is stored as.
pub open spec fn building_tail_bytes(v: BuildingTailView) -> Seq<u8> {
    building_tail_bytes_1(v)
        + building_tail_bytes_2(v)
}

/// The values that can be written: IDs that the game writes as signed numbers fit.
pub open spec fn building_tail_writable(v: BuildingTailView) -> bool {
    true
}

/// The values that read back as written: IDs fit, and none is `0xFFFF`.
pub open spec fn building_tail_exact(v: BuildingTailView) -> bool {
    v.construction_unit != Some(0xFFFFu16)
    && v.transform_unit != Some(0xFFFFu16)
    && v.transform_sound != Some(0xFFFFu16)
    && v.construction_sound != Some(0xFFFFu16)
    && v.salvage_unit != Some(0xFFFFu16)
}

/// The part of building attributes after the linked buildings reads back as written.
pub proof fn law_building_tail_read_of_write(prefix: Seq<u8>, v: BuildingTailView, suffix: Seq<u8>)
    requires
        building_tail_exact(v),
    ensures
        building_tail_bytes(v).len() == 19,
        building_tail_at(prefix + building_tail_bytes(v) + suffix, prefix.len() as int) == v,
{
    lemma_field_lens();
    lemma_pow256_values();
    assert(opt_u16_bytes(v.construction_unit).len() == 2);
    assert(opt_u16_bytes(v.transform_unit).len() == 2);
    assert(opt_u16_bytes(v.transform_sound).len() == 2);
    assert(opt_u16_bytes(v.construction_sound).len() == 2);
    assert(opt_u16_bytes(v.salvage_unit).len() == 2);
    let data = prefix + building_tail_bytes(v) + suffix;
    let p = prefix.len() as int;
    assert((prefix) + building_tail_bytes_1(v) + (building_tail_bytes_2(v) + suffix) =~= data);
    lemma_building_tail_part_1(prefix, v, building_tail_bytes_2(v) + suffix);
    assert((prefix + building_tail_bytes_1(v)) + building_tail_bytes_2(v) + (suffix) =~= data);
    lemma_building_tail_part_2(prefix + building_tail_bytes_1(v), v, suffix);
}

/// The fields of part 1 of the bytes of a BuildingTailView stand at their offsets.
pub open spec fn building_tail_part_1_holds(data: Seq<u8>, p: int, v: BuildingTailView) -> bool {
    &&& opt_u16_at(data, p) == v.construction_unit
    &&& opt_u16_at(data, p + 2) == v.transform_unit
    &&& opt_u16_at(data, p + 4) == v.transform_sound
    &&& opt_u16_at(data, p + 6) == v.construction_sound
    &&& i8_at(data, p + 8) == v.garrison_type
    &&& u32_at(data, p + 9) == v.garrison_heal_rate
    &&& u32_at(data, p + 13) == v.garrison_repair_rate
}

proof fn lemma_building_tail_part_1(prefix: Seq<u8>, v: BuildingTailView, suffix: Seq<u8>)
    requires
        building_tail_exact(v),
    ensures
        building_tail_bytes_1(v).len() == 17,
        building_tail_part_1_holds(prefix + building_tail_bytes_1(v) + suffix, prefix.len() as int, v),
{
    lemma_field_lens();
    lemma_pow256_values();
    assert(opt_u16_bytes(v.construction_unit).len() == 2);
    assert(opt_u16_bytes(v.transform_unit).len() == 2);
    assert(opt_u16_bytes(v.transform_sound).len() == 2);
    assert(opt_u16_bytes(v.construction_sound).len() == 2);
    let data = prefix + building_tail_bytes_1(v) + suffix;
    let p = prefix.len() as int;
    assert(data.subrange(p, p + 2) =~= opt_u16_bytes(v.construction_unit));
    lemma_opt_u16_field(data, p, v.construction_unit);
    assert(data.subrange(p + 2, p + 4) =~= opt_u16_bytes(v.transform_unit));
    lemma_opt_u16_field(data, p + 2, v.transform_unit);
    assert(data.subrange(p + 4, p + 6) =~= opt_u16_bytes(v.transform_sound));
    lemma_opt_u16_field(data, p + 4, v.transform_sound);
    assert(data.subrange(p + 6, p + 8) =~= opt_u16_bytes(v.construction_sound));
    lemma_opt_u16_field(data, p + 6, v.construction_sound);
    assert(data.subrange(p + 8, p + 9) =~= i8_bytes(v.garrison_type));
    lemma_i8_field(data, p + 8, v.garrison_type);
    assert(data.subrange(p + 9, p + 13) =~= u32_bytes(v.garrison_heal_rate));
    lemma_u32_field(data, p + 9, v.garrison_heal_rate);
    assert(data.subrange(p + 13, p + 17) =~= u32_bytes(v.garrison_repair_rate));
    lemma_u32_field(data, p + 13, v.garrison_repair_rate);
}

/// The fields of part 2 of the bytes of a BuildingTailView stand at their offsets.
pub open spec fn building_tail_part_2_holds(data: Seq<u8>, p: int, v: BuildingTailView) -> bool {
    &&& opt_u16_at(data, p) == v.salvage_unit
}

proof fn lemma_building_tail_part_2(prefix: Seq<u8>, v: BuildingTailView, suffix: Seq<u8>)
    requires
        building_tail_exact(v),
    ensures
        building_tail_bytes_2(v).len() == 2,
        building_tail_part_2_holds(prefix + building_tail_bytes_2(v) + suffix, prefix.len() as int, v),
{
    lemma_field_lens();
    lemma_pow256_values();
    assert(opt_u16_bytes(v.salvage_unit).len() == 2);
    let data = prefix + building_tail_bytes_2(v) + suffix;
    let p = prefix.len() as int;
    assert(data.subrange(p, p + 2) =~= opt_u16_bytes(v.salvage_unit));
    lemma_opt_u16_field(data, p, v.salvage_unit);
}

/// The bytes of a list of weapon (or armour) values, one after the other.
pub open spec fn weapons_bytes(s: Seq<(i16, i16)>) -> Seq<u8>
    decreases s.len(),
{
    if s.len() == 0 {
        Seq::empty()
    } else {
        weapons_bytes(s.drop_last()) + weapon_info_bytes(s.last())
    }
}

/// The `n` weapon values stored from `pos` on.
pub open spec fn weapons_at(data: Seq<u8>, pos: int, n: nat) -> Seq<(i16, i16)> {
    Seq::new(n, |i: int| weapon_info_at(data, pos + 4 * i))
}

/// The values of a list of weapon values.
pub open spec fn weapons_view(v: Seq<WeaponInfo>) -> Seq<(i16, i16)> {
    v.map_values(|w: WeaponInfo| w@)
}

/// Reads `n` weapon values at `pos`.
fn read_weapons(input: &[u8], pos: usize, n: u16) -> (r: Result<(Vec<WeaponInfo>, usize), ReadError>)
    requires
        pos <= input.len(),
    ensures
        r is Ok <==> pos + 4 * n <= input.len(),
        r matches Ok((v, p)) ==> weapons_view(v@) == weapons_at(input@, pos as int, n as nat) && p
            == pos + 4 * n,
        r matches Err(e) ==> e == ReadError::UnexpectedEof,
{
    let mut v: Vec<WeaponInfo> = Vec::new();
    let mut p = pos;
    let mut i: u16 = 0;
    while i < n
        invariant
            i <= n,
            p == pos + 4 * i,
            p <= input.len(),
            v@.len() == i,
            forall|j: int| 0 <= j < i ==> #[trigger] v@[j]@ == weapon_info_at(input@, pos + 4 * j),
        decreases n - i,
    {
        match WeaponInfo::read_from(input, p) {
            Ok((w, q)) => {
                v.push(w);
                p = q;
            },
            Err(e) => {
                return Err(e);
            },
        }
        i = i + 1;
    }
    assert(weapons_view(v@) =~= weapons_at(input@, pos as int, n as nat));
    Ok((v, p))
}

/// Appends weapon values, one after the other.
fn write_weapons(output: &mut Vec<u8>, v: &Vec<WeaponInfo>)
    ensures
        final(output)@ == old(output)@ + weapons_bytes(weapons_view(v@)),
{
    let ghost s0 = output@;
    let ghost w = weapons_view(v@);
    assert(w.take(0) =~= Seq::<(i16, i16)>::empty());
    let mut i: usize = 0;
    while i < v.len()
        invariant
            i <= v.len(),
            w == weapons_view(v@),
            output@ == s0 + weapons_bytes(w.take(i as int)),
        decreases v.len() - i,
    {
        v[i].write_to(output);
        proof {
            assert(w.take(i + 1).drop_last() =~= w.take(i as int));
            assert(w.take(i + 1).last() == v@[i as int]@);
        }
        i = i + 1;
    }
    assert(w.take(v.len() as int) =~= w);
}

/// Weapon values written one after the other read back as the same values.
pub proof fn lemma_weapons_read(prefix: Seq<u8>, s: Seq<(i16, i16)>, suffix: Seq<u8>)
    ensures
        weapons_bytes(s).len() == 4 * s.len(),
        weapons_at(prefix + weapons_bytes(s) + suffix, prefix.len() as int, s.len()) == s,
    decreases s.len(),
{
    lemma_field_lens();
    if s.len() > 0 {
        let init = s.drop_last();
        let rest = weapon_info_bytes(s.last()) + suffix;
        lemma_weapons_read(prefix, init, rest);
        let data = prefix + weapons_bytes(s) + suffix;
        assert(prefix + weapons_bytes(init) + rest =~= data);
        crate::dat::unit_fields::law_weapon_info_read_of_write(
            prefix + weapons_bytes(init),
            s.last(),
            suffix,
        );
        assert((prefix + weapons_bytes(init)) + weapon_info_bytes(s.last()) + suffix =~= data);
        let got = weapons_at(data, prefix.len() as int, s.len());
        assert forall|i: int| 0 <= i < s.len() implies got[i] == s[i] by {
            if i < init.len() {
                assert(weapons_at(data, prefix.len() as int, init.len())[i] == init[i]);
            }
        }
        assert(got =~= s);
    } else {
        assert(weapons_at(prefix + weapons_bytes(s) + suffix, prefix.len() as int, 0) =~= s);
    }
}

/// Attributes of unit types that fight; ranges, speeds, offsets and spreads are bit
/// patterns of `f32`s.
#[derive(Debug, Default)]
pub struct BaseCombatUnitTypeAttributes {
    pub base_armor: u16,
    pub weapons: Vec<WeaponInfo>,
    pub armors: Vec<WeaponInfo>,
    pub defense_terrain_bonus: Option<u16>,
    pub weapon_range_max: u32,
    pub area_effect_range: u32,
    pub attack_speed: u32,
    pub missile_id: Option<UnitTypeID>,
    pub base_hit_chance: i16,
    pub break_off_combat: i8,
    pub frame_delay: i16,
    pub weapon_offset: (u32, u32, u32),
    pub blast_level_offense: i8,
    pub weapon_range_min: u32,
    pub missed_missile_spread: u32,
    pub fight_sprite: Option<SpriteID>,
    pub displayed_armor: i16,
    pub displayed_attack: i16,
    pub displayed_range: u32,
    pub displayed_reload_time: u32,
}

impl Clone for BaseCombatUnitTypeAttributes {
    fn clone(&self) -> (r: Self) {
        BaseCombatUnitTypeAttributes {
            base_armor: self.base_armor,
            weapons: self.weapons.clone(),
            armors: self.armors.clone(),
            defense_terrain_bonus: self.defense_terrain_bonus,
            weapon_range_max: self.weapon_range_max,
            area_effect_range: self.area_effect_range,
            attack_speed: self.attack_speed,
            missile_id: self.missile_id,
            base_hit_chance: self.base_hit_chance,
            break_off_combat: self.break_off_combat,
            frame_delay: self.frame_delay,
            weapon_offset: self.weapon_offset,
            blast_level_offense: self.blast_level_offense,
            weapon_range_min: self.weapon_range_min,
            missed_missile_spread: self.missed_missile_spread,
            fight_sprite: self.fight_sprite,
            displayed_armor: self.displayed_armor,
            displayed_attack: self.displayed_attack,
            displayed_range: self.displayed_range,
            displayed_reload_time: self.displayed_reload_time,
        }
    }
}

/// The values of base combat attributes: the armour, the weapons, the armours, and the
/// fixed part after them.
pub ghost struct BaseCombatView {
    pub base_armor: u16,
    pub weapons: Seq<(i16, i16)>,
    pub armors: Seq<(i16, i16)>,
    pub tail: BaseCombatTailView,
}

impl View for BaseCombatUnitTypeAttributes {
    type V = BaseCombatView;

    open spec fn view(&self) -> BaseCombatView {
        BaseCombatView {
            base_armor: self.base_armor,
            weapons: weapons_view(self.weapons@),
            armors: weapons_view(self.armors@),
            tail: BaseCombatTailView {
                defense_terrain_bonus: self.defense_terrain_bonus,
                weapon_range_max: self.weapon_range_max,
                area_effect_range: self.area_effect_range,
                attack_speed: self.attack_speed,
                missile_id: opt_unit(self.missile_id),
                base_hit_chance: self.base_hit_chance,
                break_off_combat: self.break_off_combat,
                frame_delay: self.frame_delay,
                weapon_offset_0: self.weapon_offset.0,
                weapon_offset_1: self.weapon_offset.1,
                weapon_offset_2: self.weapon_offset.2,
                blast_level_offense: self.blast_level_offense,
                weapon_range_min: self.weapon_range_min,
                missed_missile_spread: self.missed_missile_spread,
                fight_sprite: opt_sprite(self.fight_sprite),
                displayed_armor: self.displayed_armor,
                displayed_attack: self.displayed_attack,
                displayed_range: self.displayed_range,
                displayed_reload_time: self.displayed_reload_time,
            },
        }
    }
}

/// Whether the base armour takes one byte: in data versions below 11.52.
pub open spec fn narrow_armor(version: u32) -> bool {
    f32_below(version, VERSION_11_52)
}

/// The base combat attributes stored at `pos` in a data file of the given version: the
/// armour, the number of weapon values and the values, the number of armour values and the
/// values, then the fixed part; and the position after them. `None` if the input ends first.
pub open spec fn base_combat_at(data: Seq<u8>, pos: int, version: u32) -> Option<(BaseCombatView, int)> {
    let p1 = if narrow_armor(version) {
        pos + 1
    } else {
        pos + 2
    };
    if p1 + 2 > data.len() {
        None
    } else {
        let armor: u16 = if narrow_armor(version) {
            data[pos] as u16
        } else {
            u16_at(data, pos)
        };
        let n = u16_at(data, p1) as nat;
        let p2 = p1 + 2;
        if p2 + 4 * n + 2 > data.len() {
            None
        } else {
            let m = u16_at(data, p2 + 4 * n) as nat;
            let p3 = p2 + 4 * n + 2;
            if p3 + 4 * m + 56 > data.len() {
                None
            } else {
                Some(
                    (
                        BaseCombatView {
                            base_armor: armor,
                            weapons: weapons_at(data, p2, n),
                            armors: weapons_at(data, p3, m),
                            tail: bc_tail_at(data, p3 + 4 * m),
                        },
                        p3 + 4 * m + 56,
                    ),
                )
            }
        }
    }
}

/// The bytes of the base armour: one byte before data version 11.52, two from it on.
pub open spec fn base_armor_bytes(armor: u16, version: u32) -> Seq<u8> {
    if narrow_armor(version) {
        seq![armor as u8]
    } else {
        u16_bytes(armor)
    }
}

/// The bytes base combat attributes are stored as; the counts are the list lengths
/// truncated to 16 bits.
pub open spec fn base_combat_bytes(v: BaseCombatView, version: u32) -> Seq<u8> {
    base_armor_bytes(v.base_armor, version) + u16_bytes(v.weapons.len() as u16) + weapons_bytes(
        v.weapons,
    ) + u16_bytes(v.armors.len() as u16) + weapons_bytes(v.armors) + bc_tail_bytes(v.tail)
}

/// The base combat attributes that can be written: a one-byte armour fits (else the
/// conversion panics).
pub open spec fn base_combat_writable(v: BaseCombatView, version: u32) -> bool {
    narrow_armor(version) ==> v.base_armor <= 255
}

impl BaseCombatUnitTypeAttributes {
    /// Read base combat attributes at `pos` in a data file whose version has the given
    /// `f32` bit pattern; returns them and the position after them.
    pub fn read_from(input: &[u8], pos: usize, version: u32) -> (r: Result<(Self, usize), ReadError>)
        ensures
            match base_combat_at(input@, pos as int, version) {
                Some((v, q)) => r matches Ok((a, p)) && a@ == v && p == q,
                None => r == Err::<(Self, usize), ReadError>(ReadError::UnexpectedEof),
            },
    {
        let (base_armor, p) = if f32_bits_below(version, VERSION_11_52) {
            let (b, p) = read_u8(input, pos)?;
            (b as u16, p)
        } else {
            read_u16_le(input, pos)?
        };
        let (num_weapons, p) = read_u16_le(input, p)?;
        let (weapons, p) = read_weapons(input, p, num_weapons)?;
        let (num_armors, p) = read_u16_le(input, p)?;
        let (armors, p) = read_weapons(input, p, num_armors)?;
        let (defense_terrain_bonus, p) = read_opt_u16(input, p)?;
        let (weapon_range_max, p) = read_u32_le(input, p)?;
        let (area_effect_range, p) = read_u32_le(input, p)?;
        let (attack_speed, p) = read_u32_le(input, p)?;
        let (missile_id, p) = read_opt_u16(input, p)?;
        let missile_id = unit_from_opt(missile_id);
        let (base_hit_chance, p) = read_i16_le(input, p)?;
        let (break_off_combat, p) = read_i8(input, p)?;
        let (frame_delay, p) = read_i16_le(input, p)?;
        let (weapon_offset_0, p) = read_u32_le(input, p)?;
        let (weapon_offset_1, p) = read_u32_le(input, p)?;
        let (weapon_offset_2, p) = read_u32_le(input, p)?;
        let (blast_level_offense, p) = read_i8(input, p)?;
        let (weapon_range_min, p) = read_u32_le(input, p)?;
        let (missed_missile_spread, p) = read_u32_le(input, p)?;
        let (fight_sprite, p) = read_opt_u16(input, p)?;
        let fight_sprite = sprite_from_opt(fight_sprite);
        let (displayed_armor, p) = read_i16_le(input, p)?;
        let (displayed_attack, p) = read_i16_le(input, p)?;
        let (displayed_range, p) = read_u32_le(input, p)?;
        let (displayed_reload_time, p) = read_u32_le(input, p)?;
        Ok((BaseCombatUnitTypeAttributes { base_armor, weapons, armors, defense_terrain_bonus, weapon_range_max, area_effect_range, attack_speed, missile_id, base_hit_chance, break_off_combat, frame_delay, weapon_offset: (weapon_offset_0, weapon_offset_1, weapon_offset_2), blast_level_offense, weapon_range_min, missed_missile_spread, fight_sprite, displayed_armor, displayed_attack, displayed_range, displayed_reload_time }, p))
    }

    /// Append these attributes to `output` for a data file whose version has the given
    /// `f32` bit pattern.
    pub fn write_to(&self, output: &mut Vec<u8>, version: u32)
        requires
            base_combat_writable(self@, version),
        ensures
            final(output)@ == old(output)@ + base_combat_bytes(self@, version),
    {
        if f32_bits_below(version, VERSION_11_52) {
            output.push(self.base_armor as u8);
        } else {
            put_u16_le(output, self.base_armor);
        }
        put_u16_le(output, self.weapons.len() as u16);
        write_weapons(output, &self.weapons);
        put_u16_le(output, self.armors.len() as u16);
        write_weapons(output, &self.armors);
        self.write_bc_tail(output);
        assert(output@ =~= old(output)@ + base_combat_bytes(self@, version));
    }

    fn write_bc_tail_1(&self, output: &mut Vec<u8>)
        requires
            bc_tail_writable(self@.tail),
        ensures
            final(output)@ == old(output)@ + bc_tail_bytes_1(self@.tail),
    {
        let ghost s0 = output@;
        put_opt_u16(output, self.defense_terrain_bonus);
        let ghost mut acc = opt_u16_bytes(self@.tail.defense_terrain_bonus);
        assert(output@ == s0 + acc);
        put_u32_le(output, self.weapon_range_max);
        proof {
            lemma_add_assoc(s0, acc, u32_bytes(self@.tail.weapon_range_max));
            acc = acc + u32_bytes(self@.tail.weapon_range_max);
        }
        put_u32_le(output, self.area_effect_range);
        proof {
            lemma_add_assoc(s0, acc, u32_bytes(self@.tail.area_effect_range));
            acc = acc + u32_bytes(self@.tail.area_effect_range);
        }
        put_u32_le(output, self.attack_speed);
        proof {
            lemma_add_assoc(s0, acc, u32_bytes(self@.tail.attack_speed));
            acc = acc + u32_bytes(self@.tail.attack_speed);
        }
        put_opt_u16(output, unit_to_opt(self.missile_id));
        proof {
            lemma_add_assoc(s0, acc, opt_u16_bytes(self@.tail.missile_id));
            acc = acc + opt_u16_bytes(self@.tail.missile_id);
        }
        put_i16_le(output, self.base_hit_chance);
        proof {
            lemma_add_assoc(s0, acc, i16_bytes(self@.tail.base_hit_chance));
            acc = acc + i16_bytes(self@.tail.base_hit_chance);
        }
        put_i8(output, self.break_off_combat);
        proof {
            lemma_add_assoc(s0, acc, i8_bytes(self@.tail.break_off_combat));
            acc = acc + i8_bytes(self@.tail.break_off_combat);
        }
        assert(acc == bc_tail_bytes_1(self@.tail));
    }

    fn write_bc_tail_2(&self, output: &mut Vec<u8>)
        requires
            bc_tail_writable(self@.tail),
        ensures
            final(output)@ == old(output)@ + bc_tail_bytes_2(self@.tail),
    {
        let ghost s0 = output@;
        put_i16_le(output, self.frame_delay);
        let ghost mut acc = i16_bytes(self@.tail.frame_delay);
        assert(output@ == s0 + acc);
        put_u32_le(output, self.weapon_offset.0);
        proof {
            lemma_add_assoc(s0, acc, u32_bytes(self@.tail.weapon_offset_0));
            acc = acc + u32_bytes(self@.tail.weapon_offset_0);
        }
        put_u32_le(output, self.weapon_offset.1);
        proof {
            lemma_add_assoc(s0, acc, u32_bytes(self@.tail.weapon_offset_1));
            acc = acc + u32_bytes(self@.tail.weapon_offset_1);
        }
        put_u32_le(output, self.weapon_offset.2);
        proof {
            lemma_add_assoc(s0, acc, u32_bytes(self@.tail.weapon_offset_2));
            acc = acc + u32_bytes(self@.tail.weapon_offset_2);
        }
        put_i8(output, self.blast_level_offense);
        proof {
            lemma_add_assoc(s0, acc, i8_bytes(self@.tail.blast_level_offense));
            acc = acc + i8_bytes(self@.tail.blast_level_offense);
        }
        put_u32_le(output, self.weapon_range_min);
        proof {
            lemma_add_assoc(s0, acc, u32_bytes(self@.tail.weapon_range_min));
            acc = acc + u32_bytes(self@.tail.weapon_range_min);
        }
        put_u32_le(output, self.missed_missile_spread);
        proof {
            lemma_add_assoc(s0, acc, u32_bytes(self@.tail.missed_missile_spread));
            acc = acc + u32_bytes(self@.tail.missed_missile_spread);
        }
        assert(acc == bc_tail_bytes_2(self@.tail));
    }

    fn write_bc_tail_3(&self, output: &mut Vec<u8>)
        requires
            bc_tail_writable(self@.tail),
        ensures
            final(output)@ == old(output)@ + bc_tail_bytes_3(self@.tail),
    {
        let ghost s0 = output@;
        put_opt_u16(output, sprite_to_opt(self.fight_sprite));
        let ghost mut acc = opt_u16_bytes(self@.tail.fight_sprite);
        assert(output@ == s0 + acc);
        put_i16_le(output, self.displayed_armor);
        proof {
            lemma_add_assoc(s0, acc, i16_bytes(self@.tail.displayed_armor));
            acc = acc + i16_bytes(self@.tail.displayed_armor);
        }
        put_i16_le(output, self.displayed_attack);
        proof {
            lemma_add_assoc(s0, acc, i16_bytes(self@.tail.displayed_attack));
            acc = acc + i16_bytes(self@.tail.displayed_attack);
        }
        put_u32_le(output, self.displayed_range);
        proof {
            lemma_add_assoc(s0, acc, u32_bytes(self@.tail.displayed_range));
            acc = acc + u32_bytes(self@.tail.displayed_range);
        }
        put_u32_le(output, self.displayed_reload_time);
        proof {
            lemma_add_assoc(s0, acc, u32_bytes(self@.tail.displayed_reload_time));
            acc = acc + u32_bytes(self@.tail.displayed_reload_time);
        }
        assert(acc == bc_tail_bytes_3(self@.tail));
    }

    fn write_bc_tail(&self, output: &mut Vec<u8>)
        requires
            bc_tail_writable(self@.tail),
        ensures
            final(output)@ == old(output)@ + bc_tail_bytes(self@.tail),
    {
        self.write_bc_tail_1(output);
        self.write_bc_tail_2(output);
        self.write_bc_tail_3(output);
        assert(output@ =~= old(output)@ + bc_tail_bytes(self@.tail));
    }

}

/// What a list of costs of `arrayvec` holds, by value.
pub uninterp spec fn held_costs(v: ArrayVec<AttributeCost, 3>) -> Seq<(i16, i16, u8)>;

/// `ArrayVec::new`: an empty list of costs.
#[verifier::external_body]
fn costs_new() -> (v: ArrayVec<AttributeCost, 3>)
    ensures
        held_costs(v) == Seq::<(i16, i16, u8)>::empty(),
{
    ArrayVec::new()
}

/// `ArrayVec::push`: appends a cost; it panics on a full list, which `requires` rules out.
#[verifier::external_body]
fn costs_push(v: &mut ArrayVec<AttributeCost, 3>, c: AttributeCost)
    requires
        held_costs(*old(v)).len() < 3,
    ensures
        held_costs(*final(v)) == held_costs(*old(v)).push(c@),
{
    v.push(c)
}

/// `ArrayVec::len`: the number of costs, never more than the capacity of 3.
#[verifier::external_body]
fn costs_len(v: &ArrayVec<AttributeCost, 3>) -> (n: usize)
    ensures
        n == held_costs(*v).len(),
        n <= 3,
{
    v.len()
}

/// `ArrayVec::as_slice` indexed at `i`: the cost at that place.
#[verifier::external_body]
fn costs_get(v: &ArrayVec<AttributeCost, 3>, i: usize) -> (c: AttributeCost)
    requires
        i < held_costs(*v).len(),
    ensures
        c@ == held_costs(*v)[i as int],
{
    v.as_slice()[i]
}

/// The costs of `s` whose attribute is not negative, in order.
pub open spec fn kept_costs(s: Seq<(i16, i16, u8)>) -> Seq<(i16, i16, u8)>
    decreases s.len(),
{
    if s.len() == 0 {
        s
    } else if s.last().0 >= 0 {
        kept_costs(s.drop_last()).push(s.last())
    } else {
        kept_costs(s.drop_last())
    }
}

/// The three costs stored at `pos`.
pub open spec fn stored_costs(data: Seq<u8>, pos: int) -> Seq<(i16, i16, u8)> {
    seq![attribute_cost_at(data, pos), attribute_cost_at(data, pos + 6), attribute_cost_at(data, pos + 12)]
}

/// The bytes of place `i` of a list of costs: the cost there, or the cost of attribute -1.
pub open spec fn cost_slot_bytes(s: Seq<(i16, i16, u8)>, i: int) -> Seq<u8> {
    if i < s.len() {
        attribute_cost_bytes(s[i])
    } else {
        attribute_cost_bytes((-1i16, 0i16, 0u8))
    }
}

/// Attributes of unit types that fight (with additional Age of Empires specific data);
/// modifiers, amounts and spreads are bit patterns of `f32`s.
#[derive(Debug, Default)]
pub struct CombatUnitTypeAttributes {
    /// The costs of creating a unit of this type.
    pub costs: ArrayVec<AttributeCost, 3>,
    pub create_time: u16,
    pub create_at_building: Option<UnitTypeID>,
    pub create_button: i8,
    pub rear_attack_modifier: u32,
    pub flank_attack_modifier: u32,
    pub hero_flag: u8,
    pub garrison_sprite: Option<SpriteID>,
    pub volley_fire_amount: u32,
    pub max_attacks_in_volley: i8,
    pub volley_spread: (u32, u32),
    pub volley_start_spread_adjustment: u32,
    pub volley_missile: Option<UnitTypeID>,
    pub special_attack_sprite: Option<SpriteID>,
    pub special_attack_flag: i8,
    pub displayed_pierce_armor: i16,
}

impl Clone for CombatUnitTypeAttributes {
    fn clone(&self) -> (r: Self) {
        CombatUnitTypeAttributes {
            costs: self.costs.clone(),
            create_time: self.create_time,
            create_at_building: self.create_at_building,
            create_button: self.create_button,
            rear_attack_modifier: self.rear_attack_modifier,
            flank_attack_modifier: self.flank_attack_modifier,
            hero_flag: self.hero_flag,
            garrison_sprite: self.garrison_sprite,
            volley_fire_amount: self.volley_fire_amount,
            max_attacks_in_volley: self.max_attacks_in_volley,
            volley_spread: self.volley_spread,
            volley_start_spread_adjustment: self.volley_start_spread_adjustment,
            volley_missile: self.volley_missile,
            special_attack_sprite: self.special_attack_sprite,
            special_attack_flag: self.special_attack_flag,
            displayed_pierce_armor: self.displayed_pierce_armor,
        }
    }
}

/// The values of combat attributes: the costs kept, and the part after them.
pub ghost struct CombatView {
    pub costs: Seq<(i16, i16, u8)>,
    pub tail: CombatTailView,
}

impl View for CombatUnitTypeAttributes {
    type V = CombatView;

    open spec fn view(&self) -> CombatView {
        CombatView {
            costs: held_costs(self.costs),
            tail: CombatTailView {
                create_time: self.create_time,
                create_at_building: opt_unit(self.create_at_building),
                create_button: self.create_button,
                rear_attack_modifier: self.rear_attack_modifier,
                flank_attack_modifier: self.flank_attack_modifier,
                hero_flag: self.hero_flag,
                garrison_sprite: opt_sprite(self.garrison_sprite),
                volley_fire_amount: self.volley_fire_amount,
                max_attacks_in_volley: self.max_attacks_in_volley,
                volley_spread_0: self.volley_spread.0,
                volley_spread_1: self.volley_spread.1,
                volley_start_spread_adjustment: self.volley_start_spread_adjustment,
                volley_missile: opt_unit(self.volley_missile),
                special_attack_sprite: opt_sprite(self.special_attack_sprite),
                special_attack_flag: self.special_attack_flag,
                displayed_pierce_armor: self.displayed_pierce_armor,
            },
        }
    }
}

/// The combat attributes stored at `pos`: three costs, of which those with a nonnegative
/// attribute are kept, then the rest; and the position after them.
pub open spec fn combat_at(data: Seq<u8>, pos: int) -> Option<(CombatView, int)> {
    if pos + 18 + 47 > data.len() {
        None
    } else {
        Some(
            (
                CombatView { costs: kept_costs(stored_costs(data, pos)), tail: combat_tail_at(data, pos + 18) },
                pos + 18 + 47,
            ),
        )
    }
}

/// The bytes combat attributes are stored as: each cost, a cost of attribute -1 for each
/// place left over, then the rest.
pub open spec fn combat_bytes(v: CombatView) -> Seq<u8> {
    cost_slot_bytes(v.costs, 0) + cost_slot_bytes(v.costs, 1) + cost_slot_bytes(v.costs, 2)
        + combat_tail_bytes(v.tail)
}

impl CombatUnitTypeAttributes {
    /// Read combat attributes at `pos`; returns them and the position after them.
    pub fn read_from(input: &[u8], pos: usize) -> (r: Result<(Self, usize), ReadError>)
        requires
            combat_tail_readable(input@, pos + 18),
        ensures
            match combat_at(input@, pos as int) {
                Some((v, q)) => r matches Ok((a, p)) && a@ == v && p == q,
                None => r == Err::<(Self, usize), ReadError>(ReadError::UnexpectedEof),
            },
    {
        let mut costs = costs_new();
        let mut p = pos;
        let mut i: usize = 0;
        let ghost all = stored_costs(input@, pos as int);
        assert(all.take(0) =~= Seq::<(i16, i16, u8)>::empty());
        while i < 3
            invariant
                i <= 3,
                p == pos + 6 * i,
                i > 0 ==> p <= input.len(),
                all == stored_costs(input@, pos as int),
                held_costs(costs) == kept_costs(all.take(i as int)),
                held_costs(costs).len() <= i,
            decreases 3 - i,
        {
            let (cost, q) = AttributeCost::read_from(input, p)?;
            proof {
                assert(all.take(i + 1).drop_last() =~= all.take(i as int));
                assert(all.take(i + 1).last() == all[i as int]);
                assert(all[i as int] == attribute_cost_at(input@, pos + 6 * i));
            }
            if cost.attribute_type >= 0 {
                costs_push(&mut costs, cost);
            }
            p = q;
            i = i + 1;
        }
        assert(all.take(3) =~= all);
        let (create_time, p) = read_u16_le(input, p)?;
        let (create_at_building, p) = read_opt_u16(input, p)?;
        let create_at_building = unit_from_opt(create_at_building);
        let (create_button, p) = read_i8(input, p)?;
        let (rear_attack_modifier, p) = read_u32_le(input, p)?;
        let (flank_attack_modifier, p) = read_u32_le(input, p)?;
        let (_tribe_unit_type, p) = read_u8(input, p)?;
        let (hero_flag, p) = read_u8(input, p)?;
        let (garrison_sprite, p) = read_signed_id32(input, p)?;
        let garrison_sprite = sprite_from_opt(garrison_sprite);
        let (volley_fire_amount, p) = read_u32_le(input, p)?;
        let (max_attacks_in_volley, p) = read_i8(input, p)?;
        let (volley_spread_0, p) = read_u32_le(input, p)?;
        let (volley_spread_1, p) = read_u32_le(input, p)?;
        let (volley_start_spread_adjustment, p) = read_u32_le(input, p)?;
        let (volley_missile, p) = read_opt_id32(input, p)?;
        let volley_missile = unit_from_opt(volley_missile);
        let (special_attack_sprite, p) = read_opt_id32(input, p)?;
        let special_attack_sprite = sprite_from_opt(special_attack_sprite);
        let (special_attack_flag, p) = read_i8(input, p)?;
        let (displayed_pierce_armor, p) = read_i16_le(input, p)?;
        Ok((CombatUnitTypeAttributes { costs, create_time, create_at_building, create_button, rear_attack_modifier, flank_attack_modifier, hero_flag, garrison_sprite, volley_fire_amount, max_attacks_in_volley, volley_spread: (volley_spread_0, volley_spread_1), volley_start_spread_adjustment, volley_missile, special_attack_sprite, special_attack_flag, displayed_pierce_armor }, p))
    }

    /// Append these attributes to `output`.
    pub fn write_to(&self, output: &mut Vec<u8>)
        ensures
            final(output)@ == old(output)@ + combat_bytes(self@),
    {
        let ghost s = held_costs(self.costs);
        let n = costs_len(&self.costs);
        let mut i: usize = 0;
        while i < 3
            invariant
                i <= 3,
                n == s.len(),
                s == held_costs(self.costs),
                output@ == old(output)@ + (if i == 0 {
                    Seq::<u8>::empty()
                } else if i == 1 {
                    cost_slot_bytes(s, 0)
                } else if i == 2 {
                    cost_slot_bytes(s, 0) + cost_slot_bytes(s, 1)
                } else {
                    cost_slot_bytes(s, 0) + cost_slot_bytes(s, 1) + cost_slot_bytes(s, 2)
                }),
            decreases 3 - i,
        {
            let ghost before = output@;
            if i < n {
                let c = costs_get(&self.costs, i);
                c.write_to(output);
            } else {
                let c = AttributeCost { attribute_type: -1, amount: 0, flag: 0 };
                c.write_to(output);
            }
            assert(output@ == before + cost_slot_bytes(s, i as int));
            i = i + 1;
            assert(output@ =~= old(output)@ + (if i == 1 {
                cost_slot_bytes(s, 0)
            } else if i == 2 {
                cost_slot_bytes(s, 0) + cost_slot_bytes(s, 1)
            } else {
                cost_slot_bytes(s, 0) + cost_slot_bytes(s, 1) + cost_slot_bytes(s, 2)
            }));
        }
        self.write_combat_tail(output);
        assert(output@ =~= old(output)@ + combat_bytes(self@));
    }

    fn write_combat_tail_1(&self, output: &mut Vec<u8>)
        requires
            combat_tail_writable(self@.tail),
        ensures
            final(output)@ == old(output)@ + combat_tail_bytes_1(self@.tail),
    {
        let ghost s0 = output@;
        put_u16_le(output, self.create_time);
        let ghost mut acc = u16_bytes(self@.tail.create_time);
        assert(output@ == s0 + acc);
        put_opt_u16(output, unit_to_opt(self.create_at_building));
        proof {
            lemma_add_assoc(s0, acc, opt_u16_bytes(self@.tail.create_at_building));
            acc = acc + opt_u16_bytes(self@.tail.create_at_building);
        }
        put_i8(output, self.create_button);
        proof {
            lemma_add_assoc(s0, acc, i8_bytes(self@.tail.create_button));
            acc = acc + i8_bytes(self@.tail.create_button);
        }
        put_u32_le(output, self.rear_attack_modifier);
        proof {
            lemma_add_assoc(s0, acc, u32_bytes(self@.tail.rear_attack_modifier));
            acc = acc + u32_bytes(self@.tail.rear_attack_modifier);
        }
        put_u32_le(output, self.flank_attack_modifier);
        proof {
            lemma_add_assoc(s0, acc, u32_bytes(self@.tail.flank_attack_modifier));
            acc = acc + u32_bytes(self@.tail.flank_attack_modifier);
        }
        output.push(0u8);
        proof {
            lemma_add_assoc(s0, acc, seq![0u8]);
            acc = acc + seq![0u8];
        }
        output.push(self.hero_flag);
        proof {
            lemma_add_assoc(s0, acc, seq![self@.tail.hero_flag]);
            acc = acc + seq![self@.tail.hero_flag];
        }
        assert(acc == combat_tail_bytes_1(self@.tail));
    }

    fn write_combat_tail_2(&self, output: &mut Vec<u8>)
        requires
            combat_tail_writable(self@.tail),
        ensures
            final(output)@ == old(output)@ + combat_tail_bytes_2(self@.tail),
    {
        let ghost s0 = output@;
        put_opt_id32(output, sprite_to_opt(self.garrison_sprite));
        let ghost mut acc = opt_u32_bytes(id32_of(self@.tail.garrison_sprite));
        assert(output@ == s0 + acc);
        put_u32_le(output, self.volley_fire_amount);
        proof {
            lemma_add_assoc(s0, acc, u32_bytes(self@.tail.volley_fire_amount));
            acc = acc + u32_bytes(self@.tail.volley_fire_amount);
        }
        put_i8(output, self.max_attacks_in_volley);
        proof {
            lemma_add_assoc(s0, acc, i8_bytes(self@.tail.max_attacks_in_volley));
            acc = acc + i8_bytes(self@.tail.max_attacks_in_volley);
        }
        put_u32_le(output, self.volley_spread.0);
        proof {
            lemma_add_assoc(s0, acc, u32_bytes(self@.tail.volley_spread_0));
            acc = acc + u32_bytes(self@.tail.volley_spread_0);
        }
        put_u32_le(output, self.volley_spread.1);
        proof {
            lemma_add_assoc(s0, acc, u32_bytes(self@.tail.volley_spread_1));
            acc = acc + u32_bytes(self@.tail.volley_spread_1);
        }
        put_u32_le(output, self.volley_start_spread_adjustment);
        proof {
            lemma_add_assoc(s0, acc, u32_bytes(self@.tail.volley_start_spread_adjustment));
            acc = acc + u32_bytes(self@.tail.volley_start_spread_adjustment);
        }
        put_opt_id32(output, unit_to_opt(self.volley_missile));
        proof {
            lemma_add_assoc(s0, acc, opt_u32_bytes(id32_of(self@.tail.volley_missile)));
            acc = acc + opt_u32_bytes(id32_of(self@.tail.volley_missile));
        }
        assert(acc == combat_tail_bytes_2(self@.tail));
    }

    fn write_combat_tail_3(&self, output: &mut Vec<u8>)
        requires
            combat_tail_writable(self@.tail),
        ensures
            final(output)@ == old(output)@ + combat_tail_bytes_3(self@.tail),
    {
        let ghost s0 = output@;
        put_opt_id32(output, sprite_to_opt(self.special_attack_sprite));
        let ghost mut acc = opt_u32_bytes(id32_of(self@.tail.special_attack_sprite));
        assert(output@ == s0 + acc);
        put_i8(output, self.special_attack_flag);
        proof {
            lemma_add_assoc(s0, acc, i8_bytes(self@.tail.special_attack_flag));
            acc = acc + i8_bytes(self@.tail.special_attack_flag);
        }
        put_i16_le(output, self.displayed_pierce_armor);
        proof {
            lemma_add_assoc(s0, acc, i16_bytes(self@.tail.displayed_pierce_armor));
            acc = acc + i16_bytes(self@.tail.displayed_pierce_armor);
        }
        assert(acc == combat_tail_bytes_3(self@.tail));
    }

    fn write_combat_tail(&self, output: &mut Vec<u8>)
        requires
            combat_tail_writable(self@.tail),
        ensures
            final(output)@ == old(output)@ + combat_tail_bytes(self@.tail),
    {
        self.write_combat_tail_1(output);
        self.write_combat_tail_2(output);
        self.write_combat_tail_3(output);
        assert(output@ =~= old(output)@ + combat_tail_bytes(self@.tail));
    }

}

/// What a list of linked buildings of `arrayvec` holds, by value.
pub uninterp spec fn held_links(v: ArrayVec<LinkedBuilding, 4>) -> Seq<LinkedBuildingView>;

/// `ArrayVec::new`: an empty list of linked buildings.
#[verifier::external_body]
fn links_new() -> (v: ArrayVec<LinkedBuilding, 4>)
    ensures
        held_links(v) == Seq::<LinkedBuildingView>::empty(),
{
    ArrayVec::new()
}

/// `ArrayVec::push`: appends a linked building; it panics on a full list, which `requires`
/// rules out.
#[verifier::external_body]
fn links_push(v: &mut ArrayVec<LinkedBuilding, 4>, l: LinkedBuilding)
    requires
        held_links(*old(v)).len() < 4,
    ensures
        held_links(*final(v)) == held_links(*old(v)).push(l@),
{
    v.push(l)
}

/// `ArrayVec::len`: the number of linked buildings, never more than the capacity of 4.
#[verifier::external_body]
fn links_len(v: &ArrayVec<LinkedBuilding, 4>) -> (n: usize)
    ensures
        n == held_links(*v).len(),
        n <= 4,
{
    v.len()
}

/// `ArrayVec::as_slice` indexed at `i`: the linked building at that place.
#[verifier::external_body]
fn links_get(v: &ArrayVec<LinkedBuilding, 4>, i: usize) -> (l: LinkedBuilding)
    requires
        i < held_links(*v).len(),
    ensures
        l@ == held_links(*v)[i as int],
{
    v.as_slice()[i]
}

/// What a list of salvage attributes of `arrayvec` holds.
pub uninterp spec fn held_salvage(v: ArrayVec<i8, 6>) -> Seq<i8>;

/// `ArrayVec::new`: an empty list of salvage attributes.
#[verifier::external_body]
fn salvage_new() -> (v: ArrayVec<i8, 6>)
    ensures
        held_salvage(v) == Seq::<i8>::empty(),
{
    ArrayVec::new()
}

/// `ArrayVec::push`: appends a salvage attribute; it panics on a full list, which `requires`
/// rules out.
#[verifier::external_body]
fn salvage_push(v: &mut ArrayVec<i8, 6>, a: i8)
    requires
        held_salvage(*old(v)).len() < 6,
    ensures
        held_salvage(*final(v)) == held_salvage(*old(v)).push(a),
{
    v.push(a)
}

/// `ArrayVec::len`: the number of salvage attributes, never more than the capacity of 6.
#[verifier::external_body]
fn salvage_len(v: &ArrayVec<i8, 6>) -> (n: usize)
    ensures
        n == held_salvage(*v).len(),
        n <= 6,
{
    v.len()
}

/// `ArrayVec::as_slice` indexed at `i`: the salvage attribute at that place.
#[verifier::external_body]
fn salvage_get(v: &ArrayVec<i8, 6>, i: usize) -> (a: i8)
    requires
        i < held_salvage(*v).len(),
    ensures
        a == held_salvage(*v)[i as int],
{
    v.as_slice()[i]
}

/// The linked buildings of `s` whose unit is not `0xFFFF`, in order.
pub open spec fn kept_links(s: Seq<LinkedBuildingView>) -> Seq<LinkedBuildingView>
    decreases s.len(),
{
    if s.len() == 0 {
        s
    } else if s.last().unit_id != 0xFFFF {
        kept_links(s.drop_last()).push(s.last())
    } else {
        kept_links(s.drop_last())
    }
}

/// The four linked buildings stored at `pos`.
pub open spec fn stored_links(data: Seq<u8>, pos: int) -> Seq<LinkedBuildingView> {
    seq![
        linked_building_at(data, pos),
        linked_building_at(data, pos + 10),
        linked_building_at(data, pos + 20),
        linked_building_at(data, pos + 30),
    ]
}

/// The linked building that stands for none: the unit `0xFFFF`, at offsets of zero.
pub open spec fn empty_link() -> LinkedBuildingView {
    LinkedBuildingView { unit_id: 0xFFFF, x_offset: 0, y_offset: 0 }
}

/// The bytes of place `i` of a list of linked buildings: the building there, or none.
pub open spec fn link_slot_bytes(s: Seq<LinkedBuildingView>, i: int) -> Seq<u8> {
    if i < s.len() {
        linked_building_bytes(s[i])
    } else {
        linked_building_bytes(empty_link())
    }
}

/// The bytes of the four places for linked buildings.
pub open spec fn link_slots_bytes(s: Seq<LinkedBuildingView>) -> Seq<u8> {
    link_slot_bytes(s, 0) + link_slot_bytes(s, 1) + link_slot_bytes(s, 2) + link_slot_bytes(s, 3)
}

/// The bytes of a list of signed bytes.
pub open spec fn i8s_bytes(s: Seq<i8>) -> Seq<u8> {
    Seq::new(s.len(), |i: int| unsigned_of(s[i] as int, 1) as u8)
}

/// Reads the four places for linked buildings at `pos`, keeping those whose unit is not
/// `0xFFFF`.
fn read_links(input: &[u8], pos: usize) -> (r: Result<(ArrayVec<LinkedBuilding, 4>, usize), ReadError>)
    ensures
        r is Ok <==> pos + 40 <= input.len(),
        r matches Ok((l, p)) ==> held_links(l) == kept_links(stored_links(input@, pos as int)) && p
            == pos + 40,
        r matches Err(e) ==> e == ReadError::UnexpectedEof,
{
    let mut linked_buildings = links_new();
    let mut p = pos;
    let mut i: usize = 0;
    let ghost all = stored_links(input@, pos as int);
    assert(all.take(0) =~= Seq::<LinkedBuildingView>::empty());
    while i < 4
        invariant
            i <= 4,
            p == pos + 10 * i,
            i > 0 ==> p <= input.len(),
            all == stored_links(input@, pos as int),
            held_links(linked_buildings) == kept_links(all.take(i as int)),
            held_links(linked_buildings).len() <= i,
        decreases 4 - i,
    {
        let (link, q) = LinkedBuilding::read_from(input, p)?;
        proof {
            assert(all.take(i + 1).drop_last() =~= all.take(i as int));
            assert(all.take(i + 1).last() == all[i as int]);
            assert(all[i as int] == linked_building_at(input@, pos + 10 * i));
        }
        if u16::from(link.unit_id) != 0xFFFF {
            links_push(&mut linked_buildings, link);
        }
        p = q;
        i = i + 1;
    }
    assert(all.take(4) =~= all);
    Ok((linked_buildings, p))
}

/// Reads the six salvage attributes at `pos`.
fn read_salvage(input: &[u8], pos: usize) -> (r: Result<(ArrayVec<i8, 6>, usize), ReadError>)
    ensures
        r is Ok <==> pos + 6 <= input.len(),
        r matches Ok((s, p)) ==> held_salvage(s) == Seq::new(6, |j: int| i8_at(input@, pos + j))
            && p == pos + 6,
        r matches Err(e) ==> e == ReadError::UnexpectedEof,
{
    let mut salvage_attributes = salvage_new();
    let mut p = pos;
    let mut k: usize = 0;
    assert(held_salvage(salvage_attributes) =~= Seq::new(0, |j: int| i8_at(input@, pos + j)));
    while k < 6
        invariant
            k <= 6,
            p == pos + k,
            k > 0 ==> p <= input.len(),
            held_salvage(salvage_attributes) == Seq::new(k as nat, |j: int| i8_at(input@, pos + j)),
        decreases 6 - k,
    {
        let (a, q) = read_i8(input, p)?;
        salvage_push(&mut salvage_attributes, a);
        assert(held_salvage(salvage_attributes) =~= Seq::new((k + 1) as nat, |j: int| i8_at(input@, pos + j)));
        p = q;
        k = k + 1;
    }
    Ok((salvage_attributes, p))
}

/// Attributes of unit types of buildings; heal and repair rates are bit patterns of `f32`s.
#[derive(Debug, Default)]
pub struct BuildingUnitTypeAttributes {
    /// Sprite to use during construction.
    pub construction_sprite: Option<SpriteID>,
    /// Sprite to use when this building is finished and built on snow.
    pub snow_sprite: Option<SpriteID>,
    pub connect_flag: u8,
    pub facet: i16,
    pub destroy_on_build: bool,
    pub on_build_make_unit: Option<UnitTypeID>,
    pub on_build_make_tile: Option<TerrainID>,
    pub on_build_make_overlay: i16,
    pub on_build_make_tech: Option<TechID>,
    pub can_burn: bool,
    pub linked_buildings: ArrayVec<LinkedBuilding, 4>,
    pub construction_unit: Option<UnitTypeID>,
    pub transform_unit: Option<UnitTypeID>,
    pub transform_sound: Option<SoundID>,
    pub construction_sound: Option<SoundID>,
    pub garrison_type: i8,
    pub garrison_heal_rate: u32,
    pub garrison_repair_rate: u32,
    pub salvage_unit: Option<UnitTypeID>,
    pub salvage_attributes: ArrayVec<i8, 6>,
}

impl Clone for BuildingUnitTypeAttributes {
    fn clone(&self) -> (r: Self) {
        BuildingUnitTypeAttributes {
            construction_sprite: self.construction_sprite,
            snow_sprite: self.snow_sprite,
            linked_buildings: self.linked_buildings.clone(),
            salvage_attributes: self.salvage_attributes.clone(),
            connect_flag: self.connect_flag,
            facet: self.facet,
            destroy_on_build: self.destroy_on_build,
            on_build_make_unit: self.on_build_make_unit,
            on_build_make_tile: self.on_build_make_tile,
            on_build_make_overlay: self.on_build_make_overlay,
            on_build_make_tech: self.on_build_make_tech,
            can_burn: self.can_burn,
            construction_unit: self.construction_unit,
            transform_unit: self.transform_unit,
            transform_sound: self.transform_sound,
            construction_sound: self.construction_sound,
            garrison_type: self.garrison_type,
            garrison_heal_rate: self.garrison_heal_rate,
            garrison_repair_rate: self.garrison_repair_rate,
            salvage_unit: self.salvage_unit,
        }
    }
}

/// The values of building attributes.
pub ghost struct BuildingView {
    pub construction_sprite: Option<u16>,
    pub snow_sprite: Option<u16>,
    pub head: BuildingHeadView,
    pub linked_buildings: Seq<LinkedBuildingView>,
    pub tail: BuildingTailView,
    pub salvage_attributes: Seq<i8>,
}

impl View for BuildingUnitTypeAttributes {
    type V = BuildingView;

    open spec fn view(&self) -> BuildingView {
        BuildingView {
            construction_sprite: opt_sprite(self.construction_sprite),
            snow_sprite: opt_sprite(self.snow_sprite),
            head: BuildingHeadView {
                connect_flag: self.connect_flag,
                facet: self.facet,
                destroy_on_build: self.destroy_on_build,
                on_build_make_unit: opt_unit(self.on_build_make_unit),
                on_build_make_tile: opt_terrain(self.on_build_make_tile),
                on_build_make_overlay: self.on_build_make_overlay,
                on_build_make_tech: opt_tech(self.on_build_make_tech),
                can_burn: self.can_burn,
            },
            linked_buildings: held_links(self.linked_buildings),
            tail: BuildingTailView {
                construction_unit: opt_unit(self.construction_unit),
                transform_unit: opt_unit(self.transform_unit),
                transform_sound: opt_sound(self.transform_sound),
                construction_sound: opt_sound(self.construction_sound),
                garrison_type: self.garrison_type,
                garrison_heal_rate: self.garrison_heal_rate,
                garrison_repair_rate: self.garrison_repair_rate,
                salvage_unit: opt_unit(self.salvage_unit),
            },
            salvage_attributes: held_salvage(self.salvage_attributes),
        }
    }
}

/// Whether a building read from a data file of this version has a snow sprite: from data
/// version 11.53 on (and for a version that is not a number).
pub open spec fn reads_snow(version: u32) -> bool {
    !f32_below(version, VERSION_11_53)
}

/// Whether a building written to a data file of this version gets a snow sprite: from data
/// version 11.53 on.
pub open spec fn writes_snow(version: u32) -> bool {
    f32_at_least(version, VERSION_11_53)
}

/// The building attributes stored at `pos` in a data file of the given version: the
/// construction sprite, the snow sprite where the version has one, the fixed part, four
/// places for linked buildings (those whose unit is not `0xFFFF` are kept), the rest, and
/// six salvage attributes; and the position after them.
pub open spec fn building_at(data: Seq<u8>, pos: int, version: u32) -> Option<(BuildingView, int)> {
    let p1 = if reads_snow(version) {
        pos + 4
    } else {
        pos + 2
    };
    let p2 = p1 + 13;
    let p3 = p2 + 40;
    let p4 = p3 + 19;
    if p4 + 6 > data.len() {
        None
    } else {
        Some(
            (
                BuildingView {
                    construction_sprite: opt_u16_at(data, pos),
                    snow_sprite: if reads_snow(version) {
                        opt_u16_at(data, pos + 2)
                    } else {
                        None
                    },
                    head: building_head_at(data, p1),
                    linked_buildings: kept_links(stored_links(data, p2)),
                    tail: building_tail_at(data, p3),
                    salvage_attributes: Seq::new(6, |i: int| i8_at(data, p4 + i)),
                },
                p4 + 6,
            ),
        )
    }
}

/// The bytes building attributes are stored as in a data file of the given version.
pub open spec fn building_bytes(v: BuildingView, version: u32) -> Seq<u8> {
    opt_u16_bytes(v.construction_sprite) + (if writes_snow(version) {
        opt_u16_bytes(v.snow_sprite)
    } else {
        Seq::empty()
    }) + building_head_bytes(v.head) + link_slots_bytes(v.linked_buildings) + building_tail_bytes(
        v.tail,
    ) + i8s_bytes(v.salvage_attributes)
}

impl BuildingUnitTypeAttributes {
    /// Read building attributes at `pos` in a data file whose version has the given `f32`
    /// bit pattern; returns them and the position after them.
    pub fn read_from(input: &[u8], pos: usize, version: u32) -> (r: Result<(Self, usize), ReadError>)
        ensures
            match building_at(input@, pos as int, version) {
                Some((v, q)) => r matches Ok((a, p)) && a@ == v && p == q,
                None => r == Err::<(Self, usize), ReadError>(ReadError::UnexpectedEof),
            },
    {
        let (construction_sprite, p) = read_opt_u16(input, pos)?;
        let construction_sprite = sprite_from_opt(construction_sprite);
        let (snow_sprite, p) = if f32_bits_below(version, VERSION_11_53) {
            (None, p)
        } else {
            let (s, p) = read_opt_u16(input, p)?;
            (sprite_from_opt(s), p)
        };
        let (connect_flag, p) = read_u8(input, p)?;
        let (facet, p) = read_i16_le(input, p)?;
        let (destroy_on_build, p) = read_flag(input, p)?;
        let (on_build_make_unit, p) = read_opt_u16(input, p)?;
        let on_build_make_unit = unit_from_opt(on_build_make_unit);
        let (on_build_make_tile, p) = read_opt_u16(input, p)?;
        let on_build_make_tile = terrain_from_opt(on_build_make_tile);
        let (on_build_make_overlay, p) = read_i16_le(input, p)?;
        let (on_build_make_tech, p) = read_opt_u16(input, p)?;
        let on_build_make_tech = tech_from_opt(on_build_make_tech);
        let (can_burn, p) = read_flag(input, p)?;
        let (linked_buildings, p) = read_links(input, p)?;
        let (construction_unit, p) = read_opt_u16(input, p)?;
        let construction_unit = unit_from_opt(construction_unit);
        let (transform_unit, p) = read_opt_u16(input, p)?;
        let transform_unit = unit_from_opt(transform_unit);
        let (transform_sound, p) = read_opt_u16(input, p)?;
        let transform_sound = sound_from_opt(transform_sound);
        let (construction_sound, p) = read_opt_u16(input, p)?;
        let construction_sound = sound_from_opt(construction_sound);
        let (garrison_type, p) = read_i8(input, p)?;
        let (garrison_heal_rate, p) = read_u32_le(input, p)?;
        let (garrison_repair_rate, p) = read_u32_le(input, p)?;
        let (salvage_unit, p) = read_opt_u16(input, p)?;
        let salvage_unit = unit_from_opt(salvage_unit);
        let (salvage_attributes, p) = read_salvage(input, p)?;
        Ok((BuildingUnitTypeAttributes { construction_sprite, snow_sprite, connect_flag, facet, destroy_on_build, on_build_make_unit, on_build_make_tile, on_build_make_overlay, on_build_make_tech, can_burn, construction_unit, transform_unit, transform_sound, construction_sound, garrison_type, garrison_heal_rate, garrison_repair_rate, salvage_unit, linked_buildings, salvage_attributes }, p))
    }

    /// Append these attributes to `output` for a data file whose version has the given
    /// `f32` bit pattern.
    pub fn write_to(&self, output: &mut Vec<u8>, version: u32)
        ensures
            final(output)@ == old(output)@ + building_bytes(self@, version),
    {
        put_opt_u16(output, sprite_to_opt(self.construction_sprite));
        if f32_bits_at_least(version, VERSION_11_53) {
            put_opt_u16(output, sprite_to_opt(self.snow_sprite));
        }
        let ghost mid = output@;
        assert(mid =~= old(output)@ + opt_u16_bytes(self@.construction_sprite) + (if writes_snow(version) {
            opt_u16_bytes(self@.snow_sprite)
        } else {
            Seq::empty()
        }));
        self.write_building_head(output);
        self.write_links(output);
        self.write_building_tail(output);
        let ghost s = held_salvage(self.salvage_attributes);
        let ghost before = output@;
        let n = salvage_len(&self.salvage_attributes);
        let mut k: usize = 0;
        while k < n
            invariant
                k <= n,
                n == s.len(),
                s == held_salvage(self.salvage_attributes),
                output@ == before + i8s_bytes(s.take(k as int)),
            decreases n - k,
        {
            let a = salvage_get(&self.salvage_attributes, k);
            put_i8(output, a);
            assert(i8s_bytes(s.take(k + 1)) =~= i8s_bytes(s.take(k as int)) + seq![unsigned_of(a as int, 1) as u8]);
            k = k + 1;
        }
        assert(s.take(n as int) =~= s);
        assert(output@ =~= old(output)@ + building_bytes(self@, version));
    }

    fn write_links(&self, output: &mut Vec<u8>)
        ensures
            final(output)@ == old(output)@ + link_slots_bytes(self@.linked_buildings),
    {
        let ghost s = held_links(self.linked_buildings);
        let n = links_len(&self.linked_buildings);
        let mut i: usize = 0;
        let ghost mut acc: Seq<u8> = Seq::empty();
        while i < 4
            invariant
                i <= 4,
                n == s.len(),
                s == held_links(self.linked_buildings),
                output@ == old(output)@ + acc,
                acc == (if i == 0 {
                    Seq::<u8>::empty()
                } else if i == 1 {
                    link_slot_bytes(s, 0)
                } else if i == 2 {
                    link_slot_bytes(s, 0) + link_slot_bytes(s, 1)
                } else if i == 3 {
                    link_slot_bytes(s, 0) + link_slot_bytes(s, 1) + link_slot_bytes(s, 2)
                } else {
                    link_slots_bytes(s)
                }),
            decreases 4 - i,
        {
            if i < n {
                let l = links_get(&self.linked_buildings, i);
                l.write_to(output);
            } else {
                let l = LinkedBuilding { unit_id: UnitTypeID::from(0xFFFFu16), x_offset: 0, y_offset: 0 };
                l.write_to(output);
            }
            proof {
                acc = acc + link_slot_bytes(s, i as int);
            }
            assert(output@ =~= old(output)@ + acc);
            i = i + 1;
        }
    }

    fn write_building_head_1(&self, output: &mut Vec<u8>)
        requires
            building_head_writable(self@.head),
        ensures
            final(output)@ == old(output)@ + building_head_bytes_1(self@.head),
    {
        let ghost s0 = output@;
        output.push(self.connect_flag);
        let ghost mut acc = seq![self@.head.connect_flag];
        assert(output@ == s0 + acc);
        put_i16_le(output, self.facet);
        proof {
            lemma_add_assoc(s0, acc, i16_bytes(self@.head.facet));
            acc = acc + i16_bytes(self@.head.facet);
        }
        put_flag(output, self.destroy_on_build);
        proof {
            lemma_add_assoc(s0, acc, flag_bytes(self@.head.destroy_on_build));
            acc = acc + flag_bytes(self@.head.destroy_on_build);
        }
        put_opt_u16(output, unit_to_opt(self.on_build_make_unit));
        proof {
            lemma_add_assoc(s0, acc, opt_u16_bytes(self@.head.on_build_make_unit));
            acc = acc + opt_u16_bytes(self@.head.on_build_make_unit);
        }
        put_opt_u16(output, terrain_to_opt(self.on_build_make_tile));
        proof {
            lemma_add_assoc(s0, acc, opt_u16_bytes(self@.head.on_build_make_tile));
            acc = acc + opt_u16_bytes(self@.head.on_build_make_tile);
        }
        put_i16_le(output, self.on_build_make_overlay);
        proof {
            lemma_add_assoc(s0, acc, i16_bytes(self@.head.on_build_make_overlay));
            acc = acc + i16_bytes(self@.head.on_build_make_overlay);
        }
        put_opt_u16(output, tech_to_opt(self.on_build_make_tech));
        proof {
            lemma_add_assoc(s0, acc, opt_u16_bytes(self@.head.on_build_make_tech));
            acc = acc + opt_u16_bytes(self@.head.on_build_make_tech);
        }
        assert(acc == building_head_bytes_1(self@.head));
    }

    fn write_building_head_2(&self, output: &mut Vec<u8>)
        requires
            building_head_writable(self@.head),
        ensures
            final(output)@ == old(output)@ + building_head_bytes_2(self@.head),
    {
        let ghost s0 = output@;
        put_flag(output, self.can_burn);
        let ghost mut acc = flag_bytes(self@.head.can_burn);
        assert(output@ == s0 + acc);
        assert(acc == building_head_bytes_2(self@.head));
    }

    fn write_building_head(&self, output: &mut Vec<u8>)
        requires
            building_head_writable(self@.head),
        ensures
            final(output)@ == old(output)@ + building_head_bytes(self@.head),
    {
        self.write_building_head_1(output);
        self.write_building_head_2(output);
        assert(output@ =~= old(output)@ + building_head_bytes(self@.head));
    }

    fn write_building_tail_1(&self, output: &mut Vec<u8>)
        requires
            building_tail_writable(self@.tail),
        ensures
            final(output)@ == old(output)@ + building_tail_bytes_1(self@.tail),
    {
        let ghost s0 = output@;
        put_opt_u16(output, unit_to_opt(self.construction_unit));
        let ghost mut acc = opt_u16_bytes(self@.tail.construction_unit);
        assert(output@ == s0 + acc);
        put_opt_u16(output, unit_to_opt(self.transform_unit));
        proof {
            lemma_add_assoc(s0, acc, opt_u16_bytes(self@.tail.transform_unit));
            acc = acc + opt_u16_bytes(self@.tail.transform_unit);
        }
        put_opt_u16(output, sound_to_opt(self.transform_sound));
        proof {
            lemma_add_assoc(s0, acc, opt_u16_bytes(self@.tail.transform_sound));
            acc = acc + opt_u16_bytes(self@.tail.transform_sound);
        }
        put_opt_u16(output, sound_to_opt(self.construction_sound));
        proof {
            lemma_add_assoc(s0, acc, opt_u16_bytes(self@.tail.construction_sound));
            acc = acc + opt_u16_bytes(self@.tail.construction_sound);
        }
        put_i8(output, self.garrison_type);
        proof {
            lemma_add_assoc(s0, acc, i8_bytes(self@.tail.garrison_type));
            acc = acc + i8_bytes(self@.tail.garrison_type);
        }
        put_u32_le(output, self.garrison_heal_rate);
        proof {
            lemma_add_assoc(s0, acc, u32_bytes(self@.tail.garrison_heal_rate));
            acc = acc + u32_bytes(self@.tail.garrison_heal_rate);
        }
        put_u32_le(output, self.garrison_repair_rate);
        proof {
            lemma_add_assoc(s0, acc, u32_bytes(self@.tail.garrison_repair_rate));
            acc = acc + u32_bytes(self@.tail.garrison_repair_rate);
        }
        assert(acc == building_tail_bytes_1(self@.tail));
    }

    fn write_building_tail_2(&self, output: &mut Vec<u8>)
        requires
            building_tail_writable(self@.tail),
        ensures
            final(output)@ == old(output)@ + building_tail_bytes_2(self@.tail),
    {
        let ghost s0 = output@;
        put_opt_u16(output, unit_to_opt(self.salvage_unit));
        let ghost mut acc = opt_u16_bytes(self@.tail.salvage_unit);
        assert(output@ == s0 + acc);
        assert(acc == building_tail_bytes_2(self@.tail));
    }

    fn write_building_tail(&self, output: &mut Vec<u8>)
        requires
            building_tail_writable(self@.tail),
        ensures
            final(output)@ == old(output)@ + building_tail_bytes(self@.tail),
    {
        self.write_building_tail_1(output);
        self.write_building_tail_2(output);
        assert(output@ =~= old(output)@ + building_tail_bytes(self@.tail));
    }

}

} // verus!
