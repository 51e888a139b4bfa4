use genie::dat::sprite_record::Sprite;
use genie::dat::tech_effect::{EffectCommand, TechEffect};
use genie::dat::{SoundProp, SpriteAttackSound, SpriteDelta};
use genie::codec::ReadError;
use genie::dat::combat::{
    BaseCombatUnitTypeAttributes, BuildingUnitTypeAttributes, CombatUnitTypeAttributes,
    VERSION_11_52, VERSION_11_53,
};
use genie::dat::task::{Task, TaskList};
use genie::dat::terrain_tables::{TerrainAnimation, TerrainPassGraphic, TerrainRestriction};
use genie::dat::unit_attrs::{
    ActionUnitTypeAttributes, AnimatedUnitTypeAttributes, LinkedBuilding,
    MissileUnitTypeAttributes, MovingUnitTypeAttributes, UnitAttribute,
};
use genie::dat::unit_static::{StaticUnitTypeAttributes, UnitType, VERSION_11_55};
use genie::dat::unit_type::UnitBaseClass;
use genie::dat::{AttributeCost, FileVersion, SpriteID, UnitTypeID, WeaponInfo};
use genie::lang::string_key::StringKey;

const AOC: u32 = 0x413f_851f; // 11.97f32

fn task_bytes() -> Vec<u8> {
    let mut b = vec![7, 0, 1, 3, 0, 0xfe, 0xff, 83, 0, 2, 0];
    for v in [1i16, 2, 3, 4] {
        b.extend_from_slice(&v.to_le_bytes());
    }
    for f in [1.5f32, 2.0, 3.0] {
        b.extend_from_slice(&f.to_le_bytes());
    }
    b.push(1);
    b.extend_from_slice(&0.25f32.to_le_bytes());
    b.extend_from_slice(&[0, 4, 5, 0, 6, 0, 9, 8, 7]);
    for v in [100u16, 0xffff, 101, 102, 50, 0xffff] {
        b.extend_from_slice(&v.to_le_bytes());
    }
    b
}

#[test]
fn task_round_trip() {
    let data = task_bytes();
    assert_eq!(data.len(), 57);
    let (task, pos) = Task::read_from(&data, 0).unwrap();
    assert_eq!(pos, 57);
    let mut out = vec![];
    task.write_to(&mut out);
    assert_eq!(out, data);
    assert_eq!(Task::read_from(&data[..56], 0).err(), Some(ReadError::UnexpectedEof));
}

#[test]
fn task_list_types_are_read_not_written() {
    let mut data = vec![2, 0];
    for _ in 0..2 {
        data.extend_from_slice(&[1, 0]);
        data.extend_from_slice(&task_bytes());
    }
    let (list, pos) = TaskList::read_from(&data, 0).unwrap();
    assert_eq!(list.len(), 2);
    assert_eq!(pos, 2 + 2 * 59);
    let mut out = vec![];
    list.write_to(&mut out);
    assert_eq!(out.len(), 2 + 2 * 57);
    assert_eq!(&out[2..59], &task_bytes()[..]);
    assert!(TaskList::read_from(&data[..60], 0).is_err());
}

#[test]
fn small_unit_records() {
    let attr = UnitAttribute { attribute_type: 4, amount: 10.0f32.to_bits(), flag: 1 };
    let mut out = vec![];
    attr.write_to(&mut out);
    assert_eq!(out.len(), 7);
    let (back, _) = UnitAttribute::read_from(&out, 0).unwrap();
    assert_eq!(f32::from_bits(back.amount), 10.0);
    let link = LinkedBuilding { unit_id: UnitTypeID::from(12u16), x_offset: 0, y_offset: 1 };
    let mut out = vec![];
    link.write_to(&mut out);
    assert_eq!(out, vec![12, 0, 0, 0, 0, 0, 1, 0, 0, 0]);
    let animated = AnimatedUnitTypeAttributes { speed: 1.2f32.to_bits() };
    let mut out = vec![];
    animated.write_to(&mut out);
    assert_eq!(out, 1.2f32.to_le_bytes().to_vec());
    let missile = MissileUnitTypeAttributes {
        missile_type: 1,
        targetting_type: 2,
        missile_hit_info: 3,
        missile_die_info: 4,
        area_effect_specials: 5,
        ballistics_ratio: 0,
    };
    let mut out = vec![];
    missile.write_to(&mut out);
    assert_eq!(out, vec![1, 2, 3, 4, 5, 0, 0, 0, 0]);
}

#[test]
fn moving_and_action_round_trip() {
    let mut moving = MovingUnitTypeAttributes::default();
    moving.move_sprite = Some(SpriteID::from(44u16));
    moving.turn_radius = 3.0f32.to_bits();
    let mut out = vec![];
    moving.write_to(&mut out);
    assert_eq!(out.len(), 37);
    assert_eq!(&out[0..4], &[44, 0, 0xff, 0xff]);
    let (back, pos) = MovingUnitTypeAttributes::read_from(&out, 0).unwrap();
    assert_eq!(pos, 37);
    assert_eq!(back.move_sprite, Some(SpriteID::from(44u16)));
    assert_eq!(back.run_sprite, None);
    assert_eq!(f32::from_bits(back.turn_radius), 3.0);
    let mut action = ActionUnitTypeAttributes::default();
    action.default_task = Some(3);
    action.run_pattern = 9;
    let mut out = vec![];
    action.write_to(&mut out);
    assert_eq!(out.len(), 20);
    let (back, _) = ActionUnitTypeAttributes::read_from(&out, 0).unwrap();
    assert_eq!(back.default_task, Some(3));
    assert_eq!(back.run_pattern, 9);
    assert!(back.tasks.is_none());
}

#[test]
fn base_combat_armor_width_by_version() {
    let mut bc = BaseCombatUnitTypeAttributes::default();
    bc.base_armor = 3;
    bc.weapons = vec![WeaponInfo { weapon_type: 4, value: 6 }];
    bc.missile_id = Some(UnitTypeID::from(5u16));
    let mut old = vec![];
    bc.write_to(&mut old, VERSION_11_52 - 1);
    let mut new = vec![];
    bc.write_to(&mut new, VERSION_11_52);
    assert_eq!(new.len(), old.len() + 1);
    assert_eq!(&old[0..3], &[3, 1, 0]);
    assert_eq!(&new[0..4], &[3, 0, 1, 0]);
    let (back, pos) = BaseCombatUnitTypeAttributes::read_from(&new, 0, AOC).unwrap();
    assert_eq!(pos, new.len());
    assert_eq!(back.base_armor, 3);
    assert_eq!(back.weapons.len(), 1);
    assert_eq!(back.weapons[0].value, 6);
    assert!(back.armors.is_empty());
    assert_eq!(back.missile_id, Some(UnitTypeID::from(5u16)));
    assert!(BaseCombatUnitTypeAttributes::read_from(&new[..new.len() - 1], 0, AOC).is_err());
}

#[test]
fn combat_keeps_nonnegative_costs() {
    let mut c = CombatUnitTypeAttributes::default();
    c.costs.push(AttributeCost { attribute_type: 0, amount: 50, flag: 1 });
    c.garrison_sprite = Some(SpriteID::from(7u16));
    c.volley_missile = None;
    let mut out = vec![];
    c.write_to(&mut out);
    // the empty places are costs of attribute -1
    assert_eq!(&out[6..12], &[0xff, 0xff, 0, 0, 0, 0]);
    let (back, pos) = CombatUnitTypeAttributes::read_from(&out, 0).unwrap();
    assert_eq!(pos, out.len());
    assert_eq!(back.costs.len(), 1);
    assert_eq!(back.costs[0].amount, 50);
    assert_eq!(back.garrison_sprite, Some(SpriteID::from(7u16)));
    assert_eq!(back.volley_missile, None);
}

#[test]
fn building_snow_sprite_by_version() {
    let mut b = BuildingUnitTypeAttributes::default();
    b.snow_sprite = Some(SpriteID::from(9u16));
    b.linked_buildings.push(LinkedBuilding { unit_id: UnitTypeID::from(2u16), x_offset: 0, y_offset: 0 });
    for a in [1i8, -2, 3, 4, 5, 6] {
        b.salvage_attributes.push(a);
    }
    let mut old = vec![];
    b.write_to(&mut old, VERSION_11_53 - 1);
    let mut new = vec![];
    b.write_to(&mut new, VERSION_11_53);
    assert_eq!(new.len(), old.len() + 2);
    let (back, pos) = BuildingUnitTypeAttributes::read_from(&new, 0, VERSION_11_53).unwrap();
    assert_eq!(pos, new.len());
    assert_eq!(back.snow_sprite, Some(SpriteID::from(9u16)));
    assert_eq!(back.linked_buildings.len(), 1);
    assert_eq!(back.salvage_attributes.as_slice(), &[1, -2, 3, 4, 5, 6]);
    let (back, _) = BuildingUnitTypeAttributes::read_from(&old, 0, VERSION_11_53 - 1).unwrap();
    assert_eq!(back.snow_sprite, None);
}

#[test]
fn static_attributes_round_trip() {
    let mut s = StaticUnitTypeAttributes::default();
    s.id = UnitTypeID::from(83u16);
    s.string_id = StringKey::from(5001u32);
    s.help_string_id = StringKey::from(26001u32);
    s.hp = 25;
    s.object_flags = 7;
    s.attributes.push(UnitAttribute { attribute_type: 11, amount: 0, flag: 0 });
    let mut out = vec![];
    assert!(s.write_to(&mut out).is_ok());
    let (back, pos) = StaticUnitTypeAttributes::read_from(&out, 0, AOC).unwrap();
    assert_eq!(pos, out.len());
    assert_eq!(back.id, UnitTypeID::from(83u16));
    assert_eq!(back.hp, 25);
    assert_eq!(back.object_flags, 7);
    assert_eq!(back.attributes.len(), 1);
    assert_eq!(back.name(), "");
    let mut again = vec![];
    assert!(back.write_to(&mut again).is_ok());
    assert_eq!(again, out);
    // Before data version 11.55 there are no object flags to read.
    let (older, _) = StaticUnitTypeAttributes::read_from(&out, 0, VERSION_11_55 - 1).unwrap();
    assert_eq!(older.object_flags, 0);
}

#[test]
fn unit_type_round_trip() {
    let mut static_ = StaticUnitTypeAttributes::default();
    static_.string_id = StringKey::from(1u32);
    let unit = UnitType {
        unit_base_class: UnitBaseClass::Moving,
        static_,
        animated: Some(AnimatedUnitTypeAttributes { speed: 1.0f32.to_bits() }),
        moving: Some(MovingUnitTypeAttributes::default()),
        action: None,
        base_combat: None,
        missile: None,
        combat: None,
        building: None,
    };
    let mut out = vec![];
    assert!(unit.write_to(&mut out, AOC).is_ok());
    assert_eq!(out[0], 30);
    let (back, pos) = UnitType::read_from(&out, 0, AOC).unwrap();
    assert_eq!(pos, out.len());
    assert_eq!(back.unit_base_class, UnitBaseClass::Moving);
    assert!(back.animated.is_some() && back.moving.is_some() && back.action.is_none());
    let mut again = vec![];
    assert!(back.write_to(&mut again, AOC).is_ok());
    assert_eq!(again, out);
}

#[test]
fn terrain_tables_round_trip() {
    let v = FileVersion::from(*b"VER 5.7\0");
    let mut data = vec![];
    data.extend_from_slice(&1.0f32.to_le_bytes());
    data.extend_from_slice(&0.5f32.to_le_bytes());
    for g in [[5i32, -1, 6, 2], [-1, -1, -1, 0]] {
        for x in g {
            data.extend_from_slice(&x.to_le_bytes());
        }
    }
    let (table, pos) = TerrainRestriction::from(&data, 0, v, 2).unwrap();
    assert_eq!(pos, 40);
    let mut out = vec![];
    table.write_to(&mut out, v, 2);
    assert_eq!(out, data);
    let (g, _) = TerrainPassGraphic::from(&data, 8, v).unwrap();
    let mut out = vec![];
    g.write_to(&mut out, v);
    assert_eq!(out, data[8..24].to_vec());
    let mut anim = vec![1u8, 2, 0, 3, 0];
    anim.extend_from_slice(&[0; 8]);
    anim.extend_from_slice(&[4, 0, 5, 0, 0, 0, 0, 0, 1, 0]);
    let (a, pos) = TerrainAnimation::from(&anim, 0).unwrap();
    assert_eq!(pos, 23);
    assert!(a.enabled);
    let mut out = vec![];
    a.write_to(&mut out);
    assert_eq!(out, anim);
}

#[test]
fn tech_effect_round_trip() {
    let mut data = b"Wheelbarrow".to_vec();
    data.resize(31, 0);
    data.extend_from_slice(&[1, 0]);
    data.push(5);
    for v in [1i16, -1, 2] {
        data.extend_from_slice(&v.to_le_bytes());
    }
    data.extend_from_slice(&0.25f32.to_le_bytes());
    let (effect, pos) = TechEffect::read_from(&data, 0).unwrap();
    assert_eq!(pos, data.len());
    assert_eq!(effect.name(), "Wheelbarrow");
    assert_eq!(effect.commands.len(), 1);
    assert_eq!(effect.commands[0].params.1, -1);
    assert_eq!(f32::from_bits(effect.commands[0].params.3), 0.25);
    let mut out = vec![];
    effect.write_to(&mut out);
    assert_eq!(out, data);
    let mut renamed = effect.clone();
    renamed.set_name("Hand Cart");
    assert_eq!(renamed.name(), "Hand Cart");
    let c = EffectCommand { command_type: 2, params: (0, 0, 0, 0) };
    let mut out = vec![];
    c.write_to(&mut out);
    assert_eq!(out.len(), 11);
    assert!(TechEffect::read_from(&data[..40], 0).is_err());
}

#[test]
fn sprite_round_trip() {
    let mut s = Sprite::default();
    s.name = String::from("ARCHR");
    s.filename = String::from("archr.slp");
    s.num_angles = 1;
    s.deltas.push(SpriteDelta { sprite_id: Some(SpriteID::from(3u16)), offset_x: -1, offset_y: 2, display_angle: 0 });
    let mut sounds = SpriteAttackSound::default();
    sounds.sound_props.push(SoundProp { sound_delay: 5, sound_id: genie::dat::SoundID::from(9u16) });
    s.attack_sounds.push(sounds);
    let mut out = vec![];
    assert!(s.write_to(&mut out).is_ok());
    assert_eq!(out.len(), 78 + 16 + 12);
    assert_eq!(&out[0..6], b"ARCHR\0");
    assert_eq!(&out[34..38], &[0xff, 0xff, 0xff, 0xff]);
    let (back, pos) = Sprite::read_from(&out, 0).unwrap();
    assert_eq!(pos, out.len());
    assert_eq!(back.name, "ARCHR");
    assert_eq!(back.filename, "archr.slp");
    assert_eq!(back.deltas.len(), 1);
    assert_eq!(back.attack_sounds.len(), 1);
    let mut again = vec![];
    assert!(back.write_to(&mut again).is_ok());
    assert_eq!(again, out);
    let mut long = Sprite::default();
    long.name = String::from("a name longer than the field");
    let mut out = vec![];
    assert_eq!(long.write_to(&mut out), Err(ReadError::InvalidData));
    assert!(out.is_empty());
}
