use genie::codec::ReadError;
use genie::dat::{
    AttributeCost, ColorTable, DamageSprite, FileVersion, SoundProp, Sound, SpriteAttackSound,
    SpriteDelta, Tech, TechEffectRef, TechTree, TechTreeAge, TechTreeDependencies, TechTreeStatus,
    TechTreeType, TileSize, WeaponInfo,
};

fn le_i32(v: i32) -> [u8; 4] {
    v.to_le_bytes()
}

#[test]
fn tile_size_read_write() {
    let bytes = [1u8, 0, 0xFE, 0xFF, 3, 0];
    let (t, p) = TileSize::from(&bytes, 0).unwrap();
    assert_eq!((t.width, t.height, t.delta_z), (1, -2, 3));
    assert_eq!(p, 6);
    let mut out = vec![];
    t.write_to(&mut out);
    assert_eq!(out, bytes.to_vec());
    assert_eq!(TileSize::from(&bytes[..5], 0).unwrap_err(), ReadError::UnexpectedEof);
}

#[test]
fn attribute_cost_padding() {
    let bytes = [4u8, 0, 10, 0, 1, 0xAB];
    let (c, p) = AttributeCost::read_from(&bytes, 0).unwrap();
    assert_eq!((c.attribute_type, c.amount, c.flag), (4, 10, 1));
    assert_eq!(p, 6);
    let mut out = vec![];
    c.write_to(&mut out);
    // The padding byte is written as zero.
    assert_eq!(out, vec![4u8, 0, 10, 0, 1, 0]);
}

#[test]
fn damage_sprite_and_weapon_info() {
    let bytes = [7u8, 0, 50, 0, 2];
    let (d, _) = DamageSprite::read_from(&bytes, 0).unwrap();
    assert_eq!(u16::from(d.sprite), 7);
    assert_eq!(d.damage_percent, 50);
    let mut out = vec![];
    d.write_to(&mut out);
    assert_eq!(out, bytes.to_vec());

    let w = WeaponInfo { weapon_type: 3, value: -1 };
    let mut out = vec![];
    w.write_to(&mut out);
    assert_eq!(out, vec![3u8, 0, 0xFF, 0xFF]);
    let (w2, _) = WeaponInfo::read_from(&out, 0).unwrap();
    assert_eq!((w2.weapon_type, w2.value), (3, -1));
}

#[test]
fn attack_sounds_skip_empty_places() {
    let bytes = [
        5u8, 0, 1, 0, // delay 5, sound 1
        0, 0, 0xFF, 0xFF, // no sound
        6, 0, 2, 0, // delay 6, sound 2
    ];
    let (s, p) = SpriteAttackSound::read_from(&bytes, 0).unwrap();
    assert_eq!(p, 12);
    assert_eq!(s.sound_props.len(), 2);
    assert_eq!(u16::from(s.sound_props[1].sound_id), 2);
    let mut out = vec![];
    s.write_to(&mut out);
    assert_eq!(out, vec![5u8, 0, 1, 0, 6, 0, 2, 0, 0, 0, 0xFF, 0xFF]);

    let mut out = vec![];
    SoundProp::write_empty(&mut out);
    assert_eq!(out, vec![0u8, 0, 0xFF, 0xFF]);
}

#[test]
fn sprite_delta_without_sprite() {
    let mut bytes = vec![0xFFu8, 0xFF, 9, 9, 1, 2, 3, 4];
    bytes.extend_from_slice(&[10, 0, 20, 0, 30, 0, 7, 7]);
    let (d, p) = SpriteDelta::read_from(&bytes, 0).unwrap();
    assert_eq!(p, 16);
    assert!(d.sprite_id.is_none());
    assert_eq!((d.offset_x, d.offset_y, d.display_angle), (10, 20, 30));
    let mut out = vec![];
    d.write_to(&mut out);
    assert_eq!(out, vec![0xFFu8, 0xFF, 0, 0, 0, 0, 0, 0, 10, 0, 20, 0, 30, 0, 0, 0]);
}

#[test]
fn tech_effect_ref_enabled_flag() {
    let bytes = [1u8, 0, 2, 0, 5];
    let (e, _) = TechEffectRef::read_from(&bytes, 0).unwrap();
    assert!(e.enabled);
    let mut out = vec![];
    e.write_to(&mut out);
    assert_eq!(out, vec![1u8, 0, 2, 0, 1]);
}

#[test]
fn default_tech_round_trip() {
    let tech = Tech::default();
    let mut out = vec![];
    tech.write_to(&mut out);
    assert_eq!(out.len(), 62);
    assert_eq!(&out[0..12], &[0xFFu8; 12]);
    let (back, p) = Tech::read_from(&out, 0).unwrap();
    assert_eq!(p, 62);
    assert_eq!(back.name(), "");
    let mut again = vec![];
    back.write_to(&mut again);
    assert_eq!(again, out);
}

#[test]
fn tech_name_is_cut_at_nul() {
    let mut out = vec![];
    Tech::default().write_to(&mut out);
    out.truncate(60);
    out.extend_from_slice(&[5, 0]);
    out.extend_from_slice(b"Ab\0cd");
    let (tech, p) = Tech::read_from(&out, 0).unwrap();
    assert_eq!(tech.name(), "Ab");
    assert_eq!(p, 67);
    assert_eq!(Tech::read_from(&out[..66], 0).unwrap_err(), ReadError::UnexpectedEof);
}

fn age_bytes() -> Vec<u8> {
    let mut b = vec![];
    b.extend_from_slice(&le_i32(1));
    b.push(2); // status: available to the player
    b.extend_from_slice(&[0, 0, 0]); // no dependents
    b.extend_from_slice(&[0u8; 84]); // no dependencies
    b.push(3); // building levels
    b.extend_from_slice(&[1, 2, 3, 4, 5, 6, 7, 8, 9, 10]);
    b.extend_from_slice(&[0, 1, 0, 1, 0, 1, 0, 1, 0, 1]);
    b.push(5);
    b.extend_from_slice(&le_i32(1)); // node type: age
    b
}

#[test]
fn tech_tree_age_round_trip() {
    let bytes = age_bytes();
    let (age, p) = TechTreeAge::read_from(&bytes, 0).unwrap();
    assert_eq!(p, bytes.len());
    assert!(age.dependent_buildings.is_empty());
    let mut out = vec![];
    age.write_to(&mut out);
    assert_eq!(out, bytes);
}

#[test]
fn tech_tree_round_trip() {
    let mut bytes = vec![1u8, 0, 0, 0];
    bytes.extend_from_slice(&le_i32(12));
    bytes.extend_from_slice(&age_bytes());
    let (tree, p) = TechTree::read_from(&bytes, 0).unwrap();
    assert_eq!(p, bytes.len());
    assert_eq!(tree.ages.len(), 1);
    let mut out = vec![];
    tree.write_to(&mut out);
    assert_eq!(out, bytes);

    let mut empty = vec![];
    TechTree::default().write_to(&mut empty);
    assert_eq!(empty, vec![0u8; 8]);
}

#[test]
fn tech_tree_errors() {
    let mut bytes = age_bytes();
    bytes[4] = 0; // status 0 is not a status
    assert_eq!(TechTreeAge::read_from(&bytes, 0).unwrap_err(), ReadError::InvalidData);
    let bytes = age_bytes();
    assert_eq!(
        TechTreeAge::read_from(&bytes[..bytes.len() - 1], 0).unwrap_err(),
        ReadError::UnexpectedEof
    );
    let mut deps = vec![1u8, 0, 0, 0];
    deps.extend_from_slice(&le_i32(70000));
    deps.extend_from_slice(&[0u8; 36]);
    deps.extend_from_slice(&le_i32(1)); // a building
    deps.extend_from_slice(&[0u8; 36]);
    assert_eq!(TechTreeDependencies::read_from(&deps, 0).unwrap_err(), ReadError::InvalidData);
    deps[4..8].copy_from_slice(&le_i32(70));
    let (d, p) = TechTreeDependencies::read_from(&deps, 0).unwrap();
    assert_eq!((d.len(), p), (1, 84));
    let mut out = vec![];
    d.write_to(&mut out);
    assert_eq!(out, deps);
}

#[test]
fn tech_tree_status_codes() {
    assert!(TechTreeStatus::try_from(0).is_err());
    assert!(TechTreeStatus::try_from(6).is_err());
    assert_eq!(TechTreeStatus::try_from(2).unwrap().to_u8(), 2);
    assert_eq!(TechTreeStatus::try_from(12).unwrap().to_u8(), 12);
    assert_eq!(TechTreeType::try_from(7).unwrap().to_i32(), 7);
    assert!(TechTreeType::try_from(8).is_err());
}

#[test]
fn file_versions() {
    let v57 = FileVersion::from_text("VER 5.7");
    let v58 = FileVersion::from(*b"VER 5.8\0");
    assert!(!v57.is_de2());
    assert!(v58.is_de2());
    assert!(v57.is_aoc());
    assert!(!v58.is_swgb());
    assert!(v57 < v58);
    assert_eq!(v57.to_string(), "VER 5.7");
    assert!(FileVersion::from(*b"VER 6.0\0").is_de2());
}

#[test]
fn sound_read_and_write() {
    let v = FileVersion::from_text("VER 5.7");
    let mut bytes = vec![3u8, 0, 1, 0, 1, 0];
    bytes.extend_from_slice(&le_i32(100));
    bytes.extend_from_slice(b"sound.wav\0\0\0\0");
    bytes.extend_from_slice(&le_i32(5000));
    bytes.extend_from_slice(&[50, 0, 2, 0, 0xFF, 0xFF]);
    let (sound, p) = Sound::from(&bytes, 0, v).unwrap();
    assert_eq!(p, bytes.len());
    assert_eq!(sound.len(), 1);
    assert!(!sound.is_empty());
    assert_eq!(sound.items[0].filename, "");
    assert_eq!(sound.items[0].resource_id, 5000);
    assert_eq!(sound.items[0].civilization, Some(2));
    assert_eq!(sound.items[0].icon_set, Some(-1));
    let mut out = vec![];
    sound.write_to(&mut out, v);
    // The file name is not written.
    assert_eq!(out.len(), bytes.len() - 13);
}

#[test]
fn color_table_round_trip() {
    let mut bytes = vec![];
    for v in [1, 2, 3, 4, 5, 6, 7, 8, -9] {
        bytes.extend_from_slice(&le_i32(v));
    }
    let (table, p) = ColorTable::read_from(&bytes, 0).unwrap();
    assert_eq!(p, 36);
    assert_eq!(u8::from(table.base), 2);
    assert_eq!(table.statistics_text_color, -9);
    let mut out = vec![];
    table.write_to(&mut out);
    assert_eq!(out, bytes);
}
