use genie::codec::ReadError;
use genie::rec::ai::{
    AttackMemory, DiplomacyAI, EmotionalAI, ImportantObjectMemory, InfluenceMap, MainAI,
    PerimeterWall, QuadrantLog,
    ResourceAI, ResourceMemory, WallLine, VERSION_10_91, VERSION_11_34,
};
use genie::rec::map::{Tile, VisibilityMap, VERSION_13_03};
use genie::rec::version::GameVariant;

fn u32s(v: &[u32]) -> Vec<u8> {
    v.iter().flat_map(|x| x.to_le_bytes()).collect()
}

#[test]
fn main_ai_objects() {
    let bytes = u32s(&[2, 10, 20]);
    let (ai, p) = MainAI::read_from(&bytes, 0).unwrap();
    assert_eq!(p, 12);
    assert_eq!(ai.objects.iter().map(|o| o.get()).collect::<Vec<_>>(), vec![10, 20]);
    assert_eq!(MainAI::read_from(&bytes[..11], 0).unwrap_err(), ReadError::UnexpectedEof);
}

#[test]
fn diplomacy_and_emotional_ai() {
    let mut bytes = vec![];
    for i in 0..10u32 {
        bytes.extend_from_slice(&u32s(&[i, 100 - i]));
        bytes.push(i as u8);
    }
    let (d, p) = DiplomacyAI::read_from(&bytes, 0).unwrap();
    assert_eq!(p, 90);
    assert_eq!((d.dislike[3], d.like[3], d.changeable[3]), (3, 97, 3));
    let bytes = u32s(&[1, 2, 3, 4, 5, 6]);
    let (e, _) = EmotionalAI::read_from(&bytes, 0).unwrap();
    assert_eq!(e.state, [1, 2, 3, 4, 5, 6]);
}

#[test]
fn attack_memory_fields() {
    let mut bytes = u32s(&[0xFFFF_FFFF]);
    bytes.extend_from_slice(&[1, 2, 3, 4, 5, 0xFF, 3, 0, 7, 0, 1, 0]);
    bytes.extend_from_slice(&u32s(&[99, 5]));
    let (m, p) = AttackMemory::read_from(&bytes, 0).unwrap();
    assert_eq!(p, 24);
    assert_eq!(m.id, None);
    assert_eq!(m.attacking_owner, None);
    assert_eq!(m.target_owner, Some(3));
    assert_eq!(m.kills, 7);
    assert!(m.success);
    assert_eq!(m.timestamp, Some(99));
    assert_eq!(m.play, Some(5));
    let mut bad = bytes.clone();
    bad[0..4].copy_from_slice(&0x8000_0000u32.to_le_bytes());
    assert_eq!(AttackMemory::read_from(&bad, 0).unwrap_err(), ReadError::InvalidData);
}

#[test]
fn resource_memory_by_version() {
    let mut bytes = u32s(&[7]);
    bytes.extend_from_slice(&[1, 2, 3]);
    bytes.extend_from_slice(&u32s(&[500]));
    bytes.extend_from_slice(&[1, 0, 4, 2]);
    bytes.extend_from_slice(&u32s(&[8, 1234]));
    let (old, p) = ResourceMemory::read_from(&bytes, 0, 0x4120_0000).unwrap();
    assert_eq!(p, 19);
    assert_eq!(old.attacked_time, None);
    let (new, p) = ResourceMemory::read_from(&bytes, 0, VERSION_10_91).unwrap();
    assert_eq!(p, 23);
    assert_eq!(new.attacked_time, Some(1234));
    assert_eq!(new.dropsite_id.get(), 8);
    assert!(new.valid && !new.gone);
}

#[test]
fn influence_map_and_quadrant_log() {
    let mut bytes = u32s(&[2, 2, 5, 6]);
    bytes.push(9);
    bytes.extend_from_slice(&[1, 0xFF, 3, 4]);
    let (m, p) = InfluenceMap::read_from(&bytes, 0).unwrap();
    assert_eq!(p, 21);
    assert_eq!(m.values, vec![1, -1, 3, 4]);
    assert_eq!(m.reference_point, (5, 6));
    let (q, _) = QuadrantLog::read_from(&u32s(&[1, 2, 3]), 0).unwrap();
    assert_eq!((q.explored_tiles, q.attacks_on_us, q.attacks_by_us), (1, 2, 3));
    let r = ResourceAI { num_resources: 4 };
    let mut out = vec![];
    r.write_to(&mut out);
    assert_eq!(ResourceAI::read_from(&out, 0).unwrap().0.num_resources, 4);
}

#[test]
fn wall_lines_by_version() {
    let bytes = u32s(&[0xFFFF_FFFF, 3, 1, 2, 3, 4]);
    let (l, p) = WallLine::read_from(&bytes, 0, 0x4120_0000).unwrap();
    assert_eq!(p, 24);
    assert_eq!(l.wall_type, None);
    assert_eq!(l.segment_count, 3);
    assert_eq!((l.line_start, l.line_end), ((1, 2), (3, 4)));
    let bytes = u32s(&[9, 72, 2, 3, 4, 5, 1, 2, 3, 4]);
    let (l, p) = WallLine::read_from(&bytes, 0, VERSION_11_34).unwrap();
    assert_eq!(p, 40);
    assert_eq!(l.line_type, 9);
    assert_eq!(l.wall_type, Some(72));
    assert_eq!((l.gate_count, l.invisible_segment_count, l.unfinished_segment_count), (2, 4, 5));

    let mut wall = u32s(&[1, 1, 2, 50, 3, 4, 5, 6, 7]);
    wall.extend_from_slice(&bytes);
    let (w, p) = PerimeterWall::read_from(&wall, 0, VERSION_11_34).unwrap();
    assert_eq!(p, wall.len());
    assert!(w.enabled);
    assert_eq!(w.lines.len(), 1);
    assert_eq!((w.percentage_complete, w.next_segment_to_refresh), (50, 7));
}

#[test]
fn tiles_by_variant() {
    let bytes = [0xFFu8, 4, 1, 2];
    let (t, p) = Tile::read_from(&bytes, 0, GameVariant::AgeOfConquerors, 0).unwrap();
    assert_eq!((t.terrain, t.elevation, t.original_terrain, p), (4, 1, Some(2), 4));
    let mut out = vec![];
    t.write_to(&mut out);
    assert_eq!(out, bytes.to_vec());
    let de = [5u8, 0, 2, 0, 0, 0, 0, 0, 0];
    let (t, p) = Tile::read_from(&de, 0, GameVariant::DefinitiveEdition, VERSION_13_03).unwrap();
    assert_eq!((t.terrain, t.elevation, p), (5, 2, 9));
}

#[test]
fn visibility_map_round_trip() {
    let bytes = u32s(&[2, 1, 7, 8]);
    let (m, p) = VisibilityMap::read_from(&bytes, 0).unwrap();
    assert_eq!(p, 16);
    assert_eq!(m.visibility, vec![7, 8]);
    let mut out = vec![];
    m.write_to(&mut out);
    assert_eq!(out, bytes);
}

#[test]
fn important_object_memory() {
    let mut data = vec![];
    data.extend_from_slice(&500u32.to_le_bytes());
    data.extend_from_slice(&0xFFFFu16.to_le_bytes());
    data.extend_from_slice(&12u16.to_le_bytes());
    data.extend_from_slice(&[3, 4, 5, 2]);
    data.extend_from_slice(&60u16.to_le_bytes());
    data.extend_from_slice(&7u32.to_le_bytes());
    data.push(1);
    data.extend_from_slice(&1.5f32.to_le_bytes());
    data.extend_from_slice(&2.0f32.to_le_bytes());
    data.extend_from_slice(&7.0f32.to_le_bytes());
    data.extend_from_slice(&0xFFFF_FFFFu32.to_le_bytes());
    data.extend_from_slice(&1u32.to_le_bytes());
    assert_eq!(data.len(), 39);
    let (m, pos) = ImportantObjectMemory::read_from(&data, 0, 12.97f32.to_bits()).unwrap();
    assert_eq!(pos, 39);
    assert_eq!(m.id.unwrap().get(), 500);
    assert!(m.unit_type_id.is_none());
    assert_eq!(m.unit_class, Some(12));
    assert_eq!(m.location, (3, 4, 5));
    assert_eq!(m.owner.get(), 2);
    assert_eq!(m.hit_points, 60);
    assert_eq!(m.kills, 1);
    assert_eq!(m.rate_of_fire, 2.0f32.to_bits());
    assert!(m.time_seen.is_none());
    assert_eq!(m.is_garrisoned, 1);
    assert!(ImportantObjectMemory::read_from(&data[..38], 0, 0).is_err());
}
