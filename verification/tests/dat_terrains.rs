use genie::codec::ReadError;
use genie::dat::terrain_record::{Terrain, TerrainBorder};
use genie::dat::FileVersion;

fn put_name(buf: &mut [u8], at: usize, name: &[u8]) {
    buf[at..at + name.len()].copy_from_slice(name);
}

fn put_i32(buf: &mut [u8], at: usize, n: i32) {
    buf[at..at + 4].copy_from_slice(&n.to_le_bytes());
}

fn put_i16(buf: &mut [u8], at: usize, n: i16) {
    buf[at..at + 2].copy_from_slice(&n.to_le_bytes());
}

#[test]
fn terrain_reads_names_ids_and_borders() {
    let num_terrains: u16 = 3;
    let size = 198 + 2 * num_terrains as usize + 154;
    let mut buf = vec![0u8; size];
    buf[0] = 1;
    put_name(&mut buf, 2, b"Grass");
    put_name(&mut buf, 15, b"g_gr1");
    put_i32(&mut buf, 28, 15000);
    put_i32(&mut buf, 36, -1);
    buf[48] = 7;
    buf[53] = 0xFF;
    buf[54] = 4;
    put_i16(&mut buf, 78, 12);
    put_i16(&mut buf, 198, 1);
    put_i16(&mut buf, 200, 2);
    put_i16(&mut buf, 202, 3);
    let version = FileVersion::from_text("VER 5.7");
    let (terrain, next) = Terrain::from(&buf, 0, version, num_terrains).unwrap();
    assert_eq!(next, size);
    assert!(terrain.enabled);
    assert_eq!(terrain.name(), "Grass");
    assert_eq!(u32::from(terrain.slp_id.unwrap()), 15000);
    assert!(terrain.sound_id.is_none());
    assert_eq!(terrain.minimap_color_high, 7);
    assert_eq!(terrain.passable_terrain_id, None);
    assert_eq!(terrain.impassable_terrain_id, Some(4));
    assert_eq!(terrain.elevation_sprites.len(), 19);
    assert_eq!(terrain.elevation_sprites[0].num_frames, 12);
    assert_eq!(terrain.borders, vec![1, 2, 3]);
    assert_eq!(terrain.terrain_objects.len(), 30);
}

#[test]
fn terrain_too_short_is_eof() {
    let buf = vec![0u8; 100];
    let version = FileVersion::from_text("VER 5.7");
    assert!(matches!(Terrain::from(&buf, 0, version, 2), Err(ReadError::UnexpectedEof)));
}

#[test]
fn terrain_border_reads_colour_frames_and_underlay() {
    let mut buf = vec![0u8; 1440];
    buf[0] = 1;
    put_name(&mut buf, 2, b"border");
    put_i32(&mut buf, 28, -1);
    put_i32(&mut buf, 36, 40);
    buf[40] = 10;
    buf[41] = 20;
    buf[42] = 30;
    put_i16(&mut buf, 66 + 72, 5);
    put_i16(&mut buf, 1436, -1);
    put_i16(&mut buf, 1438, 2);
    let (border, next) = TerrainBorder::from(&buf, 0).unwrap();
    assert_eq!(next, 1440);
    assert!(border.enabled);
    assert!(border.slp_id.is_none());
    assert_eq!(u16::from(border.sound_id.unwrap()), 40);
    assert_eq!(border.color, (10, 20, 30));
    assert_eq!(border.frames.len(), 19);
    assert_eq!(border.frames[1][0].num_frames, 5);
    assert_eq!(border.underlay_terrain, None);
    assert_eq!(border.border_style, 2);
    assert!(matches!(TerrainBorder::from(&buf[..1439], 0), Err(ReadError::UnexpectedEof)));
}
