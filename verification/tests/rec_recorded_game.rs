use genie::codec::ReadError;
use genie::rec::recorded_game::RecordedGame;
use std::io::Write;

fn compress(data: &[u8]) -> Vec<u8> {
    let mut encoder =
        flate2::write::DeflateEncoder::new(Vec::new(), flate2::Compression::default());
    encoder.write_all(data).unwrap();
    encoder.finish().unwrap()
}

fn header() -> Vec<u8> {
    let mut raw = b"VER 9.4\0".to_vec();
    raw.extend_from_slice(&12.97f32.to_le_bytes());
    raw.extend_from_slice(&[1, 2, 3, 4, 5]);
    raw
}

#[test]
fn open_recorded_game() {
    let compressed = compress(&header());
    let mut file = Vec::new();
    file.extend_from_slice(&((8 + compressed.len()) as u32).to_le_bytes());
    file.extend_from_slice(&0u32.to_le_bytes());
    file.extend_from_slice(&compressed);
    file.extend_from_slice(b"body");
    let game = RecordedGame::new(file.clone()).unwrap();
    assert_eq!(game.save_version(), 12.97f32.to_bits());
    assert_eq!(game.get_header_data().unwrap(), header());
    assert_eq!(game.into_inner(), file);
}

#[test]
fn recorded_game_errors() {
    assert!(matches!(RecordedGame::new(vec![1, 2, 3]), Err(ReadError::UnexpectedEof)));
    let mut file = vec![20, 0, 0, 0, 0, 0, 0, 0];
    file.extend_from_slice(&[0xFF; 12]);
    assert!(matches!(RecordedGame::new(file), Err(ReadError::InvalidData)));
}
