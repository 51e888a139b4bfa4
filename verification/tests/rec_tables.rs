use genie::codec::ReadError;
use genie::rec::game_options::{Difficulty, GameMode, StartingResources, VictoryType};
use genie::rec::string_table::StringTable;
use genie::rec::version::{GameVariant, GameVersion};
use genie::rec::Difficulty as RecDifficulty;

fn table_bytes() -> Vec<u8> {
    let mut data = vec![10, 0, 2, 0, 0xaa, 0xbb, 0xcc, 0xdd];
    data.extend_from_slice(&[3, 0, 0, 0]);
    data.extend_from_slice(b"one");
    data.extend_from_slice(&[4, 0, 0, 0]);
    data.extend_from_slice(b"ab");
    data
}

#[test]
fn string_table_read_and_write() {
    let mut data = vec![10, 0, 2, 0, 0xaa, 0xbb, 0xcc, 0xdd];
    data.extend_from_slice(&[3, 0, 0, 0]);
    data.extend_from_slice(b"one");
    data.extend_from_slice(&[5, 0, 0, 0]);
    data.extend_from_slice("\u{e9}t\u{e9}".as_bytes());
    let (table, pos) = StringTable::read_from(&data, 0).unwrap();
    assert_eq!(pos, data.len());
    assert_eq!(table.max_strings(), 10);
    assert_eq!(table.num_strings(), 2);
    assert_eq!(table.strings(), &vec![String::from("one"), String::from("\u{e9}t\u{e9}")]);
    let mut out = vec![];
    table.write_to(&mut out);
    // The pointer field is written as zero.
    assert_eq!(&out[4..8], &[0, 0, 0, 0]);
    assert_eq!(&out[8..], &data[8..]);
    let (back, _) = StringTable::read_from(&out, 0).unwrap();
    assert_eq!(back.strings(), table.strings());
}

#[test]
fn string_table_errors() {
    let data = table_bytes();
    // The second string is cut short.
    assert_eq!(StringTable::read_from(&data, 0).err(), Some(ReadError::UnexpectedEof));
    let empty = StringTable::new(4);
    assert_eq!(empty.num_strings(), 0);
    let mut out = vec![];
    empty.write_to(&mut out);
    assert_eq!(out, vec![4, 0, 0, 0, 0, 0, 0, 0]);
}

#[test]
fn game_option_codes() {
    assert_eq!(StartingResources::from(-1), StartingResources::NoResources);
    assert_eq!(StartingResources::from(6), StartingResources::Random);
    assert_eq!(StartingResources::default(), StartingResources::Standard);
    assert_eq!(VictoryType::from(10), VictoryType::Regicide);
    assert_eq!(Difficulty::from(0), Difficulty::Hardest);
    assert_eq!(Difficulty::from(5), Difficulty::Extreme);
    assert_eq!(GameMode::from(8), GameMode::TurboRandom);
    assert_eq!(GameMode::from(10), GameMode::CaptureTheRelic);
    assert_eq!(RecDifficulty::from(4), RecDifficulty::Easiest);
}

#[test]
fn game_versions() {
    let v = GameVersion::from_short(b"VER 9.4");
    assert_eq!(&v.0, b"VER 9.4\0");
    assert!(GameVersion::read_from(b"VER 9.4\0").unwrap().same_as(&v));
    assert!(GameVersion::read_from(b"VER").is_err());
    assert!(GameVariant::AgeOfKings.is_original());
    assert!(GameVariant::UserPatch.is_mod());
    assert!(GameVariant::DefinitiveEdition.is_update());
    assert!(!GameVariant::Trial.is_mod());
}
