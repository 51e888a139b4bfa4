use genie::drs::read::DRSError;
use genie::drs::{DRSReader, DRSWriter, InMemoryStrategy, ReserveDirectoryStrategy, ResourceType};

/// A drs archive with a single text file containing the ASCII text "example test file".
///
/// Copyright
/// Version 1.00
/// Password tribe
/// Resource types 1
/// First file offset 88
/// Table "txt", offset 76, resources 1
/// File 1, offset 88, size 17
static ONE_FILE: &[u8] = b"Copyright (c) 1997 Ensemble Studios.\x1a\x00\x00\x001.00tribe\x00\x00\x00\x00\x00\x00\x00\x01\x00\x00\x00\x58\x00\x00\x00 txt\x4C\x00\x00\x00\x01\x00\x00\x00\x01\x00\x00\x00\x58\x00\x00\x00\x11\x00\x00\x00example test file";

#[test]
fn one_file_reserve() {
    let mut drs = DRSWriter::new(ReserveDirectoryStrategy::new(1, 1).into());
    drs.add(ResourceType::from_str_bytes("txt"), 1, "example test file".as_bytes());
    let output = drs.flush();
    assert_eq!(output, ONE_FILE.to_vec());
}

#[test]
fn one_file_memory() {
    let mut drs = DRSWriter::new(InMemoryStrategy::default().into());
    drs.add(ResourceType::from_str_bytes("txt"), 1, "example test file".as_bytes());
    let output = drs.flush();
    assert_eq!(output, ONE_FILE.to_vec());
}

#[test]
fn read_one_file() {
    let txt = ResourceType::from_str_bytes("txt");
    let drs = DRSReader::new(ONE_FILE).unwrap();
    assert_eq!(drs.tables().len(), 1);
    let table = drs.get_table(ResourceType::from_str_bytes("txt")).unwrap();
    assert_eq!(table.len(), 1);
    assert!(!table.is_empty());
    assert_eq!(table.resource_ext(), "txt");
    assert!(table.resource_type().same(&txt));
    let res = drs.get_resource(ResourceType::from_str_bytes("txt"), 1).unwrap();
    assert_eq!(res.id, 1);
    assert_eq!(res.size, 17);
    assert!(drs.get_resource(ResourceType::from_str_bytes("txt"), 2).is_none());
    assert!(drs.get_table(ResourceType::from_str_bytes("wav")).is_none());
    assert!(drs.get_resource_type(1).unwrap().same(&txt));
    assert!(drs.get_resource_type(5).is_none());
    assert_eq!(
        drs.read_resource(ONE_FILE, ResourceType::from_str_bytes("txt"), 1).unwrap(),
        b"example test file".to_vec()
    );
    assert_eq!(
        drs.read_resource(ONE_FILE, ResourceType::from_str_bytes("txt"), 2),
        Err(DRSError::NotFound)
    );
}

#[test]
fn read_truncated_archive() {
    assert!(DRSReader::new(&ONE_FILE[..40]).is_err());
    assert!(DRSReader::new(&ONE_FILE[..70]).is_err());
}

#[test]
fn write_then_read_several_tables() {
    let mut drs = DRSWriter::new(InMemoryStrategy::default().into());
    drs.add(ResourceType::from_str_bytes("wav"), 2, b"two");
    drs.add(ResourceType::from_str_bytes("slp"), 3, b"three!");
    drs.add(ResourceType::from_str_bytes("wav"), 7, b"seven");
    let output = drs.flush();
    let reader = DRSReader::new(&output).unwrap();
    assert_eq!(reader.tables().len(), 2);
    assert_eq!(reader.get_table(ResourceType::from_str_bytes("wav")).unwrap().len(), 2);
    assert_eq!(
        reader.read_resource(&output, ResourceType::from_str_bytes("wav"), 7).unwrap(),
        b"seven".to_vec()
    );
    assert_eq!(
        reader.read_resource(&output, ResourceType::from_str_bytes("wav"), 2).unwrap(),
        b"two".to_vec()
    );
    assert_eq!(
        reader.read_resource(&output, ResourceType::from_str_bytes("slp"), 3).unwrap(),
        b"three!".to_vec()
    );
    assert!(reader.get_resource_type(3).unwrap().same(&ResourceType::from_str_bytes("slp")));
}

#[test]
fn resource_type_names() {
    let t = ResourceType::from_str_bytes("bina");
    assert_eq!(t.to_string(), "bina");
    assert!(ResourceType::parse("toolong").is_err());
    assert!(ResourceType::parse("wav").unwrap().same(&ResourceType::from_str_bytes("wav")));
    assert!(ResourceType::from_array(*b" vaw").same(&ResourceType::from_str_bytes("wav")));
}

#[test]
fn lookup_in_table_not_in_id_order() {
    let wav = ResourceType::from_str_bytes("wav");
    let mut drs = DRSWriter::new(InMemoryStrategy::default().into());
    drs.add(wav, 9, b"nine");
    drs.add(wav, 4, b"four");
    drs.add(wav, 6, b"six");
    let output = drs.flush();
    let reader = DRSReader::new(&output).unwrap();
    assert_eq!(reader.get_resource(wav, 4).unwrap().id, 4);
    assert_eq!(reader.get_resource(wav, 9).unwrap().id, 9);
    assert_eq!(reader.read_resource(&output, wav, 4).unwrap(), b"four".to_vec());
    assert_eq!(reader.read_resource(&output, wav, 6).unwrap(), b"six".to_vec());
    assert_eq!(reader.read_resource(&output, wav, 9).unwrap(), b"nine".to_vec());
    assert!(reader.get_resource(wav, 5).is_none());
}
