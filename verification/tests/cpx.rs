use genie::cpx::read::same_version;
use genie::cpx::write::WriteCampaignError;
use genie::cpx::{read_fixed_str, Campaign, CampaignWriter, ReadCampaignError, AOE1_DE, AOE_AOK};

fn de_campaign() -> Vec<u8> {
    let mut writer = CampaignWriter::new("My Campaign").version(AOE1_DE);
    writer.add_raw("First", "first.scn", vec![1, 2, 3]);
    writer.add_raw("Second", "second.scn", vec![9; 5]);
    writer.flush()
}

#[test]
fn definitive_edition_round_trip() {
    let bytes = de_campaign();
    assert_eq!(&bytes[0..4], b"1.10");
    let campaign = Campaign::from(bytes).unwrap();
    assert!(same_version(campaign.version(), AOE1_DE));
    assert_eq!(campaign.name(), "My Campaign");
    assert_eq!(campaign.len(), 2);
    assert!(!campaign.is_empty());
    assert_eq!(campaign.get_name(0), Some("First"));
    assert_eq!(campaign.get_filename(1), Some("second.scn"));
    assert_eq!(campaign.get_name(2), None);
    assert_eq!(campaign.get_id("second.scn"), Some(1));
    assert_eq!(campaign.get_id("third.scn"), None);
    assert_eq!(campaign.entries()[0].size, 3);
    assert_eq!(campaign.by_index_raw(0).unwrap(), vec![1, 2, 3]);
    assert_eq!(campaign.by_name_raw("second.scn").unwrap(), vec![9; 5]);
    assert!(matches!(campaign.by_index_raw(2), Err(ReadCampaignError::NotFoundError)));
    assert!(matches!(campaign.by_name_raw("none.scn"), Err(ReadCampaignError::NotFoundError)));
}

#[test]
fn rewrite_keeps_bytes() {
    let bytes = de_campaign();
    let campaign = Campaign::from(bytes.clone()).unwrap();
    assert_eq!(campaign.write_to().unwrap(), bytes);
}

#[test]
fn classic_layout() {
    let mut writer = CampaignWriter::new("Old");
    writer.add_raw("Only", "only.scn", vec![7, 8]);
    let bytes = writer.flush();
    // version, 256 bytes of name, count, then size, offset, two 255-byte names and two
    // bytes of padding
    let meta_end = 4 + 256 + 4 + 4 + 4 + 255 + 255 + 2;
    assert_eq!(bytes.len(), meta_end + 2);
    assert_eq!(&bytes[0..4], b"1.00");
    assert_eq!(&bytes[4..7], b"Old");
    assert_eq!(bytes[7], 0);
    assert_eq!(&bytes[260..264], &[1, 0, 0, 0]);
    assert_eq!(&bytes[264..268], &[2, 0, 0, 0]);
    assert_eq!(&bytes[268..272], &(meta_end as u32).to_le_bytes());
    assert_eq!(&bytes[meta_end..], &[7, 8]);
    let campaign = Campaign::from(bytes).unwrap();
    assert!(same_version(campaign.version(), AOE_AOK));
    assert_eq!(campaign.name(), "Old");
    assert_eq!(campaign.get_filename(0), Some("only.scn"));
    assert_eq!(campaign.by_index_raw(0).unwrap(), vec![7, 8]);
}

#[test]
fn read_errors() {
    assert!(matches!(Campaign::from(b"1.1".to_vec()), Err(ReadCampaignError::IoError)));
    // A Definitive Edition name must start with the string marker.
    let mut bytes = b"1.10".to_vec();
    bytes.extend_from_slice(&[0, 0, 0, 0, 0x61, 0x0a, 0, 0]);
    assert!(matches!(Campaign::from(bytes), Err(ReadCampaignError::DecodeStringError)));
    // A classic campaign must have a name.
    let mut bytes = b"1.00".to_vec();
    bytes.extend_from_slice(&[0; 260]);
    assert!(matches!(Campaign::from(bytes), Err(ReadCampaignError::MissingNameError)));
}

#[test]
fn fixed_strings() {
    let data = [b'a', b'b', 0, b'c', 9];
    let (s, pos) = read_fixed_str(&data, 0, 4).unwrap();
    assert_eq!(s, Some(String::from("ab")));
    assert_eq!(pos, 4);
    let (s, _) = read_fixed_str(&data, 2, 2).unwrap();
    assert_eq!(s, None);
    assert!(matches!(read_fixed_str(&data, 3, 3), Err(ReadCampaignError::IoError)));
}

#[test]
fn write_error_values() {
    assert_eq!(WriteCampaignError::NotFoundError(3), WriteCampaignError::NotFoundError(3));
    assert_ne!(WriteCampaignError::IoError, WriteCampaignError::NotFoundError(0));
}

#[test]
fn classic_round_trip_with_several_scenarios() {
    let mut writer = CampaignWriter::new("Old");
    writer.add_raw("One", "one.scn", vec![1]);
    writer.add_raw("Two", "two.scn", vec![2, 2]);
    writer.add_raw("Three", "three.scn", vec![3, 3, 3]);
    let bytes = writer.flush();
    assert_eq!(bytes.len(), 264 + 3 * 520 + 6);
    let campaign = Campaign::from(bytes).unwrap();
    assert_eq!(campaign.len(), 3);
    assert_eq!(campaign.get_name(1), Some("Two"));
    assert_eq!(campaign.get_filename(2), Some("three.scn"));
    assert_eq!(campaign.by_index_raw(0).unwrap(), vec![1]);
    assert_eq!(campaign.by_index_raw(2).unwrap(), vec![3, 3, 3]);
}

#[test]
fn escape_byte_without_high_bytes_is_not_decoded() {
    let mut data = vec![0u8; 8];
    data[0] = 0x1B;
    data[1] = b'a';
    assert!(matches!(read_fixed_str(&data, 0, 8), Err(ReadCampaignError::DecodeStringError)));
}
