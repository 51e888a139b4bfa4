use genie::codec::ReadError;
use genie::rec::production::{MakeCommand, QueueCommand, ResearchCommand, UserPatchAICommand};

#[test]
fn make_command_round_trip() {
    let bytes = [0u8, 0, 0, 0x10, 0, 0, 0, 2, 0, 83, 0, 0xFF, 0xFF, 0xFF, 0xFF];
    let (c, p) = MakeCommand::read_from(&bytes, 0).unwrap();
    assert_eq!(p, 15);
    assert_eq!(c.building_id.get(), 0x10);
    assert_eq!(c.player_id.get(), 2);
    assert_eq!(u16::from(c.unit_type_id), 83);
    assert!(c.target_id.is_none());
    let mut out = vec![];
    c.write_to(&mut out);
    assert_eq!(out, bytes.to_vec());
    assert_eq!(MakeCommand::read_from(&bytes[..14], 0).unwrap_err(), ReadError::UnexpectedEof);
}

#[test]
fn research_command_with_target() {
    let bytes = [9u8, 9, 9, 1, 0, 0, 0, 1, 7, 22, 0, 5, 0, 0, 0];
    let (c, _) = ResearchCommand::read_from(&bytes, 0).unwrap();
    assert_eq!(u16::from(c.tech_id), 22);
    assert_eq!(c.target_id.map(|t| t.get()), Some(5));
    let mut out = vec![];
    c.write_to(&mut out);
    // Padding is written as zeros.
    assert_eq!(out, vec![0u8, 0, 0, 1, 0, 0, 0, 1, 0, 22, 0, 5, 0, 0, 0]);
}

#[test]
fn queue_command_round_trip() {
    let bytes = [0u8, 0, 0, 4, 3, 2, 1, 83, 0, 5, 0];
    let (c, p) = QueueCommand::read_from(&bytes, 0).unwrap();
    assert_eq!(p, 11);
    assert_eq!(c.building_id.get(), 0x01020304);
    assert_eq!(c.amount, 5);
    let mut out = vec![];
    c.write_to(&mut out);
    assert_eq!(out, bytes.to_vec());
}

#[test]
fn user_patch_ai_params_from_size() {
    let bytes = [13u8, 1, 0, 1, 0, 0, 0, 2, 0, 0, 0];
    let (c, p) = UserPatchAICommand::read_from(&bytes, 0, 12).unwrap();
    assert_eq!(p, 11);
    assert_eq!(c.ai_action, 13);
    assert_eq!(c.params.as_slice(), &[1u32, 2]);
    let mut out = vec![];
    c.write_to(&mut out);
    assert_eq!(out, bytes.to_vec());
    assert_eq!(
        UserPatchAICommand::read_from(&bytes[..10], 0, 12).unwrap_err(),
        ReadError::UnexpectedEof
    );
}
