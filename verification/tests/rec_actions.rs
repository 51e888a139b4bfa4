use genie::rec::actions::ViewLock;
use genie::codec::ReadError;
use genie::rec::actions::{
    ActionEnter, BackToWorkCommand, BuyResourceCommand, CancelBuildCommand, Chat,
    FollowCommand, FormFormationCommand, GroupWaypointCommand, GuardCommand, Meta,
    ObjectsList, ResignCommand, SellResourceCommand, StopCommand, Sync, UnitAIStateCommand,
};
use genie::rec::{ObjectID, PlayerID};

fn ids(list: &ObjectsList) -> Option<Vec<u32>> {
    match list {
        ObjectsList::SameAsLast => None,
        ObjectsList::List(v) => Some(v.iter().map(|o| o.get()).collect()),
    }
}

#[test]
fn stop_command_bytes() {
    let data = [2, 5, 0, 0, 0, 9, 1, 0, 0];
    let (cmd, pos) = StopCommand::read_from(&data, 0).unwrap();
    assert_eq!(ids(&cmd.objects), Some(vec![5, 0x109]));
    assert_eq!(pos, 9);
    let mut out = vec![];
    cmd.write_to(&mut out);
    assert_eq!(out, data.to_vec());
    assert_eq!(StopCommand::read_from(&data[..8], 0).err(), Some(ReadError::UnexpectedEof));
}

#[test]
fn objects_list_counts() {
    let list = ObjectsList::List(vec![ObjectID::new(1), ObjectID::new(2)]);
    assert_eq!(list.len(), 2);
    assert!(!list.is_empty());
    assert_eq!(ObjectsList::SameAsLast.len(), 0);
    assert!(ObjectsList::empty().is_empty());
    // A count of 0xFF means "the objects of the last command", and no IDs follow.
    let (list, pos) = ObjectsList::read_from(&[], 0, 0xFF).unwrap();
    assert!(ids(&list).is_none());
    assert_eq!(pos, 0);
    let (list, pos) = ObjectsList::read_from(&[0, 0, 0, 0], 0, -1).unwrap();
    assert_eq!(ids(&list), Some(vec![]));
    assert_eq!(pos, 0);
}

#[test]
fn unit_ai_state_round_trip() {
    let cmd = UnitAIStateCommand {
        state: -3,
        objects: ObjectsList::List(vec![ObjectID::new(77)]),
    };
    let mut out = vec![];
    cmd.write_to(&mut out);
    assert_eq!(out, vec![1, 0xfd, 77, 0, 0, 0]);
    let (back, pos) = UnitAIStateCommand::read_from(&out, 0).unwrap();
    assert_eq!(back.state, -3);
    assert_eq!(ids(&back.objects), Some(vec![77]));
    assert_eq!(pos, 6);
}

#[test]
fn guard_and_follow() {
    let guard = GuardCommand {
        target_id: Some(ObjectID::new(300)),
        objects: ObjectsList::List(vec![ObjectID::new(4)]),
    };
    let mut out = vec![];
    guard.write_to(&mut out);
    assert_eq!(out, vec![1, 0, 0, 44, 1, 0, 0, 4, 0, 0, 0]);
    let (back, _) = GuardCommand::read_from(&out, 0).unwrap();
    assert_eq!(back.target_id, Some(ObjectID::new(300)));
    let follow = FollowCommand { target_id: None, objects: ObjectsList::List(vec![]) };
    let mut out = vec![];
    follow.write_to(&mut out);
    assert_eq!(out, vec![0, 0, 0, 0xff, 0xff, 0xff, 0xff]);
    let (back, pos) = FollowCommand::read_from(&out, 0).unwrap();
    assert_eq!(back.target_id, None);
    assert_eq!(ids(&back.objects), Some(vec![]));
    assert_eq!(pos, 7);
}

#[test]
fn form_formation_round_trip() {
    let cmd = FormFormationCommand {
        player_id: PlayerID::new(3),
        formation_type: 2,
        objects: ObjectsList::List(vec![ObjectID::new(10), ObjectID::new(11)]),
    };
    let mut out = vec![];
    cmd.write_to(&mut out);
    assert_eq!(&out[0..7], &[2, 3, 0, 2, 0, 0, 0]);
    let (back, pos) = FormFormationCommand::read_from(&out, 0).unwrap();
    assert_eq!(back.player_id, PlayerID::new(3));
    assert_eq!(back.formation_type, 2);
    assert_eq!(ids(&back.objects), Some(vec![10, 11]));
    assert_eq!(pos, 15);
}

#[test]
fn resign_bytes() {
    let (cmd, pos) = ResignCommand::read_from(&[2, 5, 1], 0).unwrap();
    assert_eq!(cmd.player_id, PlayerID::new(2));
    assert_eq!(cmd.comm_player_id, PlayerID::new(5));
    assert!(cmd.dropped);
    assert_eq!(pos, 3);
    let mut out = vec![];
    cmd.write_to(&mut out);
    assert_eq!(out, vec![2, 5, 1]);
    assert!(ResignCommand::read_from(&[2, 5], 0).is_err());
}

#[test]
fn group_waypoint_bytes() {
    let data = [4, 0, 0, 8, 0, 0, 0, 3, 0];
    let (cmd, pos) = GroupWaypointCommand::read_from(&data, 0).unwrap();
    assert_eq!(cmd.player_id, PlayerID::new(4));
    assert_eq!(cmd.object_id, ObjectID::new(8));
    assert_eq!(pos, 9);
    let mut out = vec![];
    cmd.write_to(&mut out);
    assert_eq!(out, data.to_vec());
}

#[test]
fn cancel_build_bytes() {
    let data = [0, 0, 0, 20, 0, 0, 0, 6, 0, 0, 0];
    let (cmd, pos) = CancelBuildCommand::read_from(&data, 0).unwrap();
    assert_eq!(cmd.player_id, PlayerID::new(6));
    assert_eq!(cmd.building_id, ObjectID::new(20));
    assert_eq!(pos, 11);
    let mut out = vec![];
    cmd.write_to(&mut out);
    assert_eq!(out, data.to_vec());
}

#[test]
fn market_commands() {
    let data = [1, 2, 5, 99, 0, 0, 0];
    let (sell, pos) = SellResourceCommand::read_from(&data, 0).unwrap();
    assert_eq!(sell.player_id, PlayerID::new(1));
    assert_eq!(sell.resource, 2);
    assert_eq!(sell.amount, 5);
    assert_eq!(sell.market_id, ObjectID::new(99));
    assert_eq!(pos, 7);
    let (buy, _) = BuyResourceCommand::read_from(&data, 0).unwrap();
    let mut out = vec![];
    buy.write_to(&mut out);
    assert_eq!(out, data.to_vec());
    let mut out = vec![];
    sell.write_to(&mut out);
    assert_eq!(out, data.to_vec());
}

#[test]
fn back_to_work_and_enter() {
    let (cmd, pos) = BackToWorkCommand::read_from(&[0, 0, 0, 12, 0, 0, 0], 0).unwrap();
    assert_eq!(cmd.building_id, ObjectID::new(12));
    assert_eq!(pos, 7);
    let (enter, pos) = ActionEnter::read_from(&[1, 2, 0, 0], 0).unwrap();
    assert_eq!(enter.first_time, 0x201);
    assert_eq!(pos, 4);
    let mut out = vec![];
    enter.write_to(&mut out);
    assert_eq!(out, vec![1, 2, 0, 0]);
}

#[test]
fn sync_actions() {
    let (sync, pos) = Sync::read_from(&[7, 100, 0, 0, 0], 0, true, false).unwrap();
    assert_eq!(sync.sequence, Some(7));
    assert_eq!(sync.time, 100);
    assert_eq!(sync.checksums, None);
    assert_eq!(pos, 5);
    let (sync, pos) = Sync::read_from(&[100, 0, 0, 0, 1, 0, 0, 0], 0, false, true).unwrap();
    assert_eq!(sync.checksums, None);
    assert_eq!(pos, 8);
    let mut data = vec![50, 0, 0, 0, 0, 0, 0, 0, 0, 0, 0, 0];
    data.extend_from_slice(&[1, 0, 0, 0, 2, 0, 0, 0, 3, 0, 0, 0, 0, 0, 0, 0, 9, 0, 0, 0]);
    let (sync, pos) = Sync::read_from(&data, 0, false, true).unwrap();
    assert_eq!(sync.time, 50);
    assert_eq!(sync.checksums, Some((1, 2, 3)));
    assert_eq!(sync.next_world_time, Some(9));
    assert_eq!(pos, 32);
    assert!(Sync::read_from(&data[..31], 0, false, true).is_err());
}

#[test]
fn meta_formats() {
    let mut data = vec![];
    for v in [500u32, 1, 2, 1234, 1, 3, 0, 0, 0] {
        data.extend_from_slice(&v.to_le_bytes());
    }
    let (mgx, pos) = Meta::read_from_mgx(&data, 0).unwrap();
    assert_eq!(mgx.checksum_interval, 500);
    assert!(mgx.is_multiplayer);
    assert_eq!(mgx.local_player_id, PlayerID::new(2));
    assert_eq!(mgx.header_position, 1234);
    assert!(mgx.use_sequence_numbers);
    assert_eq!(mgx.num_chapters, Some(3));
    assert_eq!(pos, 24);
    let (mgl, pos) = Meta::read_from_mgl(&data, 0).unwrap();
    assert_eq!(mgl.num_chapters, None);
    assert_eq!(pos, 36);
    assert!(Meta::read_from_mgl(&data[..35], 0).is_err());
}

#[test]
fn chat_message() {
    let mut data = vec![0xff, 0xff, 0xff, 0xff, 3, 0, 0, 0];
    data.extend_from_slice(b"hi\0");
    let (_chat, pos) = Chat::read_from(&data, 0).unwrap();
    assert_eq!(pos, 11);
    assert!(Chat::read_from(&data[..10], 0).is_err());
}

#[test]
fn player_and_object_ids() {
    assert_eq!(PlayerID::gaia().get(), 0);
    assert_eq!(PlayerID::from(4u8).get(), 4);
    assert_eq!(ObjectID::from(70000u32).get(), 70000);
    assert_eq!(ObjectID::from(5u16), ObjectID::new(5));
}

#[test]
fn view_lock_bytes() {
    let mut data = vec![];
    data.extend_from_slice(&12.5f32.to_le_bytes());
    data.extend_from_slice(&3.0f32.to_le_bytes());
    data.extend_from_slice(&2i32.to_le_bytes());
    let (v, pos) = ViewLock::read_from(&data, 0).unwrap();
    assert_eq!(pos, 12);
    assert_eq!(f32::from_bits(v.x), 12.5);
    assert_eq!(v.player, PlayerID::new(2));
    let mut out = vec![];
    v.write_to(&mut out);
    assert_eq!(out, data);
}

#[test]
fn stop_same_as_last() {
    let (cmd, pos) = StopCommand::read_from(&[0xFF], 0).unwrap();
    assert!(ids(&cmd.objects).is_none());
    assert_eq!(pos, 1);
    let mut out = vec![];
    cmd.write_to(&mut out);
    assert_eq!(out, vec![0xFF]);
}

#[test]
fn unit_ai_state_same_as_last() {
    let cmd = UnitAIStateCommand { state: 2, objects: ObjectsList::SameAsLast };
    let mut out = vec![];
    cmd.write_to(&mut out);
    assert_eq!(out, vec![0xFF, 2]);
    let (back, pos) = UnitAIStateCommand::read_from(&out, 0).unwrap();
    assert_eq!(back.state, 2);
    assert!(ids(&back.objects).is_none());
    assert_eq!(pos, 2);
}
