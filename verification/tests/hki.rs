use genie::hki::{keycode_id, Hotkey, HotkeyGroup, HotkeyInfo, IndexError};
use genie::lang::lang_file::LangFile;
use genie::lang::string_key::StringKey;

fn hotkey(key: i32, string_id: i32) -> Hotkey {
    Hotkey { key, string_id, ctrl: false, alt: false, shift: false, mouse: 0 }
}

fn sample() -> HotkeyInfo {
    let g0 = HotkeyGroup::from_hotkeys(vec![hotkey(65, 19000), hotkey(66, 19001)]);
    let g1 = HotkeyGroup::from_hotkeys(vec![hotkey(65, 19100)]);
    HotkeyInfo::new(0x3f80_0000, vec![g0, g1])
}

#[test]
fn hotkey_bytes_round_trip() {
    let h = Hotkey { key: 81, string_id: -1, ctrl: true, alt: false, shift: true, mouse: -2 };
    let mut out = vec![];
    h.write_to(&mut out);
    assert_eq!(out, vec![81, 0, 0, 0, 0xff, 0xff, 0xff, 0xff, 1, 0, 1, 0xfe]);
    let (back, pos) = Hotkey::from(&out, 0).unwrap();
    assert_eq!(back, h);
    assert_eq!(pos, 12);
    assert!(Hotkey::from(&out, 1).is_err());
}

#[test]
fn uncompressed_file_round_trip() {
    let info = sample();
    let mut out = vec![];
    info.write_to_uncompressed(&mut out);
    // version, number of groups, then each group's count and 12-byte hotkeys
    assert_eq!(out.len(), 4 + 4 + (4 + 24) + (4 + 12));
    assert_eq!(&out[0..8], &[0, 0, 0x80, 0x3f, 2, 0, 0, 0]);
    let back = HotkeyInfo::from_uncompressed(&out).unwrap();
    assert_eq!(back.version(), 0x3f80_0000);
    assert_eq!(back.num_groups(), 2);
    assert_eq!(back.group(0).unwrap().iter(), info.group(0).unwrap().iter());
    assert_eq!(back.group(1).unwrap().num_hotkeys(), 1);
    assert!(back.group(2).is_none());
    assert!(HotkeyInfo::from_uncompressed(&out[..out.len() - 1]).is_err());
}

#[test]
fn compressed_file_round_trip() {
    let info = sample();
    let mut out = vec![];
    assert!(info.write_to(&mut out).is_ok());
    let back = HotkeyInfo::from(&out).unwrap();
    assert_eq!(back.version(), info.version());
    assert_eq!(back.group(0).unwrap().iter(), info.group(0).unwrap().iter());
    assert_eq!(back.group(1).unwrap().iter(), info.group(1).unwrap().iter());
    // A reserved block type is no DEFLATE stream.
    assert!(HotkeyInfo::from(&[0xff, 0xff, 0xff]).is_err());
}

#[test]
fn bind_and_unbind() {
    let info = sample();
    let bound = info.bind_key(0, 1, 90, true, false, true).unwrap();
    let h = *bound.group(0).unwrap().hotkey(1).unwrap();
    assert_eq!(h.key, 90);
    assert_eq!(h.string_id, 19001);
    assert!(h.ctrl && !h.alt && h.shift);
    assert_eq!(bound.group(0).unwrap().hotkey(0), info.group(0).unwrap().hotkey(0));
    let unbound = bound.unbind_key(0, 1).unwrap();
    let h = *unbound.group(0).unwrap().hotkey(1).unwrap();
    assert_eq!(h.key, 0);
    assert!(!h.ctrl && !h.alt && !h.shift);
    match info.bind_key(5, 0, 1, false, false, false) {
        Err(IndexError::GroupIndex(e)) => {
            assert_eq!(e.index(), 5);
            assert_eq!(e.num_groups(), 2);
        }
        _ => panic!("expected a group index error"),
    }
    match info.unbind_key(1, 3) {
        Err(IndexError::HotkeyIndex(e)) => {
            assert_eq!(e.index(), 3);
            assert_eq!(e.num_hotkeys(), 1);
        }
        _ => panic!("expected a hotkey index error"),
    }
}

#[test]
fn group_bind_and_unbind() {
    let group = HotkeyGroup::from_hotkeys(vec![hotkey(65, 19000)]);
    let bound = group.bind(0, 70, false, true, false).unwrap();
    assert_eq!(bound.hotkey(0).unwrap().key, 70);
    assert!(bound.hotkey(0).unwrap().alt);
    assert_eq!(bound.unbind(0).unwrap().hotkey(0).unwrap().key, 0);
    assert_eq!(group.unbind(1).err().unwrap().num_hotkeys(), 1);
}

#[test]
fn bindings_by_keycode() {
    let info = sample();
    let map = info.bindings_per_keycode();
    assert_eq!(map.len(), 2);
    assert_eq!(map[&65], vec![hotkey(65, 19000), hotkey(65, 19100)]);
    assert_eq!(map[&66], vec![hotkey(66, 19001)]);
}

#[test]
fn hotkey_text_with_labels() {
    let mut lang = LangFile::new();
    lang.insert(StringKey::from(19000u32), String::from("Build"));
    let h = Hotkey { key: 66, string_id: 19000, ctrl: true, alt: true, shift: false, mouse: 0 };
    assert_eq!(h.to_string_lang(&lang), "Build (19000): ctrl-ctrl-66");
    let h = hotkey(-3, 7);
    assert_eq!(h.to_string_lang(&lang), "7: -3");
}

#[test]
fn keycodes_with_names() {
    assert_eq!(keycode_id(112), Some(19545));
    assert_eq!(keycode_id(135), Some(19568));
    assert_eq!(keycode_id(121), None);
    assert_eq!(keycode_id(255), Some(19710));
    assert_eq!(keycode_id(65), None);
}

#[test]
fn hotkey_builders() {
    let h = Hotkey::default().key(5).string_id(12).ctrl(true).alt(true).shift(true);
    assert_eq!(h.key, 5);
    assert_eq!(h.string_id, 12);
    assert!(h.ctrl && h.alt && h.shift);
    let cleared = h.string_id(-1);
    assert_eq!(cleared.key, 0);
    assert_eq!(cleared.string_id, -1);
}
