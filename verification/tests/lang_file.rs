use genie::lang::lang_file::{LangFile, LangFileType, LoadError};
use genie::lang::string_key::StringKey;
use genie::lang::syntax::{escape, unescape};

fn chars(s: &str) -> Vec<char> {
    s.chars().collect()
}

#[test]
fn read_ini_text() {
    let text = b"
46523=The Uighurs will join if you kill Ornlu the wolf and return to tell the tale.
; a comment
46524=Uighurs: Yes, that is the pelt of the great wolf. We will join you, Genghis Khan. And to seal the agreement, we will give you the gift of flaming arrows!
";
    let mut lang_file = LangFile::new();
    assert!(lang_file.read_ini(&text[..]).is_ok());
    assert_eq!(lang_file.len(), 2);
    assert_eq!(
        lang_file.get(&StringKey::from(46523u32)),
        Some(&String::from(
            "The Uighurs will join if you kill Ornlu the wolf and return to tell the tale."
        ))
    );
}

#[test]
fn read_ini_windows_1252() {
    // 0xE9 is an e with an acute accent in Windows codepage 1252.
    let text = b"1=caf\xe9\n";
    let mut lang_file = LangFile::new();
    assert!(lang_file.read_ini(&text[..]).is_ok());
    assert_eq!(lang_file.get(&StringKey::from(1u32)), Some(&String::from("caf\u{e9}")));
}

#[test]
fn read_ini_bad_id() {
    let mut lang_file = LangFile::new();
    assert_eq!(lang_file.read_ini(b"1=one\nabc=def\n2=two\n"), Err(LoadError::ParseIntError));
    assert_eq!(lang_file.len(), 1);
    assert_eq!(lang_file.get(&StringKey::from(1u32)), Some(&String::from("one")));
}

#[test]
fn ini_line_unescapes() {
    let mut lang_file = LangFile::new();
    assert_eq!(lang_file.load_ini_line("5=a\\nb\\tc"), Ok(()));
    assert_eq!(lang_file.load_ini_line("no equals sign"), Ok(()));
    assert_eq!(lang_file.load_ini_line(";7=comment"), Ok(()));
    assert_eq!(lang_file.len(), 1);
    assert_eq!(lang_file.get(&StringKey::from(5u32)), Some(&String::from("a\nb\tc")));
}

#[test]
fn read_keyval_text() {
    let text = br#"
46523 "The Uighurs will join if you kill Ornlu the wolf and return to tell the tale."
46524 "Uighurs: Yes, that is the pelt of the great wolf. We will join you, Genghis Khan. And to seal the agreement, we will give you the gift of flaming arrows!"
46604 "Kill the traitor, Kushluk.\n\nPrevent the tent of Genghis Khan (Wonder) from being destroyed."
LOBBYBROWSER_DATMOD_TITLE_FORMAT "DatMod: \"%s\""
"#;
    let mut lang_file = LangFile::new();
    assert!(lang_file.read_keyval(&text[..]).is_ok());
    assert_eq!(lang_file.len(), 4);
    assert_eq!(
        lang_file.get(&StringKey::from(46523u32)),
        Some(&String::from(
            "The Uighurs will join if you kill Ornlu the wolf and return to tell the tale."
        ))
    );
    assert_eq!(
        lang_file.get(&StringKey::from("LOBBYBROWSER_DATMOD_TITLE_FORMAT")),
        Some(&String::from(r#"DatMod: "%s""#))
    );
    assert_eq!(
        lang_file.get(&StringKey::from(46604u32)),
        Some(&String::from(
            "Kill the traitor, Kushluk.\n\nPrevent the tent of Genghis Khan (Wonder) from being destroyed."
        ))
    );
}

#[test]
fn keyval_line_skips() {
    let mut lang_file = LangFile::new();
    assert_eq!(lang_file.load_keyval_line("// 1 \"comment\""), Ok(()));
    assert_eq!(lang_file.load_keyval_line("   "), Ok(()));
    assert_eq!(lang_file.load_keyval_line("2 unquoted"), Ok(()));
    assert!(lang_file.is_empty());
    assert_eq!(lang_file.read_keyval(&[0xff, 0xfe, b'\n']), Err(LoadError::IoError));
}

#[test]
fn write_ini_and_keyval() {
    let mut lang_file = LangFile::new();
    lang_file.insert(
        StringKey::from(46604u32),
        String::from(
            "Kill the traitor, Kushluk.\n\nPrevent the tent of Genghis Khan (Wonder) from being destroyed.",
        ),
    );
    let mut out = vec![];
    lang_file.write_to_ini(&mut out);
    assert_eq!(
        std::str::from_utf8(&out).unwrap(),
        r"46604=Kill the traitor, Kushluk.\n\nPrevent the tent of Genghis Khan (Wonder) from being destroyed.
"
    );
    lang_file.insert(
        StringKey::from("LOBBYBROWSER_DATMOD_TITLE_FORMAT"),
        String::from(r#"DatMod: "%s""#),
    );
    let mut out = vec![];
    lang_file.write_to_ini(&mut out);
    // Named keys have no place in the ini format.
    assert_eq!(out.iter().filter(|&&b| b == b'\n').count(), 1);
    let mut out = vec![];
    lang_file.write_to_keyval(&mut out);
    assert_eq!(
        std::str::from_utf8(&out).unwrap(),
        r#"46604 "Kill the traitor, Kushluk.\n\nPrevent the tent of Genghis Khan (Wonder) from being destroyed."
LOBBYBROWSER_DATMOD_TITLE_FORMAT "DatMod: \"%s\""
"#
    );
}

#[test]
fn keyval_read_of_write() {
    let mut lang_file = LangFile::new();
    lang_file.insert(StringKey::from(1u32), String::from("tab\there \"quoted\""));
    lang_file.insert(StringKey::from("name"), String::from("line\nbreak"));
    let mut out = vec![];
    lang_file.write_to_keyval(&mut out);
    let mut back = LangFile::new();
    assert!(back.read_keyval(&out).is_ok());
    assert_eq!(back.len(), 2);
    assert_eq!(back.get(&StringKey::from(1u32)), lang_file.get(&StringKey::from(1u32)));
    assert_eq!(back.get(&StringKey::from("name")), lang_file.get(&StringKey::from("name")));
}

#[test]
fn map_operations() {
    let mut lang_file = LangFile::new();
    assert!(lang_file.is_empty());
    assert_eq!(lang_file.insert(StringKey::from(3u32), String::from("a")), None);
    assert_eq!(lang_file.insert(StringKey::from("x"), String::from("b")), None);
    assert_eq!(
        lang_file.insert(StringKey::from(3u32), String::from("c")),
        Some(String::from("a"))
    );
    assert_eq!(lang_file.len(), 2);
    assert!(lang_file.contains_key(&StringKey::from(3u32)));
    assert!(!lang_file.contains_key(&StringKey::from(4u32)));
    assert_eq!(lang_file.values(), vec![String::from("c"), String::from("b")]);
    assert_eq!(lang_file.keys().len(), 2);
    assert_eq!(lang_file.remove(&StringKey::from(3u32)), Some(String::from("c")));
    assert_eq!(lang_file.remove(&StringKey::from(3u32)), None);
    assert_eq!(lang_file.iter().len(), 1);
    let drained = lang_file.drain();
    assert_eq!(drained.len(), 1);
    assert!(lang_file.is_empty());
    lang_file.insert(StringKey::from(9u32), String::from("z"));
    lang_file.clear();
    assert_eq!(lang_file.len(), 0);
}

#[test]
fn pe_string_block() {
    // Two strings: "Hi" under the starting number, an empty one that only takes a
    // number, then "x".
    let data = [2, 0, b'H', 0, b'i', 0, 0, 0, 1, 0, b'x', 0];
    let mut lang_file = LangFile::new();
    assert_eq!(lang_file.load_pe_data(0, &data), Ok(()));
    assert_eq!(lang_file.len(), 2);
    assert_eq!(lang_file.get(&StringKey::from(0u32)), Some(&String::from("Hi")));
    assert_eq!(lang_file.get(&StringKey::from(1u32)), None);
    assert_eq!(lang_file.get(&StringKey::from(2u32)), Some(&String::from("x")));
    // A count cut short ends the block with an error.
    let mut lang_file = LangFile::new();
    assert_eq!(lang_file.load_pe_data(16, &[1, 0, b'a', 0, 7]), Err(LoadError::IoError));
    assert_eq!(lang_file.get(&StringKey::from(16u32)), Some(&String::from("a")));
}

#[test]
fn file_type_names() {
    assert_eq!(LangFileType::from_str("DLL").ok(), Some(LangFileType::Dll));
    assert_eq!(LangFileType::from_str("ini").ok(), Some(LangFileType::Ini));
    assert_eq!(LangFileType::from_str("Key-Value").ok(), Some(LangFileType::KeyValue));
    let err = LangFileType::from_str("txt").err().unwrap();
    assert_eq!(err.0, "txt");
}

#[test]
fn escape_and_unescape() {
    assert_eq!(escape(&chars("a\\b\n\"c\""), true), chars("a\\\\b\\n\\\"c\\\""));
    assert_eq!(escape(&chars("\"c\""), false), chars("\"c\""));
    assert_eq!(unescape(&chars("x\\ny\\q"), false), chars("x\ny\\q"));
    assert_eq!(unescape(&chars("quoted\" rest"), true), chars("quoted"));
    let text = chars("tab\tquote\"newline\n");
    assert_eq!(unescape(&escape(&text, true), true), text);
}

#[test]
fn retain_number_keys() {
    let mut lang_file = LangFile::new();
    lang_file.insert(StringKey::from(0u32), String::from("zero"));
    lang_file.insert(StringKey::from("a"), String::from("a"));
    lang_file.insert(StringKey::from(1u32), String::from("one"));
    lang_file.insert(StringKey::from("2"), String::from("two"));
    lang_file.retain(|k, _| match k {
        StringKey::Num(_) => true,
        StringKey::Name(_) => false,
    });
    assert_eq!(3, lang_file.len());
    assert_eq!(lang_file.get(&StringKey::from(1u32)), Some(&String::from("one")));
    assert!(lang_file.get(&StringKey::from("a")).is_none());
}

#[test]
fn keyval_law_on_values() {
    let mut lang_file = LangFile::new();
    lang_file.insert(StringKey::from(7u32), String::from("say \"hi\"\tthen\nleave"));
    lang_file.insert(StringKey::from("NAME_KEY"), String::from("  spaced  "));
    let mut out = vec![];
    lang_file.write_to_keyval(&mut out);
    let mut back = LangFile::new();
    assert!(back.read_keyval(&out).is_ok());
    assert_eq!(back.len(), 2);
    assert_eq!(back.get(&StringKey::from(7u32)), Some(&String::from("say \"hi\"\tthen\nleave")));
    assert_eq!(back.get(&StringKey::from("NAME_KEY")), Some(&String::from("  spaced  ")));
}
