use genie::lang::string_key::StringKey;

/// Tests converting from an int to a string key.
#[test]
fn string_key_from_int() {
    if let StringKey::Num(n) = StringKey::from(0u32) {
        assert_eq!(0, n);
    } else {
        panic!();
    }
}

/// Tests converting from a string representing an int to a string key.
#[test]
fn string_key_from_str_to_int() {
    let s = "57329";
    if let StringKey::Num(n) = StringKey::from(s) {
        assert_eq!(57329, n);
    } else {
        panic!();
    }
}

/// Tests converting from a string not representing an int to a string key.
#[test]
fn string_key_from_str_to_str() {
    let s = "grassDaut";
    if let StringKey::Name(n) = StringKey::from(s) {
        assert_eq!(s, n);
    } else {
        panic!();
    }
}
