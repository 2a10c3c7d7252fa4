use nrf_unifying::keymap::char_to_hid;

#[test]
fn letters_and_digits() {
    assert_eq!(char_to_hid(b'a'), Some((0x04, false)));
    assert_eq!(char_to_hid(b'z'), Some((0x1d, false)));
    assert_eq!(char_to_hid(b'A'), Some((0x04, true)));
    assert_eq!(char_to_hid(b'Z'), Some((0x1d, true)));
    assert_eq!(char_to_hid(b'1'), Some((0x1e, false)));
    assert_eq!(char_to_hid(b'9'), Some((0x26, false)));
    assert_eq!(char_to_hid(b'0'), Some((0x27, false)));
}

#[test]
fn symbols_and_controls() {
    assert_eq!(char_to_hid(b' '), Some((0x2c, false)));
    assert_eq!(char_to_hid(b'\n'), Some((0x28, false)));
    assert_eq!(char_to_hid(b'\r'), Some((0x28, false)));
    assert_eq!(char_to_hid(b'\t'), Some((0x2b, false)));
    assert_eq!(char_to_hid(b'!'), Some((0x1e, true)));
    assert_eq!(char_to_hid(b')'), Some((0x27, true)));
    assert_eq!(char_to_hid(b'?'), Some((0x38, true)));
    assert_eq!(char_to_hid(b'/'), Some((0x38, false)));
    assert_eq!(char_to_hid(b'~'), Some((0x35, true)));
}

#[test]
fn no_key() {
    assert_eq!(char_to_hid(0), None);
    assert_eq!(char_to_hid(0x7f), None);
    assert_eq!(char_to_hid(0x80), None);
    assert_eq!(char_to_hid(0xff), None);
}

#[test]
fn printable_characters_have_keys_of_their_own() {
    let mut seen: Vec<(u8, bool)> = Vec::new();
    for c in 0x20..=0x7eu8 {
        let key = char_to_hid(c).unwrap();
        assert!(!seen.contains(&key));
        seen.push(key);
    }
    assert_eq!(seen.len(), 95);
}
