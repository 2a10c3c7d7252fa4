use nrf_unifying::text::{
    bytes_equal, hex_byte, parse_u8_hex, parse_usize, strip_prefix, write_bytes, write_crlf,
    write_u32,
};

#[test]
fn hex_tokens() {
    assert_eq!(parse_u8_hex(b"0F"), Some(0x0f));
    assert_eq!(parse_u8_hex(b"4c"), Some(0x4c));
    assert_eq!(parse_u8_hex(b"5"), Some(0x05));
    assert_eq!(parse_u8_hex(b"fF"), Some(0xff));
    assert_eq!(parse_u8_hex(b""), None);
    assert_eq!(parse_u8_hex(b"123"), None);
    assert_eq!(parse_u8_hex(b"0g"), None);
    assert_eq!(parse_u8_hex(b"-1"), None);
}

#[test]
fn hex_digits_read_back() {
    for b in 0..=255u8 {
        let mut out = [0u8; 4];
        hex_byte(&mut out, 1, b);
        assert_eq!(out[0], 0);
        assert_eq!(out[3], 0);
        assert_eq!(parse_u8_hex(&out[1..3]), Some(b));
    }
    let mut out = [0u8; 2];
    hex_byte(&mut out, 0, 0x3d);
    assert_eq!(&out, b"3D");
}

#[test]
fn decimal_numbers() {
    let cases: [(u32, &[u8]); 6] = [
        (0, b"0"),
        (7, b"7"),
        (10, b"10"),
        (26, b"26"),
        (1_000_000, b"1000000"),
        (4_294_967_295, b"4294967295"),
    ];
    for (value, text) in cases {
        let mut out = [b'.'; 14];
        let end = write_u32(&mut out, 2, value);
        assert_eq!(end, 2 + text.len());
        assert_eq!(&out[2..end], text);
        assert_eq!(&out[..2], b"..");
        assert_eq!(out[end], b'.');
        assert_eq!(parse_usize(text), Some(value as usize));
    }
}

#[test]
fn unsigned_numbers() {
    assert_eq!(parse_usize(b"32128"), Some(32128));
    assert_eq!(parse_usize(b"+5"), Some(5));
    assert_eq!(parse_usize(b"007"), Some(7));
    assert_eq!(parse_usize(b""), None);
    assert_eq!(parse_usize(b"+"), None);
    assert_eq!(parse_usize(b"-1"), None);
    assert_eq!(parse_usize(b" 1"), None);
    assert_eq!(parse_usize(b"1x"), None);
    assert_eq!(parse_usize(&[0xff]), None);
    assert_eq!(parse_usize(b"99999999999999999999999999"), None);
    let max = format!("{}", usize::MAX);
    assert_eq!(parse_usize(max.as_bytes()), Some(usize::MAX));
}

#[test]
fn comparing_and_copying() {
    assert!(bytes_equal(b"UPAIR", b"UPAIR"));
    assert!(!bytes_equal(b"UPAIR", b"UPAIRS"));
    assert!(!bytes_equal(b"UPAIR", b"UPAIS"));
    assert_eq!(strip_prefix(b"WRITE 12", b"WRITE "), Some(&b"12"[..]));
    assert_eq!(strip_prefix(b"WRITE", b"WRITE "), None);
    assert_eq!(strip_prefix(b"READ 12", b"WRITE "), None);
    let mut out = [0u8; 6];
    assert_eq!(write_bytes(&mut out, 1, b"ab"), 3);
    assert_eq!(write_crlf(&mut out, 3), 5);
    assert_eq!(&out, b"\0ab\r\n\0");
}
