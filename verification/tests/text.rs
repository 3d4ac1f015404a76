use netplay_server::bytes::{from_le, same_bytes, to_le};
use netplay_server::cli::usage;
use netplay_server::text::{decimal_text, hex_text, prefixed_hex_text, with_number};

#[test]
fn numbers_as_text() {
    assert_eq!(decimal_text(0), "0");
    assert_eq!(decimal_text(9), "9");
    assert_eq!(decimal_text(10), "10");
    assert_eq!(decimal_text(4294967295), "4294967295");
    assert_eq!(with_number("<", 305, ">"), "<305>");
    for n in 0..2000usize {
        assert_eq!(decimal_text(n), format!("{}", n));
    }
}

#[test]
fn bytes_as_text() {
    assert_eq!(hex_text(&[0, 0x1f, 0xab]), "001fab");
    for b in 0..=255u8 {
        assert_eq!(prefixed_hex_text(b), format!("{:#x}", b));
        assert_eq!(hex_text(&[b]), format!("{:02x}", b));
    }
}

#[test]
fn little_endian() {
    assert_eq!(to_le(0x01020304), [4, 3, 2, 1]);
    assert_eq!(from_le(&[4, 3, 2, 1]), 0x01020304);
    assert_eq!(from_le(&[255, 255, 255, 255]), u32::MAX);
    assert_eq!(to_le(0xdeadbeef), 0xdeadbeefu32.to_le_bytes());
}

#[test]
fn byte_strings_compare() {
    assert!(same_bytes(b"abc", b"abc"));
    assert!(!same_bytes(b"abc", b"abd"));
    assert!(!same_bytes(b"abc", b"ab"));
    assert!(same_bytes(b"", b""));
}

#[test]
fn usage_lines() {
    assert_eq!(usage(Some("server"), "server"), "Usage: server <configfile>");
    assert_eq!(usage(Some("my server"), "my server"), "Usage: \"my server\" <configfile>");
    assert_eq!(usage(None, "s?"), "Usage: \"s?\" <configfile>");
}
