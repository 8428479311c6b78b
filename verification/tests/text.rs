use zappy::text::{append_hex_byte, characters, decimal_string, same_text};

#[test]
fn decimal_numerals_are_those_of_std() {
    for n in [0u32, 1, 9, 10, 42, 99, 100, 101, 65_535, 1_000_000, u32::MAX] {
        assert_eq!(decimal_string(n), n.to_string());
    }
}

#[test]
fn hex_bytes_are_those_of_std() {
    for b in 0..=255u8 {
        let mut s = "x".to_string();
        append_hex_byte(&mut s, b);
        assert_eq!(s, format!("x{b:02x}"));
    }
}

#[test]
fn text_helpers() {
    assert!(same_text("boot", "boot"));
    assert!(!same_text("boot", "zap"));
    assert_eq!(characters("a\u{e9}\u{1f600}"), vec!['a', '\u{e9}', '\u{1f600}']);
}

#[test]
fn numerals_read_back() {
    for n in [0u32, 7, 10, 4_294_967_295] {
        assert_eq!(decimal_string(n).parse::<u32>().unwrap(), n);
    }
}
