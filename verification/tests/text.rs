use image_service::text::{append_decimal, parse_hex_after_hashes, parse_i32, parse_u32, same_text};

#[test]
fn parse_u32_reads_plain_decimal() {
    assert_eq!(parse_u32("42"), Some(42));
    assert_eq!(parse_u32("0"), Some(0));
    assert_eq!(parse_u32("007"), Some(7));
    assert_eq!(parse_u32("+7"), Some(7));
    assert_eq!(parse_u32("4294967295"), Some(u32::MAX));
}

#[test]
fn parse_u32_refuses_what_is_no_numeral() {
    assert_eq!(parse_u32("4294967296"), None);
    assert_eq!(parse_u32("99999999999999999999999999"), None);
    assert_eq!(parse_u32("-1"), None);
    assert_eq!(parse_u32("-0"), None);
    assert_eq!(parse_u32(""), None);
    assert_eq!(parse_u32("+"), None);
    assert_eq!(parse_u32("++1"), None);
    assert_eq!(parse_u32(" 1"), None);
    assert_eq!(parse_u32("1 "), None);
    assert_eq!(parse_u32("1_0"), None);
    assert_eq!(parse_u32("1.5"), None);
    assert_eq!(parse_u32("ff"), None);
    assert_eq!(parse_u32("12\u{663}"), None);
    assert_eq!(parse_u32("\u{ff11}"), None);
}

#[test]
fn parse_i32_reads_signed_decimal() {
    assert_eq!(parse_i32("50"), Some(50));
    assert_eq!(parse_i32("+50"), Some(50));
    assert_eq!(parse_i32("-50"), Some(-50));
    assert_eq!(parse_i32("-0"), Some(0));
    assert_eq!(parse_i32("-2147483648"), Some(i32::MIN));
    assert_eq!(parse_i32("2147483647"), Some(i32::MAX));
}

#[test]
fn parse_i32_refuses_what_is_no_numeral() {
    assert_eq!(parse_i32("2147483648"), None);
    assert_eq!(parse_i32("-2147483649"), None);
    assert_eq!(parse_i32("-"), None);
    assert_eq!(parse_i32("+"), None);
    assert_eq!(parse_i32(""), None);
    assert_eq!(parse_i32("abc"), None);
    assert_eq!(parse_i32("+-1"), None);
    assert_eq!(parse_i32("--1"), None);
    assert_eq!(parse_i32("1e3"), None);
    assert_eq!(parse_i32("\u{2212}5"), None);
}

#[test]
fn decimal_parsers_agree_with_the_standard_library() {
    let samples = [
        "", "0", "1", "-1", "+1", "+", "-", "00", "-00", "10", "4294967295", "4294967296",
        "2147483647", "2147483648", "-2147483648", "-2147483649", " 5", "5 ", "5\n", "0x10",
        "1,000", "٣", "1١", "+-3", "-+3", "12345678901234567890", "əbc", "9", "-9",
    ];
    for s in samples {
        assert_eq!(parse_u32(s), s.parse::<u32>().ok(), "u32 of {:?}", s);
        assert_eq!(parse_i32(s), s.parse::<i32>().ok(), "i32 of {:?}", s);
    }
}

#[test]
fn hex_parser_skips_every_leading_hash() {
    assert_eq!(parse_hex_after_hashes("FF0000"), Some(0xFF0000));
    assert_eq!(parse_hex_after_hashes("#FF0000"), Some(0xFF0000));
    assert_eq!(parse_hex_after_hashes("###00ff7f"), Some(0x00FF7F));
    assert_eq!(parse_hex_after_hashes("#+1a"), Some(0x1A));
    assert_eq!(parse_hex_after_hashes("ffffffff"), Some(u32::MAX));
    assert_eq!(parse_hex_after_hashes("100000000"), None);
    assert_eq!(parse_hex_after_hashes("#"), None);
    assert_eq!(parse_hex_after_hashes(""), None);
    assert_eq!(parse_hex_after_hashes("FF#00"), None);
    assert_eq!(parse_hex_after_hashes("#GG0000"), None);
    assert_eq!(parse_hex_after_hashes("#-1"), None);
    assert_eq!(parse_hex_after_hashes("#é"), None);
}

#[test]
fn hex_parser_agrees_with_the_standard_library() {
    let samples = [
        "", "#", "##", "0", "#0", "abc", "#ABC", "xyz", "+f", "-f", "#+", "ffffffff", "1ffffffff",
        "#12 34", "é1", "##é", "00000000000001",
    ];
    for s in samples {
        let expected = u32::from_str_radix(s.trim_start_matches('#'), 16).ok();
        assert_eq!(parse_hex_after_hashes(s), expected, "hex of {:?}", s);
    }
}

#[test]
fn same_text_compares_character_by_character() {
    assert!(same_text("image", "image"));
    assert!(same_text("", ""));
    assert!(!same_text("image", "Image"));
    assert!(!same_text("image", "images"));
    assert!(!same_text("image", "imag"));
    assert!(!same_text("value", "width"));
    assert!(same_text("grün", "grün"));
    assert!(!same_text("grün", "grun"));
}

#[test]
fn append_decimal_writes_without_leading_zeros() {
    for n in [0u32, 1, 9, 10, 11, 99, 100, 101, 12345, 1_000_000, u32::MAX] {
        let mut out = String::from("n=");
        append_decimal(&mut out, n);
        assert_eq!(out, format!("n={}", n));
    }
}
