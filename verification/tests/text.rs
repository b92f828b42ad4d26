use match_lighthouse::text::parse_decimal;

#[test]
fn decimal_numbers_are_read() {
    assert_eq!(parse_decimal(b"7", 65_535), Some(7));
    assert_eq!(parse_decimal(b"+007", 65_535), Some(7));
    assert_eq!(parse_decimal(b"65535", 65_535), Some(65_535));
    assert_eq!(parse_decimal(b"65536", 65_535), None);
    assert_eq!(parse_decimal(b"18446744073709551615", u64::MAX), Some(u64::MAX));
    assert_eq!(parse_decimal(b"18446744073709551616", u64::MAX), None);
    for text in ["", "+", "-1", " 7", "7 ", "++7", "0x7", "\u{664}"] {
        assert_eq!(parse_decimal(text.as_bytes(), u64::MAX), None);
        assert_eq!(text.parse::<u64>().ok(), None);
    }
}
