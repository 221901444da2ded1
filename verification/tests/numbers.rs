use tixml2svd::num::{parse_u64_dec, parse_u64_reset, u64_to_dec, u64_to_hex_upper};

#[test]
fn decimal_rendering() {
    assert_eq!(u64_to_dec(0), "0");
    assert_eq!(u64_to_dec(7), "7");
    assert_eq!(u64_to_dec(1234567890), "1234567890");
    assert_eq!(u64_to_dec(u64::MAX), "18446744073709551615");
}

#[test]
fn hex_rendering_is_uppercase_without_leading_zeros() {
    assert_eq!(u64_to_hex_upper(0), "0");
    assert_eq!(u64_to_hex_upper(0xA5), "A5");
    assert_eq!(u64_to_hex_upper(0xDEADBEEF), "DEADBEEF");
    assert_eq!(u64_to_hex_upper(16), "10");
}

#[test]
fn decimal_parsing() {
    assert_eq!(parse_u64_dec("0"), Some(0));
    assert_eq!(parse_u64_dec("123"), Some(123));
    assert_eq!(parse_u64_dec("+7"), Some(7));
    assert_eq!(parse_u64_dec(""), None);
    assert_eq!(parse_u64_dec("+"), None);
    assert_eq!(parse_u64_dec("12x"), None);
    assert_eq!(parse_u64_dec(" 12"), None);
    assert_eq!(parse_u64_dec("18446744073709551615"), Some(u64::MAX));
    assert_eq!(parse_u64_dec("18446744073709551616"), None);
}

#[test]
fn reset_value_parsing_accepts_both_bases() {
    assert_eq!(parse_u64_reset("10"), Some(10));
    assert_eq!(parse_u64_reset("0x10"), Some(16));
    assert_eq!(parse_u64_reset("0x1F"), Some(31));
    assert_eq!(parse_u64_reset("0XFF"), Some(255));
    assert_eq!(parse_u64_reset("0xff"), Some(255));
    assert_eq!(parse_u64_reset("0x"), None);
    assert_eq!(parse_u64_reset("abc"), None);
    assert_eq!(parse_u64_reset("0xFFFFFFFFFFFFFFFF"), Some(u64::MAX));
    assert_eq!(parse_u64_reset("0x10000000000000000"), None);
}
