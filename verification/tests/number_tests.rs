use memnav::number::{
    format_address, format_decimal, parse_decimal, parse_hex, parse_prefixed_hex, parse_size,
};

#[test]
fn parse_hex_reads_digits_of_either_case() {
    assert_eq!(parse_hex("0"), 0);
    assert_eq!(parse_hex("1000"), 0x1000);
    assert_eq!(parse_hex("deadBEEF"), 0xDEAD_BEEF);
    assert_eq!(parse_hex("000000000000000000001f"), 0x1F);
    assert_eq!(parse_hex("ffffffffffffffff"), u64::MAX);
}

#[test]
fn parse_hex_gives_zero_for_what_is_no_number() {
    assert_eq!(parse_hex(""), 0);
    assert_eq!(parse_hex("xyz"), 0);
    assert_eq!(parse_hex("12g4"), 0);
    assert_eq!(parse_hex("0x10"), 0);
    assert_eq!(parse_hex(" 10"), 0);
    assert_eq!(parse_hex("-1"), 0);
    assert_eq!(parse_hex("\u{663}"), 0);
}

#[test]
fn parse_hex_gives_zero_beyond_64_bits() {
    assert_eq!(parse_hex("10000000000000000"), 0);
    assert_eq!(parse_hex("1ffffffffffffffffff"), 0);
    assert_eq!(parse_hex("fffffffffffffffff"), 0);
}

#[test]
fn parse_hex_agrees_with_from_str_radix_on_digits() {
    let samples = ["0", "7", "a", "F", "10", "abc", "7fffffff", "123456789abcdef0", "fedcba9876543210", "ffffffffffffffff1", "00ff"];
    for sample in samples {
        assert_eq!(parse_hex(sample), u64::from_str_radix(sample, 16).unwrap_or(0), "{}", sample);
    }
}

#[test]
fn parse_decimal_reads_decimal_digits_only() {
    assert_eq!(parse_decimal("0"), 0);
    assert_eq!(parse_decimal("2399"), 2399);
    assert_eq!(parse_decimal("18446744073709551615"), u64::MAX);
    assert_eq!(parse_decimal("18446744073709551616"), 0);
    assert_eq!(parse_decimal("12a"), 0);
    assert_eq!(parse_decimal(""), 0);
    assert_eq!(parse_decimal("\u{661}\u{662}"), 0);
}

#[test]
fn parse_prefixed_hex_needs_the_prefix() {
    assert_eq!(parse_prefixed_hex("0x1000"), 0x1000);
    assert_eq!(parse_prefixed_hex("0x600091d4"), 0x6000_91D4);
    assert_eq!(parse_prefixed_hex("1000"), 0);
    assert_eq!(parse_prefixed_hex("0X10"), 0);
    assert_eq!(parse_prefixed_hex("0x"), 0);
    assert_eq!(parse_prefixed_hex("0"), 0);
    assert_eq!(parse_prefixed_hex(""), 0);
    assert_eq!(parse_prefixed_hex("0x1ffffffffffffffff"), 0);
}

#[test]
fn parse_size_reads_hexadecimal_and_decimal() {
    assert_eq!(parse_size("0x95f"), 0x95F);
    assert_eq!(parse_size("95"), 95);
    assert_eq!(parse_size("010"), 10);
    assert_eq!(parse_size("0x"), 0);
    assert_eq!(parse_size("95f"), 0);
    assert_eq!(parse_size(""), 0);
}

#[test]
fn format_address_agrees_with_upper_hex() {
    let samples = [0u64, 1, 9, 10, 15, 16, 255, 0x1000, 0xDEAD_BEEF, 0x6000_91D4, u64::MAX];
    for sample in samples {
        assert_eq!(format_address(sample), format!("{:#X}", sample));
    }
}

#[test]
fn format_address_has_prefix_and_upper_case_digits() {
    assert_eq!(format_address(0), "0x0");
    assert_eq!(format_address(0xabcdef), "0xABCDEF");
    assert_eq!(format_address(0x1000), "0x1000");
}

#[test]
fn format_decimal_agrees_with_to_string() {
    let samples = [0u64, 1, 9, 10, 99, 100, 256, 3840, 1_000_000_007, u64::MAX];
    for sample in samples {
        assert_eq!(format_decimal(sample), sample.to_string());
    }
}

#[test]
fn written_numbers_read_back() {
    let samples = [0u64, 1, 15, 16, 0x1000, 0xFFFF_FFFF, u64::MAX];
    for sample in samples {
        assert_eq!(parse_prefixed_hex(&format_address(sample)), sample);
        assert_eq!(parse_size(&format_address(sample)), sample);
        assert_eq!(parse_size(&format_decimal(sample)), sample);
        assert_eq!(parse_decimal(&format_decimal(sample)), sample);
    }
}
