use mtk_flash::hex::{parse_u32_hex, HexParseError};

#[test]
fn parses_prefixed_hexadecimal_values() {
    assert_eq!(parse_u32_hex(b"0x0"), Ok(0));
    assert_eq!(parse_u32_hex(b"0x10000000"), Ok(0x1000_0000));
    assert_eq!(parse_u32_hex(b"0xdeadBEEF"), Ok(0xdead_beef));
    assert_eq!(parse_u32_hex(b"0xffffffff"), Ok(u32::MAX));
    assert_eq!(parse_u32_hex(b"0x000000001"), Ok(1));
}

#[test]
fn rejects_a_value_without_the_prefix() {
    assert_eq!(parse_u32_hex(b"10000000"), Err(HexParseError::MissingPrefix));
    assert_eq!(parse_u32_hex(b""), Err(HexParseError::MissingPrefix));
    assert_eq!(parse_u32_hex(b"x10"), Err(HexParseError::MissingPrefix));
}

#[test]
fn rejects_an_empty_value() {
    assert_eq!(parse_u32_hex(b"0x"), Err(HexParseError::Empty));
}

#[test]
fn rejects_non_digits() {
    assert_eq!(parse_u32_hex(b"0x12g4"), Err(HexParseError::InvalidDigit));
    assert_eq!(parse_u32_hex(b"0x 1"), Err(HexParseError::InvalidDigit));
}

#[test]
fn rejects_values_over_32_bits() {
    assert_eq!(parse_u32_hex(b"0x100000000"), Err(HexParseError::Overflow));
    assert_eq!(parse_u32_hex(b"0xffffffff0"), Err(HexParseError::Overflow));
}
