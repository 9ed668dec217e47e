use maybe_hex::{maybe_hex, ParseError};

#[test]
fn upper_and_lower_hex_digits_agree() {
    let lower: u32 = maybe_hex("0x10ab").unwrap();
    let upper: u32 = maybe_hex("0x10AB").unwrap();
    assert_eq!(lower, upper);
    assert_eq!(upper, 0x10AB);
}

#[test]
fn uppercase_prefix_is_an_invalid_digit() {
    assert_eq!(maybe_hex::<u32>("0X10AB"), Err(ParseError::InvalidDigit));
}

#[test]
fn hex_overflow_is_reported() {
    assert_eq!(maybe_hex::<u16>("0x10ABCDEF"), Err(ParseError::PosOverflow));
    assert_eq!(maybe_hex::<u8>("0x100"), Err(ParseError::PosOverflow));
}

#[test]
fn signed_hex_is_an_invalid_digit() {
    assert_eq!(maybe_hex::<i16>("-0xAB"), Err(ParseError::InvalidDigit));
    assert_eq!(maybe_hex::<i16>("+0xAB"), Err(ParseError::InvalidDigit));
}

#[test]
fn sign_before_bare_hex_digits_is_rejected() {
    assert_eq!(maybe_hex::<u32>("+ab"), Err(ParseError::InvalidDigit));
    assert_eq!(maybe_hex::<i32>("-ab"), Err(ParseError::InvalidDigit));
    assert_eq!(maybe_hex::<u32>("0x+ab"), Err(ParseError::InvalidDigit));
}

#[test]
fn empty_inputs() {
    assert_eq!(maybe_hex::<u32>(""), Err(ParseError::Empty));
    assert_eq!(maybe_hex::<i64>("0x"), Err(ParseError::Empty));
}

#[test]
fn prefix_is_stripped_once() {
    assert_eq!(maybe_hex::<u32>("0x0x12"), Err(ParseError::InvalidDigit));
}

#[test]
fn decimal_takes_precedence_over_hex() {
    let ten: u8 = maybe_hex("10").unwrap();
    assert_eq!(ten, 10);
    let ff: u8 = maybe_hex("ff").unwrap();
    assert_eq!(ff, 0xFF);
    let hex_fallback: u16 = maybe_hex("1f").unwrap();
    assert_eq!(hex_fallback, 0x1F);
    assert_eq!(maybe_hex::<u16>("70000"), Err(ParseError::PosOverflow));
}

#[test]
fn decimal_overflow_falls_back_to_hex() {
    assert_eq!(maybe_hex::<i8>("128"), Err(ParseError::PosOverflow));
    assert_eq!(maybe_hex::<i8>("-129"), Err(ParseError::InvalidDigit));
    assert_eq!(maybe_hex::<u8>("99"), Ok(99));
}

#[test]
fn extremes_of_each_width() {
    assert_eq!(maybe_hex::<i8>("-128"), Ok(i8::MIN));
    assert_eq!(maybe_hex::<i8>("127"), Ok(i8::MAX));
    assert_eq!(maybe_hex::<i8>("0x7f"), Ok(i8::MAX));
    assert_eq!(maybe_hex::<i8>("0x80"), Err(ParseError::PosOverflow));
    assert_eq!(maybe_hex::<u16>("0xffff"), Ok(u16::MAX));
    assert_eq!(maybe_hex::<i16>("-32768"), Ok(i16::MIN));
    assert_eq!(maybe_hex::<i32>("-2147483648"), Ok(i32::MIN));
    assert_eq!(maybe_hex::<u64>("18446744073709551615"), Ok(u64::MAX));
    assert_eq!(maybe_hex::<i64>("0x7FFFFFFFFFFFFFFF"), Ok(i64::MAX));
    assert_eq!(maybe_hex::<i128>("-170141183460469231731687303715884105728"), Ok(i128::MIN));
    assert_eq!(maybe_hex::<u128>("0xffffffffffffffffffffffffffffffff"), Ok(u128::MAX));
}

#[test]
fn minus_zero_is_zero_in_every_type() {
    assert_eq!(maybe_hex::<u32>("-0"), Ok(0));
    assert_eq!(maybe_hex::<u8>("-00"), Ok(0));
    assert_eq!(maybe_hex::<usize>("-000"), Ok(0));
    assert_eq!(maybe_hex::<i16>("-0"), Ok(0));
}

#[test]
fn minus_sign_on_unsigned_nonzero_decimal_is_rejected() {
    assert_eq!(maybe_hex::<u32>("-5"), Err(ParseError::InvalidDigit));
    assert_eq!(maybe_hex::<u64>("-010"), Err(ParseError::InvalidDigit));
    assert_eq!(maybe_hex::<u32>("-"), Err(ParseError::InvalidDigit));
}

#[test]
fn pointer_sized_types() {
    assert_eq!(maybe_hex::<usize>("0xff"), Ok(255));
    assert_eq!(maybe_hex::<usize>("4096"), Ok(4096));
    assert_eq!(maybe_hex::<isize>("-4096"), Ok(-4096));
    assert_eq!(maybe_hex::<isize>("0x7f"), Ok(127));
    assert_eq!(maybe_hex::<usize>(&format!("{}", usize::MAX)), Ok(usize::MAX));
    assert_eq!(maybe_hex::<isize>(&format!("{}", isize::MIN)), Ok(isize::MIN));
    assert_eq!(maybe_hex::<isize>("-0xAB"), Err(ParseError::InvalidDigit));
}

#[test]
fn decimal_values_read_back() {
    assert_eq!(maybe_hex::<i32>("-12345678"), Ok(-12345678));
    assert_eq!(maybe_hex::<i32>("+12345678"), Ok(12345678));
    assert_eq!(maybe_hex::<i64>("007"), Ok(7));
}

#[test]
fn leading_and_trailing_zeros() {
    assert_eq!(maybe_hex::<u32>("0x00000012"), Ok(0x12));
    assert_eq!(maybe_hex::<u32>("0x12000000"), Ok(0x12000000));
}

#[test]
fn round_trip_through_formatting() {
    for v in [0u64, 1, 9, 10, 15, 16, 255, 256, 65535, 1 << 40, u64::MAX] {
        assert_eq!(maybe_hex::<u64>(&format!("0x{:x}", v)), Ok(v));
        assert_eq!(maybe_hex::<u64>(&format!("{:#X}", v)), Ok(v));
        assert_eq!(maybe_hex::<u64>(&format!("{}", v)), Ok(v));
    }
    for v in [0usize, 16, 4096, usize::MAX] {
        assert_eq!(maybe_hex::<usize>(&format!("{:#x}", v)), Ok(v));
        assert_eq!(maybe_hex::<usize>(&format!("{}", v)), Ok(v));
    }
    for v in [0u8, 7, 200, u8::MAX] {
        assert_eq!(maybe_hex::<u8>(&format!("0x{:x}", v)), Ok(v));
        assert_eq!(maybe_hex::<u8>(&format!("{}", v)), Ok(v));
    }
}

#[test]
fn invalid_characters() {
    assert_eq!(maybe_hex::<u32>("0xg1"), Err(ParseError::InvalidDigit));
    assert_eq!(maybe_hex::<u32>(" 12"), Err(ParseError::InvalidDigit));
    assert_eq!(maybe_hex::<u32>("+"), Err(ParseError::InvalidDigit));
}
