use maybe_hex::maybe_hex;

#[test]
fn test_u8() {
    let result: u8 = maybe_hex("0xAB").unwrap();
    assert_eq!(result, 0xAB);
}

#[test]
fn test_u16() {
    let result: u16 = maybe_hex("0x12AB").unwrap();
    assert_eq!(result, 0x12AB);
}

#[test]
fn test_u32() {
    let result: u32 = maybe_hex("0x1234ABCD").unwrap();
    assert_eq!(result, 0x1234ABCD);
}

#[test]
fn test_i32() {
    let result: i32 = maybe_hex("0x1234ABCD").unwrap();
    assert_eq!(result, 0x1234ABCD);
}

#[test]
fn test_decimal() {
    let result: i32 = maybe_hex("12345678").unwrap();
    assert_eq!(result, 12345678);
}

#[test]
fn test_negative_decimal() {
    let result: i32 = maybe_hex("-12345678").unwrap();
    assert_eq!(result, -12345678);
}

#[test]
fn test_positive_decimal() {
    let result: i32 = maybe_hex("+12345678").unwrap();
    assert_eq!(result, 12345678);
}

#[test]
fn test_u64() {
    let result: u64 = maybe_hex("0x12345678ABCDEEFF").unwrap();
    assert_eq!(result, 0x12345678ABCDEEFF);
}

#[test]
fn test_u128() {
    let result: u128 = maybe_hex("0x12345678ABCDEEFF12345678ABCDEEFF").unwrap();
    assert_eq!(result, 0x12345678ABCDEEFF12345678ABCDEEFF);
}

#[test]
fn test_lower_case() {
    let result: u32 = maybe_hex("0x10ab").unwrap();
    assert_eq!(result, 0x10AB);
}

#[test]
fn test_wrong_prefix() {
    let result = maybe_hex::<u32>("0X10AB");
    assert!(result.is_err());
}

#[test]
fn test_overflow() {
    let result = maybe_hex::<u16>("0x10ABCDEF");
    assert!(result.is_err());
}

#[test]
fn test_explicit_minus() {
    let result = maybe_hex::<i16>("-0xAB");
    assert!(result.is_err());
}

#[test]
fn test_explicit_plus() {
    let result = maybe_hex::<i16>("+0xAB");
    assert!(result.is_err());
}

#[test]
fn test_trailing_zero() {
    let result: u32 = maybe_hex("0x12000000").unwrap();
    assert_eq!(result, 0x12000000);
}

#[test]
fn test_leading_zero() {
    let result: u32 = maybe_hex("0x00000012").unwrap();
    assert_eq!(result, 0x12);
}
