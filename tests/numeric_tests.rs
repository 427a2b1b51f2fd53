use imx::numeric;

#[test]
fn test_i32_to_u32() {
    assert_eq!(numeric::i32_to_u32(0), 0);
    assert_eq!(numeric::i32_to_u32(1), 1);
    assert_eq!(numeric::i32_to_u32(i32::MAX), i32::MAX as u32);

    assert_eq!(numeric::i32_to_u32(-1), 0);
    assert_eq!(numeric::i32_to_u32(i32::MIN), 0);
    assert_eq!(numeric::i32_to_u32(-42), 0);
}

#[test]
fn test_u32_to_i32() {
    assert_eq!(numeric::u32_to_i32(0), 0);
    assert_eq!(numeric::u32_to_i32(1), 1);
    assert_eq!(numeric::u32_to_i32(i32::MAX as u32), i32::MAX);

    assert_eq!(numeric::u32_to_i32(i32::MAX as u32 + 1), i32::MAX);
    assert_eq!(numeric::u32_to_i32(u32::MAX), i32::MAX);

    assert_eq!(numeric::u32_to_i32(i32::MAX as u32 - 1), i32::MAX - 1);
}
