use stack_vm::InfallibleDivision;

#[test]
fn division_by_zero_gives_type_maximum() {
    assert_eq!(u8::infallible_div(7, 0), u8::MAX);
    assert_eq!(u16::infallible_div(7, 0), u16::MAX);
    assert_eq!(u32::infallible_div(7, 0), u32::MAX);
    assert_eq!(u64::infallible_div(7, 0), u64::MAX);
    assert_eq!(i8::infallible_div(-7, 0), i8::MAX);
    assert_eq!(i16::infallible_div(-7, 0), i16::MAX);
    assert_eq!(i32::infallible_div(7, 0), i32::MAX);
    assert_eq!(i64::infallible_div(-7, 0), i64::MAX);
}

#[test]
fn remainder_by_zero_gives_dividend() {
    assert_eq!(u8::infallible_rem(200, 0), 200);
    assert_eq!(u16::infallible_rem(9, 0), 9);
    assert_eq!(u32::infallible_rem(9, 0), 9);
    assert_eq!(u64::infallible_rem(10, 0), 10);
    assert_eq!(i8::infallible_rem(-100, 0), -100);
    assert_eq!(i16::infallible_rem(-9, 0), -9);
    assert_eq!(i32::infallible_rem(9, 0), 9);
    assert_eq!(i64::infallible_rem(i64::MIN, 0), i64::MIN);
}

#[test]
fn division_rounds_toward_zero() {
    assert_eq!(u8::infallible_div(7, 3), 2);
    assert_eq!(u64::infallible_rem(7, 3), 1);
    assert_eq!(i8::infallible_div(-7, 2), -3);
    assert_eq!(i8::infallible_rem(-7, 2), -1);
    assert_eq!(i16::infallible_div(7, -2), -3);
    assert_eq!(i16::infallible_rem(7, -2), 1);
    assert_eq!(i32::infallible_div(-7, -2), 3);
    assert_eq!(i32::infallible_rem(-7, -2), -1);
    assert_eq!(i64::infallible_div(i64::MIN, 2), i64::MIN / 2);
}

#[test]
fn signed_minimum_over_minus_one_wraps() {
    assert_eq!(i8::infallible_div(i8::MIN, -1), i8::MIN);
    assert_eq!(i8::infallible_rem(i8::MIN, -1), 0);
    assert_eq!(i64::infallible_div(i64::MIN, -1), i64::MIN);
    assert_eq!(i64::infallible_rem(i64::MIN, -1), 0);
}
