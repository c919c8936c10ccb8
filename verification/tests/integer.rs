use fmtastic::{Integer, Sign, SignedInteger, UnsignedInteger};

fn describe<T: Integer>(n: T) -> (Sign, u128) {
    (n.sign(), n.magnitude())
}

fn signed<T: SignedInteger>(n: T) -> (Sign, u128) {
    describe(n)
}

fn unsigned<T: UnsignedInteger>(n: T) -> u128 {
    n.magnitude()
}

#[test]
fn every_width_is_an_integer() {
    assert_eq!((Sign::PositiveOrZero, 200), describe(200u8));
    assert_eq!((Sign::PositiveOrZero, 60000), describe(60000u16));
    assert_eq!((Sign::PositiveOrZero, 4000000000), describe(4000000000u32));
    assert_eq!((Sign::PositiveOrZero, u64::MAX as u128), describe(u64::MAX));
    assert_eq!((Sign::PositiveOrZero, u128::MAX), describe(u128::MAX));
    assert_eq!((Sign::PositiveOrZero, 12), describe(12usize));
    assert_eq!((Sign::Negative, 100), describe(-100i8));
    assert_eq!((Sign::Negative, 30000), describe(-30000i16));
    assert_eq!((Sign::Negative, 2000000000), describe(-2000000000i32));
    assert_eq!((Sign::Negative, i64::MAX as u128), describe(-i64::MAX));
    assert_eq!((Sign::Negative, i128::MAX as u128), describe(-i128::MAX));
    assert_eq!((Sign::Negative, 12), describe(-12isize));
}

#[test]
fn signed_and_unsigned_types_are_told_apart() {
    assert_eq!((Sign::Negative, 1), signed(-1i8));
    assert_eq!((Sign::Negative, 1), signed(-1i16));
    assert_eq!((Sign::Negative, 1), signed(-1i32));
    assert_eq!((Sign::Negative, 1), signed(-1i64));
    assert_eq!((Sign::Negative, 1), signed(-1i128));
    assert_eq!((Sign::Negative, 1), signed(-1isize));
    assert_eq!(1, unsigned(1u8));
    assert_eq!(1, unsigned(1u16));
    assert_eq!(1, unsigned(1u32));
    assert_eq!(1, unsigned(1u64));
    assert_eq!(1, unsigned(1u128));
    assert_eq!(1, unsigned(1usize));
}

#[test]
fn every_integer_type_has_zero_and_five() {
    assert_eq!(0, u8::zero());
    assert_eq!(0, i8::zero());
    assert_eq!(0, u128::zero());
    assert_eq!(0, i128::zero());
    assert_eq!(0, usize::zero());
    assert_eq!(0, isize::zero());
    assert_eq!(5, u8::five());
    assert_eq!(5, i8::five());
    assert_eq!(5, u16::five());
    assert_eq!(5, i16::five());
    assert_eq!(5, u32::five());
    assert_eq!(5, i32::five());
    assert_eq!(5, u64::five());
    assert_eq!(5, i64::five());
    assert_eq!(5, u128::five());
    assert_eq!(5, i128::five());
    assert_eq!(5, usize::five());
    assert_eq!(5, isize::five());
}

#[test]
fn small_numbers_are_counts() {
    assert_eq!(0usize, 0u8.as_usize());
    assert_eq!(15usize, 15u128.as_usize());
    assert_eq!(255usize, 255u8.as_usize());
    assert_eq!(127usize, i8::MAX.as_usize());
    assert_eq!(65535usize, u16::MAX.as_usize());
    assert_eq!(usize::MAX, usize::MAX.as_usize());
    assert_eq!(7usize, 7i64.as_usize());
}
