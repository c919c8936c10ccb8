use fmtastic::{Flags, Subscript, Superscript};
use std::fmt;

/// Lets `format!` pick the flags: what the formatter was asked for is handed
/// to the closure.
struct Formatted<F: Fn(Flags) -> String>(F);

impl<F: Fn(Flags) -> String> fmt::Display for Formatted<F> {
    fn fmt(&self, f: &mut fmt::Formatter<'_>) -> fmt::Result {
        let flags = Flags {
            alternate: f.alternate(),
            sign_plus: f.sign_plus(),
            sign_minus: f.sign_minus(),
        };
        f.write_str(&(self.0)(flags))
    }
}

fn plus() -> Flags {
    Flags { sign_plus: true, ..Flags::default() }
}

#[test]
fn formats_as_superscript() {
    for (expected, input) in [
        ("⁰", 0),
        ("¹", 1),
        ("²", 2),
        ("³", 3),
        ("⁴", 4),
        ("⁵", 5),
        ("⁶", 6),
        ("⁷", 7),
        ("⁸", 8),
        ("⁹", 9),
        ("¹⁰", 10),
        ("¹²³⁴⁵⁶⁷⁸⁹⁰", 1234567890),
        ("⁻¹²³⁴⁵⁶⁷⁸⁹⁰", -1234567890),
    ] {
        assert_eq!(expected, Superscript(input).to_string())
    }
}

#[test]
fn adds_superscript_plus_sign_to_positive_numbers() {
    assert_eq!("⁺⁰", format!("{:+}", Formatted(|flags| Superscript(0).fmt(flags))));
    assert_eq!(
        "⁺¹²³⁴⁵⁶⁷⁸⁹⁰",
        format!("{:+}", Formatted(|flags| Superscript(1234567890).fmt(flags)))
    );
    assert_eq!(
        "⁻¹²³⁴⁵⁶⁷⁸⁹⁰",
        format!("{:+}", Formatted(|flags| Superscript(-1234567890).fmt(flags)))
    );
}

#[test]
fn formats_as_subscript() {
    for (expected, input) in [
        ("₀", 0),
        ("₁", 1),
        ("₂", 2),
        ("₃", 3),
        ("₄", 4),
        ("₅", 5),
        ("₆", 6),
        ("₇", 7),
        ("₈", 8),
        ("₉", 9),
        ("₁₀", 10),
        ("₁₂₃₄₅₆₇₈₉₀", 1234567890),
        ("₋₁₂₃₄₅₆₇₈₉₀", -1234567890),
    ] {
        assert_eq!(expected, Subscript(input).to_string())
    }
}

#[test]
fn adds_subscript_plus_sign_to_positive_numbers() {
    assert_eq!("₊₀", format!("{:+}", Formatted(|flags| Subscript(0).fmt(flags))));
    assert_eq!(
        "₊₁₂₃₄₅₆₇₈₉₀",
        format!("{:+}", Formatted(|flags| Subscript(1234567890).fmt(flags)))
    );
    assert_eq!(
        "₋₁₂₃₄₅₆₇₈₉₀",
        format!("{:+}", Formatted(|flags| Subscript(-1234567890).fmt(flags)))
    );
}

#[test]
fn superscript_shows_minus_without_any_flag() {
    assert_eq!("¹²³", Superscript(123).to_string());
    assert_eq!("⁻¹²³", Superscript(-123).to_string());
    assert_eq!("⁺¹²³", Superscript(123).fmt(plus()));
    assert_eq!("⁻¹²³", Superscript(-123).fmt(plus()));
}

#[test]
fn subscript_shows_minus_without_any_flag() {
    assert_eq!("₁₂₃", Subscript(123).to_string());
    assert_eq!("₋₁₂₃", Subscript(-123).to_string());
    assert_eq!("₊₁₂₃", Subscript(123).fmt(plus()));
    assert_eq!("x₁", format!("x{}", Subscript(1).to_string()));
    assert_eq!("n²", format!("n{}", Superscript(2).to_string()));
}

#[test]
fn superscript_in_binary() {
    assert_eq!("¹⁰¹⁰¹⁰", Superscript(0b101010).fmt_binary(Flags::default()));
    assert_eq!("⁺¹⁰¹⁰¹⁰", Superscript(0b101010).fmt_binary(plus()));
    assert_eq!("⁻¹⁰¹⁰¹⁰", Superscript(-0b101010).fmt_binary(Flags::default()));
    assert_eq!("⁰", Superscript(0).fmt_binary(Flags::default()));
}

#[test]
fn subscript_in_binary() {
    assert_eq!("₁₀₁₀₁₀", Subscript(0b101010).fmt_binary(Flags::default()));
    assert_eq!("₊₁₀₁₀₁₀", Subscript(0b101010).fmt_binary(plus()));
    assert_eq!("₋₁₀₁₀₁₀", Subscript(-0b101010).fmt_binary(Flags::default()));
    assert_eq!("₀", Subscript(0).fmt_binary(Flags::default()));
}

#[test]
fn other_flags_leave_superscript_and_subscript_alone() {
    let others = Flags { alternate: true, sign_plus: false, sign_minus: true };
    assert_eq!("⁴²", Superscript(42u8).fmt(others));
    assert_eq!("₋₄₂", Subscript(-42i64).fmt(others));
}

#[test]
fn least_and_greatest_values_are_written_in_full() {
    assert_eq!("⁻¹²⁸", Superscript(i8::MIN).to_string());
    assert_eq!("₋₃₂₇₆₈", Subscript(i16::MIN).to_string());
    assert_eq!(
        "⁻¹⁷⁰¹⁴¹¹⁸³⁴⁶⁰⁴⁶⁹²³¹⁷³¹⁶⁸⁷³⁰³⁷¹⁵⁸⁸⁴¹⁰⁵⁷²⁸",
        Superscript(i128::MIN).to_string()
    );
    assert_eq!(
        "₃₄₀₂₈₂₃₆₆₉₂₀₉₃₈₄₆₃₄₆₃₃₇₄₆₀₇₄₃₁₇₆₈₂₁₁₄₅₅",
        Subscript(u128::MAX).to_string()
    );
    assert_eq!("⁻¹⁰⁰⁰⁰⁰⁰⁰", Superscript(i8::MIN).fmt_binary(Flags::default()));
}

#[test]
fn superscript_and_subscript_have_the_same_digits() {
    let superscript: Vec<char> = "⁰¹²³⁴⁵⁶⁷⁸⁹".chars().collect();
    let subscript: Vec<char> = "₀₁₂₃₄₅₆₇₈₉".chars().collect();
    for n in [0i64, 7, -7, 10, 1234567890, -9876543210, i64::MIN, i64::MAX] {
        let above: Vec<char> = Superscript(n).to_string().chars().collect();
        let below: Vec<char> = Subscript(n).to_string().chars().collect();
        assert_eq!(above.len(), below.len());
        for (a, b) in above.iter().zip(below.iter()) {
            if *a == '⁻' {
                assert_eq!('₋', *b);
            } else {
                let digit = superscript.iter().position(|c| c == a).unwrap();
                assert_eq!(subscript[digit], *b);
            }
        }
    }
}

#[test]
fn formatting_twice_gives_the_same_text() {
    let flags = plus();
    assert_eq!(Superscript(-31).fmt(flags), Superscript(-31).fmt(flags));
    assert_eq!(Subscript(31).fmt(flags).into_bytes(), Subscript(31).fmt(flags).into_bytes());
}

#[test]
fn conversions_wrap_the_number() {
    assert_eq!(Superscript(5), Superscript::from(5));
    assert_eq!(Subscript(-5), Subscript::from(-5));
    let copy = Superscript(9u8);
    assert_eq!(copy, copy.clone());
}
