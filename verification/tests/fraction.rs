use fmtastic::{extract_sign, find_single_character_fraction, Flags, VulgarFraction};

fn verbose() -> Flags {
    Flags { alternate: true, ..Flags::default() }
}

fn plus() -> Flags {
    Flags { sign_plus: true, ..Flags::default() }
}

fn minus() -> Flags {
    Flags { sign_minus: true, ..Flags::default() }
}

#[test]
fn fraction_without_a_glyph_is_spelled_out() {
    assert_eq!("¹⁰⁄₃", VulgarFraction::new(10, 3).to_string());
    assert_eq!("¹⁰⁄₃", VulgarFraction::new(10, 3).fmt(verbose()));
}

#[test]
fn fraction_with_a_glyph_is_that_glyph() {
    assert_eq!("¼", VulgarFraction::new(1, 4).to_string());
    assert_eq!("¹⁄₄", VulgarFraction::new(1, 4).fmt(verbose()));
}

#[test]
fn sign_moves_in_front_of_the_fraction_on_request() {
    assert_eq!("+¹⁰⁄₃", VulgarFraction::new(10, 3).fmt(plus()));
    assert_eq!("+¹⁰⁄₃", VulgarFraction::new(-10, -3).fmt(plus()));
    assert_eq!("-¹⁰⁄₃", VulgarFraction::new(-10, 3).fmt(minus()));
    assert_eq!("-¹⁰⁄₃", VulgarFraction::new(10, -3).fmt(minus()));
    assert_eq!("-¹⁄₀", VulgarFraction::new(-1, 0).fmt(minus()));
    assert_eq!("-⁰⁄₁", VulgarFraction::new(0, -1).fmt(minus()));
}

#[test]
fn sign_stays_inside_the_fraction_otherwise() {
    assert_eq!("⁻¹⁰⁄₃", VulgarFraction::new(-10, 3).to_string());
    assert_eq!("¹⁰⁄₋₃", VulgarFraction::new(10, -3).to_string());
    assert_eq!("⁻¹⁰⁄₋₃", VulgarFraction::new(-10, -3).to_string());
    assert_eq!("⁻¹⁰⁄₃", VulgarFraction::new(-10, 3).fmt(plus()));
    assert_eq!("⁻¹⁰⁄₋₃", VulgarFraction::new(-10, -3).fmt(minus()));
    assert_eq!("¹⁰⁄₃", VulgarFraction::new(10, 3).fmt(minus()));
    assert_eq!("⁻¹⁄₄", VulgarFraction::new(-1, 4).to_string());
    assert_eq!("⁻¹⁄₋₄", VulgarFraction::new(-1, -4).to_string());
}

#[test]
fn sign_in_front_leaves_the_glyph_of_the_magnitudes() {
    assert_eq!("-¼", VulgarFraction::new(-1, 4).fmt(minus()));
    assert_eq!("-¼", VulgarFraction::new(1, -4).fmt(minus()));
    assert_eq!("+¼", VulgarFraction::new(-1, -4).fmt(plus()));
    assert_eq!("+¼", VulgarFraction::new(1, 4).fmt(plus()));
    let spelled = Flags { alternate: true, sign_plus: false, sign_minus: true };
    assert_eq!("-¹⁄₄", VulgarFraction::new(-1, 4).fmt(spelled));
    let both = Flags { alternate: false, sign_plus: true, sign_minus: true };
    assert_eq!("+½", VulgarFraction::new(1, 2).fmt(both));
    assert_eq!("-½", VulgarFraction::new(-1, 2).fmt(both));
    assert_eq!("+↉", VulgarFraction::new(0, 3).fmt(both));
    assert_eq!("-↉", VulgarFraction::new(0, -3).fmt(both));
}

#[test]
fn every_fraction_glyph_is_found() {
    for (n, d, glyph) in [
        (1u8, 4u8, "¼"),
        (1, 2, "½"),
        (3, 4, "¾"),
        (1, 7, "⅐"),
        (1, 9, "⅑"),
        (1, 10, "⅒"),
        (1, 3, "⅓"),
        (2, 3, "⅔"),
        (1, 5, "⅕"),
        (2, 5, "⅖"),
        (3, 5, "⅗"),
        (4, 5, "⅘"),
        (1, 6, "⅙"),
        (5, 6, "⅚"),
        (1, 8, "⅛"),
        (3, 8, "⅜"),
        (5, 8, "⅝"),
        (7, 8, "⅞"),
        (0, 3, "↉"),
    ] {
        assert_eq!(Some(glyph), find_single_character_fraction(n, d));
        assert_eq!(Some(glyph), find_single_character_fraction(n as i64, d as i64));
        assert_eq!(glyph, VulgarFraction::new(n, d).to_string());
        assert_eq!(glyph, VulgarFraction::new(n as u128, d as u128).to_string());
        assert_eq!(1, glyph.chars().count());
    }
}

#[test]
fn no_other_pair_of_bytes_has_a_glyph() {
    let mut found = 0;
    for n in 0..=u8::MAX {
        for d in 0..=u8::MAX {
            if find_single_character_fraction(n, d).is_some() {
                found += 1;
            }
        }
    }
    assert_eq!(19, found);
    assert_eq!(None, find_single_character_fraction(2u8, 4u8));
    assert_eq!(None, find_single_character_fraction(4u8, 1u8));
    assert_eq!(None, find_single_character_fraction(0u8, 0u8));
    assert_eq!(None, find_single_character_fraction(1u8, 0u8));
    assert_eq!(None, find_single_character_fraction(0u8, 2u8));
    assert_eq!("²⁄₄", VulgarFraction::new(2, 4).to_string());
    assert_eq!("⁰⁄₀", VulgarFraction::new(0, 0).to_string());
    assert_eq!("¹⁄₀", VulgarFraction::new(1, 0).to_string());
}

#[test]
fn numbers_beyond_eight_bits_have_no_glyph() {
    // 257 and 260 are 1 and 4 in their low eight bits.
    assert_eq!(None, find_single_character_fraction(257u16, 4u16));
    assert_eq!(None, find_single_character_fraction(1u16, 260u16));
    assert_eq!(None, find_single_character_fraction(257i32, 260i32));
    assert_eq!(None, find_single_character_fraction(256u32 + 1, 256u32 + 2));
    assert_eq!(None, find_single_character_fraction(1u64 << 32 | 1, 4u64));
    assert_eq!(None, find_single_character_fraction(-1i32, 4i32));
    assert_eq!(None, find_single_character_fraction(1i32, -4i32));
    assert_eq!(None, find_single_character_fraction(-255i32, -252i32));
    assert_eq!("²⁵⁷⁄₄", VulgarFraction::new(257u16, 4u16).to_string());
    assert_eq!("¹⁄₂₆₀", VulgarFraction::new(1u16, 260u16).to_string());
    assert_eq!("²⁵⁶⁄₂₅₆", VulgarFraction::new(256, 256).to_string());
    assert_eq!("-²⁵⁷⁄₄", VulgarFraction::new(-257, 4).fmt(minus()));
}

#[test]
fn sign_of_a_fraction_is_the_product_of_two_signs() {
    assert_eq!(None, extract_sign(1, 2, Flags::default()));
    assert_eq!(None, extract_sign(-1, 2, Flags::default()));
    assert_eq!(Some("+"), extract_sign(1, 2, plus()));
    assert_eq!(Some("+"), extract_sign(-1, -2, plus()));
    assert_eq!(Some("+"), extract_sign(0, 0, plus()));
    assert_eq!(None, extract_sign(-1, 2, plus()));
    assert_eq!(None, extract_sign(1, 2, minus()));
    assert_eq!(Some("-"), extract_sign(-1, 2, minus()));
    assert_eq!(Some("-"), extract_sign(1, -2, minus()));
    assert_eq!(Some("-"), extract_sign(0, -2, minus()));
    assert_eq!(Some("-"), extract_sign(-2, 0, minus()));
    assert_eq!(None, extract_sign(-1, -2, minus()));
    assert_eq!(None, extract_sign(1u8, 2u8, minus()));
}

#[test]
fn least_values_keep_their_magnitude_in_a_fraction() {
    assert_eq!("-¹²⁸⁄₁₂₇", VulgarFraction::new(i8::MIN, i8::MAX).fmt(minus()));
    assert_eq!("+¹²⁸⁄₁₂₈", VulgarFraction::new(i8::MIN, i8::MIN).fmt(plus()));
    assert_eq!("⁻¹²⁸⁄₋₁₂₈", VulgarFraction::new(i8::MIN, i8::MIN).to_string());
}

#[test]
fn fractions_are_built_from_pairs_and_whole_numbers() {
    assert_eq!(VulgarFraction::new(3, 4), VulgarFraction::from((3, 4)));
    assert_eq!(VulgarFraction::new(7, 1), VulgarFraction::from(7));
    assert_eq!("⁷⁄₁", VulgarFraction::from(7u8).to_string());
    let fraction = VulgarFraction::new(-3i16, 5i16);
    assert_eq!(-3, fraction.numerator);
    assert_eq!(5, fraction.denominator);
    assert_eq!(fraction, fraction.clone());
    assert_eq!(fraction.fmt(plus()), fraction.fmt(plus()));
}
