use fmtastic::{roman_pairs, Flags, Roman, SymbolRepertoire};

fn lowercase() -> Flags {
    Flags { alternate: true, ..Flags::default() }
}

#[test]
fn test_to_roman() {
    let roman =
        "I II III IV V VI VII VIII IX X XI XII XIII XIV XV XVI XVII XVIII XIX XX XXI XXII"
            .split(' ');
    for (i, x) in roman.enumerate() {
        let n = i + 1;
        assert_eq!(format!("{}", Roman::new(n).unwrap().ascii().to_string()), x);
    }
    assert_eq!(
        format!("{}", Roman::new(1984u32).unwrap().ascii().to_string()),
        "MCMLXXXIV"
    );
    assert_eq!(
        format!("{}", Roman::new(448u32).unwrap().ascii().to_string()),
        "CDXLVIII"
    );
}

#[test]
fn roman_numerals_start_at_one_and_end_at_3999() {
    assert!(Roman::new(0u16).is_none());
    assert!(Roman::new(0u8).is_none());
    assert!(Roman::new(4000u16).is_none());
    assert!(Roman::new(4000u32).is_none());
    assert!(Roman::new(u64::MAX).is_none());
    assert!(Roman::new(u128::MAX).is_none());
    assert!(Roman::new(1u16).is_some());
    assert!(Roman::new(3999u16).is_some());
    assert!(Roman::new(3999usize).is_some());
    assert!(Roman::new(255u8).is_some());
    assert_eq!("MMMCMXCIX", Roman::new(3999u16).unwrap().ascii().to_string());
    assert_eq!("I", Roman::new(1u16).unwrap().ascii().to_string());
    assert_eq!("CCLV", Roman::new(u8::MAX).unwrap().ascii().to_string());
}

#[test]
fn roman_numerals_use_unicode_symbols_by_default() {
    assert_eq!("ⅯⅯⅩⅩⅠⅤ", Roman::new(2024_u16).unwrap().to_string());
    assert_eq!("ⅾⅽⅽⅼⅹⅹⅹⅰⅹ", Roman::new(789_u16).unwrap().fmt(lowercase()));
    assert_eq!("MMXXIV", Roman::new(2024_u16).unwrap().ascii().to_string());
    assert_eq!("mmxxiv", Roman::new(2024_u16).unwrap().ascii().fmt(lowercase()));
    assert_eq!("ⅯⅯⅯⅭⅯⅩⅭⅠⅩ", Roman::new(3999_u64).unwrap().to_string());
    assert_eq!("ⅿⅿⅿⅽⅿⅹⅽⅰⅹ", Roman::new(3999_u64).unwrap().fmt(lowercase()));
}

#[test]
fn any_byte_is_a_roman_numeral() {
    assert_eq!("ⅠⅠⅠ", Roman::from(3_u8).to_string());
    assert_eq!("", Roman::from(0_u8).to_string());
    assert_eq!("CCLV", Roman::from(255_u8).ascii().to_string());
}

#[test]
fn every_symbol_is_used_where_it_is_due() {
    for (n, expected) in [
        (1u16, "I"),
        (4, "IV"),
        (5, "V"),
        (9, "IX"),
        (10, "X"),
        (40, "XL"),
        (50, "L"),
        (90, "XC"),
        (100, "C"),
        (400, "CD"),
        (500, "D"),
        (900, "CM"),
        (1000, "M"),
        (3888, "MMMDCCCLXXXVIII"),
        (1666, "MDCLXVI"),
        (2999, "MMCMXCIX"),
        (444, "CDXLIV"),
    ] {
        assert_eq!(expected, Roman::new(n).unwrap().ascii().to_string());
        assert_eq!(
            expected.to_lowercase(),
            Roman::new(n).unwrap().ascii().fmt(lowercase())
        );
    }
}

#[test]
fn the_table_of_symbols_is_ordered_by_value() {
    let values = [1000, 900, 500, 400, 100, 90, 50, 40, 10, 9, 5, 4, 1];
    for repertoire in [SymbolRepertoire::Unicode, SymbolRepertoire::Ascii] {
        for lower in [false, true] {
            let pairs = roman_pairs(repertoire, lower);
            let listed: Vec<u16> = pairs.iter().map(|pair| pair.1).collect();
            assert_eq!(values.to_vec(), listed);
        }
    }
    let upper: Vec<&str> =
        roman_pairs(SymbolRepertoire::Ascii, false).iter().map(|pair| pair.0).collect();
    assert_eq!(
        vec!["M", "CM", "D", "CD", "C", "XC", "L", "XL", "X", "IX", "V", "IV", "I"],
        upper
    );
    let lower: Vec<&str> =
        roman_pairs(SymbolRepertoire::Ascii, true).iter().map(|pair| pair.0).collect();
    assert_eq!(
        vec!["m", "cm", "d", "cd", "c", "xc", "l", "xl", "x", "ix", "v", "iv", "i"],
        lower
    );
    let unicode: Vec<&str> =
        roman_pairs(SymbolRepertoire::Unicode, false).iter().map(|pair| pair.0).collect();
    assert_eq!(
        vec!["Ⅿ", "ⅭⅯ", "Ⅾ", "ⅭⅮ", "Ⅽ", "ⅩⅭ", "Ⅼ", "ⅩⅬ", "Ⅹ", "ⅠⅩ", "Ⅴ", "ⅠⅤ", "Ⅰ"],
        unicode
    );
    let small: Vec<&str> =
        roman_pairs(SymbolRepertoire::Unicode, true).iter().map(|pair| pair.0).collect();
    assert_eq!(
        vec!["ⅿ", "ⅽⅿ", "ⅾ", "ⅽⅾ", "ⅽ", "ⅹⅽ", "ⅼ", "ⅹⅼ", "ⅹ", "ⅰⅹ", "ⅴ", "ⅰⅴ", "ⅰ"],
        small
    );
}

#[test]
fn roman_numerals_are_copied_and_compared() {
    let year = Roman::new(1984u32).unwrap();
    let copy = year;
    assert_eq!(year, copy.clone());
    assert_ne!(year, year.ascii());
    assert_eq!(year.to_string(), year.fmt(Flags::default()));
}

fn value_of(letter: char) -> u32 {
    match letter {
        'I' => 1,
        'V' => 5,
        'X' => 10,
        'L' => 50,
        'C' => 100,
        'D' => 500,
        'M' => 1000,
        other => panic!("{other} is no Roman numeral"),
    }
}

/// Reads a numeral the way it is read aloud: a letter before a greater one
/// is taken off, any other is added.
fn read(numeral: &str) -> u32 {
    let values: Vec<u32> = numeral.chars().map(value_of).collect();
    let mut total = 0;
    for (i, value) in values.iter().enumerate() {
        if values.get(i + 1).is_some_and(|next| next > value) {
            total -= value;
        } else {
            total += value;
        }
    }
    total
}

#[test]
fn every_roman_numeral_reads_back_as_its_number() {
    for n in 1..=3999u32 {
        let numeral = Roman::new(n).unwrap().ascii().to_string();
        assert_eq!(n, read(&numeral));
        let small = Roman::new(n).unwrap().ascii().fmt(lowercase());
        assert_eq!(numeral.to_lowercase(), small);
    }
}

#[test]
fn no_roman_numeral_repeats_a_letter_four_times() {
    for n in 1..=3999u16 {
        let numeral = Roman::new(n).unwrap().ascii().to_string();
        for letter in ["IIII", "XXXX", "CCCC", "MMMM", "VV", "LL", "DD"] {
            assert!(!numeral.contains(letter));
        }
        assert!(numeral.chars().count() <= 15);
    }
}

#[test]
fn unicode_numerals_match_the_latin_letters() {
    let letters: Vec<char> = "IVXLCDM".chars().collect();
    let upper: Vec<char> = "ⅠⅤⅩⅬⅭⅮⅯ".chars().collect();
    let lower: Vec<char> = "ⅰⅴⅹⅼⅽⅾⅿ".chars().collect();
    for n in 1..=3999u16 {
        let roman = Roman::new(n).unwrap();
        let latin = roman.ascii().to_string();
        let expected_upper: String = latin
            .chars()
            .map(|c| upper[letters.iter().position(|l| *l == c).unwrap()])
            .collect();
        let expected_lower: String = latin
            .chars()
            .map(|c| lower[letters.iter().position(|l| *l == c).unwrap()])
            .collect();
        assert_eq!(expected_upper, roman.to_string());
        assert_eq!(expected_lower, roman.fmt(lowercase()));
    }
}

#[test]
fn roman_numerals_are_written_digit_by_digit() {
    let units = ["", "I", "II", "III", "IV", "V", "VI", "VII", "VIII", "IX"];
    let tens = ["", "X", "XX", "XXX", "XL", "L", "LX", "LXX", "LXXX", "XC"];
    let hundreds = ["", "C", "CC", "CCC", "CD", "D", "DC", "DCC", "DCCC", "CM"];
    let thousands = ["", "M", "MM", "MMM"];
    for n in 1..=3999usize {
        let expected = format!(
            "{}{}{}{}",
            thousands[n / 1000],
            hundreds[n / 100 % 10],
            tens[n / 10 % 10],
            units[n % 10]
        );
        assert_eq!(expected, Roman::new(n).unwrap().ascii().to_string());
    }
}
