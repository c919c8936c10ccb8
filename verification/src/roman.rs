use crate::flags::Flags;
use crate::integer::{Integer, UnsignedInteger};
use vstd::arithmetic::div_mod::{
    lemma_basic_div, lemma_fundamental_div_mod, lemma_fundamental_div_mod_converse,
    lemma_mod_bound, lemma_small_mod,
};
use vstd::prelude::*;
use vstd::string::StringExecFns;

verus! {

/// The greatest number that has a Roman numeral.
pub const ROMAN_MAX: u16 = 3999;

/// How many symbols the table of Roman numerals has.
pub const ROMAN_SYMBOLS: usize = 13;

/// The symbols to write a Roman numeral with.
#[derive(Debug, Clone, Copy, Eq, PartialEq, Structural)]
#[non_exhaustive]
pub enum SymbolRepertoire {
    /// Unicode's own code points for Roman numerals.
    Unicode,
    /// Latin letters.
    Ascii,
}

/// A number to be written as a Roman numeral, in Unicode's symbols for
/// Roman numerals unless [`Roman::ascii`] asks for Latin letters.
///
/// With [`Flags::alternate`] the numeral is written in lowercase.
#[derive(Debug, Copy, Eq, PartialEq)]
pub struct Roman<T: UnsignedInteger>(T, SymbolRepertoire);

impl<T: UnsignedInteger> Clone for Roman<T> {
    /// A copy of the number and of the choice of symbols.
    fn clone(&self) -> (copy: Self)
        ensures
            copy == *self,
    {
        *self
    }
}

/// The value of the symbol at place `i` of the table, greatest first.
pub open spec fn roman_value(i: int) -> nat {
    if i == 0 {
        1000
    } else if i == 1 {
        900
    } else if i == 2 {
        500
    } else if i == 3 {
        400
    } else if i == 4 {
        100
    } else if i == 5 {
        90
    } else if i == 6 {
        50
    } else if i == 7 {
        40
    } else if i == 8 {
        10
    } else if i == 9 {
        9
    } else if i == 10 {
        5
    } else if i == 11 {
        4
    } else {
        1
    }
}

/// The symbol at place `i` of the table in Unicode's uppercase numerals.
pub open spec fn unicode_upper(i: int) -> Seq<char> {
    if i == 0 {
        "\u{216f}"@
    } else if i == 1 {
        "\u{216d}\u{216f}"@
    } else if i == 2 {
        "\u{216e}"@
    } else if i == 3 {
        "\u{216d}\u{216e}"@
    } else if i == 4 {
        "\u{216d}"@
    } else if i == 5 {
        "\u{2169}\u{216d}"@
    } else if i == 6 {
        "\u{216c}"@
    } else if i == 7 {
        "\u{2169}\u{216c}"@
    } else if i == 8 {
        "\u{2169}"@
    } else if i == 9 {
        "\u{2160}\u{2169}"@
    } else if i == 10 {
        "\u{2164}"@
    } else if i == 11 {
        "\u{2160}\u{2164}"@
    } else {
        "\u{2160}"@
    }
}

/// The symbol at place `i` of the table in Unicode's lowercase numerals.
pub open spec fn unicode_lower(i: int) -> Seq<char> {
    if i == 0 {
        "\u{217f}"@
    } else if i == 1 {
        "\u{217d}\u{217f}"@
    } else if i == 2 {
        "\u{217e}"@
    } else if i == 3 {
        "\u{217d}\u{217e}"@
    } else if i == 4 {
        "\u{217d}"@
    } else if i == 5 {
        "\u{2179}\u{217d}"@
    } else if i == 6 {
        "\u{217c}"@
    } else if i == 7 {
        "\u{2179}\u{217c}"@
    } else if i == 8 {
        "\u{2179}"@
    } else if i == 9 {
        "\u{2170}\u{2179}"@
    } else if i == 10 {
        "\u{2174}"@
    } else if i == 11 {
        "\u{2170}\u{2174}"@
    } else {
        "\u{2170}"@
    }
}

/// The symbol at place `i` of the table in uppercase Latin letters.
pub open spec fn ascii_upper(i: int) -> Seq<char> {
    if i == 0 {
        "M"@
    } else if i == 1 {
        "CM"@
    } else if i == 2 {
        "D"@
    } else if i == 3 {
        "CD"@
    } else if i == 4 {
        "C"@
    } else if i == 5 {
        "XC"@
    } else if i == 6 {
        "L"@
    } else if i == 7 {
        "XL"@
    } else if i == 8 {
        "X"@
    } else if i == 9 {
        "IX"@
    } else if i == 10 {
        "V"@
    } else if i == 11 {
        "IV"@
    } else {
        "I"@
    }
}

/// The symbol at place `i` of the table in lowercase Latin letters.
pub open spec fn ascii_lower(i: int) -> Seq<char> {
    if i == 0 {
        "m"@
    } else if i == 1 {
        "cm"@
    } else if i == 2 {
        "d"@
    } else if i == 3 {
        "cd"@
    } else if i == 4 {
        "c"@
    } else if i == 5 {
        "xc"@
    } else if i == 6 {
        "l"@
    } else if i == 7 {
        "xl"@
    } else if i == 8 {
        "x"@
    } else if i == 9 {
        "ix"@
    } else if i == 10 {
        "v"@
    } else if i == 11 {
        "iv"@
    } else {
        "i"@
    }
}

/// The symbol at place `i` of the table.
pub open spec fn roman_symbol(i: int, repertoire: SymbolRepertoire, lowercase: bool) -> Seq<char> {
    match (repertoire, lowercase) {
        (SymbolRepertoire::Unicode, false) => unicode_upper(i),
        (SymbolRepertoire::Unicode, true) => unicode_lower(i),
        (SymbolRepertoire::Ascii, false) => ascii_upper(i),
        (SymbolRepertoire::Ascii, true) => ascii_lower(i),
    }
}

/// What is left to write of a numeral when `n` is left of the number and
/// the symbols before place `i` are done with: as long as the symbol at
/// place `i` is worth no more than `n`, it is written and its value taken
/// off; then the next place has its turn.
pub open spec fn roman_from(n: nat, i: int, repertoire: SymbolRepertoire, lowercase: bool) -> Seq<
    char,
>
    decreases ROMAN_SYMBOLS - i, n,
{
    if i < 0 || i >= ROMAN_SYMBOLS {
        Seq::empty()
    } else if n >= roman_value(i) {
        roman_symbol(i, repertoire, lowercase) + roman_from(
            (n - roman_value(i)) as nat,
            i,
            repertoire,
            lowercase,
        )
    } else {
        roman_from(n, i + 1, repertoire, lowercase)
    }
}

/// The Roman numeral of `n`.
pub open spec fn roman_text(n: nat, repertoire: SymbolRepertoire, lowercase: bool) -> Seq<char> {
    roman_from(n, 0, repertoire, lowercase)
}

/// The places of the table whose symbols are written, in the order of
/// writing, when `n` is left of the number and the symbols before place `i`
/// are done with.
pub open spec fn roman_places(n: nat, i: int) -> Seq<int>
    decreases ROMAN_SYMBOLS - i, n,
{
    if i < 0 || i >= ROMAN_SYMBOLS {
        Seq::empty()
    } else if n >= roman_value(i) {
        seq![i] + roman_places((n - roman_value(i)) as nat, i)
    } else {
        roman_places(n, i + 1)
    }
}

/// The values of the symbols at the given places, added up.
pub open spec fn places_value(places: Seq<int>) -> nat
    decreases places.len(),
{
    if places.len() == 0 {
        0
    } else {
        roman_value(places[0]) + places_value(places.drop_first())
    }
}

/// The symbols at the given places, one after the other.
pub open spec fn places_text(places: Seq<int>, repertoire: SymbolRepertoire, lowercase: bool) -> Seq<
    char,
>
    decreases places.len(),
{
    if places.len() == 0 {
        Seq::empty()
    } else {
        roman_symbol(places[0], repertoire, lowercase) + places_text(
            places.drop_first(),
            repertoire,
            lowercase,
        )
    }
}

/// How often the place `p` occurs among the given places.
pub open spec fn occurrences(places: Seq<int>, p: int) -> nat
    decreases places.len(),
{
    if places.len() == 0 {
        0
    } else if places[0] == p {
        1 + occurrences(places.drop_first(), p)
    } else {
        occurrences(places.drop_first(), p)
    }
}

/// How often a symbol may occur in a numeral: the symbols for one, ten, a
/// hundred and a thousand up to three times, every other symbol once.
pub open spec fn most_occurrences(p: int) -> nat {
    if p == 0 || p == 4 || p == 8 || p == 12 {
        3
    } else {
        1
    }
}

/// A numeral is the symbols at its places, one after the other.
pub proof fn lemma_roman_text_is_places_text(
    n: nat,
    i: int,
    repertoire: SymbolRepertoire,
    lowercase: bool,
)
    ensures
        roman_from(n, i, repertoire, lowercase) == places_text(
            roman_places(n, i),
            repertoire,
            lowercase,
        ),
    decreases ROMAN_SYMBOLS - i, n,
{
    if i < 0 || i >= ROMAN_SYMBOLS {
    } else if n >= roman_value(i) {
        let rest = roman_places((n - roman_value(i)) as nat, i);
        lemma_roman_text_is_places_text((n - roman_value(i)) as nat, i, repertoire, lowercase);
        assert(roman_places(n, i).drop_first() =~= rest);
    } else {
        lemma_roman_text_is_places_text(n, i + 1, repertoire, lowercase);
    }
}

/// The symbols of a numeral add up to the number: nothing of it is left
/// unwritten.
pub proof fn lemma_roman_places_add_up(n: nat, i: int)
    requires
        0 <= i < ROMAN_SYMBOLS,
    ensures
        places_value(roman_places(n, i)) == n,
    decreases ROMAN_SYMBOLS - i, n,
{
    if n >= roman_value(i) {
        let rest = roman_places((n - roman_value(i)) as nat, i);
        lemma_roman_places_add_up((n - roman_value(i)) as nat, i);
        assert(roman_places(n, i).drop_first() =~= rest);
    } else if i + 1 < ROMAN_SYMBOLS {
        lemma_roman_places_add_up(n, i + 1);
    }
}

/// The symbols of a numeral stand in the order of the table: none is
/// followed by one of greater value.
pub proof fn lemma_roman_places_are_ordered(n: nat, i: int)
    ensures
        forall|j: int|
            0 <= j < roman_places(n, i).len() ==> i <= #[trigger] roman_places(n, i)[j]
                < ROMAN_SYMBOLS,
        forall|j: int, k: int|
            0 <= j <= k < roman_places(n, i).len() ==> #[trigger] roman_places(n, i)[j]
                <= #[trigger] roman_places(n, i)[k],
    decreases ROMAN_SYMBOLS - i, n,
{
    let places = roman_places(n, i);
    if i < 0 || i >= ROMAN_SYMBOLS {
    } else if n >= roman_value(i) {
        let rest = roman_places((n - roman_value(i)) as nat, i);
        lemma_roman_places_are_ordered((n - roman_value(i)) as nat, i);
        assert(places =~= seq![i] + rest);
        assert forall|j: int| 0 <= j < places.len() implies i <= #[trigger] places[j]
            < ROMAN_SYMBOLS by {
            if j > 0 {
                assert(places[j] == rest[j - 1]);
            }
        }
        assert forall|j: int, k: int| 0 <= j <= k < places.len() implies #[trigger] places[j]
            <= #[trigger] places[k] by {
            if j > 0 {
                assert(places[j] == rest[j - 1]);
                assert(places[k] == rest[k - 1]);
            } else if k > 0 {
                assert(places[k] == rest[k - 1]);
            }
        }
    } else {
        let next = roman_places(n, i + 1);
        lemma_roman_places_are_ordered(n, i + 1);
        assert(places == next);
        assert forall|j: int| 0 <= j < places.len() implies i <= #[trigger] places[j]
            < ROMAN_SYMBOLS by {
            assert(i + 1 <= next[j] < ROMAN_SYMBOLS);
        }
        assert forall|j: int, k: int| 0 <= j <= k < places.len() implies #[trigger] places[j]
            <= #[trigger] places[k] by {
            assert(next[j] <= next[k]);
        }
    }
}

/// How often a symbol is written: as often as its value goes into what is
/// left when its turn comes.
proof fn lemma_occurrences_divide(n: nat, i: int, p: int)
    requires
        0 <= i < ROMAN_SYMBOLS,
    ensures
        occurrences(roman_places(n, i), p) == (if p < i || p >= ROMAN_SYMBOLS {
            0
        } else if p == i {
            n / roman_value(i)
        } else {
            occurrences(roman_places(n % roman_value(i), i + 1), p)
        }),
    decreases ROMAN_SYMBOLS - i, n,
{
    let value = roman_value(i);
    if n >= value {
        let less = (n - value) as nat;
        let rest = roman_places(less, i);
        lemma_occurrences_divide(less, i, p);
        assert(roman_places(n, i).drop_first() =~= rest);
        assert(roman_places(n, i)[0] == i);
        lemma_fundamental_div_mod(n as int, value as int);
        lemma_fundamental_div_mod_converse(
            less as int,
            value as int,
            (n / value) as int - 1,
            (n % value) as int,
        );
    } else {
        lemma_small_mod(n, value);
        lemma_basic_div(n as int, value as int);
        if p <= i || p >= ROMAN_SYMBOLS {
            lemma_roman_places_start(n, i + 1, p);
        }
    }
}

/// No place before `i` and no place beyond the table occurs from place `i`
/// on.
proof fn lemma_roman_places_start(n: nat, i: int, p: int)
    requires
        p < i || p >= ROMAN_SYMBOLS,
    ensures
        occurrences(roman_places(n, i), p) == 0,
    decreases ROMAN_SYMBOLS - i, n,
{
    if i < 0 || i >= ROMAN_SYMBOLS {
    } else if n >= roman_value(i) {
        let rest = roman_places((n - roman_value(i)) as nat, i);
        lemma_roman_places_start((n - roman_value(i)) as nat, i, p);
        assert(roman_places(n, i).drop_first() =~= rest);
    } else {
        lemma_roman_places_start(n, i + 1, p);
    }
}

/// Once less is left than the value of the symbol before place `i`, no
/// symbol from place `i` on occurs more often than it may.
proof fn lemma_occurrences_bounded(n: nat, i: int, p: int)
    requires
        1 <= i < ROMAN_SYMBOLS,
        n < roman_value(i - 1),
    ensures
        occurrences(roman_places(n, i), p) <= most_occurrences(p),
    decreases ROMAN_SYMBOLS - i,
{
    let value = roman_value(i);
    lemma_occurrences_divide(n, i, p);
    if p == i {
    } else if i <= p < ROMAN_SYMBOLS {
        if i + 1 < ROMAN_SYMBOLS {
            lemma_mod_bound(n as int, value as int);
            lemma_occurrences_bounded(n % value, i + 1, p);
        }
    }
}

/// A number up to [`ROMAN_MAX`] has a numeral of the usual form: it holds no
/// symbol more than three times, and only the symbols for one, ten, a hundred
/// and a thousand more than once.
pub proof fn lemma_roman_numeral_is_regular(n: nat, p: int)
    requires
        n <= ROMAN_MAX,
    ensures
        occurrences(roman_places(n, 0), p) <= most_occurrences(p),
{
    lemma_occurrences_divide(n, 0, p);
    if 0 < p < ROMAN_SYMBOLS {
        lemma_mod_bound(n as int, 1000);
        lemma_occurrences_bounded(n % 1000, 1, p);
    }
}

/// Four thousand is the least number whose numeral is not of the usual
/// form: it takes four symbols for a thousand.
pub proof fn lemma_roman_max_is_greatest()
    ensures
        occurrences(roman_places((ROMAN_MAX + 1) as nat, 0), 0) == 4,
{
    lemma_occurrences_divide((ROMAN_MAX + 1) as nat, 0, 0);
}

/// The place `p`, `count` times.
pub open spec fn repeated_place(p: int, count: nat) -> Seq<int> {
    Seq::new(count, |j: int| p)
}

/// The places that write one decimal digit, where `one` is the place of the
/// symbol worth one unit of that digit; the symbols worth four, five and
/// nine units stand at the three places before it. Up to three units are
/// written as that many ones, four as the four, five to eight as the five
/// and the ones beyond it, nine as the nine.
#[verifier::opaque]
pub open spec fn digit_places(digit: nat, one: int) -> Seq<int> {
    if digit <= 3 {
        repeated_place(one, digit)
    } else if digit == 4 {
        seq![one - 1]
    } else if digit <= 8 {
        seq![one - 2] + repeated_place(one, (digit - 5) as nat)
    } else {
        seq![one - 3]
    }
}

/// A symbol is written as often as its value goes into what is left; the
/// remainder is left for the symbols after it.
pub proof fn lemma_roman_places_step(n: nat, i: int)
    requires
        0 <= i < ROMAN_SYMBOLS,
    ensures
        roman_places(n, i) == repeated_place(i, n / roman_value(i)) + roman_places(
            n % roman_value(i),
            i + 1,
        ),
    decreases n,
{
    let value = roman_value(i);
    if n >= value {
        let less = (n - value) as nat;
        lemma_roman_places_step(less, i);
        lemma_fundamental_div_mod(n as int, value as int);
        lemma_fundamental_div_mod_converse(
            less as int,
            value as int,
            (n / value) as int - 1,
            (n % value) as int,
        );
        assert(seq![i] + repeated_place(i, less / value) =~= repeated_place(i, n / value));
        assert(roman_places(n, i) =~= repeated_place(i, n / value) + roman_places(
            n % value,
            i + 1,
        ));
    } else {
        lemma_small_mod(n, value);
        lemma_basic_div(n as int, value as int);
        assert(roman_places(n, i) =~= repeated_place(i, 0) + roman_places(n, i + 1));
    }
}

/// What is left below ten units of a decimal digit is written as that digit
/// and then what is left below one unit.
proof fn lemma_roman_places_digit(n: nat, one: int)
    requires
        one == 4 || one == 8 || one == 12,
        n < 10 * roman_value(one),
    ensures
        roman_places(n, one - 3) == digit_places(n / roman_value(one), one) + roman_places(
            n % roman_value(one),
            one + 1,
        ),
{
    let unit = roman_value(one);
    let after_nine = n % roman_value(one - 3);
    let after_five = after_nine % roman_value(one - 2);
    let after_four = after_five % roman_value(one - 1);
    lemma_roman_places_step(n, one - 3);
    lemma_roman_places_step(after_nine, one - 2);
    lemma_roman_places_step(after_five, one - 1);
    lemma_roman_places_step(after_four, one);
    let nines = repeated_place(one - 3, n / roman_value(one - 3));
    let fives = repeated_place(one - 2, after_nine / roman_value(one - 2));
    let fours = repeated_place(one - 1, after_five / roman_value(one - 1));
    let ones = repeated_place(one, after_four / unit);
    let rest = roman_places(after_four % unit, one + 1);
    assert(roman_places(n, one - 3) == nines + (fives + (fours + (ones + rest))));
    let digit = n / unit;
    reveal(digit_places);
    if one == 4 {
        assert(unit == 100);
        assert(n % unit == after_four % unit);
        assert(nines + (fives + (fours + ones)) =~= digit_places(digit, one));
    } else if one == 8 {
        assert(unit == 10);
        assert(n % unit == after_four % unit);
        assert(nines + (fives + (fours + ones)) =~= digit_places(digit, one));
    } else {
        assert(unit == 1);
        assert(n % unit == after_four % unit);
        assert(nines + (fives + (fours + ones)) =~= digit_places(digit, one));
    }
    assert(nines + (fives + (fours + (ones + rest))) =~= (nines + (fives + (fours + ones)))
        + rest);
}

/// The numeral of a number up to [`ROMAN_MAX`] is its decimal digits, each
/// written on its own: as many thousands as there are, then the hundreds,
/// the tens and the units, each digit with the symbols of its weight.
pub proof fn lemma_roman_numeral_by_digits(n: nat)
    requires
        n <= ROMAN_MAX,
    ensures
        roman_places(n, 0) == repeated_place(0, n / 1000) + digit_places((n / 100) % 10, 4)
            + digit_places((n / 10) % 10, 8) + digit_places(n % 10, 12),
        n / 1000 <= 3,
{
    let below_thousand = n % 1000;
    let below_hundred = n % 100;
    let below_ten = n % 10;
    lemma_roman_places_step(n, 0);
    lemma_roman_places_digit(below_thousand, 4);
    lemma_roman_places_digit(below_hundred, 8);
    lemma_roman_places_digit(below_ten, 12);
    assert(below_thousand / 100 == (n / 100) % 10 && below_thousand % 100 == below_hundred);
    assert(below_hundred / 10 == (n / 10) % 10 && below_hundred % 10 == below_ten);
    assert(below_ten / 1 == n % 10 && below_ten % 1 == 0);
    assert(roman_places(0, 13) =~= Seq::<int>::empty());
    let thousands = repeated_place(0, n / 1000);
    let hundreds = digit_places((n / 100) % 10, 4);
    let tens = digit_places((n / 10) % 10, 8);
    let units = digit_places(n % 10, 12);
    assert(roman_places(n, 0) =~= thousands + (hundreds + (tens + (units + Seq::<int>::empty()))));
    assert(thousands + (hundreds + (tens + (units + Seq::<int>::empty()))) =~= thousands + hundreds
        + tens + units);
}

/// The table of Roman numerals: each symbol with its value, greatest first.
pub fn roman_pairs(repertoire: SymbolRepertoire, lowercase: bool) -> (pairs: Vec<
    (&'static str, u16),
>)
    ensures
        pairs@.len() == ROMAN_SYMBOLS,
        forall|i: int|
            0 <= i < ROMAN_SYMBOLS ==> (#[trigger] pairs@[i]).0@ == roman_symbol(
                i,
                repertoire,
                lowercase,
            ) && pairs@[i].1 == roman_value(i),
{
    let table: [(&'static str, &'static str, &'static str, &'static str, u16); 13] = [
        ("\u{216f}", "\u{217f}", "M", "m", 1000),
        ("\u{216d}\u{216f}", "\u{217d}\u{217f}", "CM", "cm", 900),
        ("\u{216e}", "\u{217e}", "D", "d", 500),
        ("\u{216d}\u{216e}", "\u{217d}\u{217e}", "CD", "cd", 400),
        ("\u{216d}", "\u{217d}", "C", "c", 100),
        ("\u{2169}\u{216d}", "\u{2179}\u{217d}", "XC", "xc", 90),
        ("\u{216c}", "\u{217c}", "L", "l", 50),
        ("\u{2169}\u{216c}", "\u{2179}\u{217c}", "XL", "xl", 40),
        ("\u{2169}", "\u{2179}", "X", "x", 10),
        ("\u{2160}\u{2169}", "\u{2170}\u{2179}", "IX", "ix", 9),
        ("\u{2164}", "\u{2174}", "V", "v", 5),
        ("\u{2160}\u{2164}", "\u{2170}\u{2174}", "IV", "iv", 4),
        ("\u{2160}", "\u{2170}", "I", "i", 1),
    ];
    let mut pairs: Vec<(&'static str, u16)> = Vec::new();
    let mut i: usize = 0;
    while i < 13
        invariant
            i <= 13,
            pairs@.len() == i,
            forall|j: int|
                0 <= j < 13 ==> (#[trigger] table@[j]).0@ == unicode_upper(j) && table@[j].1@
                    == unicode_lower(j) && table@[j].2@ == ascii_upper(j) && table@[j].3@
                    == ascii_lower(j) && table@[j].4 == roman_value(j),
            forall|j: int|
                0 <= j < i ==> (#[trigger] pairs@[j]).0@ == roman_symbol(j, repertoire, lowercase)
                    && pairs@[j].1 == roman_value(j),
        decreases 13 - i,
    {
        let (upper_unicode, lower_unicode, upper_ascii, lower_ascii, value) = table[i];
        let symbol = match (repertoire, lowercase) {
            (SymbolRepertoire::Unicode, false) => upper_unicode,
            (SymbolRepertoire::Unicode, true) => lower_unicode,
            (SymbolRepertoire::Ascii, false) => upper_ascii,
            (SymbolRepertoire::Ascii, true) => lower_ascii,
        };
        pairs.push((symbol, value));
        i = i + 1;
    }
    pairs
}

impl<T: UnsignedInteger> Roman<T> {
    /// The number to be written.
    pub closed spec fn value(self) -> nat {
        self.0.value() as nat
    }

    /// The symbols it is written with.
    pub closed spec fn repertoire(self) -> SymbolRepertoire {
        self.1
    }

    /// No number above [`ROMAN_MAX`] is ever held.
    #[verifier::type_invariant]
    spec fn in_range(self) -> bool {
        self.0.value() <= ROMAN_MAX
    }

    /// The number as a Roman numeral, if it is between 1 and [`ROMAN_MAX`].
    pub fn new(value: T) -> (roman: Option<Roman<T>>)
        ensures
            roman is Some <==> 1 <= value.value() <= ROMAN_MAX,
            roman matches Some(r) ==> r.value() == value.value() && r.repertoire()
                == SymbolRepertoire::Unicode,
    {
        let magnitude = value.magnitude();
        proof {
            value.lemma_not_negative();
        }
        if u128::zero() < magnitude && magnitude <= ROMAN_MAX as u128 {
            Some(Roman(value, SymbolRepertoire::Unicode))
        } else {
            None
        }
    }

    /// The same number, to be written in Latin letters.
    pub fn ascii(self) -> (roman: Self)
        ensures
            roman.value() == self.value(),
            roman.repertoire() == SymbolRepertoire::Ascii,
    {
        proof {
            use_type_invariant(&self);
        }
        Roman(self.0, SymbolRepertoire::Ascii)
    }

    /// The Roman numeral of the number: in lowercase with
    /// [`Flags::alternate`], else in uppercase.
    pub fn fmt(&self, flags: Flags) -> (out: String)
        ensures
            self.value() <= ROMAN_MAX,
            out@ == roman_text(self.value(), self.repertoire(), flags.alternate),
    {
        proof {
            use_type_invariant(self);
        }
        let pairs = roman_pairs(self.1, flags.alternate);
        let mut out = String::new();
        let mut n: u128 = self.0.magnitude();
        let mut i: usize = 0;
        proof {
            self.0.lemma_not_negative();
        }
        while i < pairs.len()
            invariant
                i <= ROMAN_SYMBOLS,
                pairs@.len() == ROMAN_SYMBOLS,
                forall|j: int|
                    0 <= j < ROMAN_SYMBOLS ==> (#[trigger] pairs@[j]).0@ == roman_symbol(
                        j,
                        self.1,
                        flags.alternate,
                    ) && pairs@[j].1 == roman_value(j),
                out@ + roman_from(n as nat, i as int, self.1, flags.alternate) == roman_text(
                    self.value(),
                    self.1,
                    flags.alternate,
                ),
            decreases ROMAN_SYMBOLS - i,
        {
            let (symbol, value) = pairs[i];
            while n >= value as u128
                invariant
                    i < ROMAN_SYMBOLS,
                    symbol@ == roman_symbol(i as int, self.1, flags.alternate),
                    value == roman_value(i as int),
                    out@ + roman_from(n as nat, i as int, self.1, flags.alternate) == roman_text(
                        self.value(),
                        self.1,
                        flags.alternate,
                    ),
                decreases n,
            {
                proof {
                    let rest = roman_from(
                        (n - value) as nat,
                        i as int,
                        self.1,
                        flags.alternate,
                    );
                    assert(out@ + (symbol@ + rest) =~= (out@ + symbol@) + rest);
                }
                n = n - value as u128;
                out.append(symbol);
            }
            i = i + 1;
        }
        assert(out@ + Seq::<char>::empty() =~= out@);
        out
    }

    /// The Roman numeral of the number in uppercase.
    pub fn to_string(&self) -> (out: String)
        ensures
            self.value() <= ROMAN_MAX,
            out@ == roman_text(self.value(), self.repertoire(), false),
    {
        self.fmt(Flags::new())
    }
}

impl From<u8> for Roman<u8> {
    /// Any number of eight bits is small enough for a Roman numeral. Zero
    /// is written as nothing.
    fn from(value: u8) -> (roman: Self)
        ensures
            roman.value() == value,
            roman.repertoire() == SymbolRepertoire::Unicode,
    {
        Roman(value, SymbolRepertoire::Unicode)
    }
}

impl vstd::std_specs::convert::FromSpecImpl<u8> for Roman<u8> {
    open spec fn obeys_from_spec() -> bool {
        true
    }

    closed spec fn from_spec(value: u8) -> Self {
        Roman(value, SymbolRepertoire::Unicode)
    }
}

/// What a Roman numeral is written as depends on the number and the flags alone: two
/// calls of one of the formatting functions on the same number with the same
/// flags return the same text.
pub proof fn lemma_roman_is_pure<T: UnsignedInteger>(
    number: Roman<T>,
    flags: Flags,
    first: String,
    second: String,
)
    requires
        ({
            ||| call_ensures(Roman::<T>::fmt, (&number, flags), first) && call_ensures(
                Roman::<T>::fmt,
                (&number, flags),
                second,
            )
            ||| call_ensures(Roman::<T>::to_string, (&number,), first) && call_ensures(
                Roman::<T>::to_string,
                (&number,),
                second,
            )
        }),
    ensures
        first@ == second@,
{
}

} // verus!
