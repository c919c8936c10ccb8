use crate::base::Base;
use crate::digits::{
    digits_of, iter_digits, lemma_digits_are_canonical, lemma_digits_in_range,
    lemma_digits_reconstruct,
};
use crate::flags::Flags;
use crate::glyphs::{append_glyphs, glyph_text, single_chars, table_chars};
use crate::integer::{magnitude_of, Integer, Sign};
use vstd::prelude::*;
use vstd::string::StringExecFns;

verus! {

/// A number to be written in superscript digits.
///
/// A negative number gets a superscript minus in front. With
/// [`Flags::sign_plus`] a number that is not negative gets a superscript
/// plus.
#[derive(Debug, Clone, Copy, Eq, PartialEq)]
pub struct Superscript<T>(pub T);

/// A number to be written in subscript digits.
///
/// A negative number gets a subscript minus in front. With
/// [`Flags::sign_plus`] a number that is not negative gets a subscript plus.
#[derive(Debug, Clone, Copy, Eq, PartialEq)]
pub struct Subscript<T>(pub T);

/// U+207A SUPERSCRIPT PLUS SIGN.
pub const SUPERSCRIPT_PLUS: char = '\u{207a}';

/// U+207B SUPERSCRIPT MINUS.
pub const SUPERSCRIPT_MINUS: char = '\u{207b}';

/// U+208A SUBSCRIPT PLUS SIGN.
pub const SUBSCRIPT_PLUS: char = '\u{208a}';

/// U+208B SUBSCRIPT MINUS.
pub const SUBSCRIPT_MINUS: char = '\u{208b}';

/// The superscript digits zero to nine.
pub open spec fn superscript_glyphs() -> Seq<char> {
    seq![
        '\u{2070}',
        '\u{b9}',
        '\u{b2}',
        '\u{b3}',
        '\u{2074}',
        '\u{2075}',
        '\u{2076}',
        '\u{2077}',
        '\u{2078}',
        '\u{2079}',
    ]
}

/// The subscript digits zero to nine.
pub open spec fn subscript_glyphs() -> Seq<char> {
    seq![
        '\u{2080}',
        '\u{2081}',
        '\u{2082}',
        '\u{2083}',
        '\u{2084}',
        '\u{2085}',
        '\u{2086}',
        '\u{2087}',
        '\u{2088}',
        '\u{2089}',
    ]
}

/// The sign in front of the digits: the minus for a negative number, the
/// plus for any other number where a plus was asked for, else nothing.
pub open spec fn sign_text(v: int, sign_plus: bool, plus: char, minus: char) -> Seq<char> {
    if v < 0 {
        seq![minus]
    } else if sign_plus {
        seq![plus]
    } else {
        Seq::empty()
    }
}

/// A number as text: its sign, then the glyphs of the digits of its
/// magnitude.
pub open spec fn number_text(
    v: int,
    sign_plus: bool,
    radix: nat,
    plus: char,
    minus: char,
    glyphs: Seq<char>,
) -> Seq<char> {
    sign_text(v, sign_plus, plus, minus) + glyph_text(digits_of(magnitude_of(v), radix), glyphs)
}

/// The number `v` in superscript, in base two or ten: there are no
/// superscript digits above nine.
pub open spec fn superscript_text(v: int, sign_plus: bool, base: Base) -> Seq<char> {
    number_text(
        v,
        sign_plus,
        base.radix(),
        SUPERSCRIPT_PLUS,
        SUPERSCRIPT_MINUS,
        superscript_glyphs(),
    )
}

/// The number `v` in subscript, in base two or ten: there are no subscript
/// digits above nine.
pub open spec fn subscript_text(v: int, sign_plus: bool, base: Base) -> Seq<char> {
    number_text(v, sign_plus, base.radix(), SUBSCRIPT_PLUS, SUBSCRIPT_MINUS, subscript_glyphs())
}

/// Superscript and subscript write a number alike: the two texts are
/// equally long, have their sign in the same place, and hold place by place
/// the glyphs of the same digit. Only the glyphs differ.
pub proof fn lemma_superscript_matches_subscript(v: int, sign_plus: bool, base: Base)
    requires
        base == Base::Two || base == Base::Ten,
    ensures
        ({
            let above = superscript_text(v, sign_plus, base);
            let below = subscript_text(v, sign_plus, base);
            let digits = digits_of(magnitude_of(v), base.radix());
            let signs: int = if v < 0 || sign_plus {
                1
            } else {
                0
            };
            &&& above.len() == signs + digits.len()
            &&& below.len() == signs + digits.len()
            &&& signs == 1 ==> (above[0] == SUPERSCRIPT_MINUS && below[0] == SUBSCRIPT_MINUS && v
                < 0) || (above[0] == SUPERSCRIPT_PLUS && below[0] == SUBSCRIPT_PLUS && v >= 0)
            &&& forall|i: int|
                0 <= i < digits.len() ==> {
                    &&& 0 <= #[trigger] digits[i] < 10
                    &&& above[signs + i] == superscript_glyphs()[digits[i] as int]
                    &&& below[signs + i] == subscript_glyphs()[digits[i] as int]
                }
        }),
{
    let above = superscript_text(v, sign_plus, base);
    let below = subscript_text(v, sign_plus, base);
    let digits = digits_of(magnitude_of(v), base.radix());
    let above_sign = sign_text(v, sign_plus, SUPERSCRIPT_PLUS, SUPERSCRIPT_MINUS);
    let below_sign = sign_text(v, sign_plus, SUBSCRIPT_PLUS, SUBSCRIPT_MINUS);
    let signs = above_sign.len() as int;
    lemma_digits_in_range(magnitude_of(v), base.radix());
    assert(below_sign.len() == signs);
    assert forall|i: int| 0 <= i < digits.len() implies {
        &&& 0 <= #[trigger] digits[i] < 10
        &&& above[signs + i] == superscript_glyphs()[digits[i] as int]
        &&& below[signs + i] == subscript_glyphs()[digits[i] as int]
    } by {
        assert(digits[i] < base.radix());
        assert(above[signs + i] == glyph_text(digits, superscript_glyphs())[i]);
        assert(below[signs + i] == glyph_text(digits, subscript_glyphs())[i]);
    }
    if signs == 1 {
        assert(above[0] == above_sign[0]);
        assert(below[0] == below_sign[0]);
    }
}

/// No two digits share a glyph, neither in superscript nor in subscript: a
/// glyph stands for one digit only.
pub proof fn lemma_digit_glyphs_are_distinct(a: int, b: int)
    requires
        0 <= a < 10,
        0 <= b < 10,
        a != b,
    ensures
        superscript_glyphs()[a] != superscript_glyphs()[b],
        subscript_glyphs()[a] != subscript_glyphs()[b],
{
}

/// Zero is written as the one digit zero and never has a minus.
pub proof fn lemma_zero_has_no_minus(sign_plus: bool, base: Base)
    ensures
        superscript_text(0, false, base) == seq![superscript_glyphs()[0]],
        subscript_text(0, false, base) == seq![subscript_glyphs()[0]],
        superscript_text(0, true, base) == seq![SUPERSCRIPT_PLUS, superscript_glyphs()[0]],
        subscript_text(0, true, base) == seq![SUBSCRIPT_PLUS, subscript_glyphs()[0]],
{
    assert(superscript_text(0, false, base) =~= seq![superscript_glyphs()[0]]);
    assert(subscript_text(0, false, base) =~= seq![subscript_glyphs()[0]]);
    assert(superscript_text(0, true, base) =~= seq![SUPERSCRIPT_PLUS, superscript_glyphs()[0]]);
    assert(subscript_text(0, true, base) =~= seq![SUBSCRIPT_PLUS, subscript_glyphs()[0]]);
}

/// Whether a table is fit to tell numbers apart by: it has a glyph for every
/// digit below the radix, no two of these digits share a glyph, and none
/// shares its glyph with a sign.
pub open spec fn glyphs_are_distinct(radix: nat, plus: char, minus: char, glyphs: Seq<char>) -> bool {
    &&& radix <= glyphs.len()
    &&& plus != minus
    &&& forall|a: int, b: int| 0 <= a < b < radix ==> glyphs[a] != glyphs[b]
    &&& forall|a: int| 0 <= a < radix ==> glyphs[a] != plus && glyphs[a] != minus
}

/// Written with a table that is fit for it, no two numbers have the same
/// text: the text tells which number was written.
pub proof fn lemma_number_text_is_unambiguous(
    a: int,
    b: int,
    sign_plus: bool,
    radix: nat,
    plus: char,
    minus: char,
    glyphs: Seq<char>,
)
    requires
        radix >= 2,
        glyphs_are_distinct(radix, plus, minus, glyphs),
        number_text(a, sign_plus, radix, plus, minus, glyphs) == number_text(
            b,
            sign_plus,
            radix,
            plus,
            minus,
            glyphs,
        ),
    ensures
        a == b,
{
    let text_a = number_text(a, sign_plus, radix, plus, minus, glyphs);
    let text_b = number_text(b, sign_plus, radix, plus, minus, glyphs);
    let sign_a = sign_text(a, sign_plus, plus, minus);
    let sign_b = sign_text(b, sign_plus, plus, minus);
    let digits_a = digits_of(magnitude_of(a), radix);
    let digits_b = digits_of(magnitude_of(b), radix);
    lemma_digits_are_canonical(magnitude_of(a), radix);
    lemma_digits_are_canonical(magnitude_of(b), radix);
    // The first character tells whether the number is negative: only then
    // is it the minus.
    assert(text_a[0] == minus <==> a < 0) by {
        if a >= 0 && !sign_plus {
            assert(text_a[0] == glyphs[digits_a[0] as int]);
        }
    }
    assert(text_b[0] == minus <==> b < 0) by {
        if b >= 0 && !sign_plus {
            assert(text_b[0] == glyphs[digits_b[0] as int]);
        }
    }
    assert(sign_a == sign_b);
    // Behind the sign the glyphs are those of the digits, and a glyph
    // stands for one digit only.
    let lead = sign_a.len() as int;
    assert(digits_a.len() == text_a.len() - lead);
    assert(digits_b.len() == text_b.len() - lead);
    assert forall|i: int| 0 <= i < digits_a.len() implies digits_a[i] == digits_b[i] by {
        assert(text_a[lead + i] == glyphs[digits_a[i] as int]);
        assert(text_b[lead + i] == glyphs[digits_b[i] as int]);
        assert(digits_a[i] < radix);
        assert(digits_b[i] < radix);
    }
    assert(digits_a =~= digits_b);
    lemma_digits_reconstruct(magnitude_of(a), radix);
    lemma_digits_reconstruct(magnitude_of(b), radix);
}

/// No two numbers have the same superscript, and no two the same subscript.
pub proof fn lemma_scripts_are_unambiguous(a: int, b: int, sign_plus: bool, base: Base)
    requires
        base == Base::Two || base == Base::Ten,
    ensures
        superscript_text(a, sign_plus, base) == superscript_text(b, sign_plus, base) ==> a == b,
        subscript_text(a, sign_plus, base) == subscript_text(b, sign_plus, base) ==> a == b,
{
    if superscript_text(a, sign_plus, base) == superscript_text(b, sign_plus, base) {
        lemma_number_text_is_unambiguous(
            a,
            b,
            sign_plus,
            base.radix(),
            SUPERSCRIPT_PLUS,
            SUPERSCRIPT_MINUS,
            superscript_glyphs(),
        );
    }
    if subscript_text(a, sign_plus, base) == subscript_text(b, sign_plus, base) {
        lemma_number_text_is_unambiguous(
            a,
            b,
            sign_plus,
            base.radix(),
            SUBSCRIPT_PLUS,
            SUBSCRIPT_MINUS,
            subscript_glyphs(),
        );
    }
}

/// What a superscript number is written as depends on the number and the
/// flags alone: two calls of one of the formatting functions on the same
/// number with the same flags return the same text.
pub proof fn lemma_superscript_is_pure<T: Integer>(
    number: Superscript<T>,
    flags: Flags,
    first: String,
    second: String,
)
    requires
        ({
            ||| call_ensures(Superscript::<T>::fmt, (&number, flags), first) && call_ensures(
                Superscript::<T>::fmt,
                (&number, flags),
                second,
            )
            ||| call_ensures(Superscript::<T>::fmt_binary, (&number, flags), first)
                && call_ensures(Superscript::<T>::fmt_binary, (&number, flags), second)
            ||| call_ensures(Superscript::<T>::to_string, (&number,), first) && call_ensures(
                Superscript::<T>::to_string,
                (&number,),
                second,
            )
        }),
    ensures
        first@ == second@,
{
}

/// What a subscript number is written as depends on the number and the
/// flags alone: two calls of one of the formatting functions on the same
/// number with the same flags return the same text.
pub proof fn lemma_subscript_is_pure<T: Integer>(
    number: Subscript<T>,
    flags: Flags,
    first: String,
    second: String,
)
    requires
        ({
            ||| call_ensures(Subscript::<T>::fmt, (&number, flags), first) && call_ensures(
                Subscript::<T>::fmt,
                (&number, flags),
                second,
            )
            ||| call_ensures(Subscript::<T>::fmt_binary, (&number, flags), first) && call_ensures(
                Subscript::<T>::fmt_binary,
                (&number, flags),
                second,
            )
            ||| call_ensures(Subscript::<T>::to_string, (&number,), first) && call_ensures(
                Subscript::<T>::to_string,
                (&number,),
                second,
            )
        }),
    ensures
        first@ == second@,
{
}

/// The superscript digits as string slices, to append to a text.
fn superscript_table() -> (table: [&'static str; 10])
    ensures
        single_chars(table@),
        table_chars(table@) == superscript_glyphs(),
{
    proof {
        reveal_strlit("\u{2070}");
        reveal_strlit("\u{b9}");
        reveal_strlit("\u{b2}");
        reveal_strlit("\u{b3}");
        reveal_strlit("\u{2074}");
        reveal_strlit("\u{2075}");
        reveal_strlit("\u{2076}");
        reveal_strlit("\u{2077}");
        reveal_strlit("\u{2078}");
        reveal_strlit("\u{2079}");
    }
    let table = [
        "\u{2070}",
        "\u{b9}",
        "\u{b2}",
        "\u{b3}",
        "\u{2074}",
        "\u{2075}",
        "\u{2076}",
        "\u{2077}",
        "\u{2078}",
        "\u{2079}",
    ];
    assert(table_chars(table@) =~= superscript_glyphs());
    table
}

/// The subscript digits as string slices, to append to a text.
fn subscript_table() -> (table: [&'static str; 10])
    ensures
        single_chars(table@),
        table_chars(table@) == subscript_glyphs(),
{
    proof {
        reveal_strlit("\u{2080}");
        reveal_strlit("\u{2081}");
        reveal_strlit("\u{2082}");
        reveal_strlit("\u{2083}");
        reveal_strlit("\u{2084}");
        reveal_strlit("\u{2085}");
        reveal_strlit("\u{2086}");
        reveal_strlit("\u{2087}");
        reveal_strlit("\u{2088}");
        reveal_strlit("\u{2089}");
    }
    let table = [
        "\u{2080}",
        "\u{2081}",
        "\u{2082}",
        "\u{2083}",
        "\u{2084}",
        "\u{2085}",
        "\u{2086}",
        "\u{2087}",
        "\u{2088}",
        "\u{2089}",
    ];
    assert(table_chars(table@) =~= subscript_glyphs());
    table
}

/// Writes a number: the sign that the flags call for, then its digits in
/// the given base, each as the glyph that `digits` holds for it.
fn fmt_number_with_base_and_digits<T: Integer>(
    n: T,
    flags: Flags,
    base: Base,
    plus: &'static str,
    minus: &'static str,
    digits: &[&'static str],
) -> (out: String)
    requires
        plus@.len() == 1,
        minus@.len() == 1,
        single_chars(digits@),
        base.radix() <= digits@.len(),
    ensures
        out@ == number_text(
            n.value(),
            flags.sign_plus,
            base.radix(),
            plus@[0],
            minus@[0],
            table_chars(digits@),
        ),
{
    let mut out = String::new();
    match n.sign() {
        Sign::Negative => {
            out.append(minus);
            assert(out@ =~= seq![minus@[0]]);
        },
        Sign::PositiveOrZero => {
            if flags.sign_plus {
                out.append(plus);
                assert(out@ =~= seq![plus@[0]]);
            }
        },
    }
    let places = iter_digits(n, base);
    append_glyphs(&mut out, &places, digits);
    out
}

impl<T: Integer> Superscript<T> {
    /// The number in superscript decimal digits.
    pub fn fmt(&self, flags: Flags) -> (out: String)
        ensures
            out@ == superscript_text(self.0.value(), flags.sign_plus, Base::Ten),
    {
        proof {
            reveal_strlit("\u{207a}");
            reveal_strlit("\u{207b}");
        }
        let table = superscript_table();
        fmt_number_with_base_and_digits(
            self.0,
            flags,
            Base::Ten,
            "\u{207a}",
            "\u{207b}",
            table.as_slice(),
        )
    }

    /// The number in superscript binary digits.
    pub fn fmt_binary(&self, flags: Flags) -> (out: String)
        ensures
            out@ == superscript_text(self.0.value(), flags.sign_plus, Base::Two),
    {
        proof {
            reveal_strlit("\u{207a}");
            reveal_strlit("\u{207b}");
        }
        let table = superscript_table();
        fmt_number_with_base_and_digits(
            self.0,
            flags,
            Base::Two,
            "\u{207a}",
            "\u{207b}",
            table.as_slice(),
        )
    }

    /// The number in superscript decimal digits, with no flag set.
    pub fn to_string(&self) -> (out: String)
        ensures
            out@ == superscript_text(self.0.value(), false, Base::Ten),
    {
        self.fmt(Flags::new())
    }
}

impl<T: Integer> Subscript<T> {
    /// The number in subscript decimal digits.
    pub fn fmt(&self, flags: Flags) -> (out: String)
        ensures
            out@ == subscript_text(self.0.value(), flags.sign_plus, Base::Ten),
    {
        proof {
            reveal_strlit("\u{208a}");
            reveal_strlit("\u{208b}");
        }
        let table = subscript_table();
        fmt_number_with_base_and_digits(
            self.0,
            flags,
            Base::Ten,
            "\u{208a}",
            "\u{208b}",
            table.as_slice(),
        )
    }

    /// The number in subscript binary digits.
    pub fn fmt_binary(&self, flags: Flags) -> (out: String)
        ensures
            out@ == subscript_text(self.0.value(), flags.sign_plus, Base::Two),
    {
        proof {
            reveal_strlit("\u{208a}");
            reveal_strlit("\u{208b}");
        }
        let table = subscript_table();
        fmt_number_with_base_and_digits(
            self.0,
            flags,
            Base::Two,
            "\u{208a}",
            "\u{208b}",
            table.as_slice(),
        )
    }

    /// The number in subscript decimal digits, with no flag set.
    pub fn to_string(&self) -> (out: String)
        ensures
            out@ == subscript_text(self.0.value(), false, Base::Ten),
    {
        self.fmt(Flags::new())
    }
}

impl<T: Integer> From<T> for Superscript<T> {
    /// The number, to be written in superscript.
    fn from(value: T) -> (wrapped: Self) {
        Superscript(value)
    }
}

impl<T: Integer> vstd::std_specs::convert::FromSpecImpl<T> for Superscript<T> {
    open spec fn obeys_from_spec() -> bool {
        true
    }

    open spec fn from_spec(value: T) -> Self {
        Superscript(value)
    }
}

impl<T: Integer> From<T> for Subscript<T> {
    /// The number, to be written in subscript.
    fn from(value: T) -> (wrapped: Self) {
        Subscript(value)
    }
}

impl<T: Integer> vstd::std_specs::convert::FromSpecImpl<T> for Subscript<T> {
    open spec fn obeys_from_spec() -> bool {
        true
    }

    open spec fn from_spec(value: T) -> Self {
        Subscript(value)
    }
}

} // verus!
