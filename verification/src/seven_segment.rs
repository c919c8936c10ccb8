use crate::base::Base;
use crate::digits::{digits_of, iter_digits};
use crate::flags::Flags;
use crate::glyphs::{append_glyphs, glyph_text, single_chars, table_chars};
use crate::integer::UnsignedInteger;
use vstd::prelude::*;

verus! {

/// An unsigned number to be written in seven-segment digits, as on a pocket
/// calculator: the code points U+1FBF0 to U+1FBF9.
///
/// No flag changes what is written.
#[derive(Debug, Clone, Copy, Eq, PartialEq)]
pub struct Segmented<T>(pub T);

/// The seven-segment digits zero to nine.
pub open spec fn segmented_glyphs() -> Seq<char> {
    seq![
        '\u{1fbf0}',
        '\u{1fbf1}',
        '\u{1fbf2}',
        '\u{1fbf3}',
        '\u{1fbf4}',
        '\u{1fbf5}',
        '\u{1fbf6}',
        '\u{1fbf7}',
        '\u{1fbf8}',
        '\u{1fbf9}',
    ]
}

/// The number `n` in seven-segment digits.
pub open spec fn segmented_text(n: nat, base: Base) -> Seq<char> {
    glyph_text(digits_of(n, base.radix()), segmented_glyphs())
}

/// The seven-segment digits as string slices, to append to a text.
fn segmented_table() -> (table: [&'static str; 10])
    ensures
        single_chars(table@),
        table_chars(table@) == segmented_glyphs(),
{
    proof {
        reveal_strlit("\u{1fbf0}");
        reveal_strlit("\u{1fbf1}");
        reveal_strlit("\u{1fbf2}");
        reveal_strlit("\u{1fbf3}");
        reveal_strlit("\u{1fbf4}");
        reveal_strlit("\u{1fbf5}");
        reveal_strlit("\u{1fbf6}");
        reveal_strlit("\u{1fbf7}");
        reveal_strlit("\u{1fbf8}");
        reveal_strlit("\u{1fbf9}");
    }
    let table = [
        "\u{1fbf0}",
        "\u{1fbf1}",
        "\u{1fbf2}",
        "\u{1fbf3}",
        "\u{1fbf4}",
        "\u{1fbf5}",
        "\u{1fbf6}",
        "\u{1fbf7}",
        "\u{1fbf8}",
        "\u{1fbf9}",
    ];
    assert(table_chars(table@) =~= segmented_glyphs());
    table
}

/// Writes `n` in seven-segment digits in a base that needs no digit above
/// nine.
fn fmt_seven_segment<T: UnsignedInteger>(n: T, base: Base) -> (out: String)
    requires
        base.radix() <= 10,
    ensures
        n.value() >= 0,
        out@ == segmented_text(n.value() as nat, base),
{
    proof {
        n.lemma_not_negative();
    }
    let table = segmented_table();
    let digits = iter_digits(n, base);
    let mut out = String::new();
    append_glyphs(&mut out, &digits, table.as_slice());
    assert(Seq::<char>::empty() + segmented_text(n.value() as nat, base) =~= segmented_text(
        n.value() as nat,
        base,
    ));
    out
}

impl<T: UnsignedInteger> Segmented<T> {
    /// The number in seven-segment decimal digits.
    pub fn fmt(&self, _flags: Flags) -> (out: String)
        ensures
            self.0.value() >= 0,
            out@ == segmented_text(self.0.value() as nat, Base::Ten),
    {
        fmt_seven_segment(self.0, Base::Ten)
    }

    /// The number in seven-segment binary digits.
    pub fn fmt_binary(&self, _flags: Flags) -> (out: String)
        ensures
            self.0.value() >= 0,
            out@ == segmented_text(self.0.value() as nat, Base::Two),
    {
        fmt_seven_segment(self.0, Base::Two)
    }

    /// The number in seven-segment decimal digits.
    pub fn to_string(&self) -> (out: String)
        ensures
            self.0.value() >= 0,
            out@ == segmented_text(self.0.value() as nat, Base::Ten),
    {
        fmt_seven_segment(self.0, Base::Ten)
    }
}

impl<T: UnsignedInteger> From<T> for Segmented<T> {
    /// The number, to be written in seven-segment digits.
    fn from(value: T) -> (wrapped: Self) {
        Segmented(value)
    }
}

impl<T: UnsignedInteger> vstd::std_specs::convert::FromSpecImpl<T> for Segmented<T> {
    open spec fn obeys_from_spec() -> bool {
        true
    }

    open spec fn from_spec(value: T) -> Self {
        Segmented(value)
    }
}

/// What a seven-segment number is written as depends on the number and the flags alone: two
/// calls of one of the formatting functions on the same number with the same
/// flags return the same text.
pub proof fn lemma_segmented_is_pure<T: UnsignedInteger>(
    number: Segmented<T>,
    flags: Flags,
    first: String,
    second: String,
)
    requires
        ({
            ||| call_ensures(Segmented::<T>::fmt, (&number, flags), first) && call_ensures(
                Segmented::<T>::fmt,
                (&number, flags),
                second,
            )
            ||| call_ensures(Segmented::<T>::fmt_binary, (&number, flags), first) && call_ensures(
                Segmented::<T>::fmt_binary,
                (&number, flags),
                second,
            )
            ||| call_ensures(Segmented::<T>::to_string, (&number,), first) && call_ensures(
                Segmented::<T>::to_string,
                (&number,),
                second,
            )
        }),
    ensures
        first@ == second@,
{
}

} // verus!
