use crate::base::Base;
use crate::digits::{digits_of, iter_digits};
use crate::flags::Flags;
use crate::glyphs::{append_glyphs, glyph_text, single_chars, table_chars};
use crate::integer::UnsignedInteger;
use vstd::prelude::*;

verus! {

/// An unsigned number to be written in outlined digits: the code points
/// U+1CCF0 to U+1CCF9 for zero to nine, and the outlined capital letters
/// U+1CCD6 to U+1CCDB for the hexadecimal digits ten to fifteen.
///
/// No flag changes what is written.
#[derive(Debug, Clone, Copy, Eq, PartialEq)]
pub struct Outlined<T>(pub T);

/// The outlined digits zero to fifteen.
pub open spec fn outlined_glyphs() -> Seq<char> {
    seq![
        '\u{1ccf0}',
        '\u{1ccf1}',
        '\u{1ccf2}',
        '\u{1ccf3}',
        '\u{1ccf4}',
        '\u{1ccf5}',
        '\u{1ccf6}',
        '\u{1ccf7}',
        '\u{1ccf8}',
        '\u{1ccf9}',
        '\u{1ccd6}',
        '\u{1ccd7}',
        '\u{1ccd8}',
        '\u{1ccd9}',
        '\u{1ccda}',
        '\u{1ccdb}',
    ]
}

/// The number `n` in outlined digits.
pub open spec fn outlined_text(n: nat, base: Base) -> Seq<char> {
    glyph_text(digits_of(n, base.radix()), outlined_glyphs())
}

/// The outlined digits as string slices, to append to a text.
fn outlined_table() -> (table: [&'static str; 16])
    ensures
        single_chars(table@),
        table_chars(table@) == outlined_glyphs(),
{
    proof {
        reveal_strlit("\u{1ccf0}");
        reveal_strlit("\u{1ccf1}");
        reveal_strlit("\u{1ccf2}");
        reveal_strlit("\u{1ccf3}");
        reveal_strlit("\u{1ccf4}");
        reveal_strlit("\u{1ccf5}");
        reveal_strlit("\u{1ccf6}");
        reveal_strlit("\u{1ccf7}");
        reveal_strlit("\u{1ccf8}");
        reveal_strlit("\u{1ccf9}");
        reveal_strlit("\u{1ccd6}");
        reveal_strlit("\u{1ccd7}");
        reveal_strlit("\u{1ccd8}");
        reveal_strlit("\u{1ccd9}");
        reveal_strlit("\u{1ccda}");
        reveal_strlit("\u{1ccdb}");
    }
    let table = [
        "\u{1ccf0}",
        "\u{1ccf1}",
        "\u{1ccf2}",
        "\u{1ccf3}",
        "\u{1ccf4}",
        "\u{1ccf5}",
        "\u{1ccf6}",
        "\u{1ccf7}",
        "\u{1ccf8}",
        "\u{1ccf9}",
        "\u{1ccd6}",
        "\u{1ccd7}",
        "\u{1ccd8}",
        "\u{1ccd9}",
        "\u{1ccda}",
        "\u{1ccdb}",
    ];
    assert(table_chars(table@) =~= outlined_glyphs());
    table
}

/// Writes `n` in outlined digits in the given base.
pub fn fmt_outlined<T: UnsignedInteger>(n: T, base: Base) -> (out: String)
    ensures
        n.value() >= 0,
        out@ == outlined_text(n.value() as nat, base),
{
    proof {
        n.lemma_not_negative();
    }
    let table = outlined_table();
    let digits = iter_digits(n, base);
    let mut out = String::new();
    append_glyphs(&mut out, &digits, table.as_slice());
    assert(Seq::<char>::empty() + outlined_text(n.value() as nat, base) =~= outlined_text(
        n.value() as nat,
        base,
    ));
    out
}

impl<T: UnsignedInteger> Outlined<T> {
    /// The number in outlined decimal digits.
    pub fn fmt(&self, _flags: Flags) -> (out: String)
        ensures
            self.0.value() >= 0,
            out@ == outlined_text(self.0.value() as nat, Base::Ten),
    {
        fmt_outlined(self.0, Base::Ten)
    }

    /// The number in outlined binary digits.
    pub fn fmt_binary(&self, _flags: Flags) -> (out: String)
        ensures
            self.0.value() >= 0,
            out@ == outlined_text(self.0.value() as nat, Base::Two),
    {
        fmt_outlined(self.0, Base::Two)
    }

    /// The number in outlined hexadecimal digits, with capital letters.
    pub fn fmt_upper_hex(&self, _flags: Flags) -> (out: String)
        ensures
            self.0.value() >= 0,
            out@ == outlined_text(self.0.value() as nat, Base::Sixteen),
    {
        fmt_outlined(self.0, Base::Sixteen)
    }

    /// The number in outlined decimal digits.
    pub fn to_string(&self) -> (out: String)
        ensures
            self.0.value() >= 0,
            out@ == outlined_text(self.0.value() as nat, Base::Ten),
    {
        fmt_outlined(self.0, Base::Ten)
    }
}

impl<T: UnsignedInteger> From<T> for Outlined<T> {
    /// The number, to be written in outlined digits.
    fn from(value: T) -> (wrapped: Self) {
        Outlined(value)
    }
}

impl<T: UnsignedInteger> vstd::std_specs::convert::FromSpecImpl<T> for Outlined<T> {
    open spec fn obeys_from_spec() -> bool {
        true
    }

    open spec fn from_spec(value: T) -> Self {
        Outlined(value)
    }
}

/// What an outlined number is written as depends on the number and the flags alone: two
/// calls of one of the formatting functions on the same number with the same
/// flags return the same text.
pub proof fn lemma_outlined_is_pure<T: UnsignedInteger>(
    number: Outlined<T>,
    flags: Flags,
    first: String,
    second: String,
)
    requires
        ({
            ||| call_ensures(Outlined::<T>::fmt, (&number, flags), first) && call_ensures(
                Outlined::<T>::fmt,
                (&number, flags),
                second,
            )
            ||| call_ensures(Outlined::<T>::fmt_binary, (&number, flags), first) && call_ensures(
                Outlined::<T>::fmt_binary,
                (&number, flags),
                second,
            )
            ||| call_ensures(Outlined::<T>::fmt_upper_hex, (&number, flags), first) && call_ensures(
                Outlined::<T>::fmt_upper_hex,
                (&number, flags),
                second,
            )
            ||| call_ensures(Outlined::<T>::to_string, (&number,), first) && call_ensures(
                Outlined::<T>::to_string,
                (&number,),
                second,
            )
        }),
    ensures
        first@ == second@,
{
}

} // verus!
