use crate::base::Base;
use crate::flags::Flags;
use crate::integer::{magnitude_of, one_of, Integer, Sign};
use crate::sub_superscript::{subscript_text, superscript_text, Subscript, Superscript};
use vstd::prelude::*;
use vstd::string::StringExecFns;

verus! {

/// A fraction to be written with Unicode's fraction glyphs: as one glyph
/// where Unicode has one for it, else as a superscript numerator, a fraction
/// slash and a subscript denominator.
///
/// The fraction is written as given: it is not reduced, and a denominator of
/// zero is written like any other.
///
/// With [`Flags::alternate`] no single glyph is used. With
/// [`Flags::sign_plus`] or [`Flags::sign_minus`] the sign of the fraction is
/// written in front of it instead of inside.
#[derive(Debug, Clone, Eq, PartialEq)]
pub struct VulgarFraction<T> {
    /// The number above the fraction line.
    pub numerator: T,
    /// The number below the fraction line.
    pub denominator: T,
}

/// U+2044 FRACTION SLASH.
pub const FRACTION_SLASH: char = '\u{2044}';

/// The glyph that Unicode has for the fraction `n/d`, if it has one.
pub open spec fn single_character_fraction(n: int, d: int) -> Option<char> {
    if n == 1 && d == 4 {
        Some('\u{bc}')
    } else if n == 1 && d == 2 {
        Some('\u{bd}')
    } else if n == 3 && d == 4 {
        Some('\u{be}')
    } else if n == 1 && d == 7 {
        Some('\u{2150}')
    } else if n == 1 && d == 9 {
        Some('\u{2151}')
    } else if n == 1 && d == 10 {
        Some('\u{2152}')
    } else if n == 1 && d == 3 {
        Some('\u{2153}')
    } else if n == 2 && d == 3 {
        Some('\u{2154}')
    } else if n == 1 && d == 5 {
        Some('\u{2155}')
    } else if n == 2 && d == 5 {
        Some('\u{2156}')
    } else if n == 3 && d == 5 {
        Some('\u{2157}')
    } else if n == 4 && d == 5 {
        Some('\u{2158}')
    } else if n == 1 && d == 6 {
        Some('\u{2159}')
    } else if n == 5 && d == 6 {
        Some('\u{215a}')
    } else if n == 1 && d == 8 {
        Some('\u{215b}')
    } else if n == 3 && d == 8 {
        Some('\u{215c}')
    } else if n == 5 && d == 8 {
        Some('\u{215d}')
    } else if n == 7 && d == 8 {
        Some('\u{215e}')
    } else if n == 0 && d == 3 {
        Some('\u{2189}')
    } else {
        None
    }
}

/// The sign that goes in front of the fraction `n/d`, if the flags move it
/// there. The sign of the fraction is the product of the signs of `n` and
/// `d`, with zero counting as not negative: `-1/0` and `0/-1` are negative.
pub open spec fn outside_sign(n: int, d: int, flags: Flags) -> Option<char> {
    match Sign::of(n).times(Sign::of(d)) {
        Sign::PositiveOrZero => if flags.sign_plus {
            Some('+')
        } else {
            None
        },
        Sign::Negative => if flags.sign_minus {
            Some('-')
        } else {
            None
        },
    }
}

/// The fraction `n/d` spelled out: the numerator in superscript, the
/// fraction slash, the denominator in subscript, each of the two numbers
/// with its own minus where it is negative.
pub open spec fn spelled_out(n: int, d: int) -> Seq<char> {
    superscript_text(n, false, Base::Ten) + seq![FRACTION_SLASH] + subscript_text(
        d,
        false,
        Base::Ten,
    )
}

/// The fraction `n/d` without a sign in front: its one glyph, where it has
/// one and `alternate` does not forbid it, else spelled out.
pub open spec fn fraction_body(n: int, d: int, alternate: bool) -> Seq<char> {
    match single_character_fraction(n, d) {
        Some(glyph) if !alternate => seq![glyph],
        _ => spelled_out(n, d),
    }
}

/// The fraction `n/d` as text. Where the flags move the sign to the front,
/// what follows it is the fraction of the two magnitudes.
pub open spec fn fraction_text(n: int, d: int, flags: Flags) -> Seq<char> {
    match outside_sign(n, d, flags) {
        Some(sign) => seq![sign] + fraction_body(
            magnitude_of(n) as int,
            magnitude_of(d) as int,
            flags.alternate,
        ),
        None => fraction_body(n, d, flags.alternate),
    }
}

/// A single glyph stands only for a fraction of two small numbers that are
/// not negative: both fit in eight bits. Any other fraction has none.
pub proof fn lemma_single_character_fraction_is_small(n: int, d: int)
    ensures
        single_character_fraction(n, d) is Some ==> 0 <= n <= u8::MAX && 0 <= d <= u8::MAX,
        n < 0 || n > u8::MAX || d < 0 || d > u8::MAX ==> single_character_fraction(n, d) is None,
{
}

/// A fraction with a number in it that does not fit in eight bits is
/// spelled out, whatever the flags.
pub proof fn lemma_wide_fraction_is_spelled_out(n: int, d: int, flags: Flags)
    requires
        magnitude_of(n) > u8::MAX || magnitude_of(d) > u8::MAX,
    ensures
        fraction_text(n, d, flags) == match outside_sign(n, d, flags) {
            Some(sign) => seq![sign] + spelled_out(magnitude_of(n) as int, magnitude_of(d) as int),
            None => spelled_out(n, d),
        },
{
}

/// With `alternate` set every fraction is spelled out.
pub proof fn lemma_alternate_fraction_is_spelled_out(n: int, d: int, flags: Flags)
    requires
        flags.alternate,
    ensures
        fraction_text(n, d, flags) == match outside_sign(n, d, flags) {
            Some(sign) => seq![sign] + spelled_out(magnitude_of(n) as int, magnitude_of(d) as int),
            None => spelled_out(n, d),
        },
{
}

/// With no flag set, a fraction is one glyph exactly where Unicode has a
/// glyph for it.
pub proof fn lemma_plain_fraction(n: int, d: int)
    ensures
        fraction_text(n, d, Flags::none()) == match single_character_fraction(n, d) {
            Some(glyph) => seq![glyph],
            None => spelled_out(n, d),
        },
{
}

/// What a fraction is written as depends on its two numbers and the flags
/// alone: two calls of one of the formatting functions on the same fraction
/// with the same flags return the same text.
pub proof fn lemma_fraction_is_pure<T: Integer>(
    fraction: VulgarFraction<T>,
    flags: Flags,
    first: String,
    second: String,
)
    requires
        ({
            ||| call_ensures(VulgarFraction::<T>::fmt, (&fraction, flags), first) && call_ensures(
                VulgarFraction::<T>::fmt,
                (&fraction, flags),
                second,
            )
            ||| call_ensures(VulgarFraction::<T>::to_string, (&fraction,), first) && call_ensures(
                VulgarFraction::<T>::to_string,
                (&fraction,),
                second,
            )
        }),
    ensures
        first@ == second@,
{
}

/// Decides whether the sign of the fraction goes in front of it, and which
/// sign that is.
pub fn extract_sign<T: Integer>(numerator: T, denominator: T, flags: Flags) -> (sign: Option<
    &'static str,
>)
    ensures
        match sign {
            Some(glyph) => glyph@.len() == 1 && outside_sign(
                numerator.value(),
                denominator.value(),
                flags,
            ) == Some(glyph@[0]),
            None => outside_sign(numerator.value(), denominator.value(), flags) is None,
        },
{
    proof {
        reveal_strlit("+");
        reveal_strlit("-");
    }
    match numerator.sign().mul(denominator.sign()) {
        Sign::PositiveOrZero => if flags.sign_plus {
            Some("+")
        } else {
            None
        },
        Sign::Negative => if flags.sign_minus {
            Some("-")
        } else {
            None
        },
    }
}

/// Looks up the one glyph that stands for the fraction, if there is one.
pub fn find_single_character_fraction<T: Integer>(numerator: T, denominator: T) -> (found: Option<
    &'static str,
>)
    ensures
        match found {
            Some(glyph) => glyph@.len() == 1 && single_character_fraction(
                numerator.value(),
                denominator.value(),
            ) == Some(glyph@[0]),
            None => single_character_fraction(numerator.value(), denominator.value()) is None,
        },
{
    proof {
        reveal_strlit("\u{bc}");
        reveal_strlit("\u{bd}");
        reveal_strlit("\u{be}");
        reveal_strlit("\u{2150}");
        reveal_strlit("\u{2151}");
        reveal_strlit("\u{2152}");
        reveal_strlit("\u{2153}");
        reveal_strlit("\u{2154}");
        reveal_strlit("\u{2155}");
        reveal_strlit("\u{2156}");
        reveal_strlit("\u{2157}");
        reveal_strlit("\u{2158}");
        reveal_strlit("\u{2159}");
        reveal_strlit("\u{215a}");
        reveal_strlit("\u{215b}");
        reveal_strlit("\u{215c}");
        reveal_strlit("\u{215d}");
        reveal_strlit("\u{215e}");
        reveal_strlit("\u{2189}");
    }
    let n: u8 = match numerator.to_u8() {
        Some(n) => n,
        None => { return None; },
    };
    let d: u8 = match denominator.to_u8() {
        Some(d) => d,
        None => { return None; },
    };
    match (n, d) {
        (1u8, 4u8) => Some("\u{bc}"),
        (1u8, 2u8) => Some("\u{bd}"),
        (3u8, 4u8) => Some("\u{be}"),
        (1u8, 7u8) => Some("\u{2150}"),
        (1u8, 9u8) => Some("\u{2151}"),
        (1u8, 10u8) => Some("\u{2152}"),
        (1u8, 3u8) => Some("\u{2153}"),
        (2u8, 3u8) => Some("\u{2154}"),
        (1u8, 5u8) => Some("\u{2155}"),
        (2u8, 5u8) => Some("\u{2156}"),
        (3u8, 5u8) => Some("\u{2157}"),
        (4u8, 5u8) => Some("\u{2158}"),
        (1u8, 6u8) => Some("\u{2159}"),
        (5u8, 6u8) => Some("\u{215a}"),
        (1u8, 8u8) => Some("\u{215b}"),
        (3u8, 8u8) => Some("\u{215c}"),
        (5u8, 8u8) => Some("\u{215d}"),
        (7u8, 8u8) => Some("\u{215e}"),
        (0u8, 3u8) => Some("\u{2189}"),
        _ => None,
    }
}

/// Appends the fraction without a sign in front.
fn append_fraction<T: Integer>(out: &mut String, numerator: T, denominator: T, alternate: bool)
    ensures
        final(out)@ == old(out)@ + fraction_body(numerator.value(), denominator.value(), alternate),
{
    let found = if alternate {
        None
    } else {
        find_single_character_fraction(numerator, denominator)
    };
    match found {
        Some(glyph) => {
            assert(glyph@ =~= seq![glyph@[0]]);
            out.append(glyph);
        },
        None => {
            proof {
                reveal_strlit("\u{2044}");
            }
            let above = Superscript(numerator).to_string();
            let below = Subscript(denominator).to_string();
            out.append(above.as_str());
            out.append("\u{2044}");
            out.append(below.as_str());
            assert("\u{2044}"@ =~= seq![FRACTION_SLASH]);
            assert(out@ =~= old(out)@ + (above@ + seq![FRACTION_SLASH] + below@));
        },
    }
}

impl<T> VulgarFraction<T> {
    /// The fraction `numerator/denominator`.
    pub fn new(numerator: T, denominator: T) -> (fraction: Self)
        ensures
            fraction.numerator == numerator,
            fraction.denominator == denominator,
    {
        Self { numerator, denominator }
    }
}

impl<T: Integer> VulgarFraction<T> {
    /// The fraction as text.
    pub fn fmt(&self, flags: Flags) -> (out: String)
        ensures
            out@ == fraction_text(self.numerator.value(), self.denominator.value(), flags),
    {
        let mut out = String::new();
        match extract_sign(self.numerator, self.denominator, flags) {
            Some(sign) => {
                assert(sign@ =~= seq![sign@[0]]);
                out.append(sign);
                append_fraction(
                    &mut out,
                    self.numerator.magnitude(),
                    self.denominator.magnitude(),
                    flags.alternate,
                );
            },
            None => {
                append_fraction(&mut out, self.numerator, self.denominator, flags.alternate);
            },
        }
        out
    }

    /// The fraction as text, with no flag set.
    pub fn to_string(&self) -> (out: String)
        ensures
            out@ == fraction_text(self.numerator.value(), self.denominator.value(), Flags::none()),
    {
        self.fmt(Flags::new())
    }
}

impl<T> From<(T, T)> for VulgarFraction<T> {
    /// The fraction of a numerator and a denominator, in this order.
    fn from(pair: (T, T)) -> (fraction: Self) {
        let (numerator, denominator) = pair;
        VulgarFraction { numerator, denominator }
    }
}

impl<T> vstd::std_specs::convert::FromSpecImpl<(T, T)> for VulgarFraction<T> {
    open spec fn obeys_from_spec() -> bool {
        true
    }

    open spec fn from_spec(pair: (T, T)) -> Self {
        VulgarFraction { numerator: pair.0, denominator: pair.1 }
    }
}

impl<T: Integer> From<T> for VulgarFraction<T> {
    /// The whole number as a fraction: over one.
    fn from(value: T) -> (fraction: Self)
        ensures
            fraction.numerator == value,
            fraction.denominator.value() == 1,
    {
        let one = T::one();
        proof {
            one.lemma_value_is_injective(one_of::<T>());
        }
        VulgarFraction::new(value, one)
    }
}

impl<T: Integer> vstd::std_specs::convert::FromSpecImpl<T> for VulgarFraction<T> {
    open spec fn obeys_from_spec() -> bool {
        true
    }

    open spec fn from_spec(value: T) -> Self {
        VulgarFraction { numerator: value, denominator: one_of::<T>() }
    }
}

} // verus!
