use crate::base::{
    ilog, lemma_ilog_brackets, lemma_ilog_fits, lemma_pow_succ, powers_down, Base,
};
use crate::integer::{magnitude_of, Integer};
use vstd::arithmetic::div_mod::{
    lemma_div_decreases, lemma_fundamental_div_mod, lemma_fundamental_div_mod_converse,
};
use vstd::arithmetic::power::{lemma_pow0, lemma_pow_positive, pow};
use vstd::prelude::*;

verus! {

/// The digits of `m` in the given radix, most significant first. Zero has the
/// one digit zero; no other number has a leading zero.
pub open spec fn digits_of(m: nat, radix: nat) -> Seq<nat>
    decreases m,
    via digits_of_decreases
{
    if radix < 2 || m < radix {
        seq![m]
    } else {
        digits_of(m / radix, radix).push(m % radix)
    }
}

#[via_fn]
proof fn digits_of_decreases(m: nat, radix: nat) {
    if !(radix < 2 || m < radix) {
        lemma_div_decreases(m as int, radix as int);
    }
}

/// The number that a digit sequence denotes: with `n` digits, the sum of
/// `digit_i * radix^(n - 1 - i)` over all places `i`.
pub open spec fn positional_value(digits: Seq<nat>, radix: nat) -> nat
    decreases digits.len(),
{
    if digits.len() == 0 {
        0
    } else {
        (digits[0] * pow(radix as int, (digits.len() - 1) as nat)) as nat + positional_value(
            digits.drop_first(),
            radix,
        )
    }
}

/// Whether every digit of the sequence is below the radix.
pub open spec fn digits_in_range(digits: Seq<nat>, radix: nat) -> bool {
    forall|i: int| 0 <= i < digits.len() ==> #[trigger] digits[i] < radix
}

/// What a vector of digits holds, as natural numbers.
pub open spec fn digits_view(digits: Seq<usize>) -> Seq<nat> {
    digits.map_values(|d: usize| d as nat)
}

/// Appending a digit multiplies the value so far by the radix and adds the
/// digit.
pub proof fn lemma_positional_value_push(digits: Seq<nat>, radix: nat, digit: nat)
    requires
        radix >= 1,
    ensures
        positional_value(digits.push(digit), radix) == positional_value(digits, radix) * radix
            + digit,
    decreases digits.len(),
{
    let r = radix as int;
    let longer = digits.push(digit);
    if digits.len() == 0 {
        lemma_pow0(r);
        assert(longer.drop_first() =~= Seq::<nat>::empty());
        assert(positional_value(longer.drop_first(), radix) == 0);
        assert(longer[0] == digit);
        assert(digit * 1 == digit) by (nonlinear_arith);
        assert(0 * radix == 0) by (nonlinear_arith);
    } else {
        // With `first` the leading digit, `weight` its weight and `tail` the
        // value of the other digits: the longer sequence gives the leading
        // digit the weight `r * weight`, and by induction its other digits
        // the value `tail * r + digit`.
        let rest = digits.drop_first();
        let weight = pow(r, (digits.len() - 1) as nat);
        let first = digits[0] as int;
        let tail = positional_value(rest, radix) as int;
        assert(longer.drop_first() =~= rest.push(digit));
        assert(longer[0] == digits[0]);
        lemma_positional_value_push(rest, radix, digit);
        lemma_pow_succ(r, (digits.len() - 1) as nat);
        lemma_pow_positive(r, (digits.len() - 1) as nat);
        assert(first * weight >= 0 && first * (r * weight) >= 0) by (nonlinear_arith)
            requires
                first >= 0,
                weight > 0,
                r >= 1,
        ;
        assert(positional_value(digits, radix) == first * weight + tail);
        assert(positional_value(longer, radix) == first * (r * weight) + (tail * r + digit));
        assert(first * (r * weight) + (tail * r + digit) == (first * weight + tail) * r + digit)
            by (nonlinear_arith);
    }
}

/// Reading the digits of `m` back gives `m`: decomposition loses nothing.
pub proof fn lemma_digits_reconstruct(m: nat, radix: nat)
    requires
        radix >= 2,
    ensures
        positional_value(digits_of(m, radix), radix) == m,
    decreases m,
{
    if m < radix {
        lemma_pow0(radix as int);
        let one = seq![m];
        assert(one.drop_first() =~= Seq::<nat>::empty());
        assert(positional_value(one.drop_first(), radix) == 0);
        assert(one[0] == m);
        assert(m * 1 == m) by (nonlinear_arith);
    } else {
        lemma_div_decreases(m as int, radix as int);
        lemma_digits_reconstruct(m / radix, radix);
        lemma_positional_value_push(digits_of(m / radix, radix), radix, m % radix);
        lemma_fundamental_div_mod(m as int, radix as int);
        assert((m / radix) * radix == radix * (m / radix)) by (nonlinear_arith);
    }
}

/// A number has one digit more than its integer logarithm.
pub proof fn lemma_digits_len(m: nat, radix: nat)
    requires
        radix >= 2,
    ensures
        digits_of(m, radix).len() == ilog(radix, m) + 1,
    decreases m,
{
    if m >= radix {
        lemma_div_decreases(m as int, radix as int);
        lemma_digits_len(m / radix, radix);
    }
}

/// Every digit is below the radix.
pub proof fn lemma_digits_in_range(m: nat, radix: nat)
    requires
        radix >= 2,
    ensures
        digits_in_range(digits_of(m, radix), radix),
    decreases m,
{
    if m >= radix {
        lemma_div_decreases(m as int, radix as int);
        lemma_digits_in_range(m / radix, radix);
        lemma_fundamental_div_mod(m as int, radix as int);
        let shorter = digits_of(m / radix, radix);
        let longer = shorter.push(m % radix);
        assert forall|i: int| 0 <= i < longer.len() implies #[trigger] longer[i] < radix by {
            if i < shorter.len() {
                assert(longer[i] == shorter[i]);
            }
        }
    }
}

/// No number but zero starts with the digit zero.
pub proof fn lemma_digits_no_leading_zero(m: nat, radix: nat)
    requires
        radix >= 2,
        m >= 1,
    ensures
        digits_of(m, radix)[0] != 0,
    decreases m,
{
    if m >= radix {
        lemma_div_decreases(m as int, radix as int);
        lemma_fundamental_div_mod(m as int, radix as int);
        let q = m / radix;
        let rest = m % radix;
        assert(q >= 1) by (nonlinear_arith)
            requires
                m == radix * q + rest,
                rest < radix,
                m >= radix,
        ;
        lemma_digits_no_leading_zero(m / radix, radix);
        lemma_digits_len(m / radix, radix);
    }
}

/// Whether the sequence is the way to write a number: it has a digit, every
/// digit is below the radix, and the first digit is zero only where it is
/// the only one.
pub open spec fn is_canonical(digits: Seq<nat>, radix: nat) -> bool {
    &&& digits.len() >= 1
    &&& digits_in_range(digits, radix)
    &&& digits.len() == 1 || digits[0] != 0
}

/// The digits of a number are a way to write it.
pub proof fn lemma_digits_are_canonical(m: nat, radix: nat)
    requires
        radix >= 2,
    ensures
        is_canonical(digits_of(m, radix), radix),
{
    lemma_digits_in_range(m, radix);
    lemma_digits_len(m, radix);
    if m >= 1 {
        lemma_digits_no_leading_zero(m, radix);
    }
}

/// A sequence that starts with a digit other than zero denotes a number
/// other than zero.
proof fn lemma_leading_digit_counts(digits: Seq<nat>, radix: nat)
    requires
        radix >= 2,
        digits.len() >= 1,
        digits[0] != 0,
    ensures
        positional_value(digits, radix) >= 1,
{
    let weight = pow(radix as int, (digits.len() - 1) as nat);
    lemma_pow_positive(radix as int, (digits.len() - 1) as nat);
    let first = digits[0] as int;
    assert(first * weight >= 1) by (nonlinear_arith)
        requires
            first >= 1,
            weight >= 1,
    ;
}

/// There is one way only to write a number: a sequence that is a way to
/// write a number holds the digits of the number it denotes.
pub proof fn lemma_digits_are_unique(digits: Seq<nat>, radix: nat)
    requires
        radix >= 2,
        is_canonical(digits, radix),
    ensures
        digits == digits_of(positional_value(digits, radix), radix),
    decreases digits.len(),
{
    let front = digits.drop_last();
    let last = digits.last();
    let m = positional_value(digits, radix);
    let high = positional_value(front, radix);
    assert(front.push(last) =~= digits);
    lemma_positional_value_push(front, radix, last);
    if front.len() == 0 {
        assert(high * radix == 0) by (nonlinear_arith)
            requires
                high == 0,
        ;
        assert(digits =~= seq![last]);
    } else {
        assert(front[0] == digits[0]);
        lemma_leading_digit_counts(front, radix);
        assert forall|i: int| 0 <= i < front.len() implies #[trigger] front[i] < radix by {
            assert(front[i] == digits[i]);
        }
        lemma_digits_are_unique(front, radix);
        lemma_fundamental_div_mod_converse(m as int, radix as int, high as int, last as int);
        assert(m >= radix) by (nonlinear_arith)
            requires
                m == high * radix + last,
                high >= 1,
                radix >= 2,
        ;
        assert(digits_of(m, radix) == digits_of(high, radix).push(last));
    }
}

/// Decomposes the magnitude of `n` into its digits in the given base, most
/// significant first.
///
/// Starting from the greatest power of the radix that does not exceed the
/// magnitude, each power in turn is divided into what is left; the quotient
/// is the next digit, the remainder is what is left for the smaller powers.
pub fn iter_digits<T: Integer>(n: T, base: Base) -> (digits: Vec<usize>)
    ensures
        digits_view(digits@) == digits_of(magnitude_of(n.value()), base.radix()),
        positional_value(digits_view(digits@), base.radix()) == magnitude_of(n.value()),
        digits@.len() == ilog(base.radix(), magnitude_of(n.value())) + 1,
        1 <= digits@.len() <= 128,
        forall|i: int|
            0 <= i < digits@.len() ==> #[trigger] digits@[i] == digits_of(
                magnitude_of(n.value()),
                base.radix(),
            )[i] && digits@[i] < base.radix(),
{
    let magnitude = n.magnitude();
    let radix = base.value();
    let powers = base.powers(magnitude);
    let ghost r = radix as int;
    let ghost e = ilog(radix as nat, magnitude as nat);
    let ghost mut high: nat = 0;
    let mut digits: Vec<usize> = Vec::new();
    let mut remainder: u128 = magnitude;
    let mut i: usize = 0;
    proof {
        // Nothing is written yet, and all of the magnitude is left: it is
        // below the next power above the greatest one in `powers`.
        lemma_pow_succ(r, e);
        if magnitude >= 1 {
            lemma_ilog_brackets(radix as nat, magnitude as nat);
        } else {
            lemma_pow0(r);
        }
        assert(0 * pow(r, e + 1) == 0) by (nonlinear_arith);
    }
    while i < powers.len()
        invariant
            radix == base.radix(),
            r == radix,
            e == ilog(radix as nat, magnitude as nat),
            powers@.len() == e + 1,
            forall|j: int|
                0 <= j < powers@.len() ==> #[trigger] powers@[j] == powers_down(
                    radix as nat,
                    magnitude as nat,
                )[j],
            i <= powers@.len(),
            digits@.len() == i,
            magnitude == high * pow(r, (e + 1 - i) as nat) + remainder,
            0 <= remainder < pow(r, (e + 1 - i) as nat),
            magnitude >= 1 ==> pow(r, e) <= magnitude,
            i == 0 ==> high == 0,
            i >= 1 ==> high >= 1 || magnitude == 0,
            i >= 1 ==> digits_view(digits@) == digits_of(high, radix as nat),
            forall|j: int| 0 <= j < digits@.len() ==> #[trigger] digits@[j] < radix,
        decreases powers@.len() - i,
    {
        let power = powers[i];
        proof {
            let k = (e - i) as nat;
            assert(power == pow(r, k));
            lemma_pow_positive(r, k);
            lemma_pow_succ(r, k);
        }
        let digit = remainder / power;
        let rest = remainder % power;
        proof {
            // The digits so far are those of `high`, and the magnitude is
            // `high * (r * p) + remainder`. With the new digit it is
            // `(high * r + digit) * p + rest`, so the digits are then those
            // of `high * r + digit`.
            let p = power as int;
            lemma_fundamental_div_mod(remainder as int, p);
            assert(digit < r) by (nonlinear_arith)
                requires
                    remainder == p * digit + rest,
                    remainder < r * p,
                    0 <= rest,
                    p > 0,
            ;
            assert(magnitude == (high * r + digit) * p + rest) by (nonlinear_arith)
                requires
                    magnitude == high * (r * p) + remainder,
                    remainder == p * digit + rest,
            ;
            if i == 0 {
                assert(digit >= 1 || magnitude == 0) by (nonlinear_arith)
                    requires
                        magnitude == p * digit + rest,
                        0 <= rest < p,
                        magnitude >= 1 ==> p <= magnitude,
                        digit >= 0,
                ;
                assert(digits_of(digit as nat, radix as nat) =~= seq![digit as nat]);
                assert(digits_view(digits@.push(digit as usize)) =~= seq![digit as nat]);
            } else {
                let next = high * radix + digit;
                lemma_fundamental_div_mod_converse(next as int, r, high as int, digit as int);
                assert(next >= radix) by (nonlinear_arith)
                    requires
                        next == high * radix + digit,
                        high >= 1,
                        radix >= 2,
                        digit >= 0,
                ;
                assert(digits_of(next as nat, radix as nat) == digits_of(high, radix as nat).push(
                    digit as nat,
                ));
                assert(digits_view(digits@.push(digit as usize)) =~= digits_view(digits@).push(
                    digit as nat,
                ));
            }
            high = (high * radix + digit) as nat;
        }
        digits.push(digit.as_usize());
        remainder = rest;
        i = i + 1;
    }
    proof {
        lemma_pow0(r);
        assert(high * 1 == high) by (nonlinear_arith);
        lemma_digits_reconstruct(magnitude as nat, radix as nat);
        lemma_digits_len(magnitude as nat, radix as nat);
        lemma_ilog_fits(radix as nat, magnitude as nat);
        assert forall|i: int| 0 <= i < digits@.len() implies #[trigger] digits@[i] == digits_of(
            magnitude as nat,
            radix as nat,
        )[i] by {
            assert(digits_view(digits@)[i] == digits@[i]);
        }
    }
    digits
}

/// The digits depend on the number and the base alone: two decompositions of
/// the same number in the same base are the same.
pub proof fn lemma_iter_digits_is_pure<T: Integer>(
    n: T,
    base: Base,
    first: Vec<usize>,
    second: Vec<usize>,
)
    requires
        call_ensures(iter_digits::<T>, (n, base), first),
        call_ensures(iter_digits::<T>, (n, base), second),
    ensures
        first@ == second@,
{
    assert forall|i: int| 0 <= i < first@.len() implies first@[i] == second@[i] by {
        assert(digits_view(first@)[i] == digits_view(second@)[i]);
    }
}

} // verus!
