use vstd::arithmetic::div_mod::{lemma_div_decreases, lemma_fundamental_div_mod};
use vstd::arithmetic::power::{
    lemma_pow0, lemma_pow1, lemma_pow_adds, lemma_pow_increases, lemma_pow_positive, pow,
};
use vstd::arithmetic::power2::{lemma2_to64, lemma_pow2};
use vstd::prelude::*;

verus! {

/// A positional numeral system, known by its radix.
#[derive(Clone, Copy, Debug, PartialEq, Eq, Structural)]
pub enum Base {
    /// Binary: the digits zero and one.
    Two,
    /// Decimal: the digits zero to nine.
    Ten,
    /// Hexadecimal: the digits zero to fifteen.
    Sixteen,
}

/// The integer logarithm of `x` to the base `radix`: the greatest exponent
/// `e` with `radix^e <= x`, and zero where `x` is zero. That this recursion
/// computes it is shown by [`lemma_ilog_brackets`] and [`lemma_ilog_unique`].
pub open spec fn ilog(radix: nat, x: nat) -> nat
    decreases x,
    via ilog_decreases
{
    if radix < 2 || x < radix {
        0
    } else {
        1 + ilog(radix, x / radix)
    }
}

#[via_fn]
proof fn ilog_decreases(radix: nat, x: nat) {
    if !(radix < 2 || x < radix) {
        lemma_div_decreases(x as int, radix as int);
    }
}

/// The powers of `radix` from `radix^ilog(radix, x)` down to `radix^0`.
pub open spec fn powers_down(radix: nat, x: nat) -> Seq<int> {
    Seq::new(ilog(radix, x) + 1, |i: int| pow(radix as int, (ilog(radix, x) - i) as nat))
}

/// One more factor: `radix^(e + 1)` is `radix * radix^e`.
pub proof fn lemma_pow_succ(radix: int, e: nat)
    ensures
        pow(radix, e + 1) == radix * pow(radix, e),
{
    reveal(pow);
}

/// The logarithm brackets its argument: for `x >= 1`,
/// `radix^ilog(x) <= x < radix^(ilog(x) + 1)`.
pub proof fn lemma_ilog_brackets(radix: nat, x: nat)
    requires
        radix >= 2,
        x >= 1,
    ensures
        pow(radix as int, ilog(radix, x)) <= x < pow(radix as int, ilog(radix, x) + 1),
    decreases x,
{
    let r = radix as int;
    if x < radix {
        lemma_pow0(r);
        lemma_pow1(r);
    } else {
        let q = x / radix;
        lemma_fundamental_div_mod(x as int, r);
        lemma_div_decreases(x as int, r);
        assert(q >= 1) by (nonlinear_arith)
            requires
                x == r * q + (x as int % r),
                0 <= x as int % r < r,
                x >= r,
                r >= 2,
        ;
        lemma_ilog_brackets(radix, q);
        let k = ilog(radix, q);
        lemma_pow_succ(r, k);
        lemma_pow_succ(r, k + 1);
        assert(r * pow(r, k) <= x < r * pow(r, k + 1)) by (nonlinear_arith)
            requires
                pow(r, k) <= q < pow(r, k + 1),
                x == r * q + (x as int % r),
                0 <= x as int % r < r,
                r >= 2,
        ;
    }
}

/// Only one exponent brackets `x`: the logarithm is the greatest exponent
/// whose power does not exceed `x`.
pub proof fn lemma_ilog_unique(radix: nat, x: nat, e: nat)
    requires
        radix >= 2,
        pow(radix as int, e) <= x < pow(radix as int, e + 1),
    ensures
        e == ilog(radix, x),
{
    lemma_pow_positive(radix as int, e);
    lemma_ilog_brackets(radix, x);
    let l = ilog(radix, x);
    if e < l {
        lemma_pow_increases(radix, e + 1, l);
    } else if l < e {
        lemma_pow_increases(radix, l + 1, e);
    }
}

/// The logarithm never shrinks as its argument grows.
pub proof fn lemma_ilog_monotonic(radix: nat, x: nat, y: nat)
    requires
        radix >= 2,
        x <= y,
    ensures
        ilog(radix, x) <= ilog(radix, y),
{
    if x >= 1 {
        lemma_ilog_brackets(radix, x);
        lemma_ilog_brackets(radix, y);
        if ilog(radix, y) < ilog(radix, x) {
            lemma_pow_increases(radix, ilog(radix, y) + 1, ilog(radix, x));
        }
    }
}

/// A value that fits in 128 bits has a logarithm of at most 127.
pub proof fn lemma_ilog_fits(radix: nat, x: nat)
    requires
        radix >= 2,
        x <= u128::MAX,
    ensures
        ilog(radix, x) <= 127,
{
    if x >= radix {
        // A power of the radix is at least the same power of two, and the
        // 128th power of two is beyond 128 bits.
        let e = ilog(radix, x);
        lemma_ilog_brackets(radix, x);
        lemma_pow_at_least_pow2(radix, e);
        if e >= 128 {
            lemma_pow_increases(2, 128, e);
            lemma_pow2_128();
        }
    }
}

/// A power of a radix is at least the same power of two.
proof fn lemma_pow_at_least_pow2(radix: nat, e: nat)
    requires
        radix >= 2,
    ensures
        pow(2, e) <= pow(radix as int, e),
    decreases e,
{
    if e == 0 {
        lemma_pow0(2);
        lemma_pow0(radix as int);
    } else {
        let d = (e - 1) as nat;
        lemma_pow_at_least_pow2(radix, d);
        lemma_pow_succ(2, d);
        lemma_pow_succ(radix as int, d);
        lemma_pow_positive(2, d);
        assert(2 * pow(2, d) <= radix * pow(radix as int, d)) by (nonlinear_arith)
            requires
                0 < pow(2, d) <= pow(radix as int, d),
                radix >= 2,
        ;
    }
}

/// The 128th power of two, written out.
proof fn lemma_pow2_128()
    ensures
        pow(2, 128) == 0x1_0000_0000_0000_0000_0000_0000_0000_0000int,
{
    lemma2_to64();
    lemma_pow2(64);
    lemma_pow_adds(2, 64, 64);
    assert(0x1_0000_0000_0000_0000int * 0x1_0000_0000_0000_0000int
        == 0x1_0000_0000_0000_0000_0000_0000_0000_0000int) by (nonlinear_arith);
}

impl Base {
    /// The radix: how many digits the numeral system has.
    pub open spec fn radix(self) -> nat {
        match self {
            Base::Two => 2,
            Base::Ten => 10,
            Base::Sixteen => 16,
        }
    }

    /// The radix as a number to compute with.
    pub fn value(self) -> (radix: u128)
        ensures
            radix == self.radix(),
    {
        match self {
            Base::Two => 2,
            Base::Ten => 10,
            Base::Sixteen => 16,
        }
    }

    /// The integer logarithm of `x` in this base: the greatest exponent `e`
    /// with `radix^e <= x`, and zero for `x == 0`.
    pub fn ilog(self, x: u128) -> (e: u32)
        ensures
            e == ilog(self.radix(), x as nat),
            e <= 127,
            x >= 1 ==> pow(self.radix() as int, e as nat) <= x < pow(
                self.radix() as int,
                e as nat + 1,
            ),
    {
        let radix = self.value();
        let mut e: u32 = 0;
        let mut rest: u128 = x;
        proof {
            lemma_ilog_fits(self.radix(), x as nat);
            if x >= 1 {
                lemma_ilog_brackets(self.radix(), x as nat);
            }
        }
        while rest >= radix
            invariant
                radix == self.radix(),
                ilog(radix as nat, x as nat) == e + ilog(radix as nat, rest as nat),
                ilog(radix as nat, x as nat) <= 127,
            decreases rest,
        {
            proof {
                lemma_div_decreases(rest as int, radix as int);
            }
            rest = rest / radix;
            e = e + 1;
        }
        e
    }

    /// The powers of the radix that do not exceed `x`, greatest first, down
    /// to `radix^0`; for `x == 0` the one power `radix^0`.
    pub fn powers(self, x: u128) -> (powers: Vec<u128>)
        ensures
            powers@.len() == ilog(self.radix(), x as nat) + 1,
            forall|i: int|
                0 <= i < powers@.len() ==> #[trigger] powers@[i] == powers_down(
                    self.radix(),
                    x as nat,
                )[i],
    {
        let radix = self.value();
        let e = self.ilog(x);
        let mut power: u128 = 1;
        let mut k: u32 = 0;
        proof {
            lemma_pow0(radix as int);
        }
        while k < e
            invariant
                radix == self.radix(),
                k <= e,
                power == pow(radix as int, k as nat),
                e >= 1 ==> pow(radix as int, e as nat) <= x,
            decreases e - k,
        {
            proof {
                lemma_pow_succ(radix as int, k as nat);
                lemma_pow_increases(radix as nat, k as nat + 1, e as nat);
                assert(radix * power == power * radix) by (nonlinear_arith);
            }
            power = power * radix;
            k = k + 1;
        }
        let mut powers: Vec<u128> = Vec::new();
        let mut i: u32 = 0;
        while i <= e
            invariant
                radix == self.radix(),
                e <= 127,
                i <= e + 1,
                e == ilog(radix as nat, x as nat),
                i <= e ==> power == pow(radix as int, (e - i) as nat),
                powers@.len() == i,
                forall|j: int|
                    0 <= j < i ==> #[trigger] powers@[j] == pow(radix as int, (e - j) as nat),
            decreases e + 1 - i,
        {
            powers.push(power);
            proof {
                if i < e {
                    let d = (e - i - 1) as nat;
                    lemma_pow_succ(radix as int, d);
                    lemma_pow_positive(radix as int, d);
                    assert((radix * pow(radix as int, d)) / (radix as int) == pow(
                        radix as int,
                        d,
                    )) by (nonlinear_arith)
                        requires
                            radix >= 2,
                    ;
                }
            }
            power = power / radix;
            i = i + 1;
        }
        powers
    }
}

} // verus!
