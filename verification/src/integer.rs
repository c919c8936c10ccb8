use vstd::prelude::*;

verus! {

/// The sign of a whole number. Zero has no sign of its own and counts as
/// [`Sign::PositiveOrZero`], so a zero never gets a minus glyph.
#[derive(Clone, Copy, Debug, PartialEq, Eq, Structural)]
pub enum Sign {
    /// Below zero.
    Negative,
    /// Zero or above.
    PositiveOrZero,
}

impl Sign {
    /// The sign of the mathematical integer `v`.
    pub open spec fn of(v: int) -> Sign {
        if v < 0 {
            Sign::Negative
        } else {
            Sign::PositiveOrZero
        }
    }

    /// The sign of a product whose factors have the signs `self` and `rhs`:
    /// negative exactly when the two signs differ.
    pub open spec fn times(self, rhs: Sign) -> Sign {
        if self == rhs {
            Sign::PositiveOrZero
        } else {
            Sign::Negative
        }
    }

    /// Multiplies two signs.
    pub fn mul(self, rhs: Sign) -> (product: Sign)
        ensures
            product == self.times(rhs),
    {
        match (self, rhs) {
            (Sign::Negative, Sign::Negative) => Sign::PositiveOrZero,
            (Sign::Negative, Sign::PositiveOrZero) => Sign::Negative,
            (Sign::PositiveOrZero, Sign::Negative) => Sign::Negative,
            (Sign::PositiveOrZero, Sign::PositiveOrZero) => Sign::PositiveOrZero,
        }
    }
}

/// For factors other than zero, multiplying the signs gives the sign of the
/// product.
pub proof fn lemma_sign_of_product(a: int, b: int)
    requires
        a != 0,
        b != 0,
    ensures
        Sign::of(a).times(Sign::of(b)) == Sign::of(a * b),
{
    assert(a < 0 && b < 0 ==> a * b > 0) by (nonlinear_arith);
    assert(a < 0 && b > 0 ==> a * b < 0) by (nonlinear_arith);
    assert(a > 0 && b < 0 ==> a * b < 0) by (nonlinear_arith);
    assert(a > 0 && b > 0 ==> a * b > 0) by (nonlinear_arith);
}

/// With a zero among the factors the sign of the other factor decides: the
/// product of the signs is not the sign of the product.
pub proof fn lemma_sign_times_zero(a: int)
    ensures
        Sign::of(a).times(Sign::of(0)) == Sign::of(a),
        Sign::of(0).times(Sign::of(a)) == Sign::of(a),
{
}

/// The number of type `T` whose value is one.
pub open spec fn one_of<T: Integer>() -> T {
    choose|one: T| one.value() == 1
}

/// The magnitude of `v`: its distance from zero.
pub open spec fn magnitude_of(v: int) -> nat {
    if v < 0 {
        (-v) as nat
    } else {
        v as nat
    }
}

/// A fixed-width whole number that the formats of this crate accept.
///
/// Every such number is a sign and a magnitude. The magnitude is handed out
/// as a `u128`, which holds the magnitude of every value of every
/// implementing type, the least value of `i128` included.
pub trait Integer: Copy {
    /// The number as a mathematical integer.
    spec fn value(self) -> int;

    /// Two numbers of one type with the same value are the same number.
    proof fn lemma_value_is_injective(self, other: Self)
        requires
            self.value() == other.value(),
        ensures
            self == other,
    ;

    /// The number zero.
    fn zero() -> (zero: Self)
        ensures
            zero.value() == 0,
    ;

    /// The number one.
    fn one() -> (one: Self)
        ensures
            one.value() == 1,
    ;

    /// The number five.
    fn five() -> (five: Self)
        ensures
            five.value() == 5,
    ;

    /// Whether the number is negative.
    fn sign(self) -> (sign: Sign)
        ensures
            sign == Sign::of(self.value()),
    ;

    /// The absolute value, in the unsigned domain.
    fn magnitude(self) -> (magnitude: u128)
        ensures
            magnitude == magnitude_of(self.value()),
    ;

    /// The number as a `usize`, to count or to index with. The number has
    /// to be one that a `usize` holds: not negative and at most `usize::MAX`.
    fn as_usize(self) -> (count: usize)
        requires
            0 <= self.value() <= usize::MAX,
        ensures
            count == self.value(),
    {
        self.magnitude() as usize
    }

    /// The number as a `u8`, or `None` where it is negative or above 255.
    fn to_u8(self) -> (small: Option<u8>)
        ensures
            small == (if 0 <= self.value() <= u8::MAX {
                Some(self.value() as u8)
            } else {
                None
            }),
    {
        let magnitude = self.magnitude();
        match self.sign() {
            Sign::Negative => None,
            Sign::PositiveOrZero => if magnitude <= 255 {
                Some(magnitude as u8)
            } else {
                None
            },
        }
    }
}

/// The signed integer types.
pub trait SignedInteger: Integer {

}

/// The unsigned integer types: their values are never negative.
pub trait UnsignedInteger: Integer {
    /// No value of the type is negative.
    proof fn lemma_not_negative(self)
        ensures
            self.value() >= 0,
    ;
}

impl Integer for u8 {
    open spec fn value(self) -> int {
        self as int
    }

    proof fn lemma_value_is_injective(self, other: Self) {
    }

    fn zero() -> (zero: Self) {
        0
    }

    fn one() -> (one: Self) {
        1
    }

    fn five() -> (five: Self) {
        5
    }

    fn sign(self) -> (sign: Sign) {
        Sign::PositiveOrZero
    }

    fn magnitude(self) -> (magnitude: u128) {
        self as u128
    }
}

impl UnsignedInteger for u8 {
    proof fn lemma_not_negative(self) {
    }
}

impl Integer for u16 {
    open spec fn value(self) -> int {
        self as int
    }

    proof fn lemma_value_is_injective(self, other: Self) {
    }

    fn zero() -> (zero: Self) {
        0
    }

    fn one() -> (one: Self) {
        1
    }

    fn five() -> (five: Self) {
        5
    }

    fn sign(self) -> (sign: Sign) {
        Sign::PositiveOrZero
    }

    fn magnitude(self) -> (magnitude: u128) {
        self as u128
    }
}

impl UnsignedInteger for u16 {
    proof fn lemma_not_negative(self) {
    }
}

impl Integer for u32 {
    open spec fn value(self) -> int {
        self as int
    }

    proof fn lemma_value_is_injective(self, other: Self) {
    }

    fn zero() -> (zero: Self) {
        0
    }

    fn one() -> (one: Self) {
        1
    }

    fn five() -> (five: Self) {
        5
    }

    fn sign(self) -> (sign: Sign) {
        Sign::PositiveOrZero
    }

    fn magnitude(self) -> (magnitude: u128) {
        self as u128
    }
}

impl UnsignedInteger for u32 {
    proof fn lemma_not_negative(self) {
    }
}

impl Integer for u64 {
    open spec fn value(self) -> int {
        self as int
    }

    proof fn lemma_value_is_injective(self, other: Self) {
    }

    fn zero() -> (zero: Self) {
        0
    }

    fn one() -> (one: Self) {
        1
    }

    fn five() -> (five: Self) {
        5
    }

    fn sign(self) -> (sign: Sign) {
        Sign::PositiveOrZero
    }

    fn magnitude(self) -> (magnitude: u128) {
        self as u128
    }
}

impl UnsignedInteger for u64 {
    proof fn lemma_not_negative(self) {
    }
}

impl Integer for u128 {
    open spec fn value(self) -> int {
        self as int
    }

    proof fn lemma_value_is_injective(self, other: Self) {
    }

    fn zero() -> (zero: Self) {
        0
    }

    fn one() -> (one: Self) {
        1
    }

    fn five() -> (five: Self) {
        5
    }

    fn sign(self) -> (sign: Sign) {
        Sign::PositiveOrZero
    }

    fn magnitude(self) -> (magnitude: u128) {
        self
    }
}

impl UnsignedInteger for u128 {
    proof fn lemma_not_negative(self) {
    }
}

impl Integer for usize {
    open spec fn value(self) -> int {
        self as int
    }

    proof fn lemma_value_is_injective(self, other: Self) {
    }

    fn zero() -> (zero: Self) {
        0
    }

    fn one() -> (one: Self) {
        1
    }

    fn five() -> (five: Self) {
        5
    }

    fn sign(self) -> (sign: Sign) {
        Sign::PositiveOrZero
    }

    fn magnitude(self) -> (magnitude: u128) {
        self as u128
    }
}

impl UnsignedInteger for usize {
    proof fn lemma_not_negative(self) {
    }
}

impl Integer for i8 {
    open spec fn value(self) -> int {
        self as int
    }

    proof fn lemma_value_is_injective(self, other: Self) {
    }

    fn zero() -> (zero: Self) {
        0
    }

    fn one() -> (one: Self) {
        1
    }

    fn five() -> (five: Self) {
        5
    }

    fn sign(self) -> (sign: Sign) {
        if self >= 0 {
            Sign::PositiveOrZero
        } else {
            Sign::Negative
        }
    }

    fn magnitude(self) -> (magnitude: u128) {
        if self >= 0 {
            self as u128
        } else {
            // `-self` overflows for the least value; `-(self + 1)` never does.
            (-(self + 1)) as u128 + 1
        }
    }
}

impl SignedInteger for i8 {

}

impl Integer for i16 {
    open spec fn value(self) -> int {
        self as int
    }

    proof fn lemma_value_is_injective(self, other: Self) {
    }

    fn zero() -> (zero: Self) {
        0
    }

    fn one() -> (one: Self) {
        1
    }

    fn five() -> (five: Self) {
        5
    }

    fn sign(self) -> (sign: Sign) {
        if self >= 0 {
            Sign::PositiveOrZero
        } else {
            Sign::Negative
        }
    }

    fn magnitude(self) -> (magnitude: u128) {
        if self >= 0 {
            self as u128
        } else {
            // `-self` overflows for the least value; `-(self + 1)` never does.
            (-(self + 1)) as u128 + 1
        }
    }
}

impl SignedInteger for i16 {

}

impl Integer for i32 {
    open spec fn value(self) -> int {
        self as int
    }

    proof fn lemma_value_is_injective(self, other: Self) {
    }

    fn zero() -> (zero: Self) {
        0
    }

    fn one() -> (one: Self) {
        1
    }

    fn five() -> (five: Self) {
        5
    }

    fn sign(self) -> (sign: Sign) {
        if self >= 0 {
            Sign::PositiveOrZero
        } else {
            Sign::Negative
        }
    }

    fn magnitude(self) -> (magnitude: u128) {
        if self >= 0 {
            self as u128
        } else {
            // `-self` overflows for the least value; `-(self + 1)` never does.
            (-(self + 1)) as u128 + 1
        }
    }
}

impl SignedInteger for i32 {

}

impl Integer for i64 {
    open spec fn value(self) -> int {
        self as int
    }

    proof fn lemma_value_is_injective(self, other: Self) {
    }

    fn zero() -> (zero: Self) {
        0
    }

    fn one() -> (one: Self) {
        1
    }

    fn five() -> (five: Self) {
        5
    }

    fn sign(self) -> (sign: Sign) {
        if self >= 0 {
            Sign::PositiveOrZero
        } else {
            Sign::Negative
        }
    }

    fn magnitude(self) -> (magnitude: u128) {
        if self >= 0 {
            self as u128
        } else {
            // `-self` overflows for the least value; `-(self + 1)` never does.
            (-(self + 1)) as u128 + 1
        }
    }
}

impl SignedInteger for i64 {

}

impl Integer for i128 {
    open spec fn value(self) -> int {
        self as int
    }

    proof fn lemma_value_is_injective(self, other: Self) {
    }

    fn zero() -> (zero: Self) {
        0
    }

    fn one() -> (one: Self) {
        1
    }

    fn five() -> (five: Self) {
        5
    }

    fn sign(self) -> (sign: Sign) {
        if self >= 0 {
            Sign::PositiveOrZero
        } else {
            Sign::Negative
        }
    }

    fn magnitude(self) -> (magnitude: u128) {
        if self >= 0 {
            self as u128
        } else {
            // `-self` overflows for the least value; `-(self + 1)` never does.
            (-(self + 1)) as u128 + 1
        }
    }
}

impl SignedInteger for i128 {

}

impl Integer for isize {
    open spec fn value(self) -> int {
        self as int
    }

    proof fn lemma_value_is_injective(self, other: Self) {
    }

    fn zero() -> (zero: Self) {
        0
    }

    fn one() -> (one: Self) {
        1
    }

    fn five() -> (five: Self) {
        5
    }

    fn sign(self) -> (sign: Sign) {
        if self >= 0 {
            Sign::PositiveOrZero
        } else {
            Sign::Negative
        }
    }

    fn magnitude(self) -> (magnitude: u128) {
        if self >= 0 {
            self as u128
        } else {
            // `-self` overflows for the least value; `-(self + 1)` never does.
            (-(self + 1)) as u128 + 1
        }
    }
}

impl SignedInteger for isize {

}

} // verus!
