use vstd::prelude::*;

verus! {

/// The switches that a caller can set for one formatting call.
#[derive(Clone, Copy, Debug, PartialEq, Eq, Structural)]
pub struct Flags {
    /// Asks for the other form of a format: a fraction spelled out where one
    /// glyph would do, lowercase Roman numerals, a crossed ballot box.
    pub alternate: bool,
    /// Asks for a plus sign on a number that is not negative. On a fraction
    /// that is not negative, the plus goes in front of the fraction.
    pub sign_plus: bool,
    /// Asks for the minus sign of a negative fraction in front of the
    /// fraction, in place of the minus signs inside it.
    pub sign_minus: bool,
}

impl Flags {
    /// No switch set.
    pub open spec fn none() -> Flags {
        Flags { alternate: false, sign_plus: false, sign_minus: false }
    }

    /// No switch set.
    pub fn new() -> (flags: Flags)
        ensures
            flags == Flags::none(),
    {
        Flags { alternate: false, sign_plus: false, sign_minus: false }
    }
}

impl Default for Flags {
    fn default() -> (flags: Flags)
        ensures
            flags == Flags::none(),
    {
        Flags::new()
    }
}

} // verus!
