use crate::flags::Flags;
use vstd::prelude::*;
use vstd::string::StringExecFns;

verus! {

/// A truth value to be written as a ballot box: a checked box for `true`, an
/// empty box for `false`.
///
/// With [`Flags::alternate`] the box for `true` holds a cross in place of
/// the check.
#[derive(Debug, Clone, Copy, Eq, PartialEq, Structural)]
pub struct BallotBox(pub bool);

/// U+2610 BALLOT BOX.
pub const BALLOT_BOX: char = '\u{2610}';

/// U+2611 BALLOT BOX WITH CHECK.
pub const BALLOT_BOX_WITH_CHECK: char = '\u{2611}';

/// U+2612 BALLOT BOX WITH X.
pub const BALLOT_BOX_WITH_X: char = '\u{2612}';

/// The box for a truth value.
pub open spec fn ballot_box_glyph(checked: bool, alternate: bool) -> char {
    if checked && alternate {
        BALLOT_BOX_WITH_X
    } else if checked {
        BALLOT_BOX_WITH_CHECK
    } else {
        BALLOT_BOX
    }
}

impl BallotBox {
    /// The box as text: one glyph.
    pub fn fmt(&self, flags: Flags) -> (out: String)
        ensures
            out@ == seq![ballot_box_glyph(self.0, flags.alternate)],
    {
        proof {
            reveal_strlit("\u{2610}");
            reveal_strlit("\u{2611}");
            reveal_strlit("\u{2612}");
        }
        let glyph = if self.0 && flags.alternate {
            "\u{2612}"
        } else if self.0 {
            "\u{2611}"
        } else {
            "\u{2610}"
        };
        let mut out = String::new();
        out.append(glyph);
        assert(out@ =~= seq![ballot_box_glyph(self.0, flags.alternate)]);
        out
    }

    /// The box as text, with no flag set.
    pub fn to_string(&self) -> (out: String)
        ensures
            out@ == seq![ballot_box_glyph(self.0, false)],
    {
        self.fmt(Flags::new())
    }
}

impl From<bool> for BallotBox {
    /// The truth value, to be written as a ballot box.
    fn from(value: bool) -> (wrapped: Self) {
        BallotBox(value)
    }
}

impl vstd::std_specs::convert::FromSpecImpl<bool> for BallotBox {
    open spec fn obeys_from_spec() -> bool {
        true
    }

    open spec fn from_spec(value: bool) -> Self {
        BallotBox(value)
    }
}

/// What a ballot box is written as depends on the truth value and the flags
/// alone: two calls of one of the formatting functions on the same value with
/// the same flags return the same text.
pub proof fn lemma_ballot_box_is_pure(value: BallotBox, flags: Flags, first: String, second: String)
    requires
        ({
            ||| call_ensures(BallotBox::fmt, (&value, flags), first) && call_ensures(
                BallotBox::fmt,
                (&value, flags),
                second,
            )
            ||| call_ensures(BallotBox::to_string, (&value,), first) && call_ensures(
                BallotBox::to_string,
                (&value,),
                second,
            )
        }),
    ensures
        first@ == second@,
{
}

/// An empty box is empty whatever the flags.
pub proof fn lemma_unchecked_ignores_flags(flags: Flags)
    ensures
        ballot_box_glyph(false, flags.alternate) == BALLOT_BOX,
{
}

} // verus!
