use crate::flags::Flags;
use crate::integer::{Integer, UnsignedInteger};
use vstd::prelude::*;
use vstd::string::StringExecFns;

verus! {

/// An unsigned number to be written as tally marks: one mark for each group
/// of five, then one mark for each unit that is left. Zero is written as
/// nothing.
///
/// No flag changes what is written.
#[derive(Debug, Clone, Copy, Eq, PartialEq)]
pub struct TallyMarks<T>(pub T);

/// U+1D377 TALLY MARK ONE.
pub const TALLY_MARK_ONE: char = '\u{1d377}';

/// U+1D378 TALLY MARK FIVE.
pub const TALLY_MARK_FIVE: char = '\u{1d378}';

/// `count` times the same mark.
pub open spec fn repeated(mark: char, count: nat) -> Seq<char> {
    Seq::new(count, |i: int| mark)
}

/// The number `n` in tally marks.
pub open spec fn tally_text(n: nat) -> Seq<char> {
    repeated(TALLY_MARK_FIVE, n / 5) + repeated(TALLY_MARK_ONE, n % 5)
}

/// The marks count the number: five for each mark of the first kind, one
/// for each of the second, and there are never five or more of the second.
pub proof fn lemma_tally_counts(n: nat)
    ensures
        tally_text(n).len() == n / 5 + n % 5,
        5 * (n / 5) + n % 5 == n,
        n % 5 < 5,
        forall|i: int| 0 <= i < n / 5 ==> tally_text(n)[i] == TALLY_MARK_FIVE,
        forall|i: int| n / 5 <= i < n / 5 + n % 5 ==> tally_text(n)[i] == TALLY_MARK_ONE,
        n == 0 ==> tally_text(n) == Seq::<char>::empty(),
{
    if n == 0 {
        assert(tally_text(n) =~= Seq::<char>::empty());
    }
}

/// Appends `count` times the mark that `mark` holds.
fn append_repeated(out: &mut String, mark: &'static str, count: u128)
    requires
        mark@.len() == 1,
    ensures
        final(out)@ == old(out)@ + repeated(mark@[0], count as nat),
{
    let mut done: u128 = 0;
    assert(old(out)@ + repeated(mark@[0], 0) =~= old(out)@);
    while done < count
        invariant
            done <= count,
            mark@.len() == 1,
            out@ == old(out)@ + repeated(mark@[0], done as nat),
        decreases count - done,
    {
        assert(repeated(mark@[0], done as nat) + mark@ =~= repeated(mark@[0], (done + 1) as nat));
        out.append(mark);
        done = done + 1;
    }
}

/// Writes `n` in tally marks.
pub fn fmt_tally_marks<T: UnsignedInteger>(n: T) -> (out: String)
    ensures
        n.value() >= 0,
        out@ == tally_text(n.value() as nat),
{
    proof {
        n.lemma_not_negative();
        reveal_strlit("\u{1d377}");
        reveal_strlit("\u{1d378}");
    }
    let magnitude = n.magnitude();
    let fives = magnitude / u128::five();
    let ones = magnitude % u128::five();
    let mut out = String::new();
    append_repeated(&mut out, "\u{1d378}", fives);
    append_repeated(&mut out, "\u{1d377}", ones);
    assert(out@ =~= tally_text(n.value() as nat));
    out
}

impl<T: UnsignedInteger> TallyMarks<T> {
    /// The number in tally marks.
    pub fn fmt(&self, _flags: Flags) -> (out: String)
        ensures
            self.0.value() >= 0,
            out@ == tally_text(self.0.value() as nat),
    {
        fmt_tally_marks(self.0)
    }

    /// The number in tally marks.
    pub fn to_string(&self) -> (out: String)
        ensures
            self.0.value() >= 0,
            out@ == tally_text(self.0.value() as nat),
    {
        fmt_tally_marks(self.0)
    }
}

impl<T: UnsignedInteger> From<T> for TallyMarks<T> {
    /// The number, to be written in tally marks.
    fn from(value: T) -> (wrapped: Self) {
        TallyMarks(value)
    }
}

impl<T: UnsignedInteger> vstd::std_specs::convert::FromSpecImpl<T> for TallyMarks<T> {
    open spec fn obeys_from_spec() -> bool {
        true
    }

    open spec fn from_spec(value: T) -> Self {
        TallyMarks(value)
    }
}

/// What a number in tally marks is written as depends on the number and the flags alone: two
/// calls of one of the formatting functions on the same number with the same
/// flags return the same text.
pub proof fn lemma_tally_marks_is_pure<T: UnsignedInteger>(
    number: TallyMarks<T>,
    flags: Flags,
    first: String,
    second: String,
)
    requires
        ({
            ||| call_ensures(TallyMarks::<T>::fmt, (&number, flags), first) && call_ensures(
                TallyMarks::<T>::fmt,
                (&number, flags),
                second,
            )
            ||| call_ensures(TallyMarks::<T>::to_string, (&number,), first) && call_ensures(
                TallyMarks::<T>::to_string,
                (&number,),
                second,
            )
        }),
    ensures
        first@ == second@,
{
}

} // verus!
