use crate::digits::digits_view;
use vstd::prelude::*;
use vstd::string::StringExecFns;

verus! {

/// The code points of a table whose glyphs are one code point each.
pub open spec fn table_chars(table: Seq<&'static str>) -> Seq<char> {
    Seq::new(table.len(), |d: int| table[d]@[0])
}

/// Whether every glyph of the table is one code point.
pub open spec fn single_chars(table: Seq<&'static str>) -> bool {
    forall|d: int| 0 <= d < table.len() ==> (#[trigger] table[d])@.len() == 1
}

/// The text of a digit sequence: place by place, the glyph that the table
/// holds for the digit.
pub open spec fn glyph_text(digits: Seq<nat>, glyphs: Seq<char>) -> Seq<char> {
    Seq::new(digits.len(), |i: int| glyphs[digits[i] as int])
}

/// Appends to `out` the glyph of each digit in turn.
pub(crate) fn append_glyphs(out: &mut String, digits: &Vec<usize>, table: &[&'static str])
    requires
        single_chars(table@),
        forall|i: int| 0 <= i < digits@.len() ==> #[trigger] digits@[i] < table@.len(),
    ensures
        final(out)@ == old(out)@ + glyph_text(digits_view(digits@), table_chars(table@)),
{
    let mut i: usize = 0;
    while i < digits.len()
        invariant
            i <= digits@.len(),
            single_chars(table@),
            forall|j: int| 0 <= j < digits@.len() ==> #[trigger] digits@[j] < table@.len(),
            out@ == old(out)@ + glyph_text(digits_view(digits@).take(i as int), table_chars(table@)),
        decreases digits@.len() - i,
    {
        let glyph = table[digits[i]];
        proof {
            let before = glyph_text(digits_view(digits@).take(i as int), table_chars(table@));
            let after = glyph_text(digits_view(digits@).take(i + 1), table_chars(table@));
            assert(table@[digits@[i as int] as int]@.len() == 1);
            assert(after =~= before + glyph@);
        }
        out.append(glyph);
        i = i + 1;
    }
    assert(digits_view(digits@).take(i as int) =~= digits_view(digits@));
}

} // verus!
