//! What the library takes from the standard library's text handling without proof.

use vstd::prelude::*;

verus! {

/// `text` without the white space at its two ends, as `str::trim` gives it. White
/// space is what Unicode marks as `White_Space`; line terminators are part of it.
pub uninterp spec fn trimmed(text: Seq<char>) -> Seq<char>;

/// Whether `part` stands in `whole` in one piece.
pub open spec fn is_piece_of(part: Seq<char>, whole: Seq<char>) -> bool {
    exists|i: int, j: int| 0 <= i <= j <= whole.len() && part == #[trigger] whole.subrange(i, j)
}

/// Calls `str::trim`. Nothing is proved of it. The contract gives the result its
/// name, [`trimmed`], which says that the trimmed text depends on the characters of
/// `s` alone, and states that it is a part of `s` in one piece. Which characters
/// count as white space it does not say.
#[verifier::external_body]
pub(crate) fn trim(s: &str) -> (t: &str)
    ensures
        t@ == trimmed(s@),
        is_piece_of(t@, s@),
{
    s.trim()
}

} // verus!
