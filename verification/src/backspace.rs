//! Where a backward deletion starts.

use crate::grapheme::{
    is_boundary, lemma_boundary_at_or_before, prev_boundary, prev_grapheme_offset,
};
use crate::selection::Selection;
use vstd::prelude::*;

verus! {

/// The offset from which one backspace at the active end of `region`
/// deletes: the last grapheme boundary before it, so that a whole cluster
/// goes at once, or 0 where the active end is at the start of the text.
pub open spec fn delete_backwards_offset(region: Selection, text: Seq<char>) -> int {
    match prev_boundary(text, region.end as int) {
        Some(b) => b,
        None => 0,
    }
}

/// A backspace starts at a boundary that is not after the active end, and
/// no boundary lies strictly between the two: what it removes is no more
/// than one cluster, and all of it.
pub proof fn lemma_delete_backwards_offset(region: Selection, text: Seq<char>)
    ensures
        is_boundary(text, delete_backwards_offset(region, text)),
        0 <= delete_backwards_offset(region, text) <= region.end,
        region.end > 0 ==> delete_backwards_offset(region, text) < region.end,
        forall|k: int|
            delete_backwards_offset(region, text) < k < region.end ==> !is_boundary(text, k),
{
    crate::grapheme::lemma_ends_are_boundaries(text);
    lemma_boundary_at_or_before(text, region.end - 1);
}

/// The offset from which one backspace at the active end of `region` deletes.
pub fn offset_for_delete_backwards(region: &Selection, text: &String) -> (offset: usize)
    ensures
        offset == delete_backwards_offset(*region, text@),
        is_boundary(text@, offset as int),
        offset <= region.end,
{
    proof {
        lemma_delete_backwards_offset(*region, text@);
    }
    match prev_grapheme_offset(text, region.end) {
        Some(b) => b,
        None => 0,
    }
}

} // verus!
