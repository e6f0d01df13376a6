//! Cursor movements and the selection that each one leads to.

use crate::editable_text::{len, text_len};
use crate::grapheme::{
    is_boundary, lemma_boundary_at_or_after, lemma_boundary_at_or_before,
    lemma_ends_are_boundaries, next_boundary, next_grapheme_offset, prev_boundary,
    prev_grapheme_offset,
};
use crate::selection::Selection;
use vstd::prelude::*;

verus! {

/// A cursor movement.
#[derive(Clone, Copy, Debug, PartialEq, Eq, Structural)]
pub enum Movement {
    /// To the left by one grapheme cluster.
    Left,
    /// To the right by one grapheme cluster.
    Right,
    /// To the start of the line.
    LeftOfLine,
    /// To the end of the line.
    RightOfLine,
}

/// The offset that movement `m` takes the active end of `s` to.
///
/// A step to the left or right from a range, without `modify`, lands on
/// that side's edge of the range. Every other step goes one cluster from
/// the active end, and stays where no cluster is left on that side.
pub open spec fn target(m: Movement, s: Selection, text: Seq<char>, modify: bool) -> int {
    match m {
        Movement::Left => if s.spec_is_caret() || modify {
            match prev_boundary(text, s.end as int) {
                Some(b) => b,
                None => 0,
            }
        } else {
            s.spec_min() as int
        },
        Movement::Right => if s.spec_is_caret() || modify {
            match next_boundary(text, s.end as int) {
                Some(b) => b,
                None => s.end as int,
            }
        } else {
            s.spec_max() as int
        },
        Movement::LeftOfLine => 0,
        Movement::RightOfLine => text_len(text) as int,
    }
}

/// The selection after movement `m`. With `modify` the anchor stays and the
/// active end goes to the target; without it both go there.
pub open spec fn moved(m: Movement, s: Selection, text: Seq<char>, modify: bool) -> Selection {
    let offset: usize = target(m, s, text, modify) as usize;
    Selection {
        start: if modify {
            s.start
        } else {
            offset
        },
        end: offset,
    }
}

/// Where a movement lands: within the text if the selection was within it,
/// and on a grapheme boundary if the selection was valid. A step from the
/// active end itself lands on a boundary whenever the active end is within
/// the text.
pub proof fn lemma_target(m: Movement, s: Selection, text: Seq<char>, modify: bool)
    ensures
        0 <= target(m, s, text, modify),
        s.in_bounds(text) ==> target(m, s, text, modify) <= text_len(text),
        s.valid_in(text) ==> is_boundary(text, target(m, s, text, modify)),
        s.end <= text_len(text) && (s.spec_is_caret() || modify) ==> is_boundary(
            text,
            target(m, s, text, modify),
        ),
{
    lemma_ends_are_boundaries(text);
    lemma_boundary_at_or_before(text, s.end - 1);
    lemma_boundary_at_or_after(text, s.end + 1);
}

/// A movement takes a selection that is valid in a text to one that is
/// valid in it: a caret without `modify`, and one with the same anchor
/// with it.
pub proof fn lemma_moved_valid(m: Movement, s: Selection, text: Seq<char>, modify: bool)
    requires
        text_len(text) <= usize::MAX,
        s.valid_in(text),
    ensures
        moved(m, s, text, modify).valid_in(text),
        !modify ==> moved(m, s, text, modify).spec_is_caret(),
        modify ==> moved(m, s, text, modify).start == s.start,
{
    lemma_target(m, s, text, modify);
}

/// A movement keeps a selection within the text.
pub proof fn lemma_moved_in_bounds(m: Movement, s: Selection, text: Seq<char>, modify: bool)
    requires
        text_len(text) <= usize::MAX,
        s.in_bounds(text),
    ensures
        moved(m, s, text, modify).in_bounds(text),
{
    lemma_target(m, s, text, modify);
}

/// The selection that movement `m` leads to from `s` in `text`.
pub fn movement(m: Movement, s: Selection, text: &String, modify: bool) -> (r: Selection)
    ensures
        r == moved(m, s, text@, modify),
        r.end == target(m, s, text@, modify),
        s.in_bounds(text@) ==> r.in_bounds(text@),
        s.valid_in(text@) ==> r.valid_in(text@),
{
    proof {
        lemma_target(m, s, text@, modify);
    }
    let offset: usize = match m {
        Movement::Left => {
            if s.is_caret() || modify {
                match prev_grapheme_offset(text, s.end) {
                    Some(b) => b,
                    None => 0,
                }
            } else {
                s.min()
            }
        },
        Movement::Right => {
            if s.is_caret() || modify {
                match next_grapheme_offset(text, s.end) {
                    Some(b) => b,
                    None => s.end,
                }
            } else {
                s.max()
            }
        },
        Movement::LeftOfLine => 0,
        Movement::RightOfLine => len(text),
    };
    Selection::new(
        if modify {
            s.start
        } else {
            offset
        },
        offset,
    )
}

} // verus!
