//! The caret or range that edit actions work on.

use crate::editable_text::{is_codepoint_range, len, text_len};
use crate::grapheme::{
    boundary_at_or_after, boundary_from, is_boundary, is_grapheme_boundary,
    lemma_boundary_at_or_after, lemma_ends_are_boundaries,
};
use vstd::prelude::*;

verus! {

/// A selection in a text. `start` is the anchor, `end` the active end, the one
/// that movement and dragging change. Both are byte offsets.
#[derive(Clone, Copy, Debug, PartialEq, Eq, Structural)]
pub struct Selection {
    pub start: usize,
    pub end: usize,
}

impl Selection {
    /// The selection with the given anchor and active end.
    pub open spec fn spec_new(start: usize, end: usize) -> Selection {
        Selection { start, end }
    }

    /// The empty selection at `pos`.
    pub open spec fn spec_caret(pos: usize) -> Selection {
        Selection { start: pos, end: pos }
    }

    /// The smaller of the two offsets.
    pub open spec fn spec_min(&self) -> usize {
        if self.start <= self.end {
            self.start
        } else {
            self.end
        }
    }

    /// The larger of the two offsets.
    pub open spec fn spec_max(&self) -> usize {
        if self.start <= self.end {
            self.end
        } else {
            self.start
        }
    }

    /// Whether anchor and active end coincide.
    pub open spec fn spec_is_caret(&self) -> bool {
        self.start == self.end
    }

    #[verifier::when_used_as_spec(spec_new)]
    pub fn new(start: usize, end: usize) -> (s: Selection)
        ensures
            s == Selection::spec_new(start, end),
    {
        Selection { start, end }
    }

    #[verifier::when_used_as_spec(spec_caret)]
    pub fn caret(pos: usize) -> (s: Selection)
        ensures
            s == Selection::spec_caret(pos),
    {
        Selection { start: pos, end: pos }
    }

    #[verifier::when_used_as_spec(spec_min)]
    pub fn min(&self) -> (m: usize)
        ensures
            m == self.spec_min(),
    {
        if self.start <= self.end {
            self.start
        } else {
            self.end
        }
    }

    #[verifier::when_used_as_spec(spec_max)]
    pub fn max(&self) -> (m: usize)
        ensures
            m == self.spec_max(),
    {
        if self.start <= self.end {
            self.end
        } else {
            self.start
        }
    }

    #[verifier::when_used_as_spec(spec_is_caret)]
    pub fn is_caret(&self) -> (c: bool)
        ensures
            c == self.spec_is_caret(),
    {
        self.start == self.end
    }

    /// Whether both offsets lie within `text`.
    pub open spec fn in_bounds(&self, text: Seq<char>) -> bool {
        self.spec_max() <= text_len(text)
    }

    /// Whether both offsets lie within `text` and between two of its
    /// characters. A range can be cut out of a text only where this holds.
    pub open spec fn fits(&self, text: Seq<char>) -> bool {
        is_codepoint_range(text, self.spec_min() as int, self.spec_max() as int)
    }

    /// Whether both offsets are grapheme cluster boundaries of `text`.
    pub open spec fn valid_in(&self, text: Seq<char>) -> bool {
        is_boundary(text, self.start as int) && is_boundary(text, self.end as int)
    }

    /// The selection with each offset moved forward to the nearest boundary
    /// of `text`, and to the end of the text if it lies beyond.
    pub open spec fn constrained(&self, text: Seq<char>) -> Selection {
        Selection {
            start: boundary_at_or_after(text, self.start as int) as usize,
            end: boundary_at_or_after(text, self.end as int) as usize,
        }
    }

    /// The selection that spans all of `text`, with the active end last.
    pub open spec fn whole(text: Seq<char>) -> Selection {
        Selection { start: 0, end: text_len(text) as usize }
    }

    /// Constraining gives a selection that is valid in the text, and leaves
    /// a valid one as it is.
    pub proof fn lemma_constrained_valid(&self, text: Seq<char>)
        requires
            text_len(text) <= usize::MAX,
        ensures
            self.constrained(text).valid_in(text),
            self.valid_in(text) ==> self.constrained(text) == *self,
            self.spec_is_caret() ==> self.constrained(text).spec_is_caret(),
    {
        lemma_boundary_at_or_after(text, self.start as int);
        lemma_boundary_at_or_after(text, self.end as int);
    }

    /// Whether both offsets lie within `text` and between two of its
    /// characters.
    pub fn fits_in(&self, text: &String) -> (b: bool)
        ensures
            b == self.fits(text@),
    {
        self.max() <= len(text) && text.as_str().is_char_boundary(self.min())
            && text.as_str().is_char_boundary(self.max())
    }

    /// Whether both offsets are grapheme cluster boundaries of `text`.
    pub fn is_valid_in(&self, text: &String) -> (b: bool)
        ensures
            b == self.valid_in(text@),
    {
        is_grapheme_boundary(text, self.start) && is_grapheme_boundary(text, self.end)
    }

    /// Brings the selection back into `text`: an offset beyond the end goes
    /// to the end, and one inside a grapheme cluster to the end of that
    /// cluster.
    pub fn constrain_to(self, text: &String) -> (s: Selection)
        ensures
            s == self.constrained(text@),
            s.valid_in(text@),
    {
        Selection { start: boundary_from(text, self.start), end: boundary_from(text, self.end) }
    }

    /// Selects all of `text`.
    pub fn all(&mut self, text: &String)
        ensures
            *final(self) == Selection::whole(text@),
            final(self).valid_in(text@),
    {
        proof {
            lemma_ends_are_boundaries(text@);
        }
        self.start = 0;
        self.end = len(text);
    }

    /// The selected range, from `min` up to but not counting `max`.
    pub fn range(&self) -> (r: core::ops::Range<usize>)
        ensures
            r.start == self.min(),
            r.end == self.max(),
    {
        self.min()..self.max()
    }
}

} // verus!
