//! Grapheme cluster boundaries of a text, and the nearest boundary on either
//! side of an offset.
//!
//! Which offsets inside a text separate two clusters is decided by the
//! `unicode-segmentation` crate; everything else here is derived from that
//! one predicate.

use crate::editable_text::{is_codepoint_boundary, len, text_len};
use unicode_segmentation::GraphemeCursor;
use vstd::prelude::*;

verus! {

/// What `GraphemeCursor::is_boundary` answers for the byte `offset` of `text`,
/// with extended clusters, when it is given the whole text.
pub uninterp spec fn grapheme_break(text: Seq<char>, offset: int) -> bool;

/// `GraphemeCursor::new(offset, text.len(), true).is_boundary(text, 0)`.
///
/// With the whole text as the chunk the cursor never asks for more context,
/// so the call always answers. It slices the text at `offset` and reads the
/// character on either side, so `offset` has to lie strictly inside the text
/// and between two characters.
#[verifier::external_body]
fn cursor_is_boundary(text: &str, offset: usize) -> (b: bool)
    requires
        0 < offset < text_len(text@),
        is_codepoint_boundary(text@, offset as int),
    ensures
        b == grapheme_break(text@, offset as int),
{
    match GraphemeCursor::new(offset, text.len(), true).is_boundary(text, 0) {
        Ok(b) => b,
        Err(_) => false,
    }
}

/// Whether `offset` is a grapheme cluster boundary of `text`: the start of
/// the text, its end, or a place between two characters where a cluster ends
/// and the next begins.
pub open spec fn is_boundary(text: Seq<char>, offset: int) -> bool {
    &&& 0 <= offset <= text_len(text)
    &&& is_codepoint_boundary(text, offset)
    &&& (0 < offset < text_len(text) ==> grapheme_break(text, offset))
}

/// The least boundary of `text` that is not below `from`; the end of the text
/// if `from` lies beyond it.
pub open spec fn boundary_at_or_after(text: Seq<char>, from: int) -> int
    decreases text_len(text) - from,
{
    if from >= text_len(text) {
        text_len(text) as int
    } else if is_boundary(text, from) {
        from
    } else {
        boundary_at_or_after(text, from + 1)
    }
}

/// The greatest boundary of `text` that is not above `from`; the start of the
/// text if `from` is negative, its end if `from` lies beyond it.
pub open spec fn boundary_at_or_before(text: Seq<char>, from: int) -> int
    decreases from,
{
    if from <= 0 {
        0
    } else if from >= text_len(text) {
        text_len(text) as int
    } else if is_boundary(text, from) {
        from
    } else {
        boundary_at_or_before(text, from - 1)
    }
}

/// The first boundary after `from`, if `from` is before the end of the text.
pub open spec fn next_boundary(text: Seq<char>, from: int) -> Option<int> {
    if from >= text_len(text) {
        None
    } else {
        Some(boundary_at_or_after(text, from + 1))
    }
}

/// The last boundary before `from`, if `from` is after the start of the text.
pub open spec fn prev_boundary(text: Seq<char>, from: int) -> Option<int> {
    if from <= 0 {
        None
    } else {
        Some(boundary_at_or_before(text, from - 1))
    }
}

/// The start and the end of every text are boundaries.
pub proof fn lemma_ends_are_boundaries(text: Seq<char>)
    ensures
        is_boundary(text, 0),
        is_boundary(text, text_len(text) as int),
{
    vstd::utf8::encode_utf8_valid_utf8(text);
    vstd::utf8::is_char_boundary_start_end_of_seq(vstd::utf8::encode_utf8(text));
}

/// `boundary_at_or_after` names a boundary, and no boundary lies between
/// `from` and it.
pub proof fn lemma_boundary_at_or_after(text: Seq<char>, from: int)
    ensures
        is_boundary(text, boundary_at_or_after(text, from)),
        from <= text_len(text) ==> from <= boundary_at_or_after(text, from),
        boundary_at_or_after(text, from) <= text_len(text),
        forall|k: int| from <= k < boundary_at_or_after(text, from) ==> !is_boundary(text, k),
        is_boundary(text, from) ==> boundary_at_or_after(text, from) == from,
    decreases text_len(text) - from,
{
    lemma_ends_are_boundaries(text);
    if from < text_len(text) && !is_boundary(text, from) {
        lemma_boundary_at_or_after(text, from + 1);
    }
}

/// `boundary_at_or_before` names a boundary, and no boundary lies between it
/// and `from`.
pub proof fn lemma_boundary_at_or_before(text: Seq<char>, from: int)
    ensures
        is_boundary(text, boundary_at_or_before(text, from)),
        0 <= from ==> boundary_at_or_before(text, from) <= from,
        0 <= boundary_at_or_before(text, from),
        forall|k: int| boundary_at_or_before(text, from) < k <= from ==> !is_boundary(text, k),
        is_boundary(text, from) ==> boundary_at_or_before(text, from) == from,
    decreases from,
{
    lemma_ends_are_boundaries(text);
    if 0 < from < text_len(text) && !is_boundary(text, from) {
        lemma_boundary_at_or_before(text, from - 1);
    }
}

/// Whether `offset` is a grapheme cluster boundary of `text`.
pub fn is_grapheme_boundary(text: &String, offset: usize) -> (b: bool)
    ensures
        b == is_boundary(text@, offset as int),
{
    let n: usize = len(text);
    proof {
        lemma_ends_are_boundaries(text@);
    }
    if offset == 0 || offset == n {
        true
    } else if offset > n || !text.as_str().is_char_boundary(offset) {
        false
    } else {
        cursor_is_boundary(text.as_str(), offset)
    }
}

/// The least boundary of `text` that is not below `from`, and the end of the
/// text for a `from` beyond it.
pub fn boundary_from(text: &String, from: usize) -> (b: usize)
    ensures
        b == boundary_at_or_after(text@, from as int),
        is_boundary(text@, b as int),
{
    let n: usize = len(text);
    let mut i: usize = from;
    while i < n && !is_grapheme_boundary(text, i)
        invariant
            n == text_len(text@),
            boundary_at_or_after(text@, i as int) == boundary_at_or_after(text@, from as int),
        decreases n - i,
    {
        i = i + 1;
    }
    proof {
        lemma_boundary_at_or_after(text@, from as int);
    }
    if i < n {
        i
    } else {
        n
    }
}

/// The greatest boundary of `text` that is not above `from`, and the end of
/// the text for a `from` beyond it.
pub fn boundary_up_to(text: &String, from: usize) -> (b: usize)
    ensures
        b == boundary_at_or_before(text@, from as int),
        is_boundary(text@, b as int),
{
    let n: usize = len(text);
    proof {
        lemma_boundary_at_or_before(text@, from as int);
    }
    if from >= n {
        return n;
    }
    let mut i: usize = from;
    while i > 0 && !is_grapheme_boundary(text, i)
        invariant
            i < n,
            n == text_len(text@),
            boundary_at_or_before(text@, i as int) == boundary_at_or_before(text@, from as int),
        decreases i,
    {
        i = i - 1;
    }
    i
}

/// The offset of the next grapheme boundary after `from`, or `None` if
/// `from` is at or beyond the end of `text`.
pub fn next_grapheme_offset(text: &String, from: usize) -> (next: Option<usize>)
    ensures
        next matches Some(b) ==> next_boundary(text@, from as int) == Some(b as int)
            && is_boundary(text@, b as int) && from < b,
        next is None ==> next_boundary(text@, from as int) is None,
{
    let n: usize = len(text);
    if from >= n {
        None
    } else {
        proof {
            lemma_boundary_at_or_after(text@, from + 1);
        }
        Some(boundary_from(text, from + 1))
    }
}

/// The offset of the last grapheme boundary before `from`, or `None` if
/// `from` is 0.
pub fn prev_grapheme_offset(text: &String, from: usize) -> (prev: Option<usize>)
    ensures
        prev matches Some(b) ==> prev_boundary(text@, from as int) == Some(b as int)
            && is_boundary(text@, b as int) && b < from,
        prev is None ==> prev_boundary(text@, from as int) is None,
{
    if from == 0 {
        None
    } else {
        proof {
            lemma_boundary_at_or_before(text@, from - 1);
        }
        Some(boundary_up_to(text, from - 1))
    }
}

} // verus!
