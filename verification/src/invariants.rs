//! What holds of the state that the edit primitives and the dispatcher
//! leave: when the selection stays within the text and on grapheme
//! boundaries, and what a deletion takes away.

use crate::backspace::lemma_delete_backwards_offset;
use crate::edit_action::EditAction;
use crate::editable_text::{
    lemma_encode_concat, lemma_replaced_bytes, lemma_split_at_boundary, prefix, suffix, text_len,
};
use crate::grapheme::{
    is_boundary, lemma_boundary_at_or_after, lemma_boundary_at_or_before,
    lemma_ends_are_boundaries, next_boundary,
};
use crate::movement::{
    lemma_moved_in_bounds, lemma_moved_valid, lemma_target, moved, Movement,
};
use crate::selection::Selection;
use crate::state_update::{
    after_action, after_caret_to, after_delete_backward, after_delete_forward, after_insert,
    can_apply, cut_start, Outcome,
};
use vstd::prelude::*;

verus! {

/// Whether `action` works on the selection as it finds it. The others
/// replace it, or constrain it first, and so ask nothing of it.
pub open spec fn reads_selection(action: EditAction) -> bool {
    !(action is Insert || action is Paste || action is SelectAll)
}

/// Whether `action` deletes text.
pub open spec fn deletes(action: EditAction) -> bool {
    action is Backspace || action is Delete || action is JumpBackspace || action is JumpDelete
}

/// The selection that a deleting action deletes at: the one it finds, or,
/// for a jump, the one that its movement extends that to.
pub open spec fn deleted_at(selection: Selection, action: EditAction, text: Seq<char>) -> Selection {
    match action {
        EditAction::JumpDelete(m) | EditAction::JumpBackspace(m) => moved(m, selection, text, true),
        _ => selection,
    }
}

/// The inputs on which an action leaves a selection that reaches beyond the
/// text: a drag or a shift-click beyond its end, which are taken as they
/// come, and the deletion at a caret after which the caret is refused while
/// the offset it stays at lies beyond the shorter text. The deletion of a
/// range is never among them.
pub open spec fn strays(selection: Selection, action: EditAction, text: Seq<char>) -> bool {
    let after = after_action(selection, action, text);
    match action {
        EditAction::Drag(pointer) => pointer.column > text_len(text),
        EditAction::Click(pointer) => pointer.shift && pointer.column > text_len(text),
        _ => deletes(action) && after.refused is Some && !after.selection.in_bounds(after.text),
    }
}

/// The inputs on which an action leaves a selection that is not on grapheme
/// boundaries:
/// - a drag or a shift-click to an offset that is none;
/// - an insertion before the end of the text, where what follows joins the
///   cluster that the new text ends in;
/// - the deletion of a range, where what follows joins the cluster before
///   the range;
/// - the deletion at a caret after which the caret is refused, where the
///   offset it stays at is no boundary of the shorter text either.
///
/// An insertion that reaches the end of the text, a deletion at a caret
/// that is granted its new place, and a forward deletion that finds nothing
/// to delete are never among them.
pub open spec fn misaligns(selection: Selection, action: EditAction, text: Seq<char>) -> bool {
    let after = after_action(selection, action, text);
    match action {
        EditAction::Drag(pointer) => !is_boundary(text, pointer.column as int),
        EditAction::Click(pointer) => pointer.shift && !is_boundary(text, pointer.column as int),
        EditAction::Insert(_) | EditAction::Paste(_) => selection.constrained(text).spec_max()
            < text_len(text) && !is_boundary(after.text, after.selection.end as int),
        _ => deletes(action) && (after.refused is Some || !deleted_at(
            selection,
            action,
            text,
        ).spec_is_caret()) && !after.selection.valid_in(after.text),
    }
}

/// Asking for a caret at the same offset a second time changes nothing.
pub proof fn lemma_caret_to_idempotent(selection: Selection, text: Seq<char>, to: usize)
    ensures
        after_caret_to(after_caret_to(selection, text, to).selection, text, to) == after_caret_to(
            selection,
            text,
            to,
        ),
{
}

/// A backspace at a caret removes the whole grapheme cluster before it, in
/// one step: the text loses the bytes from the last boundary before the
/// caret up to the caret, and nothing else. No boundary lies inside what is
/// removed, however many bytes or characters it spans.
pub proof fn lemma_backspace_removes_cluster(selection: Selection, text: Seq<char>)
    requires
        selection.spec_is_caret(),
        selection.fits(text),
        selection.end > 0,
    ensures
        ({
            let from = cut_start(selection, text);
            let after = after_delete_backward(selection, text);
            &&& is_boundary(text, from)
            &&& from < selection.end
            &&& forall|k: int| from < k < selection.end ==> !is_boundary(text, k)
            &&& after.text == prefix(text, from) + suffix(text, selection.end as int)
            &&& text_len(after.text) == text_len(text) - (selection.end - from)
            &&& after.refused is None ==> after.selection == Selection::spec_caret(from as usize)
        }),
{
    let from = cut_start(selection, text);
    lemma_delete_backwards_offset(selection, text);
    lemma_replaced_bytes(text, from, selection.end as int, Seq::<char>::empty());
    assert(prefix(text, from) + Seq::<char>::empty() + suffix(text, selection.end as int)
        =~= prefix(text, from) + suffix(text, selection.end as int));
}

/// Deleting a range removes the bytes of the range and nothing else, and
/// leaves the caret where the range began, within the shorter text. Forward
/// and backward deletion do the same to a range.
pub proof fn lemma_delete_removes_range(selection: Selection, text: Seq<char>)
    requires
        !selection.spec_is_caret(),
        selection.fits(text),
    ensures
        ({
            let after = after_delete_backward(selection, text);
            &&& after.text == prefix(text, selection.spec_min() as int) + suffix(
                text,
                selection.spec_max() as int,
            )
            &&& text_len(after.text) == text_len(text) - (selection.spec_max()
                - selection.spec_min())
            &&& after_delete_forward(selection, text) == after
            &&& after.selection == Selection::spec_caret(selection.spec_min())
            &&& after.selection.in_bounds(after.text)
            &&& after.refused is None
        }),
{
    let from = selection.spec_min() as int;
    let to = selection.spec_max() as int;
    lemma_replaced_bytes(text, from, to, Seq::<char>::empty());
    assert(prefix(text, from) + Seq::<char>::empty() + suffix(text, to) =~= prefix(text, from)
        + suffix(text, to));
}

/// A forward deletion at a caret that stands at the end of the text changes
/// neither the text nor the selection.
pub proof fn lemma_delete_forward_at_end(selection: Selection, text: Seq<char>)
    requires
        selection.spec_is_caret(),
        selection.end >= text_len(text),
    ensures
        after_delete_forward(selection, text) == (Outcome { selection, text, refused: None }),
{
}

/// A forward deletion at a valid caret removes the cluster after the caret
/// and never touches what stands before it: the text up to the caret is the
/// same afterwards, and a caret that is granted stands where it stood.
pub proof fn lemma_delete_forward_spares_prefix(selection: Selection, text: Seq<char>)
    requires
        selection.spec_is_caret(),
        selection.valid_in(text),
        selection.end < text_len(text),
        text_len(text) <= usize::MAX,
    ensures
        ({
            let at = selection.end as int;
            let next = next_boundary(text, at)->0;
            let after = after_delete_forward(selection, text);
            &&& at < next <= text_len(text)
            &&& is_boundary(text, next)
            &&& forall|k: int| at < k < next ==> !is_boundary(text, k)
            &&& after.text == prefix(text, at) + suffix(text, next)
            &&& prefix(after.text, at) == prefix(text, at)
            &&& text_len(after.text) == text_len(text) - (next - at)
            &&& after.refused is None ==> after.selection == selection
        }),
{
    let at = selection.end as int;
    let next = next_boundary(text, at)->0;
    lemma_boundary_at_or_after(text, at + 1);
    let stepped = moved(Movement::Right, selection, text, false);
    assert(stepped == Selection::spec_caret(next as usize));
    lemma_boundary_at_or_before(text, next - 1);
    assert(cut_start(stepped, text) == at);
    lemma_replaced_bytes(text, at, next, Seq::<char>::empty());
    let kept = prefix(text, at);
    let rest = suffix(text, next);
    assert(kept + Seq::<char>::empty() + rest =~= kept + rest);
    lemma_split_at_boundary(text, at);
    lemma_split_at_boundary(text, next);
    lemma_encode_concat(kept, rest);
    let bytes = vstd::utf8::encode_utf8(kept + rest);
    assert(bytes.subrange(0, at) =~= vstd::utf8::encode_utf8(kept));
    vstd::utf8::encode_utf8_decode_utf8(kept);
}

/// An insertion at the end of the text leaves a valid caret at the new end.
pub proof fn lemma_append_keeps_valid(selection: Selection, text: Seq<char>, new: Seq<char>)
    requires
        text_len(text) + text_len(new) <= isize::MAX,
        selection.spec_min() >= text_len(text),
    ensures
        ({
            let after = after_insert(selection, text, new);
            &&& after.text == text + new
            &&& after.selection == Selection::spec_caret(text_len(after.text) as usize)
            &&& after.selection.valid_in(after.text)
        }),
{
    let at = selection.constrained(text);
    let n = text_len(text) as int;
    lemma_ends_are_boundaries(text);
    lemma_replaced_bytes(text, n, n, new);
    lemma_split_at_boundary(text, n);
    let after = after_insert(selection, text, new);
    assert(suffix(text, n) =~= Seq::<char>::empty()) by {
        vstd::utf8::encode_utf8_decode_utf8(suffix(text, n));
        assert(vstd::utf8::encode_utf8(suffix(text, n)).len() == 0);
    }
    assert(prefix(text, n) =~= text) by {
        assert(prefix(text, n) + suffix(text, n) =~= prefix(text, n));
    }
    assert(after.text =~= text + new);
    lemma_ends_are_boundaries(after.text);
}

/// After a backward deletion the selection is a caret that is not beyond
/// the lower end of what was selected, and the text is no longer than it
/// was. Unless the caret was refused, it stands where the deleted text
/// began, within the shorter text.
pub proof fn lemma_delete_backward_leaves_caret(selection: Selection, text: Seq<char>)
    requires
        selection.fits(text),
    ensures
        ({
            let after = after_delete_backward(selection, text);
            &&& after.selection.spec_is_caret()
            &&& after.selection.end <= selection.spec_min()
            &&& text_len(after.text) <= text_len(text)
            &&& after.refused is None ==> after.selection.in_bounds(after.text)
            &&& after.refused is Some ==> selection.spec_is_caret() && after.selection
                == selection
        }),
{
    let from = cut_start(selection, text);
    lemma_delete_backwards_offset(selection, text);
    lemma_replaced_bytes(text, from, selection.spec_max() as int, Seq::<char>::empty());
}

/// After a forward deletion the selection is a caret and the text is no
/// longer than it was. Unless the caret was refused, it lies within the
/// text.
pub proof fn lemma_delete_forward_leaves_caret(selection: Selection, text: Seq<char>)
    requires
        selection.fits(text),
        text_len(text) <= usize::MAX,
    ensures
        ({
            let after = after_delete_forward(selection, text);
            &&& after.selection.spec_is_caret()
            &&& text_len(after.text) <= text_len(text)
            &&& after.refused is None ==> after.selection.in_bounds(after.text)
        }),
{
    if selection.spec_is_caret() && next_boundary(text, selection.end as int) is Some {
        let stepped = moved(Movement::Right, selection, text, false);
        lemma_target(Movement::Right, selection, text, false);
        lemma_delete_backward_leaves_caret(stepped, text);
    } else if !selection.spec_is_caret() {
        lemma_delete_backward_leaves_caret(selection, text);
    }
}

/// After an action the selection lies within the text, on every input but
/// those that `strays` names. It is asked of the selection before the action
/// that it lay within the text, where the action reads it.
pub proof fn lemma_action_keeps_bounds(selection: Selection, action: EditAction, text: Seq<char>)
    requires
        text_len(text) <= usize::MAX,
        can_apply(selection, action, text),
        reads_selection(action) ==> selection.in_bounds(text),
    ensures
        after_action(selection, action, text).selection.in_bounds(
            after_action(selection, action, text).text,
        ) <==> !strays(selection, action, text),
{
    let after = after_action(selection, action, text);
    match action {
        EditAction::Insert(chars) | EditAction::Paste(chars) => {
            let at = selection.constrained(text);
            selection.lemma_constrained_valid(text);
            lemma_replaced_bytes(text, at.spec_min() as int, at.spec_max() as int, chars@);
        },
        EditAction::Move(m) => {
            lemma_moved_in_bounds(m, selection, text, false);
        },
        EditAction::ModifySelection(m) => {
            lemma_moved_in_bounds(m, selection, text, true);
        },
        EditAction::Backspace => {
            lemma_delete_backward_leaves_caret(selection, text);
        },
        EditAction::Delete => {
            lemma_delete_forward_leaves_caret(selection, text);
        },
        EditAction::JumpBackspace(m) => {
            lemma_target(m, selection, text, true);
            lemma_delete_backward_leaves_caret(moved(m, selection, text, true), text);
        },
        EditAction::JumpDelete(m) => {
            lemma_target(m, selection, text, true);
            lemma_delete_forward_leaves_caret(moved(m, selection, text, true), text);
        },
        _ => {},
    }
}

/// After an action both ends of the selection are grapheme boundaries of
/// the text, on every input but those that `misaligns` names. It is asked
/// of the selection before the action that it was valid, where the action
/// reads it.
pub proof fn lemma_action_keeps_valid(selection: Selection, action: EditAction, text: Seq<char>)
    requires
        text_len(text) <= usize::MAX,
        can_apply(selection, action, text),
        reads_selection(action) ==> selection.valid_in(text),
    ensures
        after_action(selection, action, text).selection.valid_in(
            after_action(selection, action, text).text,
        ) <==> !misaligns(selection, action, text),
{
    lemma_ends_are_boundaries(text);
    match action {
        EditAction::Insert(chars) | EditAction::Paste(chars) => {
            let at = selection.constrained(text);
            selection.lemma_constrained_valid(text);
            lemma_replaced_bytes(text, at.spec_min() as int, at.spec_max() as int, chars@);
            lemma_ends_are_boundaries(after_action(selection, action, text).text);
        },
        EditAction::Move(m) => {
            lemma_moved_valid(m, selection, text, false);
        },
        EditAction::ModifySelection(m) => {
            lemma_moved_valid(m, selection, text, true);
        },
        EditAction::JumpDelete(m) => {
            lemma_moved_valid(m, selection, text, true);
        },
        _ => {},
    }
}

} // verus!
