//! The edit primitives and the dispatcher that maps each action to them.
//!
//! Every primitive takes the selection and the text and changes both in
//! place. What it leaves behind is given by a function of what it found:
//! `after_insert`, `after_caret_to`, `after_move`, `after_delete_backward`,
//! `after_delete_forward` and, for the dispatcher, `after_action`.

use crate::backspace::{delete_backwards_offset, offset_for_delete_backwards};
use crate::edit_action::EditAction;
use crate::editable_text::{edit, len, replaced, text_len};
use crate::grapheme::{
    is_boundary, is_grapheme_boundary, lemma_ends_are_boundaries, next_boundary,
    next_grapheme_offset,
};
use crate::invariants::{misaligns, reads_selection, strays};
use crate::movement::{lemma_target, moved, movement, target, Movement};
use crate::selection::Selection;
use vstd::prelude::*;

verus! {

/// The state that an edit leaves, and the offset at which it was refused a
/// caret, if it was. A refusal changes nothing else: it is there to be
/// reported.
pub struct Outcome {
    pub selection: Selection,
    pub text: Seq<char>,
    pub refused: Option<usize>,
}

/// The state after `new` is inserted at `selection`: the selection is first
/// constrained to `text`, its range is replaced by `new`, and the caret
/// stands behind what was inserted.
pub open spec fn after_insert(selection: Selection, text: Seq<char>, new: Seq<char>) -> Outcome {
    let at = selection.constrained(text);
    Outcome {
        selection: Selection::spec_caret((at.spec_min() + text_len(new)) as usize),
        text: replaced(text, at.spec_min() as int, at.spec_max() as int, new),
        refused: None,
    }
}

/// The state after a caret is asked for at `to`: a caret there if `to` is a
/// grapheme boundary of `text`, and the selection as it was, with the
/// refusal, if not.
pub open spec fn after_caret_to(selection: Selection, text: Seq<char>, to: usize) -> Outcome {
    if is_boundary(text, to as int) {
        Outcome { selection: Selection::spec_caret(to), text, refused: None }
    } else {
        Outcome { selection, text, refused: Some(to) }
    }
}

/// The state after a movement.
pub open spec fn after_move(
    selection: Selection,
    m: Movement,
    text: Seq<char>,
    modify: bool,
) -> Outcome {
    Outcome { selection: moved(m, selection, text, modify), text, refused: None }
}

/// The offset from which a backward deletion at `selection` removes: the
/// start of the cluster before a caret, the lower end of a range.
pub open spec fn cut_start(selection: Selection, text: Seq<char>) -> int {
    if selection.spec_is_caret() {
        delete_backwards_offset(selection, text)
    } else {
        selection.spec_min() as int
    }
}

/// The state after a backward deletion: the text without the bytes from
/// `cut_start` up to the upper end of the selection. After a range the caret
/// stands at the lower end of the range. After a caret it is asked for at
/// `cut_start` in the shorter text, and stays where it was if it is refused
/// there.
pub open spec fn after_delete_backward(selection: Selection, text: Seq<char>) -> Outcome {
    let from = cut_start(selection, text);
    let shorter = replaced(text, from, selection.spec_max() as int, Seq::<char>::empty());
    if selection.spec_is_caret() {
        after_caret_to(selection, shorter, from as usize)
    } else {
        Outcome {
            selection: Selection::spec_caret(selection.spec_min()),
            text: shorter,
            refused: None,
        }
    }
}

/// The state after a forward deletion. A caret with a cluster to its right
/// steps over that cluster and deletes backward; a caret at the end of the
/// text changes nothing; a range is deleted as by a backward deletion.
pub open spec fn after_delete_forward(selection: Selection, text: Seq<char>) -> Outcome {
    if selection.spec_is_caret() {
        if next_boundary(text, selection.end as int) is Some {
            after_delete_backward(moved(Movement::Right, selection, text, false), text)
        } else {
            Outcome { selection, text, refused: None }
        }
    } else {
        after_delete_backward(selection, text)
    }
}

/// The state after an action.
pub open spec fn after_action(selection: Selection, action: EditAction, text: Seq<char>) -> Outcome {
    match action {
        EditAction::Insert(chars) | EditAction::Paste(chars) => after_insert(
            selection,
            text,
            chars@,
        ),
        EditAction::Backspace => after_delete_backward(selection, text),
        EditAction::Delete => after_delete_forward(selection, text),
        EditAction::JumpDelete(m) => after_delete_forward(moved(m, selection, text, true), text),
        EditAction::JumpBackspace(m) => after_delete_backward(
            moved(m, selection, text, true),
            text,
        ),
        EditAction::Move(m) => after_move(selection, m, text, false),
        EditAction::ModifySelection(m) => after_move(selection, m, text, true),
        EditAction::SelectAll => Outcome { selection: Selection::whole(text), text, refused: None },
        EditAction::Click(action) => if action.shift {
            Outcome {
                selection: Selection { start: selection.start, end: action.column },
                text,
                refused: None,
            }
        } else {
            after_caret_to(selection, text, action.column)
        },
        EditAction::Drag(action) => Outcome {
            selection: Selection { start: selection.start, end: action.column },
            text,
            refused: None,
        },
    }
}

/// Whether `action` can be applied to `selection` and `text`. A deletion
/// needs a selection that fits the text; an insertion needs room for the new
/// text; every other action can always be applied.
pub open spec fn can_apply(selection: Selection, action: EditAction, text: Seq<char>) -> bool {
    match action {
        EditAction::Insert(chars) | EditAction::Paste(chars) => text_len(text) + text_len(chars@)
            <= isize::MAX,
        EditAction::Backspace | EditAction::Delete | EditAction::JumpDelete(_)
        | EditAction::JumpBackspace(_) => selection.fits(text),
        _ => true,
    }
}

/// Whether `action` can be applied to `selection` and `text`.
pub fn is_applicable(selection: &Selection, action: &EditAction, text: &String) -> (ok: bool)
    ensures
        ok == can_apply(*selection, *action, text@),
{
    match action {
        EditAction::Insert(chars) | EditAction::Paste(chars) => {
            let most: usize = isize::MAX as usize;
            let held: usize = len(text);
            let added: usize = len(chars);
            held <= most && added <= most - held
        },
        EditAction::Backspace
        | EditAction::Delete
        | EditAction::JumpDelete(_)
        | EditAction::JumpBackspace(_) => selection.fits_in(text),
        _ => true,
    }
}

/// Inserts `new` at the cursor, in place of the selected text if there is
/// any. A selection that no longer lies within `src`, or not on grapheme
/// boundaries, is first brought back to it.
pub fn insert(selection: &mut Selection, src: &mut String, new: &str)
    requires
        text_len(old(src)@) + text_len(new@) <= isize::MAX,
    ensures
        *final(selection) == after_insert(*old(selection), old(src)@, new@).selection,
        final(src)@ == after_insert(*old(selection), old(src)@, new@).text,
        final(selection).spec_is_caret(),
        final(selection).end == old(selection).constrained(old(src)@).spec_min() + text_len(new@),
        text_len(final(src)@) == text_len(old(src)@) - (old(selection).constrained(
            old(src)@,
        ).spec_max() - old(selection).constrained(old(src)@).spec_min()) + text_len(new@),
        final(selection).in_bounds(final(src)@),
{
    *selection = selection.constrain_to(src);
    edit(src, selection.range(), new);
    *selection = Selection::caret(selection.min() + new.len());
}

/// Sets the selection to a caret at `to` if that is a grapheme boundary of
/// `text`. If it is not, the selection stays and `to` is returned.
pub fn caret_to(selection: &mut Selection, text: &mut String, to: usize) -> (refused: Option<usize>)
    ensures
        *final(selection) == after_caret_to(*old(selection), old(text)@, to).selection,
        refused == after_caret_to(*old(selection), old(text)@, to).refused,
        final(text)@ == old(text)@,
        refused is None <==> is_boundary(old(text)@, to as int),
{
    if is_grapheme_boundary(text, to) {
        *selection = Selection::caret(to);
        None
    } else {
        Some(to)
    }
}

/// Moves the selection by `mvmnt`, extending it where `modify` is set.
pub fn move_selection(selection: &mut Selection, mvmnt: Movement, text: &mut String, modify: bool)
    ensures
        *final(selection) == after_move(*old(selection), mvmnt, old(text)@, modify).selection,
        final(selection).end == target(mvmnt, *old(selection), old(text)@, modify),
        final(text)@ == old(text)@,
        old(selection).in_bounds(old(text)@) ==> final(selection).in_bounds(old(text)@),
        old(selection).valid_in(old(text)@) ==> final(selection).valid_in(old(text)@),
{
    *selection = movement(mvmnt, *selection, text, modify);
}

/// Deletes the grapheme cluster before a caret, or the selected text.
///
/// After a range the caret stands where the range began. After a caret it
/// is asked for where the deleted cluster began; if the shorter text has no
/// boundary there, the caret stays at its old offset and the offset that was
/// refused is returned.
pub fn delete_backward(selection: &mut Selection, text: &mut String) -> (refused: Option<usize>)
    requires
        old(selection).fits(old(text)@),
    ensures
        *final(selection) == after_delete_backward(*old(selection), old(text)@).selection,
        final(text)@ == after_delete_backward(*old(selection), old(text)@).text,
        refused == after_delete_backward(*old(selection), old(text)@).refused,
        final(selection).spec_is_caret(),
        final(selection).end <= old(selection).spec_min(),
        text_len(final(text)@) == text_len(old(text)@) - (old(selection).spec_max() - cut_start(
            *old(selection),
            old(text)@,
        )),
        text_len(final(text)@) <= text_len(old(text)@),
        refused is None ==> final(selection).end == cut_start(*old(selection), old(text)@)
            && final(selection).in_bounds(final(text)@),
        !old(selection).spec_is_caret() ==> refused is None,
{
    proof {
        reveal_strlit("");
        assert(""@ =~= Seq::<char>::empty());
    }
    if selection.is_caret() {
        let cursor: usize = selection.end;
        let new_cursor: usize = offset_for_delete_backwards(selection, text);
        edit(text, new_cursor..cursor, "");
        caret_to(selection, text, new_cursor)
    } else {
        let from: usize = selection.min();
        edit(text, selection.range(), "");
        *selection = Selection::caret(from);
        None
    }
}

/// Deletes the grapheme cluster after a caret, or the selected text. A
/// caret at the end of the text has nothing after it, and nothing changes.
pub fn delete_forward(selection: &mut Selection, text: &mut String) -> (refused: Option<usize>)
    requires
        old(selection).fits(old(text)@),
    ensures
        *final(selection) == after_delete_forward(*old(selection), old(text)@).selection,
        final(text)@ == after_delete_forward(*old(selection), old(text)@).text,
        refused == after_delete_forward(*old(selection), old(text)@).refused,
        old(selection).spec_is_caret() && old(selection).end == text_len(old(text)@) ==> {
            &&& *final(selection) == *old(selection)
            &&& final(text)@ == old(text)@
            &&& refused is None
        },
        !old(selection).spec_is_caret() ==> {
            &&& *final(selection) == Selection::spec_caret(old(selection).spec_min())
            &&& refused is None
        },
        final(selection).spec_is_caret(),
        text_len(final(text)@) <= text_len(old(text)@),
        refused is None ==> final(selection).in_bounds(final(text)@),
{
    if selection.is_caret() {
        if next_grapheme_offset(text, selection.end).is_some() {
            move_selection(selection, Movement::Right, text, false);
            delete_backward(selection, text)
        } else {
            None
        }
    } else {
        delete_backward(selection, text)
    }
}

/// Applies one edit action to the selection and the text. Returns the
/// offset at which a caret was refused, if one was.
///
/// The last two clauses say when the selection lies within the text
/// afterwards, and when it is valid in it. Neither holds after every
/// action: `strays` and `misaligns` name the inputs on which it does not.
///
/// The last clause does say that the selection is valid after a movement,
/// after selecting all, after a click, after a drag or shift-click to a
/// boundary, after an insertion that reaches the end of the text, after a
/// forward deletion that finds nothing to delete, and after a deletion at a
/// caret whose new place is granted. After an insertion before the end of
/// the text and after the deletion of a range, whether the caret stands on
/// a boundary depends on the characters that come to stand next to each
/// other. There `misaligns` is the opposite of what the clause concludes,
/// and the clause says nothing.
pub fn do_edit_action(
    selection: &mut Selection,
    edit_action: EditAction,
    text: &mut String,
) -> (refused: Option<usize>)
    requires
        can_apply(*old(selection), edit_action, old(text)@),
    ensures
        *final(selection) == after_action(*old(selection), edit_action, old(text)@).selection,
        final(text)@ == after_action(*old(selection), edit_action, old(text)@).text,
        refused == after_action(*old(selection), edit_action, old(text)@).refused,
        (reads_selection(edit_action) ==> old(selection).in_bounds(old(text)@)) && !strays(
            *old(selection),
            edit_action,
            old(text)@,
        ) ==> final(selection).in_bounds(final(text)@),
        (reads_selection(edit_action) ==> old(selection).valid_in(old(text)@)) && !misaligns(
            *old(selection),
            edit_action,
            old(text)@,
        ) ==> final(selection).valid_in(final(text)@),
{
    let ghost before = *selection;
    let ghost content = text@;
    match edit_action {
        EditAction::Insert(chars) | EditAction::Paste(chars) => {
            insert(selection, text, chars.as_str());
            proof {
                before.lemma_constrained_valid(content);
                lemma_ends_are_boundaries(text@);
            }
            None
        },
        EditAction::Backspace => delete_backward(selection, text),
        EditAction::Delete => delete_forward(selection, text),
        EditAction::JumpDelete(m) => {
            proof {
                lemma_target(m, before, content, true);
            }
            move_selection(selection, m, text, true);
            delete_forward(selection, text)
        },
        EditAction::JumpBackspace(m) => {
            proof {
                lemma_target(m, before, content, true);
            }
            move_selection(selection, m, text, true);
            delete_backward(selection, text)
        },
        EditAction::Move(m) => {
            move_selection(selection, m, text, false);
            None
        },
        EditAction::ModifySelection(m) => {
            move_selection(selection, m, text, true);
            None
        },
        EditAction::SelectAll => {
            selection.all(text);
            None
        },
        EditAction::Click(action) => {
            if action.shift {
                selection.end = action.column;
                None
            } else {
                caret_to(selection, text, action.column)
            }
        },
        EditAction::Drag(action) => {
            selection.end = action.column;
            None
        },
    }
}

} // verus!
