//! The vocabulary of edit actions.

use crate::movement::Movement;
use vstd::prelude::*;

verus! {

/// A click or drag of the pointer, already resolved to an offset in the text.
#[derive(Clone, Copy, Debug, PartialEq, Eq, Structural)]
pub struct MouseAction {
    /// The byte offset in the text that the pointer is at.
    pub column: usize,
    /// Whether the shift key was held.
    pub shift: bool,
}

/// One edit of the text or the selection.
#[derive(Clone, Debug)]
pub enum EditAction {
    Move(Movement),
    ModifySelection(Movement),
    SelectAll,
    Click(MouseAction),
    Drag(MouseAction),
    Delete,
    Backspace,
    JumpDelete(Movement),
    JumpBackspace(Movement),
    Insert(String),
    Paste(String),
}

} // verus!
