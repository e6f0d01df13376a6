//! A text-editing command engine: edit actions applied to a `String` buffer
//! and a `Selection`, at the granularity of extended grapheme clusters.
//!
//! Offsets are byte offsets into the buffer's UTF-8 encoding.

pub mod backspace;
pub mod edit_action;
pub mod editable_text;
pub mod grapheme;
pub mod invariants;
pub mod movement;
pub mod selection;
pub mod state_update;

pub use crate::backspace::offset_for_delete_backwards;
pub use crate::edit_action::{EditAction, MouseAction};
pub use crate::movement::{movement, Movement};
pub use crate::selection::Selection;
pub use crate::state_update::{
    caret_to, delete_backward, delete_forward, do_edit_action, insert, is_applicable,
    move_selection,
};
