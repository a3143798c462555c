//! Insert mode: single-line text editing and the handlers that turn an
//! edited line into a command.

use vstd::prelude::*;

use crate::command::Command;
use crate::dialog::LabelManager;

pub mod date_picker;
pub mod description;
pub mod line_editor;
pub mod line_input;
pub mod markdown;

verus! {

/// Where an insert handler is drawn.
#[derive(Debug, Clone, Copy, PartialEq, Eq, Structural)]
pub enum InsertSurface {
    /// Over the board view (most inserts).
    BoardView,
    /// Over the board selector (board names).
    BoardSelector,
    /// Inside the open card detail.
    CardDetail,
}

/// An effect an insert handler asks for that is not a board command.
#[derive(Debug, Clone, PartialEq, Eq)]
pub enum InsertSideEffect {
    /// Create a new board (it gets a generated pastel accent color).
    CreateBoard { name: String },
    /// Rename the board selected in the board selector.
    RenameSelectedBoard { new_name: String },
}

/// What an insert handler decided after a key.
#[derive(Debug, Clone)]
pub enum InsertOutcome {
    /// Keep editing.
    Stay,
    /// Close without a command.
    Cancel,
    /// Apply the command and close.
    Confirm(Command),
    /// Apply the command, close, then open the label manager.
    ConfirmAndOpenLabelManager(Command, LabelManager),
    /// Close without a command and open the label manager.
    OpenLabelManager(LabelManager),
    /// Close with a status message and no command.
    CancelWithStatus(String),
    /// Confirm through an effect that is not a board command.
    ConfirmSideEffect(InsertSideEffect),
}

} // verus!
