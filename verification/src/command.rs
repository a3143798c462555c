//! Domain mutation intent as a value, applied by the board editor.
//! Selection moves are not commands: they are direct editor methods.

use vstd::prelude::*;

use crate::model::card::Date;
use crate::model::ids::ShortId;
use crate::model::label::LabelColor;

verus! {

/// Direction of a move.
#[derive(Debug, Clone, Copy, PartialEq, Eq, Structural)]
pub enum MoveDir {
    Up,
    Down,
    Left,
    Right,
}

/// A change to the loaded board.
#[derive(Debug, Clone)]
pub enum Command {
    ArchiveCard { card_id: ShortId },
    RestoreCard { card_id: ShortId },
    EditCardTitle { card_id: ShortId, title: String },
    EditCardDescription { card_id: ShortId, body: String },
    SetDueDate { card_id: ShortId, date: Date },
    ClearDueDate { card_id: ShortId },
    AddChecklistItem { card_id: ShortId, text: String },
    EditChecklistItem { card_id: ShortId, item_idx: usize, text: String },
    ToggleChecklistItem { card_id: ShortId, item_idx: usize },
    RemoveChecklistItem { card_id: ShortId, item_idx: usize },
    ReorderChecklistItem { card_id: ShortId, from: usize, to: usize },
    ToggleLabel { card_id: ShortId, label_id: ShortId },
    AddCard { list_id: ShortId, title: String },
    MoveCard { card_id: ShortId, direction: MoveDir },
    AddList { name: String },
    ArchiveList { list_id: ShortId },
    RestoreList { list_id: ShortId },
    RenameList { list_id: ShortId, name: String },
    MoveList { list_id: ShortId, direction: MoveDir },
    ArchiveBoard { board_id: ShortId },
    RestoreBoard { board_id: ShortId },
    RenameBoard { name: String },
    SetAccentColor { color: LabelColor },
    DefineLabel { name: String, color: LabelColor },
    RenameLabel { label_id: ShortId, name: String },
    SetLabelColor { label_id: ShortId, color: LabelColor },
    DeleteLabel { label_id: ShortId },
    ReorderLabels { from: usize, to: usize },
}

} // verus!
