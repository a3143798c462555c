//! The card detail keymap: its actions and their keys.

use vstd::prelude::*;

use super::{conflict_free, Binding};
use crate::key::KeyCode;

verus! {

/// What a key does in the card detail.
#[derive(Debug, Clone, Copy, PartialEq, Eq, Structural)]
pub enum Action {
    Close,
    ItemUp,
    ItemDown,
    ScrollDown,
    ScrollUp,
    ReorderItemDown,
    ReorderItemUp,
    ToggleItem,
    AddItem,
    DeleteItem,
    EditItem,
    EditDescription,
    EditTitle,
    CopyDescription,
    CopyChecklist,
    AssignLabels,
    ManageLabels,
    SetDueDate,
    ClearDueDate,
    HistoryDialog,
    Help,
    Quit,
}

/// Card-detail keymap, in help-overlay order.
pub open spec fn table() -> Seq<Binding<Action>> {
    seq![
        // Card
        Binding { code: KeyCode::Char('t'), shift: None, action: Action::EditTitle, keys: "t", help: "Edit title", section: "Card" },
        Binding { code: KeyCode::Char('e'), shift: None, action: Action::EditDescription, keys: "e", help: "Edit description", section: "Card" },
        Binding { code: KeyCode::PageUp, shift: None, action: Action::ScrollUp, keys: "PgUp/PgDn ←/→", help: "Scroll description", section: "Card" },
        Binding { code: KeyCode::PageDown, shift: None, action: Action::ScrollDown, keys: "PgUp/PgDn ←/→", help: "Scroll description", section: "Card" },
        Binding { code: KeyCode::Left, shift: None, action: Action::ScrollUp, keys: "PgUp/PgDn ←/→", help: "Scroll description", section: "Card" },
        Binding { code: KeyCode::Right, shift: None, action: Action::ScrollDown, keys: "PgUp/PgDn ←/→", help: "Scroll description", section: "Card" },
        Binding { code: KeyCode::Char('y'), shift: None, action: Action::CopyDescription, keys: "y", help: "Copy description", section: "Card" },
        Binding { code: KeyCode::Char('Y'), shift: None, action: Action::CopyChecklist, keys: "Y", help: "Copy checklist (md)", section: "Card" },
        Binding { code: KeyCode::Char('h'), shift: None, action: Action::HistoryDialog, keys: "h", help: "View change history", section: "Card" },
        // Checklist
        Binding { code: KeyCode::Up, shift: Some(false), action: Action::ItemUp, keys: "Up / Down", help: "Navigate items", section: "Checklist" },
        Binding { code: KeyCode::Down, shift: Some(false), action: Action::ItemDown, keys: "Up / Down", help: "Navigate items", section: "Checklist" },
        Binding { code: KeyCode::Up, shift: Some(true), action: Action::ReorderItemUp, keys: "Shift+Up/Down", help: "Reorder item", section: "Checklist" },
        Binding { code: KeyCode::Down, shift: Some(true), action: Action::ReorderItemDown, keys: "Shift+Up/Down", help: "Reorder item", section: "Checklist" },
        Binding { code: KeyCode::Char(' '), shift: None, action: Action::ToggleItem, keys: "Space", help: "Toggle item", section: "Checklist" },
        Binding { code: KeyCode::Char('a'), shift: None, action: Action::AddItem, keys: "a", help: "Add item", section: "Checklist" },
        Binding { code: KeyCode::Enter, shift: None, action: Action::EditItem, keys: "Enter", help: "Edit item", section: "Checklist" },
        Binding { code: KeyCode::Char('x'), shift: None, action: Action::DeleteItem, keys: "x", help: "Delete item", section: "Checklist" },
        // Labels & Due
        Binding { code: KeyCode::Char('l'), shift: None, action: Action::AssignLabels, keys: "l", help: "Assign / remove labels", section: "Labels & Due" },
        Binding { code: KeyCode::Char('L'), shift: None, action: Action::ManageLabels, keys: "L", help: "Manage labels", section: "Labels & Due" },
        Binding { code: KeyCode::Char('u'), shift: None, action: Action::SetDueDate, keys: "u", help: "Set due date", section: "Labels & Due" },
        Binding { code: KeyCode::Char('U'), shift: None, action: Action::ClearDueDate, keys: "U", help: "Clear due date", section: "Labels & Due" },
        // App
        Binding { code: KeyCode::Esc, shift: None, action: Action::Close, keys: "Esc", help: "Close", section: "App" },
        Binding { code: KeyCode::Char('?'), shift: None, action: Action::Help, keys: "?", help: "Help", section: "App" },
        Binding { code: KeyCode::Char('q'), shift: None, action: Action::Quit, keys: "q", help: "Quit", section: "App" },
    ]
}

/// No two bindings of the card detail keymap react to the same key press.
pub proof fn lemma_table_conflict_free()
    ensures
        conflict_free(table()),
{
}

/// The card detail keymap (see [`table`]).
pub fn keymap() -> (map: Vec<Binding<Action>>)
    ensures
        map@ == table(),
{
    let map = vec![
        // Card
        Binding { code: KeyCode::Char('t'), shift: None, action: Action::EditTitle, keys: "t", help: "Edit title", section: "Card" },
        Binding { code: KeyCode::Char('e'), shift: None, action: Action::EditDescription, keys: "e", help: "Edit description", section: "Card" },
        Binding { code: KeyCode::PageUp, shift: None, action: Action::ScrollUp, keys: "PgUp/PgDn ←/→", help: "Scroll description", section: "Card" },
        Binding { code: KeyCode::PageDown, shift: None, action: Action::ScrollDown, keys: "PgUp/PgDn ←/→", help: "Scroll description", section: "Card" },
        Binding { code: KeyCode::Left, shift: None, action: Action::ScrollUp, keys: "PgUp/PgDn ←/→", help: "Scroll description", section: "Card" },
        Binding { code: KeyCode::Right, shift: None, action: Action::ScrollDown, keys: "PgUp/PgDn ←/→", help: "Scroll description", section: "Card" },
        Binding { code: KeyCode::Char('y'), shift: None, action: Action::CopyDescription, keys: "y", help: "Copy description", section: "Card" },
        Binding { code: KeyCode::Char('Y'), shift: None, action: Action::CopyChecklist, keys: "Y", help: "Copy checklist (md)", section: "Card" },
        Binding { code: KeyCode::Char('h'), shift: None, action: Action::HistoryDialog, keys: "h", help: "View change history", section: "Card" },
        // Checklist
        Binding { code: KeyCode::Up, shift: Some(false), action: Action::ItemUp, keys: "Up / Down", help: "Navigate items", section: "Checklist" },
        Binding { code: KeyCode::Down, shift: Some(false), action: Action::ItemDown, keys: "Up / Down", help: "Navigate items", section: "Checklist" },
        Binding { code: KeyCode::Up, shift: Some(true), action: Action::ReorderItemUp, keys: "Shift+Up/Down", help: "Reorder item", section: "Checklist" },
        Binding { code: KeyCode::Down, shift: Some(true), action: Action::ReorderItemDown, keys: "Shift+Up/Down", help: "Reorder item", section: "Checklist" },
        Binding { code: KeyCode::Char(' '), shift: None, action: Action::ToggleItem, keys: "Space", help: "Toggle item", section: "Checklist" },
        Binding { code: KeyCode::Char('a'), shift: None, action: Action::AddItem, keys: "a", help: "Add item", section: "Checklist" },
        Binding { code: KeyCode::Enter, shift: None, action: Action::EditItem, keys: "Enter", help: "Edit item", section: "Checklist" },
        Binding { code: KeyCode::Char('x'), shift: None, action: Action::DeleteItem, keys: "x", help: "Delete item", section: "Checklist" },
        // Labels & Due
        Binding { code: KeyCode::Char('l'), shift: None, action: Action::AssignLabels, keys: "l", help: "Assign / remove labels", section: "Labels & Due" },
        Binding { code: KeyCode::Char('L'), shift: None, action: Action::ManageLabels, keys: "L", help: "Manage labels", section: "Labels & Due" },
        Binding { code: KeyCode::Char('u'), shift: None, action: Action::SetDueDate, keys: "u", help: "Set due date", section: "Labels & Due" },
        Binding { code: KeyCode::Char('U'), shift: None, action: Action::ClearDueDate, keys: "U", help: "Clear due date", section: "Labels & Due" },
        // App
        Binding { code: KeyCode::Esc, shift: None, action: Action::Close, keys: "Esc", help: "Close", section: "App" },
        Binding { code: KeyCode::Char('?'), shift: None, action: Action::Help, keys: "?", help: "Help", section: "App" },
        Binding { code: KeyCode::Char('q'), shift: None, action: Action::Quit, keys: "q", help: "Quit", section: "App" },
    ];
    assert(map@ =~= table());
    map
}

} // verus!
