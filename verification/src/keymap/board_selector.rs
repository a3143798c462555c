//! The board selector keymap: its actions and their keys.

use vstd::prelude::*;

use super::{conflict_free, Binding};
use crate::key::KeyCode;

verus! {

/// What a key does in the board selector.
#[derive(Debug, Clone, Copy, PartialEq, Eq, Structural)]
pub enum Action {
    SelectUp,
    SelectDown,
    MoveBoardUp,
    MoveBoardDown,
    OpenBoard,
    NewBoard,
    RenameBoard,
    CycleAccentColor,
    ArchiveBoard,
    ViewArchived,
    Help,
    Quit,
}

/// Board-selector keymap, in help-overlay order.
pub open spec fn table() -> Seq<Binding<Action>> {
    seq![
        // Navigation
        Binding { code: KeyCode::Up, shift: Some(false), action: Action::SelectUp, keys: "Up / Down", help: "Navigate boards", section: "Navigation" },
        Binding { code: KeyCode::Down, shift: Some(false), action: Action::SelectDown, keys: "Up / Down", help: "Navigate boards", section: "Navigation" },
        Binding { code: KeyCode::Up, shift: Some(true), action: Action::MoveBoardUp, keys: "Shift+Up/Down", help: "Reorder board", section: "Navigation" },
        Binding { code: KeyCode::Down, shift: Some(true), action: Action::MoveBoardDown, keys: "Shift+Up/Down", help: "Reorder board", section: "Navigation" },
        Binding { code: KeyCode::Enter, shift: None, action: Action::OpenBoard, keys: "Enter", help: "Open board", section: "Navigation" },
        // Actions
        Binding { code: KeyCode::Char('n'), shift: None, action: Action::NewBoard, keys: "n", help: "New board", section: "Actions" },
        Binding { code: KeyCode::Char('r'), shift: None, action: Action::RenameBoard, keys: "r", help: "Rename board", section: "Actions" },
        Binding { code: KeyCode::Char('c'), shift: None, action: Action::CycleAccentColor, keys: "c", help: "Cycle accent color", section: "Actions" },
        Binding { code: KeyCode::Char('a'), shift: None, action: Action::ArchiveBoard, keys: "a", help: "Archive board", section: "Actions" },
        Binding { code: KeyCode::Char('v'), shift: None, action: Action::ViewArchived, keys: "v", help: "View archived", section: "Actions" },
        // App
        Binding { code: KeyCode::Char('?'), shift: None, action: Action::Help, keys: "?", help: "Help", section: "App" },
        Binding { code: KeyCode::Char('q'), shift: None, action: Action::Quit, keys: "q", help: "Quit", section: "App" },
    ]
}

/// No two bindings of the board selector keymap react to the same key press.
pub proof fn lemma_table_conflict_free()
    ensures
        conflict_free(table()),
{
}

/// The board selector keymap (see [`table`]).
pub fn keymap() -> (map: Vec<Binding<Action>>)
    ensures
        map@ == table(),
{
    let map = vec![
        // Navigation
        Binding { code: KeyCode::Up, shift: Some(false), action: Action::SelectUp, keys: "Up / Down", help: "Navigate boards", section: "Navigation" },
        Binding { code: KeyCode::Down, shift: Some(false), action: Action::SelectDown, keys: "Up / Down", help: "Navigate boards", section: "Navigation" },
        Binding { code: KeyCode::Up, shift: Some(true), action: Action::MoveBoardUp, keys: "Shift+Up/Down", help: "Reorder board", section: "Navigation" },
        Binding { code: KeyCode::Down, shift: Some(true), action: Action::MoveBoardDown, keys: "Shift+Up/Down", help: "Reorder board", section: "Navigation" },
        Binding { code: KeyCode::Enter, shift: None, action: Action::OpenBoard, keys: "Enter", help: "Open board", section: "Navigation" },
        // Actions
        Binding { code: KeyCode::Char('n'), shift: None, action: Action::NewBoard, keys: "n", help: "New board", section: "Actions" },
        Binding { code: KeyCode::Char('r'), shift: None, action: Action::RenameBoard, keys: "r", help: "Rename board", section: "Actions" },
        Binding { code: KeyCode::Char('c'), shift: None, action: Action::CycleAccentColor, keys: "c", help: "Cycle accent color", section: "Actions" },
        Binding { code: KeyCode::Char('a'), shift: None, action: Action::ArchiveBoard, keys: "a", help: "Archive board", section: "Actions" },
        Binding { code: KeyCode::Char('v'), shift: None, action: Action::ViewArchived, keys: "v", help: "View archived", section: "Actions" },
        // App
        Binding { code: KeyCode::Char('?'), shift: None, action: Action::Help, keys: "?", help: "Help", section: "App" },
        Binding { code: KeyCode::Char('q'), shift: None, action: Action::Quit, keys: "q", help: "Quit", section: "App" },
    ];
    assert(map@ =~= table());
    map
}

} // verus!
