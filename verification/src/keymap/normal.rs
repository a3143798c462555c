//! The board view keymap: its actions and their keys.

use vstd::prelude::*;

use super::{conflict_free, Binding};
use crate::key::KeyCode;

verus! {

/// What a key does in the board view.
#[derive(Debug, Clone, Copy, PartialEq, Eq, Structural)]
pub enum Action {
    Quit,
    Help,
    CloseBoard,
    SelectListLeft,
    SelectListRight,
    SelectCardUp,
    SelectCardDown,
    MoveCardLeft,
    MoveCardRight,
    MoveCardUp,
    MoveCardDown,
    JumpFirstCard,
    JumpLastCard,
    SwitchBoardPrev,
    SwitchBoardNext,
    OpenCardDetail,
    CopyTitle,
    EditDescription,
    EditTitle,
    NewCard,
    ArchiveCard,
    ViewArchivedCards,
    CardHistoryDialog,
    NewList,
    RenameList,
    ArchiveList,
    ViewArchivedLists,
    MoveListLeft,
    MoveListRight,
    Search,
    FilterByLabel,
    ClearFilters,
    AssignLabels,
    ManageLabels,
    SetDueDate,
    ClearDueDate,
}

/// Board-view keymap, in help-overlay order.
pub open spec fn table() -> Seq<Binding<Action>> {
    seq![
        // Navigation
        Binding { code: KeyCode::Left, shift: Some(false), action: Action::SelectListLeft, keys: "Left / Right", help: "Switch lists", section: "Navigation" },
        Binding { code: KeyCode::Right, shift: Some(false), action: Action::SelectListRight, keys: "Left / Right", help: "Switch lists", section: "Navigation" },
        Binding { code: KeyCode::Up, shift: Some(false), action: Action::SelectCardUp, keys: "Up / Down", help: "Navigate cards", section: "Navigation" },
        Binding { code: KeyCode::Down, shift: Some(false), action: Action::SelectCardDown, keys: "Up / Down", help: "Navigate cards", section: "Navigation" },
        Binding { code: KeyCode::Char('g'), shift: None, action: Action::JumpFirstCard, keys: "g / G", help: "First / last card", section: "Navigation" },
        Binding { code: KeyCode::Char('G'), shift: None, action: Action::JumpLastCard, keys: "g / G", help: "First / last card", section: "Navigation" },
        Binding { code: KeyCode::Char('j'), shift: None, action: Action::SwitchBoardPrev, keys: "j / k", help: "Prev / next board", section: "Navigation" },
        Binding { code: KeyCode::Char('k'), shift: None, action: Action::SwitchBoardNext, keys: "j / k", help: "Prev / next board", section: "Navigation" },
        Binding { code: KeyCode::Enter, shift: None, action: Action::OpenCardDetail, keys: "Enter", help: "Open card detail", section: "Navigation" },
        // Card
        Binding { code: KeyCode::Char('t'), shift: None, action: Action::EditTitle, keys: "t", help: "Quick-edit title", section: "Card" },
        Binding { code: KeyCode::Char('e'), shift: None, action: Action::EditDescription, keys: "e", help: "Edit description", section: "Card" },
        Binding { code: KeyCode::Char('y'), shift: None, action: Action::CopyTitle, keys: "y", help: "Copy title", section: "Card" },
        Binding { code: KeyCode::Char('n'), shift: None, action: Action::NewCard, keys: "n", help: "New card", section: "Card" },
        Binding { code: KeyCode::Char('a'), shift: None, action: Action::ArchiveCard, keys: "a", help: "Archive card", section: "Card" },
        Binding { code: KeyCode::Char('v'), shift: None, action: Action::ViewArchivedCards, keys: "v", help: "View archived cards", section: "Card" },
        Binding { code: KeyCode::Char('h'), shift: None, action: Action::CardHistoryDialog, keys: "h", help: "View change history", section: "Card" },
        // Move
        Binding { code: KeyCode::Left, shift: Some(true), action: Action::MoveCardLeft, keys: "Shift+Left/Right", help: "Move to adjacent list", section: "Move" },
        Binding { code: KeyCode::Right, shift: Some(true), action: Action::MoveCardRight, keys: "Shift+Left/Right", help: "Move to adjacent list", section: "Move" },
        Binding { code: KeyCode::Up, shift: Some(true), action: Action::MoveCardUp, keys: "Shift+Up/Down", help: "Move within list", section: "Move" },
        Binding { code: KeyCode::Down, shift: Some(true), action: Action::MoveCardDown, keys: "Shift+Up/Down", help: "Move within list", section: "Move" },
        // Lists
        Binding { code: KeyCode::Char('N'), shift: None, action: Action::NewList, keys: "N", help: "New list", section: "Lists" },
        Binding { code: KeyCode::Char('r'), shift: None, action: Action::RenameList, keys: "r", help: "Rename list", section: "Lists" },
        Binding { code: KeyCode::Char('A'), shift: None, action: Action::ArchiveList, keys: "A", help: "Archive list", section: "Lists" },
        Binding { code: KeyCode::Char('V'), shift: None, action: Action::ViewArchivedLists, keys: "V", help: "View archived lists", section: "Lists" },
        Binding { code: KeyCode::Char('<'), shift: None, action: Action::MoveListLeft, keys: "< / >", help: "Reorder list", section: "Lists" },
        Binding { code: KeyCode::Char('>'), shift: None, action: Action::MoveListRight, keys: "< / >", help: "Reorder list", section: "Lists" },
        // Search & Filter
        Binding { code: KeyCode::Char('/'), shift: None, action: Action::Search, keys: "/", help: "Search", section: "Search & Filter" },
        Binding { code: KeyCode::Char('f'), shift: None, action: Action::FilterByLabel, keys: "f", help: "Filter by label", section: "Search & Filter" },
        Binding { code: KeyCode::Char('F'), shift: None, action: Action::ClearFilters, keys: "F", help: "Clear filters", section: "Search & Filter" },
        // Labels & Due
        Binding { code: KeyCode::Char('l'), shift: None, action: Action::AssignLabels, keys: "l", help: "Assign / remove labels", section: "Labels & Due" },
        Binding { code: KeyCode::Char('L'), shift: None, action: Action::ManageLabels, keys: "L", help: "Manage labels", section: "Labels & Due" },
        Binding { code: KeyCode::Char('u'), shift: None, action: Action::SetDueDate, keys: "u", help: "Set due date", section: "Labels & Due" },
        Binding { code: KeyCode::Char('U'), shift: None, action: Action::ClearDueDate, keys: "U", help: "Clear due date", section: "Labels & Due" },
        // App
        Binding { code: KeyCode::Char('b'), shift: None, action: Action::CloseBoard, keys: "b", help: "Back to selector", section: "App" },
        Binding { code: KeyCode::Char('?'), shift: None, action: Action::Help, keys: "?", help: "Help", section: "App" },
        Binding { code: KeyCode::Char('q'), shift: None, action: Action::Quit, keys: "q", help: "Quit", section: "App" },
    ]
}

/// No two bindings of the board view keymap react to the same key press.
pub proof fn lemma_table_conflict_free()
    ensures
        conflict_free(table()),
{
}

/// The board view keymap (see [`table`]).
pub fn keymap() -> (map: Vec<Binding<Action>>)
    ensures
        map@ == table(),
{
    let map = vec![
        // Navigation
        Binding { code: KeyCode::Left, shift: Some(false), action: Action::SelectListLeft, keys: "Left / Right", help: "Switch lists", section: "Navigation" },
        Binding { code: KeyCode::Right, shift: Some(false), action: Action::SelectListRight, keys: "Left / Right", help: "Switch lists", section: "Navigation" },
        Binding { code: KeyCode::Up, shift: Some(false), action: Action::SelectCardUp, keys: "Up / Down", help: "Navigate cards", section: "Navigation" },
        Binding { code: KeyCode::Down, shift: Some(false), action: Action::SelectCardDown, keys: "Up / Down", help: "Navigate cards", section: "Navigation" },
        Binding { code: KeyCode::Char('g'), shift: None, action: Action::JumpFirstCard, keys: "g / G", help: "First / last card", section: "Navigation" },
        Binding { code: KeyCode::Char('G'), shift: None, action: Action::JumpLastCard, keys: "g / G", help: "First / last card", section: "Navigation" },
        Binding { code: KeyCode::Char('j'), shift: None, action: Action::SwitchBoardPrev, keys: "j / k", help: "Prev / next board", section: "Navigation" },
        Binding { code: KeyCode::Char('k'), shift: None, action: Action::SwitchBoardNext, keys: "j / k", help: "Prev / next board", section: "Navigation" },
        Binding { code: KeyCode::Enter, shift: None, action: Action::OpenCardDetail, keys: "Enter", help: "Open card detail", section: "Navigation" },
        // Card
        Binding { code: KeyCode::Char('t'), shift: None, action: Action::EditTitle, keys: "t", help: "Quick-edit title", section: "Card" },
        Binding { code: KeyCode::Char('e'), shift: None, action: Action::EditDescription, keys: "e", help: "Edit description", section: "Card" },
        Binding { code: KeyCode::Char('y'), shift: None, action: Action::CopyTitle, keys: "y", help: "Copy title", section: "Card" },
        Binding { code: KeyCode::Char('n'), shift: None, action: Action::NewCard, keys: "n", help: "New card", section: "Card" },
        Binding { code: KeyCode::Char('a'), shift: None, action: Action::ArchiveCard, keys: "a", help: "Archive card", section: "Card" },
        Binding { code: KeyCode::Char('v'), shift: None, action: Action::ViewArchivedCards, keys: "v", help: "View archived cards", section: "Card" },
        Binding { code: KeyCode::Char('h'), shift: None, action: Action::CardHistoryDialog, keys: "h", help: "View change history", section: "Card" },
        // Move
        Binding { code: KeyCode::Left, shift: Some(true), action: Action::MoveCardLeft, keys: "Shift+Left/Right", help: "Move to adjacent list", section: "Move" },
        Binding { code: KeyCode::Right, shift: Some(true), action: Action::MoveCardRight, keys: "Shift+Left/Right", help: "Move to adjacent list", section: "Move" },
        Binding { code: KeyCode::Up, shift: Some(true), action: Action::MoveCardUp, keys: "Shift+Up/Down", help: "Move within list", section: "Move" },
        Binding { code: KeyCode::Down, shift: Some(true), action: Action::MoveCardDown, keys: "Shift+Up/Down", help: "Move within list", section: "Move" },
        // Lists
        Binding { code: KeyCode::Char('N'), shift: None, action: Action::NewList, keys: "N", help: "New list", section: "Lists" },
        Binding { code: KeyCode::Char('r'), shift: None, action: Action::RenameList, keys: "r", help: "Rename list", section: "Lists" },
        Binding { code: KeyCode::Char('A'), shift: None, action: Action::ArchiveList, keys: "A", help: "Archive list", section: "Lists" },
        Binding { code: KeyCode::Char('V'), shift: None, action: Action::ViewArchivedLists, keys: "V", help: "View archived lists", section: "Lists" },
        Binding { code: KeyCode::Char('<'), shift: None, action: Action::MoveListLeft, keys: "< / >", help: "Reorder list", section: "Lists" },
        Binding { code: KeyCode::Char('>'), shift: None, action: Action::MoveListRight, keys: "< / >", help: "Reorder list", section: "Lists" },
        // Search & Filter
        Binding { code: KeyCode::Char('/'), shift: None, action: Action::Search, keys: "/", help: "Search", section: "Search & Filter" },
        Binding { code: KeyCode::Char('f'), shift: None, action: Action::FilterByLabel, keys: "f", help: "Filter by label", section: "Search & Filter" },
        Binding { code: KeyCode::Char('F'), shift: None, action: Action::ClearFilters, keys: "F", help: "Clear filters", section: "Search & Filter" },
        // Labels & Due
        Binding { code: KeyCode::Char('l'), shift: None, action: Action::AssignLabels, keys: "l", help: "Assign / remove labels", section: "Labels & Due" },
        Binding { code: KeyCode::Char('L'), shift: None, action: Action::ManageLabels, keys: "L", help: "Manage labels", section: "Labels & Due" },
        Binding { code: KeyCode::Char('u'), shift: None, action: Action::SetDueDate, keys: "u", help: "Set due date", section: "Labels & Due" },
        Binding { code: KeyCode::Char('U'), shift: None, action: Action::ClearDueDate, keys: "U", help: "Clear due date", section: "Labels & Due" },
        // App
        Binding { code: KeyCode::Char('b'), shift: None, action: Action::CloseBoard, keys: "b", help: "Back to selector", section: "App" },
        Binding { code: KeyCode::Char('?'), shift: None, action: Action::Help, keys: "?", help: "Help", section: "App" },
        Binding { code: KeyCode::Char('q'), shift: None, action: Action::Quit, keys: "q", help: "Quit", section: "App" },
    ];
    assert(map@ =~= table());
    map
}

} // verus!
