//! The help each dialog shows over itself.

use vstd::prelude::*;

use super::{
    ArchivedBoards, ArchivedCards, ArchivedLists, CardHistory, ConfirmArchiveBoard, ConfirmArchiveCard,
    ConfirmArchiveList, ConfirmCancelEdit, ConfirmDeleteLabel, LabelManager, LabelPicker,
};

verus! {

/// A dialog's help: its title and its rows of keys and what they do.
#[derive(Debug, Clone)]
pub struct DialogHelp {
    pub title: &'static str,
    pub rows: Vec<(&'static str, &'static str)>,
}

/// The help's rows as text.
pub open spec fn help_rows(h: DialogHelp) -> Seq<(Seq<char>, Seq<char>)> {
    h.rows@.map_values(|r: (&'static str, &'static str)| (r.0@, r.1@))
}

/// The rows of the label manager help.
pub open spec fn label_manager_help_rows() -> Seq<(Seq<char>, Seq<char>)> {
    seq![("Up / Down"@, "Select label"@), ("Shift+Up/Down"@, "Reorder label"@), ("n"@, "New label"@), ("e"@, "Rename label"@), ("c"@, "Cycle preset color"@), ("C"@, "Pick color (HSL)"@), ("d"@, "Delete label"@), ("Esc"@, "Close"@)]
}

/// The rows of the card history help.
pub open spec fn card_history_help_rows() -> Seq<(Seq<char>, Seq<char>)> {
    seq![("Up / Down / j / k"@, "Scroll"@), ("PgUp / PgDn"@, "Scroll by 10"@), ("g / Home"@, "Jump to top"@), ("Esc / q / h"@, "Close"@)]
}

/// The rows of the label picker help.
pub open spec fn label_picker_help_rows() -> Seq<(Seq<char>, Seq<char>)> {
    seq![("Up / Down"@, "Select label"@), ("Space / Enter"@, "Toggle label on card"@), ("L"@, "Manage labels (create, edit, delete)"@), ("Esc"@, "Back"@)]
}

/// The rows of the confirm archive board help.
pub open spec fn confirm_archive_board_help_rows() -> Seq<(Seq<char>, Seq<char>)> {
    seq![("y"@, "Archive board"@), ("n / Esc"@, "Cancel"@)]
}

/// The rows of the confirm archive list help.
pub open spec fn confirm_archive_list_help_rows() -> Seq<(Seq<char>, Seq<char>)> {
    seq![("y"@, "Archive list"@), ("n / Esc"@, "Cancel"@)]
}

/// The rows of the confirm cancel edit help.
pub open spec fn confirm_cancel_edit_help_rows() -> Seq<(Seq<char>, Seq<char>)> {
    seq![("y"@, "Discard changes"@), ("n / Esc"@, "Keep editing"@)]
}

/// The rows of the confirm delete label help.
pub open spec fn confirm_delete_label_help_rows() -> Seq<(Seq<char>, Seq<char>)> {
    seq![("y"@, "Delete label from all cards"@), ("n / Esc"@, "Cancel"@)]
}

impl LabelManager {
    /// This dialog's help.
    pub fn help(&self) -> (h: Option<DialogHelp>)
        ensures
            h matches Some(x) && x.title@ == " Help — Label Manager "@ && help_rows(x) == label_manager_help_rows(),
    {
        let h = DialogHelp { title: " Help — Label Manager ", rows: vec![("Up / Down", "Select label"), ("Shift+Up/Down", "Reorder label"), ("n", "New label"), ("e", "Rename label"), ("c", "Cycle preset color"), ("C", "Pick color (HSL)"), ("d", "Delete label"), ("Esc", "Close")] };
        assert(help_rows(h) =~= label_manager_help_rows());
        Some(h)
    }
}

impl CardHistory {
    /// This dialog's help.
    pub fn help(&self) -> (h: Option<DialogHelp>)
        ensures
            h matches Some(x) && x.title@ == " Help — Card History "@ && help_rows(x) == card_history_help_rows(),
    {
        let h = DialogHelp { title: " Help — Card History ", rows: vec![("Up / Down / j / k", "Scroll"), ("PgUp / PgDn", "Scroll by 10"), ("g / Home", "Jump to top"), ("Esc / q / h", "Close")] };
        assert(help_rows(h) =~= card_history_help_rows());
        Some(h)
    }
}

impl LabelPicker {
    /// This dialog's help.
    pub fn help(&self) -> (h: Option<DialogHelp>)
        ensures
            h matches Some(x) && x.title@ == " Help — Labels "@ && help_rows(x) == label_picker_help_rows(),
    {
        let h = DialogHelp { title: " Help — Labels ", rows: vec![("Up / Down", "Select label"), ("Space / Enter", "Toggle label on card"), ("L", "Manage labels (create, edit, delete)"), ("Esc", "Back")] };
        assert(help_rows(h) =~= label_picker_help_rows());
        Some(h)
    }
}

impl ConfirmArchiveBoard {
    /// This dialog's help.
    pub fn help(&self) -> (h: Option<DialogHelp>)
        ensures
            h matches Some(x) && x.title@ == " Help — Archive Board "@ && help_rows(x) == confirm_archive_board_help_rows(),
    {
        let h = DialogHelp { title: " Help — Archive Board ", rows: vec![("y", "Archive board"), ("n / Esc", "Cancel")] };
        assert(help_rows(h) =~= confirm_archive_board_help_rows());
        Some(h)
    }
}

impl ConfirmArchiveList {
    /// This dialog's help.
    pub fn help(&self) -> (h: Option<DialogHelp>)
        ensures
            h matches Some(x) && x.title@ == " Help — Archive List "@ && help_rows(x) == confirm_archive_list_help_rows(),
    {
        let h = DialogHelp { title: " Help — Archive List ", rows: vec![("y", "Archive list"), ("n / Esc", "Cancel")] };
        assert(help_rows(h) =~= confirm_archive_list_help_rows());
        Some(h)
    }
}

impl ConfirmCancelEdit {
    /// This dialog's help.
    pub fn help(&self) -> (h: Option<DialogHelp>)
        ensures
            h matches Some(x) && x.title@ == " Help — Discard Changes "@ && help_rows(x) == confirm_cancel_edit_help_rows(),
    {
        let h = DialogHelp { title: " Help — Discard Changes ", rows: vec![("y", "Discard changes"), ("n / Esc", "Keep editing")] };
        assert(help_rows(h) =~= confirm_cancel_edit_help_rows());
        Some(h)
    }
}

impl ConfirmDeleteLabel {
    /// This dialog's help.
    pub fn help(&self) -> (h: Option<DialogHelp>)
        ensures
            h matches Some(x) && x.title@ == " Help — Delete Label "@ && help_rows(x) == confirm_delete_label_help_rows(),
    {
        let h = DialogHelp { title: " Help — Delete Label ", rows: vec![("y", "Delete label from all cards"), ("n / Esc", "Cancel")] };
        assert(help_rows(h) =~= confirm_delete_label_help_rows());
        Some(h)
    }
}

impl ConfirmArchiveCard {
    /// This dialog has no help of its own.
    pub fn help(&self) -> (h: Option<DialogHelp>)
        ensures
            h is None,
    {
        None
    }
}

impl ArchivedLists {
    /// This dialog has no help of its own.
    pub fn help(&self) -> (h: Option<DialogHelp>)
        ensures
            h is None,
    {
        None
    }
}

impl ArchivedCards {
    /// This dialog has no help of its own.
    pub fn help(&self) -> (h: Option<DialogHelp>)
        ensures
            h is None,
    {
        None
    }
}

impl ArchivedBoards {
    /// This dialog has no help of its own.
    pub fn help(&self) -> (h: Option<DialogHelp>)
        ensures
            h is None,
    {
        None
    }
}

} // verus!
