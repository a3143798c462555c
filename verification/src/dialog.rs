//! Modal dialogs: their state, and what a key does to it. A dialog's
//! reaction is a [`DialogOutcome`]: an optional command to apply, an
//! optional side effect, an optional status message, and what becomes of
//! the dialog.

use vstd::prelude::*;

pub mod help;

use crate::board_editor::{current_card_id_of, index_of, LoadedBoard};
use crate::command::Command;
use crate::key::{Key, KeyCode};
use crate::mode::AppMode;
use crate::model::board::BoardMeta;
use crate::model::card::Card;
use crate::model::ids::ShortId;
use crate::model::label::{next_named, LabelColor};
use crate::model::list::CardList;
use crate::text::concat3;

verus! {

/// What is drawn behind a dialog.
#[derive(Debug, Clone, Copy, PartialEq, Eq, Structural)]
pub enum DialogBackground {
    /// The current view.
    Auto,
    /// The board selector.
    BoardSelector,
}

/// Effects a dialog asks for that are not board commands.
#[derive(Debug, Clone)]
pub enum DialogSideEffect {
    /// Delete an archived board's directory.
    DeleteArchivedBoard { board_id: ShortId },
    /// Delete an archived list and its cards.
    DeleteArchivedList { list_id: ShortId, card_ids: Vec<ShortId> },
    /// Delete an archived card.
    DeleteArchivedCard { card_id: ShortId },
    /// Restore an archived board and put it back in the board order.
    RestoreArchivedBoard { board_id: ShortId },
    /// Archive the board selected in the board selector.
    ArchiveSelectedBoard,
    /// Bring an archived card into the loaded board, then restore it.
    StageAndRestoreCard { card: Card },
    /// Drop the description being edited.
    DiscardDescriptionEdit,
    /// Go back to editing the description.
    ResumeDescriptionEdit,
    /// Move a label within the board's palette.
    ReorderLabels { from: usize, to: usize },
    /// Start entering a new label's name.
    StartNewLabelInsert { from_picker: bool },
    /// Start renaming the label at `label_idx`.
    StartRenameLabelInsert { label_idx: usize, current_name: String, from_picker: bool },
}

/// A dialog another dialog opens in its place.
#[derive(Debug, Clone)]
pub enum NextDialog {
    LabelManager(LabelManager),
    LabelPicker(LabelPicker),
    ConfirmDeleteLabel(ConfirmDeleteLabel),
    /// The color picker, preset to a label's color.
    ColorPickerForLabel { color: LabelColor, label_id: ShortId, label_idx: usize, from_picker: bool },
}

/// What becomes of the dialog after a key.
#[derive(Debug, Clone)]
pub enum Follow {
    /// It stays open.
    Stay,
    /// It closes; the previous mode comes back.
    Close,
    /// It closes to the given mode.
    CloseTo(AppMode),
    /// Another dialog replaces it.
    Open(NextDialog),
    /// Its help is shown.
    Help,
}

/// A dialog's reaction to a key.
#[derive(Debug, Clone)]
pub struct DialogOutcome {
    pub apply: Option<Command>,
    pub side_effect: Option<DialogSideEffect>,
    pub status: Option<String>,
    pub follow: Follow,
}

/// The outcome with nothing but `follow`.
pub open spec fn only(follow: Follow) -> DialogOutcome {
    DialogOutcome { apply: None, side_effect: None, status: None, follow }
}

/// Build an outcome.
fn outcome(apply: Option<Command>, side_effect: Option<DialogSideEffect>, status: Option<String>, follow: Follow) -> (o: DialogOutcome)
    ensures
        o == (DialogOutcome { apply, side_effect, status, follow }),
{
    DialogOutcome { apply, side_effect, status, follow }
}

/// The text `prefix'name'`.
pub open spec fn quoted_status(prefix: Seq<char>, name: Seq<char>) -> Seq<char> {
    prefix + name + "'"@
}

/// The status `prefix'name'` as a string.
fn status_text(prefix: &str, name: &str) -> (s: String)
    ensures
        s@ == quoted_status(prefix@, name@),
{
    concat3(prefix, name, "'")
}

/// The key is one of the given characters.
pub open spec fn is_char(key: Key, a: char, b: char) -> bool {
    key.code == KeyCode::Char(a) || key.code == KeyCode::Char(b)
}

/// Number of labels of an optional board (0 without one).
pub open spec fn label_count(board: Option<&LoadedBoard>) -> nat {
    match board {
        Some(b) => b.meta.labels@.len(),
        None => 0,
    }
}

/// The label manager: create, rename, recolor, reorder and delete the
/// board's labels.
#[derive(Debug, Clone, Copy, PartialEq, Eq, Structural)]
pub struct LabelManager {
    pub selected_idx: usize,
    /// Opened from the label picker: closing returns there.
    pub from_picker: bool,
}

/// Picking labels for the selected card.
#[derive(Debug, Clone, Copy, PartialEq, Eq, Structural)]
pub struct LabelPicker {
    pub selected_idx: usize,
}

/// Confirming the deletion of a label.
#[derive(Debug, Clone, Copy, PartialEq, Eq, Structural)]
pub struct ConfirmDeleteLabel {
    pub label_idx: usize,
    pub from_picker: bool,
}

impl LabelManager {
    /// Up and Down move the selection; with Shift they move the label in
    /// the palette. `n` starts a new label, `e` renames, `c` cycles the
    /// color (a custom color becomes `custom_next`, its hue rotated by the
    /// caller), `C` opens the color picker, `d` asks to delete, `?` shows
    /// help, Esc closes (back to the picker when opened from it).
    pub fn handle_key(&mut self, key: Key, board: Option<&LoadedBoard>, custom_next: LabelColor) -> (o: DialogOutcome)
        ensures
            final(self).from_picker == old(self).from_picker,
            label_manager_step(*old(self), key, board, custom_next, final(self).selected_idx, o),
    {
        let label_count = match board {
            Some(b) => b.meta.labels.len(),
            None => 0,
        };
        let sel = self.selected_idx;
        match key.code {
            KeyCode::Down => {
                if !key.shift {
                    if label_count > 0 && sel < label_count - 1 {
                        self.selected_idx = sel + 1;
                    }
                    return outcome(None, None, None, Follow::Stay);
                }
                if label_count > 0 && sel < label_count - 1 {
                    self.selected_idx = sel + 1;
                    return outcome(None, Some(DialogSideEffect::ReorderLabels { from: sel, to: sel + 1 }), None, Follow::Stay);
                }
                outcome(None, None, None, Follow::Stay)
            },
            KeyCode::Up => {
                if sel > 0 {
                    self.selected_idx = sel - 1;
                    if key.shift {
                        return outcome(None, Some(DialogSideEffect::ReorderLabels { from: sel, to: sel - 1 }), None, Follow::Stay);
                    }
                }
                outcome(None, None, None, Follow::Stay)
            },
            KeyCode::Char('n') => outcome(
                None,
                Some(DialogSideEffect::StartNewLabelInsert { from_picker: self.from_picker }),
                None,
                Follow::Stay,
            ),
            KeyCode::Char('e') => {
                if let Some(b) = board {
                    if sel < b.meta.labels.len() {
                        return outcome(
                            None,
                            Some(DialogSideEffect::StartRenameLabelInsert {
                                label_idx: sel,
                                current_name: b.meta.labels[sel].name.clone(),
                                from_picker: self.from_picker,
                            }),
                            None,
                            Follow::Stay,
                        );
                    }
                }
                outcome(None, None, None, Follow::Stay)
            },
            KeyCode::Char('c') => {
                if let Some(b) = board {
                    if sel < b.meta.labels.len() {
                        let l = &b.meta.labels[sel];
                        let color = match l.color.next() {
                            Some(c) => c,
                            None => custom_next,
                        };
                        return outcome(
                            Some(Command::SetLabelColor { label_id: l.id.clone(), color }),
                            None,
                            None,
                            Follow::Stay,
                        );
                    }
                }
                outcome(None, None, None, Follow::Stay)
            },
            KeyCode::Char('C') => {
                if let Some(b) = board {
                    if sel < b.meta.labels.len() {
                        let l = &b.meta.labels[sel];
                        return outcome(
                            None,
                            None,
                            None,
                            Follow::Open(NextDialog::ColorPickerForLabel {
                                color: l.color,
                                label_id: l.id.clone(),
                                label_idx: sel,
                                from_picker: self.from_picker,
                            }),
                        );
                    }
                }
                outcome(None, None, None, Follow::Stay)
            },
            KeyCode::Char('d') => {
                if label_count > 0 {
                    return outcome(
                        None,
                        None,
                        None,
                        Follow::Open(NextDialog::ConfirmDeleteLabel(ConfirmDeleteLabel { label_idx: sel, from_picker: self.from_picker })),
                    );
                }
                outcome(None, None, None, Follow::Stay)
            },
            KeyCode::Char('?') => outcome(None, None, None, Follow::Help),
            KeyCode::Esc => {
                if self.from_picker {
                    outcome(None, None, None, Follow::Open(NextDialog::LabelPicker(LabelPicker { selected_idx: 0 })))
                } else {
                    outcome(None, None, None, Follow::Close)
                }
            },
            _ => outcome(None, None, None, Follow::Stay),
        }
    }
}

/// The label at the manager's selection, if the board has it.
pub open spec fn selected_label(board: Option<&LoadedBoard>, idx: usize) -> Option<crate::model::label::Label> {
    match board {
        Some(b) => if idx < b.meta.labels@.len() { Some(b.meta.labels@[idx as int]) } else { None },
        None => None,
    }
}

/// What a key does to the label manager `m`: `sel` is the new selection,
/// `o` the outcome.
pub open spec fn label_manager_step(
    m: LabelManager,
    key: Key,
    board: Option<&LoadedBoard>,
    custom_next: LabelColor,
    sel: usize,
    o: DialogOutcome,
) -> bool {
    let n = label_count(board);
    let i = m.selected_idx;
    let stay = only(Follow::Stay);
    match key.code {
        KeyCode::Down => if n > 0 && i + 1 < n {
            sel == i + 1 && o == if key.shift {
                DialogOutcome {
                    side_effect: Some(DialogSideEffect::ReorderLabels { from: i, to: (i + 1) as usize }),
                    ..stay
                }
            } else {
                stay
            }
        } else {
            sel == i && o == stay
        },
        KeyCode::Up => if i > 0 {
            sel == i - 1 && o == if key.shift {
                DialogOutcome {
                    side_effect: Some(DialogSideEffect::ReorderLabels { from: i, to: (i - 1) as usize }),
                    ..stay
                }
            } else {
                stay
            }
        } else {
            sel == i && o == stay
        },
        KeyCode::Char('n') => sel == i && o == DialogOutcome {
            side_effect: Some(DialogSideEffect::StartNewLabelInsert { from_picker: m.from_picker }),
            ..stay
        },
        KeyCode::Char('e') => sel == i && match selected_label(board, i) {
            Some(l) => o == DialogOutcome {
                side_effect: Some(DialogSideEffect::StartRenameLabelInsert {
                    label_idx: i,
                    current_name: l.name,
                    from_picker: m.from_picker,
                }),
                ..stay
            },
            None => o == stay,
        },
        KeyCode::Char('c') => sel == i && match selected_label(board, i) {
            Some(l) => o == DialogOutcome {
                apply: Some(Command::SetLabelColor {
                    label_id: l.id,
                    color: match next_named(l.color) {
                        Some(c) => c,
                        None => custom_next,
                    },
                }),
                ..stay
            },
            None => o == stay,
        },
        KeyCode::Char('C') => sel == i && match selected_label(board, i) {
            Some(l) => o == only(Follow::Open(NextDialog::ColorPickerForLabel {
                color: l.color,
                label_id: l.id,
                label_idx: i,
                from_picker: m.from_picker,
            })),
            None => o == stay,
        },
        KeyCode::Char('d') => sel == i && o == if n > 0 {
            only(Follow::Open(NextDialog::ConfirmDeleteLabel(ConfirmDeleteLabel { label_idx: i, from_picker: m.from_picker })))
        } else {
            stay
        },
        KeyCode::Char('?') => sel == i && o == only(Follow::Help),
        KeyCode::Esc => sel == i && o == if m.from_picker {
            only(Follow::Open(NextDialog::LabelPicker(LabelPicker { selected_idx: 0 })))
        } else {
            only(Follow::Close)
        },
        _ => sel == i && o == stay,
    }
}

/// `o` carries the status `prefix'name'` and nothing else but `apply`,
/// `side_effect` and `follow` as given.
pub open spec fn with_status(o: DialogOutcome, apply: Option<Command>, side_effect: Option<DialogSideEffect>, follow: Follow, prefix: Seq<char>, name: Seq<char>) -> bool {
    &&& o.apply == apply
    &&& o.side_effect == side_effect
    &&& o.follow == follow
    &&& o.status matches Some(t) && t@ == quoted_status(prefix, name)
}

impl LabelPicker {
    /// `L` opens the label manager, `?` shows help. With labels, Up and
    /// Down move the selection and Enter or Space toggle the selected label
    /// on the selected card; Esc closes.
    pub fn handle_key(&mut self, key: Key, board: Option<&LoadedBoard>) -> (o: DialogOutcome)
        ensures
            ({
                let n = label_count(board);
                let i = old(self).selected_idx;
                let stay = only(Follow::Stay);
                if key.code == KeyCode::Char('L') {
                    final(self).selected_idx == i && o == only(Follow::Open(NextDialog::LabelManager(LabelManager { selected_idx: 0, from_picker: true })))
                } else if key.code == KeyCode::Char('?') {
                    final(self).selected_idx == i && o == only(Follow::Help)
                } else if key.code == KeyCode::Esc {
                    final(self).selected_idx == i && o == only(Follow::Close)
                } else if n == 0 {
                    final(self).selected_idx == i && o == stay
                } else if key.code == KeyCode::Down && i + 1 < n {
                    final(self).selected_idx == i + 1 && o == stay
                } else if key.code == KeyCode::Up && i > 0 {
                    final(self).selected_idx == i - 1 && o == stay
                } else if key.code == KeyCode::Enter || key.code == KeyCode::Char(' ') {
                    final(self).selected_idx == i && match (selected_label(board, i), current_card_id_of(*board->0)) {
                        (Some(l), Some(cid)) => o == DialogOutcome {
                            apply: Some(Command::ToggleLabel { card_id: cid, label_id: l.id }),
                            ..stay
                        },
                        _ => o == stay,
                    }
                } else {
                    final(self).selected_idx == i && o == stay
                }
            }),
    {
        let n = match board {
            Some(b) => b.meta.labels.len(),
            None => 0,
        };
        let stay = outcome(None, None, None, Follow::Stay);
        match key.code {
            KeyCode::Char('L') => {
                return outcome(None, None, None, Follow::Open(NextDialog::LabelManager(LabelManager { selected_idx: 0, from_picker: true })));
            },
            KeyCode::Char('?') => {
                return outcome(None, None, None, Follow::Help);
            },
            KeyCode::Esc => {
                return outcome(None, None, None, Follow::Close);
            },
            _ => {},
        }
        if n == 0 {
            return stay;
        }
        match key.code {
            KeyCode::Down => {
                if self.selected_idx < n - 1 {
                    self.selected_idx += 1;
                }
                stay
            },
            KeyCode::Up => {
                if self.selected_idx > 0 {
                    self.selected_idx -= 1;
                }
                stay
            },
            KeyCode::Enter | KeyCode::Char(' ') => {
                if let Some(b) = board {
                    if self.selected_idx < b.meta.labels.len() {
                        match b.current_card_id() {
                            Some(cid) => {
                                return outcome(
                                    Some(Command::ToggleLabel { card_id: cid.clone(), label_id: b.meta.labels[self.selected_idx].id.clone() }),
                                    None,
                                    None,
                                    Follow::Stay,
                                );
                            },
                            None => {},
                        }
                    }
                }
                stay
            },
            _ => stay,
        }
    }
}

impl ConfirmDeleteLabel {
    /// `y` deletes the label (when the board still has it) and reopens the
    /// label manager; `n` or Esc reopen it without deleting; `?` shows help.
    pub fn handle_key(&mut self, key: Key, board: Option<&LoadedBoard>) -> (o: DialogOutcome)
        ensures
            *final(self) == *old(self),
            ({
                let back = Follow::Open(NextDialog::LabelManager(LabelManager { selected_idx: old(self).label_idx, from_picker: old(self).from_picker }));
                if is_char(key, 'y', 'Y') {
                    match selected_label(board, old(self).label_idx) {
                        Some(l) => with_status(o, Some(Command::DeleteLabel { label_id: l.id }), None, back, "Deleted label '"@, l.name@),
                        None => o == only(back),
                    }
                } else if is_char(key, 'n', 'N') || key.code == KeyCode::Esc {
                    o == only(back)
                } else if key.code == KeyCode::Char('?') {
                    o == only(Follow::Help)
                } else {
                    o == only(Follow::Stay)
                }
            }),
    {
        let back = Follow::Open(NextDialog::LabelManager(LabelManager { selected_idx: self.label_idx, from_picker: self.from_picker }));
        match key.code {
            KeyCode::Char('y') | KeyCode::Char('Y') => {
                if let Some(b) = board {
                    if self.label_idx < b.meta.labels.len() {
                        let l = &b.meta.labels[self.label_idx];
                        let st = status_text("Deleted label '", l.name.as_str());
                        return outcome(Some(Command::DeleteLabel { label_id: l.id.clone() }), None, Some(st), back);
                    }
                }
                outcome(None, None, None, back)
            },
            KeyCode::Char('n') | KeyCode::Char('N') | KeyCode::Esc => outcome(None, None, None, back),
            KeyCode::Char('?') => outcome(None, None, None, Follow::Help),
            _ => outcome(None, None, None, Follow::Stay),
        }
    }
}

/// Confirming the archiving of the board selected in the board selector.
#[derive(Debug, Clone)]
pub struct ConfirmArchiveBoard {
    pub board_name: String,
}

impl ConfirmArchiveBoard {
    /// `y` archives the selected board and returns to the board selector;
    /// `n` or Esc return without archiving; `?` shows help.
    pub fn handle_key(&mut self, key: Key, _board: Option<&LoadedBoard>) -> (o: DialogOutcome)
        ensures
            final(self).board_name == old(self).board_name,
            if is_char(key, 'y', 'Y') {
                with_status(
                    o,
                    None,
                    Some(DialogSideEffect::ArchiveSelectedBoard),
                    Follow::CloseTo(AppMode::BoardSelector),
                    "Archived board '"@,
                    old(self).board_name@,
                )
            } else if is_char(key, 'n', 'N') || key.code == KeyCode::Esc {
                o == only(Follow::CloseTo(AppMode::BoardSelector))
            } else if key.code == KeyCode::Char('?') {
                o == only(Follow::Help)
            } else {
                o == only(Follow::Stay)
            },
    {
        match key.code {
            KeyCode::Char('y') | KeyCode::Char('Y') => {
                let st = status_text("Archived board '", self.board_name.as_str());
                outcome(None, Some(DialogSideEffect::ArchiveSelectedBoard), Some(st), Follow::CloseTo(AppMode::BoardSelector))
            },
            KeyCode::Char('n') | KeyCode::Char('N') | KeyCode::Esc => outcome(None, None, None, Follow::CloseTo(AppMode::BoardSelector)),
            KeyCode::Char('?') => outcome(None, None, None, Follow::Help),
            _ => outcome(None, None, None, Follow::Stay),
        }
    }

    /// Drawn over the board selector.
    pub fn background(&self) -> (b: DialogBackground)
        ensures
            b == DialogBackground::BoardSelector,
    {
        DialogBackground::BoardSelector
    }
}

/// The selected card of an optional board, if its id names a card.
pub open spec fn selected_card(board: Option<&LoadedBoard>) -> Option<Card> {
    match board {
        Some(b) => match current_card_id_of(*b) {
            Some(id) => if index_of(b.cards@, id@) >= 0 { Some(b.cards@[index_of(b.cards@, id@)]) } else { None },
            None => None,
        },
        None => None,
    }
}

/// Confirming the archiving of the selected card.
#[derive(Debug, Clone, Copy, PartialEq, Eq, Structural)]
pub struct ConfirmArchiveCard;

impl ConfirmArchiveCard {
    /// `y` archives the selected card (closing in any case); `n` or Esc
    /// close.
    pub fn handle_key(&mut self, key: Key, board: Option<&LoadedBoard>) -> (o: DialogOutcome)
        ensures
            if is_char(key, 'y', 'Y') {
                match selected_card(board) {
                    Some(c) => with_status(o, Some(Command::ArchiveCard { card_id: c.id }), None, Follow::Close, "Archived card '"@, c.title@),
                    None => o == only(Follow::Close),
                }
            } else if is_char(key, 'n', 'N') || key.code == KeyCode::Esc {
                o == only(Follow::Close)
            } else {
                o == only(Follow::Stay)
            },
    {
        match key.code {
            KeyCode::Char('y') | KeyCode::Char('Y') => {
                if let Some(b) = board {
                    if let Some(c) = b.current_card() {
                        let st = status_text("Archived card '", c.title.as_str());
                        return outcome(Some(Command::ArchiveCard { card_id: c.id.clone() }), None, Some(st), Follow::Close);
                    }
                }
                outcome(None, None, None, Follow::Close)
            },
            KeyCode::Char('n') | KeyCode::Char('N') | KeyCode::Esc => outcome(None, None, None, Follow::Close),
            _ => outcome(None, None, None, Follow::Stay),
        }
    }
}

/// The selected list of an optional board.
pub open spec fn selected_list(board: Option<&LoadedBoard>) -> Option<CardList> {
    match board {
        Some(b) => if b.selected_list < b.lists@.len() { Some(b.lists@[b.selected_list as int]) } else { None },
        None => None,
    }
}

/// Confirming the archiving of the selected list.
#[derive(Debug, Clone, Copy, PartialEq, Eq, Structural)]
pub struct ConfirmArchiveList;

impl ConfirmArchiveList {
    /// `y` archives the selected list (closing in any case); `n` or Esc
    /// close; `?` shows help.
    pub fn handle_key(&mut self, key: Key, board: Option<&LoadedBoard>) -> (o: DialogOutcome)
        ensures
            if is_char(key, 'y', 'Y') {
                match selected_list(board) {
                    Some(l) => with_status(o, Some(Command::ArchiveList { list_id: l.id }), None, Follow::Close, "Archived list '"@, l.name@),
                    None => o == only(Follow::Close),
                }
            } else if is_char(key, 'n', 'N') || key.code == KeyCode::Esc {
                o == only(Follow::Close)
            } else if key.code == KeyCode::Char('?') {
                o == only(Follow::Help)
            } else {
                o == only(Follow::Stay)
            },
    {
        match key.code {
            KeyCode::Char('y') | KeyCode::Char('Y') => {
                if let Some(b) = board {
                    if b.selected_list < b.lists.len() {
                        let l = &b.lists[b.selected_list];
                        let st = status_text("Archived list '", l.name.as_str());
                        return outcome(Some(Command::ArchiveList { list_id: l.id.clone() }), None, Some(st), Follow::Close);
                    }
                }
                outcome(None, None, None, Follow::Close)
            },
            KeyCode::Char('n') | KeyCode::Char('N') | KeyCode::Esc => outcome(None, None, None, Follow::Close),
            KeyCode::Char('?') => outcome(None, None, None, Follow::Help),
            _ => outcome(None, None, None, Follow::Stay),
        }
    }
}

/// Confirming that an edited description is discarded.
#[derive(Debug, Clone, Copy, PartialEq, Eq, Structural)]
pub struct ConfirmCancelEdit;

impl ConfirmCancelEdit {
    /// `y` discards the edit, `n` or Esc go back to it, `?` shows help.
    pub fn handle_key(&mut self, key: Key, _board: Option<&LoadedBoard>) -> (o: DialogOutcome)
        ensures
            o == if is_char(key, 'y', 'Y') {
                DialogOutcome { side_effect: Some(DialogSideEffect::DiscardDescriptionEdit), ..only(Follow::Stay) }
            } else if is_char(key, 'n', 'N') || key.code == KeyCode::Esc {
                DialogOutcome { side_effect: Some(DialogSideEffect::ResumeDescriptionEdit), ..only(Follow::Stay) }
            } else if key.code == KeyCode::Char('?') {
                only(Follow::Help)
            } else {
                only(Follow::Stay)
            },
    {
        match key.code {
            KeyCode::Char('y') | KeyCode::Char('Y') => outcome(None, Some(DialogSideEffect::DiscardDescriptionEdit), None, Follow::Stay),
            KeyCode::Char('n') | KeyCode::Char('N') | KeyCode::Esc => outcome(None, Some(DialogSideEffect::ResumeDescriptionEdit), None, Follow::Stay),
            KeyCode::Char('?') => outcome(None, None, None, Follow::Help),
            _ => outcome(None, None, None, Follow::Stay),
        }
    }
}

/// The history of the selected card, scrolled.
#[derive(Debug, Clone, Copy, PartialEq, Eq, Structural)]
pub struct CardHistory {
    pub scroll: usize,
}

/// `a + b`, capped at `usize::MAX`.
pub open spec fn sat_add(a: usize, b: usize) -> usize {
    if a + b > usize::MAX { usize::MAX } else { (a + b) as usize }
}

/// `a - b`, floored at zero.
pub open spec fn sat_sub(a: usize, b: usize) -> usize {
    if a >= b { (a - b) as usize } else { 0 }
}

impl CardHistory {
    /// Down/`j` and Up/`k` scroll by one, PageDown/PageUp by ten (never
    /// below the top), Home/`g` jump to the top, `?` shows help, Esc, `q`
    /// and `h` close.
    pub fn handle_key(&mut self, key: Key, _board: Option<&LoadedBoard>) -> (o: DialogOutcome)
        ensures
            final(self).scroll == if key.code == KeyCode::Down || key.code == KeyCode::Char('j') {
                sat_add(old(self).scroll, 1)
            } else if key.code == KeyCode::Up || key.code == KeyCode::Char('k') {
                sat_sub(old(self).scroll, 1)
            } else if key.code == KeyCode::PageDown {
                sat_add(old(self).scroll, 10)
            } else if key.code == KeyCode::PageUp {
                sat_sub(old(self).scroll, 10)
            } else if key.code == KeyCode::Home || key.code == KeyCode::Char('g') {
                0
            } else {
                old(self).scroll
            },
            o == if key.code == KeyCode::Char('?') {
                only(Follow::Help)
            } else if key.code == KeyCode::Esc || key.code == KeyCode::Char('q') || key.code == KeyCode::Char('h') {
                only(Follow::Close)
            } else {
                only(Follow::Stay)
            },
    {
        match key.code {
            KeyCode::Down | KeyCode::Char('j') => {
                self.scroll = self.scroll.saturating_add(1);
                outcome(None, None, None, Follow::Stay)
            },
            KeyCode::Up | KeyCode::Char('k') => {
                self.scroll = self.scroll.saturating_sub(1);
                outcome(None, None, None, Follow::Stay)
            },
            KeyCode::PageDown => {
                self.scroll = self.scroll.saturating_add(10);
                outcome(None, None, None, Follow::Stay)
            },
            KeyCode::PageUp => {
                self.scroll = self.scroll.saturating_sub(10);
                outcome(None, None, None, Follow::Stay)
            },
            KeyCode::Home | KeyCode::Char('g') => {
                self.scroll = 0;
                outcome(None, None, None, Follow::Stay)
            },
            KeyCode::Char('?') => outcome(None, None, None, Follow::Help),
            KeyCode::Esc | KeyCode::Char('q') | KeyCode::Char('h') => outcome(None, None, None, Follow::Close),
            _ => outcome(None, None, None, Follow::Stay),
        }
    }
}

/// The selection after the entry at `sel` left a list now `len` long: it
/// stays, unless it pointed past the end, where it moves to the last entry.
pub open spec fn selection_after_removal(sel: usize, len: nat) -> usize {
    if sel > 0 && sel >= len {
        if len > 0 { (len - 1) as usize } else { 0 }
    } else {
        sel
    }
}

fn reselect(sel: usize, len: usize) -> (r: usize)
    ensures
        r == selection_after_removal(sel, len as nat),
{
    if sel > 0 && sel >= len {
        if len > 0 { len - 1 } else { 0 }
    } else {
        sel
    }
}

/// The follow of a list dialog once an entry is gone: close when none is
/// left.
pub open spec fn close_when_empty(len: nat, close: Follow) -> Follow {
    if len == 0 { close } else { Follow::Stay }
}

/// The archived lists of the board: restore with Enter, delete with `x`.
#[derive(Debug)]
pub struct ArchivedLists {
    pub lists: Vec<CardList>,
    pub selected: usize,
}

impl ArchivedLists {
    /// Up and Down move the selection; Enter restores the selected list
    /// and `x` deletes it with its cards, each taking it off the dialog
    /// (which closes when empty); Esc closes.
    pub fn handle_key(&mut self, key: Key, _board: Option<&LoadedBoard>) -> (o: DialogOutcome)
        ensures
            ({
                let n = old(self).lists@.len();
                let i = old(self).selected;
                if (key.code == KeyCode::Enter || key.code == KeyCode::Char('x')) && i < n {
                    let l = old(self).lists@[i as int];
                    let rest = old(self).lists@.remove(i as int);
                    &&& final(self).lists@ == rest
                    &&& final(self).selected == selection_after_removal(i, rest.len())
                    &&& if key.code == KeyCode::Enter {
                        with_status(o, Some(Command::RestoreList { list_id: l.id }), None, close_when_empty(rest.len(), Follow::Close), "Restored list '"@, l.name@)
                    } else {
                        with_status(
                            o,
                            None,
                            Some(DialogSideEffect::DeleteArchivedList { list_id: l.id, card_ids: l.card_ids }),
                            close_when_empty(rest.len(), Follow::Close),
                            "Deleted list '"@,
                            l.name@,
                        )
                    }
                } else {
                    &&& final(self).lists@ == old(self).lists@
                    &&& final(self).selected == if key.code == KeyCode::Down && i + 1 < n {
                        (i + 1) as usize
                    } else if key.code == KeyCode::Up && i > 0 {
                        (i - 1) as usize
                    } else {
                        i
                    }
                    &&& o == if key.code == KeyCode::Esc { only(Follow::Close) } else { only(Follow::Stay) }
                }
            }),
    {
        let n = self.lists.len();
        match key.code {
            KeyCode::Down => {
                if n > 0 && self.selected < n - 1 {
                    self.selected += 1;
                }
                outcome(None, None, None, Follow::Stay)
            },
            KeyCode::Up => {
                if self.selected > 0 {
                    self.selected -= 1;
                }
                outcome(None, None, None, Follow::Stay)
            },
            KeyCode::Enter | KeyCode::Char('x') => {
                if self.selected >= n {
                    return outcome(None, None, None, Follow::Stay);
                }
                let l = self.lists.remove(self.selected);
                self.selected = reselect(self.selected, self.lists.len());
                let follow = if self.lists.len() == 0 { Follow::Close } else { Follow::Stay };
                if key.code == KeyCode::Enter {
                    let st = status_text("Restored list '", l.name.as_str());
                    outcome(Some(Command::RestoreList { list_id: l.id }), None, Some(st), follow)
                } else {
                    let st = status_text("Deleted list '", l.name.as_str());
                    outcome(None, Some(DialogSideEffect::DeleteArchivedList { list_id: l.id, card_ids: l.card_ids }), Some(st), follow)
                }
            },
            KeyCode::Esc => outcome(None, None, None, Follow::Close),
            _ => outcome(None, None, None, Follow::Stay),
        }
    }
}

/// The archived cards of the board: restore with Enter, delete with `x`.
#[derive(Debug)]
pub struct ArchivedCards {
    pub cards: Vec<Card>,
    pub selected: usize,
}

impl ArchivedCards {
    /// Up and Down move the selection; Enter restores the selected card
    /// and `x` deletes it, each taking it off the dialog (which closes when
    /// empty); Esc closes.
    pub fn handle_key(&mut self, key: Key, _board: Option<&LoadedBoard>) -> (o: DialogOutcome)
        ensures
            ({
                let n = old(self).cards@.len();
                let i = old(self).selected;
                if (key.code == KeyCode::Enter || key.code == KeyCode::Char('x')) && i < n {
                    let c = old(self).cards@[i as int];
                    let rest = old(self).cards@.remove(i as int);
                    &&& final(self).cards@ == rest
                    &&& final(self).selected == selection_after_removal(i, rest.len())
                    &&& if key.code == KeyCode::Enter {
                        with_status(o, None, Some(DialogSideEffect::StageAndRestoreCard { card: c }), close_when_empty(rest.len(), Follow::Close), "Restored '"@, c.title@)
                    } else {
                        with_status(o, None, Some(DialogSideEffect::DeleteArchivedCard { card_id: c.id }), close_when_empty(rest.len(), Follow::Close), "Deleted '"@, c.title@)
                    }
                } else {
                    &&& final(self).cards@ == old(self).cards@
                    &&& final(self).selected == if key.code == KeyCode::Down && i + 1 < n {
                        (i + 1) as usize
                    } else if key.code == KeyCode::Up && i > 0 {
                        (i - 1) as usize
                    } else {
                        i
                    }
                    &&& o == if key.code == KeyCode::Esc { only(Follow::Close) } else { only(Follow::Stay) }
                }
            }),
    {
        let n = self.cards.len();
        match key.code {
            KeyCode::Down => {
                if n > 0 && self.selected < n - 1 {
                    self.selected += 1;
                }
                outcome(None, None, None, Follow::Stay)
            },
            KeyCode::Up => {
                if self.selected > 0 {
                    self.selected -= 1;
                }
                outcome(None, None, None, Follow::Stay)
            },
            KeyCode::Enter | KeyCode::Char('x') => {
                if self.selected >= n {
                    return outcome(None, None, None, Follow::Stay);
                }
                let c = self.cards.remove(self.selected);
                self.selected = reselect(self.selected, self.cards.len());
                let follow = if self.cards.len() == 0 { Follow::Close } else { Follow::Stay };
                if key.code == KeyCode::Enter {
                    let st = status_text("Restored '", c.title.as_str());
                    outcome(None, Some(DialogSideEffect::StageAndRestoreCard { card: c }), Some(st), follow)
                } else {
                    let st = status_text("Deleted '", c.title.as_str());
                    outcome(None, Some(DialogSideEffect::DeleteArchivedCard { card_id: c.id }), Some(st), follow)
                }
            },
            KeyCode::Esc => outcome(None, None, None, Follow::Close),
            _ => outcome(None, None, None, Follow::Stay),
        }
    }
}

/// The archived boards: restore with Enter, delete with `x`.
#[derive(Debug)]
pub struct ArchivedBoards {
    pub boards: Vec<BoardMeta>,
    pub selected: usize,
}

impl ArchivedBoards {
    /// Up and Down move the selection; Enter restores the selected board
    /// and `x` deletes it, each taking it off the dialog (which returns to
    /// the board selector when empty); Esc returns to the board selector.
    pub fn handle_key(&mut self, key: Key, _board: Option<&LoadedBoard>) -> (o: DialogOutcome)
        ensures
            ({
                let n = old(self).boards@.len();
                let i = old(self).selected;
                let back = Follow::CloseTo(AppMode::BoardSelector);
                if (key.code == KeyCode::Enter || key.code == KeyCode::Char('x')) && i < n {
                    let m = old(self).boards@[i as int];
                    let rest = old(self).boards@.remove(i as int);
                    &&& final(self).boards@ == rest
                    &&& final(self).selected == selection_after_removal(i, rest.len())
                    &&& if key.code == KeyCode::Enter {
                        with_status(o, None, Some(DialogSideEffect::RestoreArchivedBoard { board_id: m.id }), close_when_empty(rest.len(), back), "Restored board '"@, m.name@)
                    } else {
                        with_status(o, None, Some(DialogSideEffect::DeleteArchivedBoard { board_id: m.id }), close_when_empty(rest.len(), back), "Deleted board '"@, m.name@)
                    }
                } else {
                    &&& final(self).boards@ == old(self).boards@
                    &&& final(self).selected == if key.code == KeyCode::Down && i + 1 < n {
                        (i + 1) as usize
                    } else if key.code == KeyCode::Up && i > 0 {
                        (i - 1) as usize
                    } else {
                        i
                    }
                    &&& o == if key.code == KeyCode::Esc { only(back) } else { only(Follow::Stay) }
                }
            }),
    {
        let n = self.boards.len();
        match key.code {
            KeyCode::Down => {
                if n > 0 && self.selected < n - 1 {
                    self.selected += 1;
                }
                outcome(None, None, None, Follow::Stay)
            },
            KeyCode::Up => {
                if self.selected > 0 {
                    self.selected -= 1;
                }
                outcome(None, None, None, Follow::Stay)
            },
            KeyCode::Enter | KeyCode::Char('x') => {
                if self.selected >= n {
                    return outcome(None, None, None, Follow::Stay);
                }
                let m = self.boards.remove(self.selected);
                self.selected = reselect(self.selected, self.boards.len());
                let follow = if self.boards.len() == 0 { Follow::CloseTo(AppMode::BoardSelector) } else { Follow::Stay };
                if key.code == KeyCode::Enter {
                    let st = status_text("Restored board '", m.name.as_str());
                    outcome(None, Some(DialogSideEffect::RestoreArchivedBoard { board_id: m.id }), Some(st), follow)
                } else {
                    let st = status_text("Deleted board '", m.name.as_str());
                    outcome(None, Some(DialogSideEffect::DeleteArchivedBoard { board_id: m.id }), Some(st), follow)
                }
            },
            KeyCode::Esc => outcome(None, None, None, Follow::CloseTo(AppMode::BoardSelector)),
            _ => outcome(None, None, None, Follow::Stay),
        }
    }

    /// Drawn over the board selector.
    pub fn background(&self) -> (b: DialogBackground)
        ensures
            b == DialogBackground::BoardSelector,
    {
        DialogBackground::BoardSelector
    }
}

/// Up and Down move the label manager's selection by one label, within
/// the board's labels; with Shift, a move always carries the label along:
/// the outcome asks to reorder the label from the old selection to the new
/// one, and nothing else. Without a move, or without Shift, nothing is
/// reordered.
pub proof fn lemma_label_manager_moves(
    m: LabelManager,
    key: Key,
    board: Option<&LoadedBoard>,
    custom_next: LabelColor,
    sel: usize,
    o: DialogOutcome,
)
    requires
        label_manager_step(m, key, board, custom_next, sel, o),
        key.code == KeyCode::Up || key.code == KeyCode::Down,
    ensures
        key.code == KeyCode::Up ==> (sel == m.selected_idx || sel + 1 == m.selected_idx),
        key.code == KeyCode::Down ==> (sel == m.selected_idx || (sel == m.selected_idx + 1 && sel < label_count(board))),
        o.apply is None && o.status is None && o.follow == Follow::Stay,
        key.shift && sel != m.selected_idx ==> o.side_effect == Some(
            DialogSideEffect::ReorderLabels { from: m.selected_idx, to: sel },
        ),
        !key.shift || sel == m.selected_idx ==> o.side_effect is None,
{
}

} // verus!
