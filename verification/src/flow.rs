//! What follows an insert handler's or a dialog's reaction to a key: the
//! status line, closing the handler or dialog, opening the next one. The
//! caller applies the reaction's command and performs its file work first,
//! and calls these once that succeeded.

use vstd::prelude::*;

use crate::board_editor::{index_of, BoardEditor, LoadedBoard};
use crate::command::Command;
use crate::dialog::help::{
    card_history_help_rows, confirm_archive_board_help_rows, confirm_archive_list_help_rows,
    confirm_cancel_edit_help_rows, confirm_delete_label_help_rows, help_rows, label_manager_help_rows,
    label_picker_help_rows, DialogHelp,
};
use crate::dialog::{DialogOutcome, DialogSideEffect, Follow, NextDialog};
use crate::dispatch::{ActiveDialog, ActiveInsert, Session};
use crate::insert::line_editor::{EditLabelName, NewLabelName};
use crate::insert::line_input::has_room;
use crate::insert::{InsertOutcome, InsertSideEffect};
use crate::mode::AppMode;
use crate::model::card::{date_text, format_date, Card};
use crate::model::label::LabelColor;
use crate::model::ids::ShortId;
use crate::key::{Key, KeyCode};
use crate::session::{fallback_mode, with_dialog, with_insert, without_dialog, without_insert, App};
use crate::text::{concat3, owned, push_str};

verus! {

/// The title of card `id` on the open board, or `card` without one.
pub open spec fn title_or_card(a: Session, id: Seq<char>) -> Seq<char> {
    match a.editor {
        Some(e) => if index_of(e.board.cards@, id) >= 0 {
            e.board.cards@[index_of(e.board.cards@, id)].title@
        } else {
            "card"@
        },
        None => "card"@,
    }
}

/// The session with `status` on the status line, if there is one.
pub open spec fn shown(a: Session, status: Option<String>) -> Session {
    match status {
        Some(s) => App { status_message: Some(s), ..a },
        None => a,
    }
}

/// The status line a confirmed command shows, if any.
pub open spec fn confirm_status_of(a: Session, cmd: Command) -> Option<Seq<char>> {
    match cmd {
        Command::AddCard { title, .. } => Some("Added card '"@ + title@ + "'"@),
        Command::AddList { name } => Some("Added list '"@ + name@ + "'"@),
        Command::RenameList { name, .. } => Some("Renamed list to '"@ + name@ + "'"@),
        Command::EditCardTitle { title, .. } => Some("Renamed card to '"@ + title@ + "'"@),
        Command::SetDueDate { card_id, date } => Some(
            "Due date of '"@ + title_or_card(a, card_id@) + "' set to "@ + date_text(date),
        ),
        Command::ClearDueDate { card_id } => Some("Cleared due date of '"@ + title_or_card(a, card_id@) + "'"@),
        Command::EditCardDescription { card_id, .. } => Some(
            "Saved description of '"@ + title_or_card(a, card_id@) + "'"@,
        ),
        Command::AddChecklistItem { text, .. } => Some("Added item '"@ + text@ + "'"@),
        Command::EditChecklistItem { text, .. } => Some("Saved item '"@ + text@ + "'"@),
        Command::DefineLabel { name, .. } => Some("Created label '"@ + name@ + "'"@),
        _ => None,
    }
}

/// The session after an insert handler's outcome, its command applied or
/// its side effect performed: the status line shows `status`; a confirm
/// closes the handler (to the label manager, for a new label); a cancel
/// closes it; a refused confirm keeps it open with its message.
pub open spec fn after_insert(a: Session, outcome: InsertOutcome, status: Option<String>) -> Session {
    let shown = shown(a, status);
    match outcome {
        InsertOutcome::Stay => a,
        InsertOutcome::Cancel => without_insert(a),
        InsertOutcome::CancelWithStatus(m) => App { status_message: Some(m), ..a },
        InsertOutcome::Confirm(_) => without_insert(shown),
        InsertOutcome::ConfirmAndOpenLabelManager(_, mgr) => with_dialog(
            App { insert: None, ..shown },
            ActiveDialog::LabelManager(mgr),
        ),
        InsertOutcome::OpenLabelManager(mgr) => with_dialog(App { insert: None, ..a }, ActiveDialog::LabelManager(mgr)),
        InsertOutcome::ConfirmSideEffect(_) => without_insert(shown),
    }
}

/// The status line a side effect of an insert handler shows once
/// performed.
pub open spec fn side_effect_status(eff: InsertSideEffect) -> Seq<char> {
    match eff {
        InsertSideEffect::CreateBoard { name } => "Created board '"@ + name@ + "'"@,
        InsertSideEffect::RenameSelectedBoard { new_name } => "Renamed board to '"@ + new_name@ + "'"@,
    }
}

/// What the caller is to show after a dialog's follow-up: nothing more,
/// or the color picker (which runs outside the session) preset to a
/// label's color.
#[derive(Debug, Clone)]
pub enum DialogFollowUp {
    Done,
    OpenColorPicker { color: LabelColor, label_id: ShortId, label_idx: usize, from_picker: bool },
}

/// What a dialog's side effect leaves to the caller once the session has
/// done its part.
#[derive(Debug, Clone)]
pub enum DialogWork {
    /// Nothing more.
    Done,
    /// Apply this command to the open board.
    Apply(Command),
    /// File work on archived items or the board order.
    Files(DialogSideEffect),
}

/// The session after a dialog's follow-up, its status line shown: it
/// stays (the color picker runs beside it), shows its help over it (the
/// remembered mode kept for its own close), closes to the remembered mode,
/// closes to a given mode, or is replaced.
pub open spec fn after_follow(a: Session, follow: Follow) -> Session {
    match follow {
        Follow::Stay => a,
        Follow::Help => App { mode: AppMode::Help, ..a },
        Follow::Close => without_dialog(a),
        Follow::CloseTo(m) => App { dialog: None, mode: m, ..a },
        Follow::Open(next) => match next {
            NextDialog::LabelManager(d) => App { dialog: Some(ActiveDialog::LabelManager(d)), ..a },
            NextDialog::LabelPicker(d) => App { dialog: Some(ActiveDialog::LabelPicker(d)), ..a },
            NextDialog::ConfirmDeleteLabel(d) => App { dialog: Some(ActiveDialog::ConfirmDeleteLabel(d)), ..a },
            NextDialog::ColorPickerForLabel { .. } => a,
        },
    }
}

/// What the caller shows after `follow`.
pub open spec fn follow_up_of(follow: Follow) -> DialogFollowUp {
    match follow {
        Follow::Open(NextDialog::ColorPickerForLabel { color, label_id, label_idx, from_picker }) =>
            DialogFollowUp::OpenColorPicker { color, label_id, label_idx, from_picker },
        _ => DialogFollowUp::Done,
    }
}

/// `d1` and `d2` are the same kind of dialog.
pub open spec fn same_kind(d1: ActiveDialog, d2: ActiveDialog) -> bool {
    match d1 {
        ActiveDialog::LabelManager(_) => d2 is LabelManager,
        ActiveDialog::LabelPicker(_) => d2 is LabelPicker,
        ActiveDialog::ConfirmDeleteLabel(_) => d2 is ConfirmDeleteLabel,
        ActiveDialog::ConfirmArchiveBoard(_) => d2 is ConfirmArchiveBoard,
        ActiveDialog::ConfirmArchiveCard(_) => d2 is ConfirmArchiveCard,
        ActiveDialog::ConfirmArchiveList(_) => d2 is ConfirmArchiveList,
        ActiveDialog::ConfirmCancelEdit(_) => d2 is ConfirmCancelEdit,
        ActiveDialog::CardHistory(_) => d2 is CardHistory,
        ActiveDialog::ArchivedLists(_) => d2 is ArchivedLists,
        ActiveDialog::ArchivedCards(_) => d2 is ArchivedCards,
        ActiveDialog::ArchivedBoards(_) => d2 is ArchivedBoards,
    }
}

/// The rows of the help of the dialog that is up, if it has help.
pub open spec fn dialog_help_rows(a: Session) -> Option<Seq<(Seq<char>, Seq<char>)>> {
    match a.dialog {
        None => None,
        Some(ActiveDialog::LabelManager(_)) => Some(label_manager_help_rows()),
        Some(ActiveDialog::LabelPicker(_)) => Some(label_picker_help_rows()),
        Some(ActiveDialog::ConfirmDeleteLabel(_)) => Some(confirm_delete_label_help_rows()),
        Some(ActiveDialog::ConfirmArchiveBoard(_)) => Some(confirm_archive_board_help_rows()),
        Some(ActiveDialog::ConfirmArchiveCard(_)) => None,
        Some(ActiveDialog::ConfirmArchiveList(_)) => Some(confirm_archive_list_help_rows()),
        Some(ActiveDialog::ConfirmCancelEdit(_)) => Some(confirm_cancel_edit_help_rows()),
        Some(ActiveDialog::CardHistory(_)) => Some(card_history_help_rows()),
        Some(ActiveDialog::ArchivedLists(_)) => None,
        Some(ActiveDialog::ArchivedCards(_)) => None,
        Some(ActiveDialog::ArchivedBoards(_)) => None,
    }
}

/// The session after key `key` on the help screen: Esc or `q` leaves it,
/// back to a dialog still up, else to the remembered mode (forgotten) or
/// the fallback; other keys do nothing.
pub open spec fn after_help_key(a: Session, key: Key) -> Session {
    if key.code == KeyCode::Esc || key.code == KeyCode::Char('q') {
        if a.dialog is Some {
            App { mode: AppMode::Dialog, ..a }
        } else {
            App {
                mode: match a.previous_mode {
                    Some(m) => m,
                    None => fallback_mode(a),
                },
                previous_mode: None,
                ..a
            }
        }
    } else {
        a
    }
}

/// The cards with `card` brought in: it replaces the card with its id, or
/// comes last.
pub open spec fn staged(cards: Seq<Card>, card: Card) -> Seq<Card> {
    if index_of(cards, card.id@) >= 0 {
        cards.update(index_of(cards, card.id@), card)
    } else {
        cards.push(card)
    }
}

/// `b` and `w` are the session and the caller's work after the session's
/// part of dialog side effect `eff` on session `a`.
pub open spec fn dialog_effect_done(a: Session, eff: DialogSideEffect, b: Session, w: DialogWork) -> bool {
    let undialogued = App { dialog: None, ..a };
    match eff {
        DialogSideEffect::StageAndRestoreCard { card } => {
            &&& w == DialogWork::Apply(Command::RestoreCard { card_id: card.id })
            &&& b == (App { editor: b.editor, ..a })
            &&& match a.editor {
                Some(e) => b.editor matches Some(e2) && e2 == (BoardEditor {
                    board: LoadedBoard { cards: e2.board.cards, ..e.board },
                    ..e
                }) && e2.board.cards@ == staged(e.board.cards@, card),
                None => b.editor is None,
            }
        },
        DialogSideEffect::DiscardDescriptionEdit => w == DialogWork::Done && b == (App {
            insert: None,
            dialog: None,
            mode: match a.previous_mode {
                Some(m) => m,
                None => AppMode::CardDetail,
            },
            previous_mode: None,
            ..a
        }),
        DialogSideEffect::ResumeDescriptionEdit => w == DialogWork::Done && b == (App {
            dialog: None,
            mode: AppMode::Insert,
            ..a
        }),
        DialogSideEffect::ReorderLabels { from, to } => b == a && w == match a.editor {
            Some(e) => if from < e.board.meta.labels@.len() && to < e.board.meta.labels@.len() {
                DialogWork::Apply(Command::ReorderLabels { from, to })
            } else {
                DialogWork::Done
            },
            None => DialogWork::Done,
        },
        DialogSideEffect::StartNewLabelInsert { from_picker } => {
            &&& w == DialogWork::Done
            &&& b.insert matches Some(h) && b == with_insert(undialogued, h)
            &&& b.insert matches Some(ActiveInsert::NewLabelName(n)) && n.input.buffer@.len() == 0 && n.input.cursor
                == 0 && n.label_selected_idx == 0 && n.from_picker == from_picker
        },
        DialogSideEffect::StartRenameLabelInsert { label_idx, current_name, from_picker } => {
            &&& w == DialogWork::Done
            &&& match a.editor {
                Some(e) => if label_idx < e.board.meta.labels@.len() {
                    &&& b.insert matches Some(h) && b == with_insert(undialogued, h)
                    &&& b.insert matches Some(ActiveInsert::EditLabelName(n)) && n.input.buffer@ == current_name@
                        && n.input.char_pos() == current_name@.len() && n.label_id == e.board.meta.labels@[label_idx as int].id
                        && n.label_idx == label_idx && n.from_picker == from_picker
                } else {
                    b == a
                },
                None => b == a,
            }
        },
        _ => b == a && w == DialogWork::Files(eff),
    }
}

impl App<ActiveDialog, ActiveInsert> {
    /// The title of card `id` on the open board, or `card`.
    fn title_or_card(&self, id: &ShortId) -> (t: String)
        ensures
            t@ == title_or_card(*self, id@),
    {
        match &self.editor {
            Some(e) => match crate::board_editor::find_card(&e.board.cards, id.as_str()) {
                Some(k) => owned(e.board.cards[k].title.as_str()),
                None => owned("card"),
            },
            None => owned("card"),
        }
    }

    /// The status line a confirmed command shows (see
    /// [`confirm_status_of`]); taken before the command is applied.
    pub fn confirm_status(&self, cmd: &Command) -> (s: Option<String>)
        ensures
            match confirm_status_of(*self, *cmd) {
                Some(t) => s matches Some(x) && x@ == t,
                None => s is None,
            },
    {
        match cmd {
            Command::AddCard { title, .. } => Some(concat3("Added card '", title.as_str(), "'")),
            Command::AddList { name } => Some(concat3("Added list '", name.as_str(), "'")),
            Command::RenameList { name, .. } => Some(concat3("Renamed list to '", name.as_str(), "'")),
            Command::EditCardTitle { title, .. } => Some(concat3("Renamed card to '", title.as_str(), "'")),
            Command::SetDueDate { card_id, date } => {
                let mut s = concat3("Due date of '", self.title_or_card(card_id).as_str(), "' set to ");
                push_str(&mut s, format_date(*date).as_str());
                Some(s)
            },
            Command::ClearDueDate { card_id } => Some(
                concat3("Cleared due date of '", self.title_or_card(card_id).as_str(), "'"),
            ),
            Command::EditCardDescription { card_id, .. } => Some(
                concat3("Saved description of '", self.title_or_card(card_id).as_str(), "'"),
            ),
            Command::AddChecklistItem { text, .. } => Some(concat3("Added item '", text.as_str(), "'")),
            Command::EditChecklistItem { text, .. } => Some(concat3("Saved item '", text.as_str(), "'")),
            Command::DefineLabel { name, .. } => Some(concat3("Created label '", name.as_str(), "'")),
            _ => None,
        }
    }

    /// Follows an insert handler's outcome once its command was applied
    /// (see [`after_insert`]); `status` is what [`Self::confirm_status`]
    /// gave for the command.
    pub fn finish_insert(&mut self, outcome: InsertOutcome, status: Option<String>)
        ensures
            *final(self) == after_insert(*old(self), outcome, status),
    {
        match outcome {
            InsertOutcome::Stay => {},
            InsertOutcome::Cancel => self.cancel_insert(),
            InsertOutcome::CancelWithStatus(m) => self.set_status(m),
            InsertOutcome::Confirm(_) => {
                match status {
                    Some(s) => self.set_status(s),
                    None => {},
                }
                self.cancel_insert();
            },
            InsertOutcome::ConfirmAndOpenLabelManager(_, mgr) => {
                match status {
                    Some(s) => self.set_status(s),
                    None => {},
                }
                self.insert = None;
                self.open_dialog(ActiveDialog::LabelManager(mgr));
            },
            InsertOutcome::OpenLabelManager(mgr) => {
                self.insert = None;
                self.open_dialog(ActiveDialog::LabelManager(mgr));
            },
            InsertOutcome::ConfirmSideEffect(_) => {
                match status {
                    Some(s) => self.set_status(s),
                    None => {},
                }
                self.cancel_insert();
            },
        }
    }

    /// The status line of a performed insert side effect; renaming the
    /// selected board also renames it in the list.
    pub fn side_effect_done(&mut self, eff: &InsertSideEffect) -> (s: String)
        ensures
            s@ == side_effect_status(*eff),
            match *eff {
                InsertSideEffect::RenameSelectedBoard { new_name } => {
                    &&& final(self).boards@.len() == old(self).boards@.len()
                    &&& forall|k: int|
                        0 <= k < old(self).boards@.len() ==> #[trigger] final(self).boards@[k] == if k
                            == old(self).selected_board_idx {
                            crate::model::board::BoardMeta { name: new_name, ..old(self).boards@[k] }
                        } else {
                            old(self).boards@[k]
                        }
                    &&& *final(self) == (App { boards: final(self).boards, ..*old(self) })
                },
                _ => *final(self) == *old(self),
            },
    {
        match eff {
            InsertSideEffect::CreateBoard { name } => concat3("Created board '", name.as_str(), "'"),
            InsertSideEffect::RenameSelectedBoard { new_name } => {
                let i = self.selected_board_idx;
                if i < self.boards.len() {
                    let ghost old_boards = self.boards@;
                    let mut b = self.boards.remove(i);
                    b.name = new_name.clone();
                    self.boards.insert(i, b);
                    assert(self.boards@ =~= old_boards.update(
                        i as int,
                        crate::model::board::BoardMeta { name: *new_name, ..old_boards[i as int] },
                    ));
                }
                concat3("Renamed board to '", new_name.as_str(), "'")
            },
        }
    }
    /// Passes `key` to the dialog that is up, with the open board;
    /// `custom_next` is the color the label manager gives a new custom
    /// label. The dialog stays up, of the same kind; nothing else changes.
    pub fn dialog_key(&mut self, key: Key, custom_next: LabelColor) -> (o: Option<DialogOutcome>)
        ensures
            old(self).dialog is None ==> o is None && *final(self) == *old(self),
            old(self).dialog matches Some(d) ==> o is Some && (final(self).dialog matches Some(d2) && same_kind(d, d2)),
            *final(self) == (App { dialog: final(self).dialog, ..*old(self) }),
    {
        let board = match &self.editor {
            Some(e) => Some(&e.board),
            None => None,
        };
        let (d, o) = match self.dialog.take() {
            None => (None, None),
            Some(ActiveDialog::LabelManager(mut x)) => {
                let o = x.handle_key(key, board, custom_next);
                (Some(ActiveDialog::LabelManager(x)), Some(o))
            },
            Some(ActiveDialog::LabelPicker(mut x)) => {
                let o = x.handle_key(key, board);
                (Some(ActiveDialog::LabelPicker(x)), Some(o))
            },
            Some(ActiveDialog::ConfirmDeleteLabel(mut x)) => {
                let o = x.handle_key(key, board);
                (Some(ActiveDialog::ConfirmDeleteLabel(x)), Some(o))
            },
            Some(ActiveDialog::ConfirmArchiveBoard(mut x)) => {
                let o = x.handle_key(key, board);
                (Some(ActiveDialog::ConfirmArchiveBoard(x)), Some(o))
            },
            Some(ActiveDialog::ConfirmArchiveCard(mut x)) => {
                let o = x.handle_key(key, board);
                (Some(ActiveDialog::ConfirmArchiveCard(x)), Some(o))
            },
            Some(ActiveDialog::ConfirmArchiveList(mut x)) => {
                let o = x.handle_key(key, board);
                (Some(ActiveDialog::ConfirmArchiveList(x)), Some(o))
            },
            Some(ActiveDialog::ConfirmCancelEdit(mut x)) => {
                let o = x.handle_key(key, board);
                (Some(ActiveDialog::ConfirmCancelEdit(x)), Some(o))
            },
            Some(ActiveDialog::CardHistory(mut x)) => {
                let o = x.handle_key(key, board);
                (Some(ActiveDialog::CardHistory(x)), Some(o))
            },
            Some(ActiveDialog::ArchivedLists(mut x)) => {
                let o = x.handle_key(key, board);
                (Some(ActiveDialog::ArchivedLists(x)), Some(o))
            },
            Some(ActiveDialog::ArchivedCards(mut x)) => {
                let o = x.handle_key(key, board);
                (Some(ActiveDialog::ArchivedCards(x)), Some(o))
            },
            Some(ActiveDialog::ArchivedBoards(mut x)) => {
                let o = x.handle_key(key, board);
                (Some(ActiveDialog::ArchivedBoards(x)), Some(o))
            },
        };
        self.dialog = d;
        o
    }

    /// The help of the dialog that is up (see [`dialog_help_rows`]).
    pub fn dialog_help(&self) -> (h: Option<DialogHelp>)
        ensures
            match dialog_help_rows(*self) {
                Some(rows) => h matches Some(x) && help_rows(x) == rows,
                None => h is None,
            },
    {
        match &self.dialog {
            None => None,
            Some(ActiveDialog::LabelManager(d)) => d.help(),
            Some(ActiveDialog::LabelPicker(d)) => d.help(),
            Some(ActiveDialog::ConfirmDeleteLabel(d)) => d.help(),
            Some(ActiveDialog::ConfirmArchiveBoard(d)) => d.help(),
            Some(ActiveDialog::ConfirmArchiveCard(d)) => d.help(),
            Some(ActiveDialog::ConfirmArchiveList(d)) => d.help(),
            Some(ActiveDialog::ConfirmCancelEdit(d)) => d.help(),
            Some(ActiveDialog::CardHistory(d)) => d.help(),
            Some(ActiveDialog::ArchivedLists(d)) => d.help(),
            Some(ActiveDialog::ArchivedCards(d)) => d.help(),
            Some(ActiveDialog::ArchivedBoards(d)) => d.help(),
        }
    }

    /// Handles a key on the help screen (see [`after_help_key`]).
    pub fn handle_help(&mut self, key: Key)
        ensures
            *final(self) == after_help_key(*old(self), key),
    {
        if key.code == KeyCode::Esc || key.code == KeyCode::Char('q') {
            if self.dialog.is_some() {
                self.mode = AppMode::Dialog;
            } else {
                let fallback = if self.editor.is_some() {
                    AppMode::Normal
                } else {
                    AppMode::BoardSelector
                };
                self.mode = match self.previous_mode.take() {
                    Some(m) => m,
                    None => fallback,
                };
            }
        }
    }

    /// Follows a dialog's reaction once its command was applied and its
    /// side effect performed: `status` goes to the status line, then the
    /// dialog stays, closes or is replaced (see [`after_follow`]).
    pub fn finish_dialog(&mut self, follow: Follow, status: Option<String>) -> (r: DialogFollowUp)
        ensures
            *final(self) == after_follow(shown(*old(self), status), follow),
            r == follow_up_of(follow),
    {
        match status {
            Some(s) => self.set_status(s),
            None => {},
        }
        match follow {
            Follow::Stay => DialogFollowUp::Done,
            Follow::Help => {
                self.mode = AppMode::Help;
                DialogFollowUp::Done
            },
            Follow::Close => {
                self.close_dialog();
                DialogFollowUp::Done
            },
            Follow::CloseTo(m) => {
                self.close_dialog_to(m);
                DialogFollowUp::Done
            },
            Follow::Open(next) => match next {
                NextDialog::LabelManager(d) => {
                    self.dialog = Some(ActiveDialog::LabelManager(d));
                    DialogFollowUp::Done
                },
                NextDialog::LabelPicker(d) => {
                    self.dialog = Some(ActiveDialog::LabelPicker(d));
                    DialogFollowUp::Done
                },
                NextDialog::ConfirmDeleteLabel(d) => {
                    self.dialog = Some(ActiveDialog::ConfirmDeleteLabel(d));
                    DialogFollowUp::Done
                },
                NextDialog::ColorPickerForLabel { color, label_id, label_idx, from_picker } =>
                    DialogFollowUp::OpenColorPicker { color, label_id, label_idx, from_picker },
            },
        }
    }

    /// Does the session's part of a dialog's side effect (see
    /// [`dialog_effect_done`]) and returns the caller's part.
    pub fn dialog_side_effect(&mut self, eff: DialogSideEffect) -> (w: DialogWork)
        requires
            eff matches DialogSideEffect::StartRenameLabelInsert { current_name, .. } ==> has_room(current_name@),
        ensures
            dialog_effect_done(*old(self), eff, *final(self), w),
    {
        match eff {
            DialogSideEffect::StageAndRestoreCard { card } => {
                let card_id = card.id.clone();
                match self.editor.take() {
                    Some(mut e) => {
                        e.with_extra_card(card);
                        self.editor = Some(e);
                    },
                    None => {},
                }
                DialogWork::Apply(Command::RestoreCard { card_id })
            },
            DialogSideEffect::DiscardDescriptionEdit => {
                self.insert = None;
                self.dialog = None;
                self.mode = match self.previous_mode.take() {
                    Some(m) => m,
                    None => AppMode::CardDetail,
                };
                DialogWork::Done
            },
            DialogSideEffect::ResumeDescriptionEdit => {
                self.dialog = None;
                self.mode = AppMode::Insert;
                DialogWork::Done
            },
            DialogSideEffect::ReorderLabels { from, to } => match &self.editor {
                Some(e) => if from < e.board.meta.labels.len() && to < e.board.meta.labels.len() {
                    DialogWork::Apply(Command::ReorderLabels { from, to })
                } else {
                    DialogWork::Done
                },
                None => DialogWork::Done,
            },
            DialogSideEffect::StartNewLabelInsert { from_picker } => {
                self.dialog = None;
                self.start_insert(ActiveInsert::NewLabelName(NewLabelName::new(from_picker)));
                DialogWork::Done
            },
            DialogSideEffect::StartRenameLabelInsert { label_idx, current_name, from_picker } => {
                let label_id = match &self.editor {
                    Some(e) => if label_idx < e.board.meta.labels.len() {
                        Some(e.board.meta.labels[label_idx].id.clone())
                    } else {
                        None
                    },
                    None => None,
                };
                match label_id {
                    Some(id) => {
                        self.dialog = None;
                        self.start_insert(
                            ActiveInsert::EditLabelName(EditLabelName::new(id, label_idx, current_name.as_str(), from_picker)),
                        );
                    },
                    None => {},
                }
                DialogWork::Done
            },
            _ => DialogWork::Files(eff),
        }
    }
}

} // verus!
