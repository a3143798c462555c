//! The board view's key handling: what each action of the board-view
//! keymap does to the session, and what it leaves to the caller (applying
//! a command with its files, the clipboard, loading boards).

use vstd::prelude::*;

use crate::board_editor::{
    current_card_id_of, down_target, index_of, ordinal_moved, search_view, up_target, visible_of, BoardEditor,
    LoadedBoard,
};
use crate::command::{Command, MoveDir};
use crate::dialog::{
    ArchivedBoards, ArchivedCards, ArchivedLists, CardHistory, ConfirmArchiveBoard, ConfirmArchiveCard,
    ConfirmArchiveList, ConfirmCancelEdit, ConfirmDeleteLabel, LabelManager, LabelPicker,
};
use crate::insert::date_picker::DatePicker;
use crate::insert::line_editor::{
    EditCardTitle, EditChecklistItem, EditLabelName, NewBoardName, NewCardTitle, NewChecklistItem, NewLabelName,
    NewListName, RenameBoard, RenameList,
};
use crate::insert::line_input::has_room;
use crate::insert::InsertSurface;
use crate::key::Key;
use crate::keymap::lookup;
use crate::keymap::board_selector::Action as SelectorAction;
use crate::keymap::card_detail::Action as DetailAction;
use crate::keymap::normal::{keymap, Action};
use crate::mode::AppMode;
use crate::model::card::{date_text, format_date, Card};
use crate::model::board::{BoardMeta, ListMeta};
use crate::model::label::LabelColor;
use crate::model::calendar::parsed_date;
use crate::model::ids::ShortId;
use crate::model::list::CardList;
use crate::session::{cycle_target, cycle_target_of, with_dialog, with_insert, App};
use crate::text::owned;

verus! {

/// The dialogs the session can show.
pub enum ActiveDialog {
    LabelManager(LabelManager),
    LabelPicker(LabelPicker),
    ConfirmDeleteLabel(ConfirmDeleteLabel),
    ConfirmArchiveBoard(ConfirmArchiveBoard),
    ConfirmArchiveCard(ConfirmArchiveCard),
    ConfirmArchiveList(ConfirmArchiveList),
    ConfirmCancelEdit(ConfirmCancelEdit),
    CardHistory(CardHistory),
    ArchivedLists(ArchivedLists),
    ArchivedCards(ArchivedCards),
    ArchivedBoards(ArchivedBoards),
}

/// The insert handlers the session can run.
pub enum ActiveInsert {
    NewBoardName(NewBoardName),
    RenameBoard(RenameBoard),
    NewCardTitle(NewCardTitle),
    EditCardTitle(EditCardTitle),
    NewListName(NewListName),
    RenameList(RenameList),
    NewChecklistItem(NewChecklistItem),
    EditChecklistItem(EditChecklistItem),
    NewLabelName(NewLabelName),
    EditLabelName(EditLabelName),
    DatePicker(DatePicker),
    /// The description editor on a card, opened on its current text.
    Description { card_id: ShortId, initial: String },
}

/// The session with the library's dialogs and insert handlers.
pub type Session = App<ActiveDialog, ActiveInsert>;

/// What a board-view action leaves to the caller.
pub enum NormalEffect {
    Nothing,
    /// Apply the command to the open board (and write what it asks).
    Apply(Command),
    /// Apply the command, then show the status message.
    ApplyWithStatus(Command, String),
    /// Copy the text to the clipboard.
    Copy(String),
    /// Close the board: list the boards and call `close_board`.
    CloseBoard,
    /// Open the board at this index of the session's boards: load it and
    /// call `switch_to_board`.
    SwitchBoard(usize),
    /// Read the board's archived cards and call `show_archived_cards`.
    ViewArchivedCards,
}

/// The open board.
pub open spec fn board_of(a: Session) -> Option<LoadedBoard> {
    match a.editor {
        Some(e) => Some(e.board),
        None => None,
    }
}

/// The selected card's id on the open board.
pub open spec fn current_id(a: Session) -> Option<ShortId> {
    match a.editor {
        Some(e) => current_card_id_of(e.board),
        None => None,
    }
}

/// The selected card on the open board, where its id names a card.
pub open spec fn current_card(a: Session) -> Option<Card> {
    match a.editor {
        Some(e) => match current_card_id_of(e.board) {
            Some(id) => if index_of(e.board.cards@, id@) >= 0 {
                Some(e.board.cards@[index_of(e.board.cards@, id@)])
            } else {
                None
            },
            None => None,
        },
        None => None,
    }
}

/// The selected list on the open board.
pub open spec fn current_list(a: Session) -> Option<CardList> {
    match a.editor {
        Some(e) => if e.board.selected_list < e.board.lists@.len() {
            Some(e.board.lists@[e.board.selected_list as int])
        } else {
            None
        },
        None => None,
    }
}

/// Card titles and list names fit the line editor's buffer, and the
/// selection has a slot per list.
pub open spec fn session_ok(a: Session) -> bool {
    match a.editor {
        Some(e) => {
            &&& e.board.selected_card@.len() == e.board.lists@.len()
            &&& forall|k: int| 0 <= k < e.board.cards@.len() ==> has_room(#[trigger] e.board.cards@[k].title@)
            &&& forall|k: int| 0 <= k < e.board.lists@.len() ==> has_room(#[trigger] e.board.lists@[k].name@)
        },
        None => true,
    }
}

/// Only the editor's board changed, as `rel` relates the boards.
pub open spec fn board_step(before: Session, after: Session, rel: spec_fn(LoadedBoard, LoadedBoard) -> bool) -> bool {
    &&& after == App { editor: after.editor, ..before }
    &&& match before.editor {
        Some(ed0) => after.editor matches Some(ed1) && ed1.last_added_card_id == ed0.last_added_card_id
            && ed1.diagnostics == ed0.diagnostics && rel(ed0.board, ed1.board),
        None => after.editor is None,
    }
}

/// The effect of a board-view action on the session and what it leaves to
/// the caller.
pub open spec fn normal_step(before: Session, after: Session, action: Action, e: NormalEffect) -> bool {
    let search = if before.search_active {
        Some(before.search_query@)
    } else {
        None
    };
    let nothing = e is Nothing;
    match action {
        Action::Quit => nothing && after == App { should_quit: true, ..before },
        Action::Help => nothing && after == App { previous_mode: Some(before.mode), mode: AppMode::Help, ..before },
        Action::CloseBoard => e is CloseBoard && after == before,
        Action::SelectListLeft => nothing && board_step(
            before,
            after,
            |b0: LoadedBoard, b1: LoadedBoard|
                b1 == LoadedBoard {
                    selected_list: if b0.selected_list > 0 {
                        (b0.selected_list - 1) as usize
                    } else {
                        b0.selected_list
                    },
                    ..b0
                },
        ),
        Action::SelectListRight => nothing && board_step(
            before,
            after,
            |b0: LoadedBoard, b1: LoadedBoard|
                b1 == LoadedBoard {
                    selected_list: if b0.selected_list + 1 < b0.lists@.len() {
                        (b0.selected_list + 1) as usize
                    } else {
                        b0.selected_list
                    },
                    ..b0
                },
        ),
        Action::SelectCardDown => nothing && board_step(
            before,
            after,
            |b0: LoadedBoard, b1: LoadedBoard|
                ordinal_moved(b0, b1, b0.selected_list as int, down_target(b0, b0.selected_list as int, search)),
        ),
        Action::SelectCardUp => nothing && board_step(
            before,
            after,
            |b0: LoadedBoard, b1: LoadedBoard|
                ordinal_moved(b0, b1, b0.selected_list as int, up_target(b0, b0.selected_list as int, search)),
        ),
        Action::JumpFirstCard => nothing && board_step(
            before,
            after,
            |b0: LoadedBoard, b1: LoadedBoard|
                b1 == LoadedBoard { selected_card: b1.selected_card, ..b0 } && b1.selected_card@ == if (b0.selected_list as int) < b0.selected_card@.len() {
                    b0.selected_card@.update(b0.selected_list as int, 0)
                } else {
                    b0.selected_card@
                },
        ),
        Action::JumpLastCard => nothing && board_step(
            before,
            after,
            |b0: LoadedBoard, b1: LoadedBoard|
                b1 == LoadedBoard { selected_card: b1.selected_card, ..b0 } && b1.selected_card@ == if (b0.selected_list as int)
                    < b0.selected_card@.len() {
                    b0.selected_card@.update(
                        b0.selected_list as int,
                        if visible_of(b0, b0.selected_list as int, None).len() > 0 {
                            (visible_of(b0, b0.selected_list as int, None).len() - 1) as usize
                        } else {
                            0
                        },
                    )
                } else {
                    b0.selected_card@
                },
        ),
        Action::MoveCardLeft => after == before && moved(before, e, MoveDir::Left),
        Action::MoveCardRight => after == before && moved(before, e, MoveDir::Right),
        Action::MoveCardUp => after == before && moved(before, e, MoveDir::Up),
        Action::MoveCardDown => after == before && moved(before, e, MoveDir::Down),
        Action::SwitchBoardPrev => after == before && switched(before, e, -1),
        Action::SwitchBoardNext => after == before && switched(before, e, 1),
        Action::OpenCardDetail => nothing && if current_id(before) is Some {
            board_step(
                App { mode: AppMode::CardDetail, ..before },
                after,
                |b0: LoadedBoard, b1: LoadedBoard| b1 == LoadedBoard { detail_item_idx: 0, detail_scroll: 0, ..b0 },
            )
        } else {
            after == before
        },
        Action::CopyTitle => after == before && match current_card(before) {
            Some(c) => e matches NormalEffect::Copy(t) && t@ == c.title@,
            None => nothing,
        },
        Action::EditDescription => nothing && match current_card(before) {
            Some(c) => after.insert matches Some(ActiveInsert::Description { card_id, initial }) && card_id@ == c.id@
                && initial@ == c.description@ && after == with_insert(before, after.insert->0),
            None => after == before,
        },
        Action::EditTitle => nothing && match current_card(before) {
            Some(c) => after.insert matches Some(ActiveInsert::EditCardTitle(h)) && h.card_id@ == c.id@ && h.inline
                && h.input.buffer@ == c.title@ && after == with_insert(before, after.insert->0),
            None => after == before,
        },
        Action::NewCard => nothing && if before.editor is Some {
            after.insert matches Some(ActiveInsert::NewCardTitle(h)) && h.input.buffer@.len() == 0 && after
                == with_insert(before, after.insert->0)
        } else {
            after == before
        },
        Action::NewList => nothing && if before.editor is Some {
            after.insert matches Some(ActiveInsert::NewListName(h)) && h.input.buffer@.len() == 0 && after
                == with_insert(before, after.insert->0)
        } else {
            after == before
        },
        Action::RenameList => nothing && match current_list(before) {
            Some(l) => after.insert matches Some(ActiveInsert::RenameList(h)) && h.list_id@ == l.id@
                && h.input.buffer@ == l.name@ && after == with_insert(before, after.insert->0),
            None => after == before,
        },
        Action::ArchiveList => nothing && if board_of(before) matches Some(bd) && bd.lists@.len() > 0 {
            after == with_dialog(before, ActiveDialog::ConfirmArchiveList(ConfirmArchiveList))
        } else {
            after == before
        },
        Action::MoveListLeft => after == before && list_moved(before, e, MoveDir::Left),
        Action::MoveListRight => after == before && list_moved(before, e, MoveDir::Right),
        Action::ArchiveCard => nothing && if current_id(before) is Some {
            after == with_dialog(before, ActiveDialog::ConfirmArchiveCard(ConfirmArchiveCard))
        } else {
            after == before
        },
        Action::ViewArchivedCards => after == before && if before.editor is Some {
            e is ViewArchivedCards
        } else {
            nothing
        },
        Action::ViewArchivedLists => nothing && match before.editor {
            Some(ed) => {
                let archived = ed.board.meta.lists@.filter(|lm: ListMeta| lm.archived == true).len();
                if archived == 0 {
                    after.status_message matches Some(m) && m@ == "No archived lists"@ && after == App {
                        status_message: after.status_message,
                        ..before
                    }
                } else {
                    after.dialog matches Some(ActiveDialog::ArchivedLists(d)) && d.selected == 0
                        && d.lists@.len() == archived && after == with_dialog(before, after.dialog->0)
                }
            },
            None => after == before,
        },
        Action::Search => nothing && after.search_query@.len() == 0 && after == App {
            search_query: after.search_query,
            mode: AppMode::Command,
            ..before
        },
        Action::FilterByLabel => nothing && after == with_dialog(before, ActiveDialog::LabelPicker(LabelPicker { selected_idx: 0 })),
        Action::ClearFilters => nothing && after.search_query@.len() == 0 && (after.status_message matches Some(m)
            && m@ == "Filters cleared"@) && after == App {
            search_active: false,
            search_query: after.search_query,
            label_filter: None,
            status_message: after.status_message,
            ..before
        },
        Action::AssignLabels => nothing && if current_id(before) is Some {
            after == with_dialog(before, ActiveDialog::LabelPicker(LabelPicker { selected_idx: 0 }))
        } else {
            after == before
        },
        Action::ManageLabels => nothing && after == with_dialog(
            before,
            ActiveDialog::LabelManager(LabelManager { selected_idx: 0, from_picker: false }),
        ),
        Action::SetDueDate => nothing && match current_card(before) {
            Some(c) => after.insert matches Some(ActiveInsert::DatePicker(p)) && p.card_id@ == c.id@ && p.surface
                == InsertSurface::BoardView && p.picker_date is Some && ((match c.due_date {
                Some(d) => parsed_date(date_text(d)),
                None => parsed_date(seq![]),
            }) matches Some(x) ==> p.picker_date == Some(x)) && after == with_insert(before, after.insert->0),
            None => after == before,
        },
        Action::CardHistoryDialog => nothing && if current_id(before) is Some {
            after == with_dialog(before, ActiveDialog::CardHistory(CardHistory { scroll: 0 }))
        } else {
            after == before
        },
        Action::ClearDueDate => after == before && match current_id(before) {
            Some(id) => e matches NormalEffect::ApplyWithStatus(Command::ClearDueDate { card_id }, m) && card_id@ == id@
                && m@ == "Due date cleared"@,
            None => nothing,
        },
    }
}

/// A card move asks to apply `MoveCard` on the selected card, if any.
pub open spec fn moved(a: Session, e: NormalEffect, dir: MoveDir) -> bool {
    match current_id(a) {
        Some(id) => e matches NormalEffect::Apply(Command::MoveCard { card_id, direction }) && card_id@ == id@
            && direction == dir,
        None => e is Nothing,
    }
}

/// A list move asks to apply `MoveList` on the selected list, if any.
pub open spec fn list_moved(a: Session, e: NormalEffect, dir: MoveDir) -> bool {
    match current_list(a) {
        Some(l) => e matches NormalEffect::Apply(Command::MoveList { list_id, direction }) && list_id@ == l.id@
            && direction == dir,
        None => e is Nothing,
    }
}

/// Switching boards asks to open the board `delta` places away (see
/// `cycle_target_of`), if any.
pub open spec fn switched(a: Session, e: NormalEffect, delta: int) -> bool {
    let open = match board_of(a) {
        Some(b) => Some(b.meta.id@),
        None => None,
    };
    match cycle_target_of(a.boards@, open, delta) {
        Some(t) => e matches NormalEffect::SwitchBoard(i) && i == t,
        None => e is Nothing,
    }
}

impl App<ActiveDialog, ActiveInsert> {
    /// The open board's selected card, if its id names a card.
    fn selected_card(&self) -> (r: Option<&Card>)
        ensures
            match current_card(*self) {
                Some(c) => r == Some(&c),
                None => r is None,
            },
    {
        match &self.editor {
            Some(e) => e.board.current_card(),
            None => None,
        }
    }

    /// The open board's selected card id.
    fn selected_card_id(&self) -> (r: Option<&ShortId>)
        ensures
            match current_id(*self) {
                Some(id) => r == Some(&id),
                None => r is None,
            },
    {
        match &self.editor {
            Some(e) => e.board.current_card_id(),
            None => None,
        }
    }

    /// The open board's selected list.
    fn selected_list(&self) -> (r: Option<&CardList>)
        ensures
            match current_list(*self) {
                Some(l) => r == Some(&l),
                None => r is None,
            },
    {
        match &self.editor {
            Some(e) => if e.board.selected_list < e.board.lists.len() {
                Some(&e.board.lists[e.board.selected_list])
            } else {
                None
            },
            None => None,
        }
    }

    /// Performs a board-view action (see [`normal_step`]).
    pub fn run_normal(&mut self, action: Action) -> (e: NormalEffect)
        requires
            session_ok(*old(self)),
        ensures
            normal_step(*old(self), *final(self), action, e),
    {
        match action {
            Action::Quit => {
                self.should_quit = true;
                NormalEffect::Nothing
            },
            Action::Help => {
                self.previous_mode = Some(self.mode);
                self.mode = AppMode::Help;
                NormalEffect::Nothing
            },
            Action::CloseBoard => NormalEffect::CloseBoard,
            Action::SelectListLeft => {
                match self.editor.take() {
                    Some(mut ed) => {
                        ed.select_list_left();
                        self.editor = Some(ed);
                    },
                    None => {},
                }
                NormalEffect::Nothing
            },
            Action::SelectListRight => {
                match self.editor.take() {
                    Some(mut ed) => {
                        ed.select_list_right();
                        self.editor = Some(ed);
                    },
                    None => {},
                }
                NormalEffect::Nothing
            },
            Action::SelectCardDown => {
                let active = self.search_active;
                match self.editor.take() {
                    Some(mut ed) => {
                        if active {
                            ed.select_card_down(Some(self.search_query.as_str()));
                        } else {
                            ed.select_card_down(None);
                        }
                        self.editor = Some(ed);
                    },
                    None => {},
                }
                NormalEffect::Nothing
            },
            Action::SelectCardUp => {
                let active = self.search_active;
                match self.editor.take() {
                    Some(mut ed) => {
                        if active {
                            ed.select_card_up(Some(self.search_query.as_str()));
                        } else {
                            ed.select_card_up(None);
                        }
                        self.editor = Some(ed);
                    },
                    None => {},
                }
                NormalEffect::Nothing
            },
            Action::JumpFirstCard => {
                match self.editor.take() {
                    Some(mut ed) => {
                        ed.select_first_card();
                        self.editor = Some(ed);
                    },
                    None => {},
                }
                NormalEffect::Nothing
            },
            Action::JumpLastCard => {
                match self.editor.take() {
                    Some(mut ed) => {
                        ed.select_last_card();
                        self.editor = Some(ed);
                    },
                    None => {},
                }
                NormalEffect::Nothing
            },
            Action::MoveCardLeft => self.move_card_effect(MoveDir::Left),
            Action::MoveCardRight => self.move_card_effect(MoveDir::Right),
            Action::MoveCardUp => self.move_card_effect(MoveDir::Up),
            Action::MoveCardDown => self.move_card_effect(MoveDir::Down),
            Action::SwitchBoardPrev => self.switch_effect(-1),
            Action::SwitchBoardNext => self.switch_effect(1),
            Action::OpenCardDetail => {
                if self.selected_card_id().is_some() {
                    match self.editor.take() {
                        Some(mut ed) => {
                            ed.reset_detail_cursor();
                            self.editor = Some(ed);
                        },
                        None => {},
                    }
                    self.mode = AppMode::CardDetail;
                }
                NormalEffect::Nothing
            },
            Action::CopyTitle => match self.selected_card() {
                Some(c) => NormalEffect::Copy(owned(c.title.as_str())),
                None => NormalEffect::Nothing,
            },
            Action::EditDescription => {
                let h = match self.selected_card() {
                    Some(c) => Some(
                        ActiveInsert::Description { card_id: owned(c.id.as_str()), initial: owned(c.description.as_str()) },
                    ),
                    None => None,
                };
                match h {
                    Some(h) => self.start_insert(h),
                    None => {},
                }
                NormalEffect::Nothing
            },
            Action::EditTitle => {
                let h = match self.selected_card() {
                    Some(c) => {
                        proof {
                            let ed = self.editor->0;
                            let id = current_card_id_of(ed.board)->0;
                            crate::board_editor::lemma_index_of(ed.board.cards@, id@);
                            let k = index_of(ed.board.cards@, id@);
                            assert(0 <= k < ed.board.cards@.len());
                            assert(has_room(ed.board.cards@[k].title@));
                        }
                        Some(ActiveInsert::EditCardTitle(EditCardTitle::new(owned(c.id.as_str()), c.title.as_str(), true)))
                    },
                    None => None,
                };
                match h {
                    Some(h) => self.start_insert(h),
                    None => {},
                }
                NormalEffect::Nothing
            },
            Action::NewCard => {
                if self.editor.is_some() {
                    self.start_insert(ActiveInsert::NewCardTitle(NewCardTitle::new()));
                }
                NormalEffect::Nothing
            },
            Action::NewList => {
                if self.editor.is_some() {
                    self.start_insert(ActiveInsert::NewListName(NewListName::new()));
                }
                NormalEffect::Nothing
            },
            Action::RenameList => {
                let h = match self.selected_list() {
                    Some(l) => {
                        proof {
                            let ed = self.editor->0;
                            assert(has_room(ed.board.lists@[ed.board.selected_list as int].name@));
                        }
                        Some(ActiveInsert::RenameList(RenameList::new(owned(l.id.as_str()), l.name.as_str())))
                    },
                    None => None,
                };
                match h {
                    Some(h) => self.start_insert(h),
                    None => {},
                }
                NormalEffect::Nothing
            },
            Action::ArchiveList => {
                let has_lists = match &self.editor {
                    Some(ed) => ed.board.lists.len() > 0,
                    None => false,
                };
                if has_lists {
                    self.open_dialog(ActiveDialog::ConfirmArchiveList(ConfirmArchiveList));
                }
                NormalEffect::Nothing
            },
            Action::MoveListLeft => self.move_list_effect(MoveDir::Left),
            Action::MoveListRight => self.move_list_effect(MoveDir::Right),
            Action::ArchiveCard => {
                if self.selected_card_id().is_some() {
                    self.open_dialog(ActiveDialog::ConfirmArchiveCard(ConfirmArchiveCard));
                }
                NormalEffect::Nothing
            },
            Action::ViewArchivedCards => {
                if self.editor.is_some() {
                    NormalEffect::ViewArchivedCards
                } else {
                    NormalEffect::Nothing
                }
            },
            Action::ViewArchivedLists => {
                let archived = match &self.editor {
                    Some(ed) => Some(ed.archived_lists()),
                    None => None,
                };
                match archived {
                    Some(lists) => {
                        if lists.len() == 0 {
                            self.set_status(owned("No archived lists"));
                        } else {
                            self.open_dialog(ActiveDialog::ArchivedLists(ArchivedLists { lists, selected: 0 }));
                        }
                    },
                    None => {},
                }
                NormalEffect::Nothing
            },
            Action::Search => {
                self.search_query = String::new();
                self.mode = AppMode::Command;
                NormalEffect::Nothing
            },
            Action::FilterByLabel => {
                self.open_dialog(ActiveDialog::LabelPicker(LabelPicker { selected_idx: 0 }));
                NormalEffect::Nothing
            },
            Action::ClearFilters => {
                self.search_active = false;
                self.search_query = String::new();
                self.label_filter = None;
                self.set_status(owned("Filters cleared"));
                NormalEffect::Nothing
            },
            Action::AssignLabels => {
                if self.selected_card_id().is_some() {
                    self.open_dialog(ActiveDialog::LabelPicker(LabelPicker { selected_idx: 0 }));
                }
                NormalEffect::Nothing
            },
            Action::ManageLabels => {
                self.open_dialog(ActiveDialog::LabelManager(LabelManager { selected_idx: 0, from_picker: false }));
                NormalEffect::Nothing
            },
            Action::SetDueDate => {
                let h = match self.selected_card() {
                    Some(c) => {
                        let date_str = match c.due_date {
                            Some(d) => format_date(d),
                            None => String::new(),
                        };
                        Some(
                            ActiveInsert::DatePicker(
                                DatePicker::new(owned(c.id.as_str()), date_str.as_str(), InsertSurface::BoardView),
                            ),
                        )
                    },
                    None => None,
                };
                match h {
                    Some(h) => self.start_insert(h),
                    None => {},
                }
                NormalEffect::Nothing
            },
            Action::CardHistoryDialog => {
                if self.selected_card_id().is_some() {
                    self.open_dialog(ActiveDialog::CardHistory(CardHistory { scroll: 0 }));
                }
                NormalEffect::Nothing
            },
            Action::ClearDueDate => match self.selected_card_id() {
                Some(id) => NormalEffect::ApplyWithStatus(
                    Command::ClearDueDate { card_id: owned(id.as_str()) },
                    owned("Due date cleared"),
                ),
                None => NormalEffect::Nothing,
            },
        }
    }

    fn move_card_effect(&self, direction: MoveDir) -> (e: NormalEffect)
        ensures
            moved(*self, e, direction),
    {
        match self.selected_card_id() {
            Some(id) => NormalEffect::Apply(Command::MoveCard { card_id: owned(id.as_str()), direction }),
            None => NormalEffect::Nothing,
        }
    }

    fn move_list_effect(&self, direction: MoveDir) -> (e: NormalEffect)
        ensures
            list_moved(*self, e, direction),
    {
        match self.selected_list() {
            Some(l) => NormalEffect::Apply(Command::MoveList { list_id: owned(l.id.as_str()), direction }),
            None => NormalEffect::Nothing,
        }
    }

    fn switch_effect(&self, delta: i32) -> (e: NormalEffect)
        ensures
            switched(*self, e, delta as int),
    {
        let open = match &self.editor {
            Some(ed) => Some(ed.board.meta.id.as_str()),
            None => None,
        };
        match cycle_target(&self.boards, open, delta) {
            Some(t) => NormalEffect::SwitchBoard(t),
            None => NormalEffect::Nothing,
        }
    }

    /// Handles a key in the board view: the keymap's action for it, if any
    /// (see [`normal_step`]).
    pub fn handle_normal(&mut self, key: Key) -> (e: NormalEffect)
        requires
            session_ok(*old(self)),
        ensures
            ({
                let i = crate::keymap::first_binding(crate::keymap::normal::table(), key.code, key.shift);
                if i >= 0 {
                    normal_step(*old(self), *final(self), crate::keymap::normal::table()[i].action, e)
                } else {
                    e is Nothing && *final(self) == *old(self)
                }
            }),
    {
        let map = keymap();
        match lookup(map.as_slice(), key.code, key.shift) {
            Some(action) => self.run_normal(action),
            None => NormalEffect::Nothing,
        }
    }

    /// Opens the board the caller loaded for a board switch: the board view
    /// shows it, the selector's selection follows, and the status line
    /// names it.
    pub fn switch_to_board(&mut self, editor: BoardEditor, idx: usize)
        requires
            idx < old(self).boards@.len(),
        ensures
            final(self).editor == Some(editor),
            final(self).mode == AppMode::Normal,
            final(self).selected_board_idx == idx,
            final(self).status_message matches Some(m) && m@ == "Switched to '"@ + old(self).boards@[idx as int].name@ + "'"@,
            final(self).boards == old(self).boards,
            final(self).dialog == old(self).dialog,
            final(self).insert == old(self).insert,
    {
        self.load_board(editor);
        self.selected_board_idx = idx;
        let msg = crate::text::concat3("Switched to '", self.boards[idx].name.as_str(), "'");
        self.set_status(msg);
    }

    /// Shows the archived cards the caller read: a dialog over them, or a
    /// status message when there are none.
    pub fn show_archived_cards(&mut self, cards: Vec<Card>)
        ensures
            cards@.len() == 0 ==> (final(self).status_message matches Some(m) && m@ == "No archived cards"@)
                && *final(self) == (App { status_message: final(self).status_message, ..*old(self) }),
            cards@.len() > 0 ==> *final(self) == with_dialog(
                *old(self),
                ActiveDialog::ArchivedCards(ArchivedCards { cards, selected: 0 }),
            ),
    {
        if cards.len() == 0 {
            self.set_status(owned("No archived cards"));
        } else {
            self.open_dialog(ActiveDialog::ArchivedCards(ArchivedCards { cards, selected: 0 }));
        }
    }
}

// ── The board selector ─────────────────────────────────────────────

/// What a board-selector action leaves to the caller.
pub enum SelectorEffect {
    Nothing,
    /// Load the board at this index and call `load_board`.
    OpenBoard(usize),
    /// Swap the two boards in the stored board order, then call
    /// `boards_swapped`.
    SwapBoards(usize, usize),
    /// Cycle the accent color of the board at this index in its stored
    /// metadata, then call `accent_cycled`.
    CycleAccent(usize),
    /// Read the archived boards and call `show_archived_boards`.
    ViewArchived,
}

/// The board `delta` places from the selected one, if it exists.
pub open spec fn neighbour(a: Session, delta: int) -> Option<int> {
    let t = a.selected_board_idx + delta;
    if a.boards@.len() > 0 && 0 <= t < a.boards@.len() {
        Some(t)
    } else {
        None
    }
}

/// The effect of a board-selector action.
pub open spec fn selector_step(
    before: Session,
    after: Session,
    action: crate::keymap::board_selector::Action,
    e: SelectorEffect,
) -> bool {
    let sel = before.selected_board_idx;
    let has = sel < before.boards@.len();
    let nothing = e is Nothing;
    match action {
        SelectorAction::Quit => nothing && after == App { should_quit: true, ..before },
        SelectorAction::SelectDown => nothing && after == App {
            selected_board_idx: if before.boards@.len() > 0 && sel < before.boards@.len() - 1 {
                (sel + 1) as usize
            } else {
                sel
            },
            ..before
        },
        SelectorAction::SelectUp => nothing && after == App {
            selected_board_idx: if sel > 0 {
                (sel - 1) as usize
            } else {
                sel
            },
            ..before
        },
        SelectorAction::MoveBoardDown => after == before && match neighbour(before, 1) {
            Some(t) => e matches SelectorEffect::SwapBoards(i, j) && i == sel && j == t,
            None => nothing,
        },
        SelectorAction::MoveBoardUp => after == before && match neighbour(before, -1) {
            Some(t) => e matches SelectorEffect::SwapBoards(i, j) && i == sel && j == t,
            None => nothing,
        },
        SelectorAction::OpenBoard => after == before && if has {
            e matches SelectorEffect::OpenBoard(i) && i == sel
        } else {
            nothing
        },
        SelectorAction::NewBoard => nothing && (after.insert matches Some(ActiveInsert::NewBoardName(h))
            && h.input.buffer@.len() == 0) && after == with_insert(before, after.insert->0),
        SelectorAction::RenameBoard => nothing && if has {
            after.insert matches Some(ActiveInsert::RenameBoard(h)) && h.input.buffer@ == before.boards@[sel as int].name@
                && after == with_insert(before, after.insert->0)
        } else {
            after == before
        },
        SelectorAction::Help => nothing && after == App { previous_mode: Some(before.mode), mode: AppMode::Help, ..before },
        SelectorAction::CycleAccentColor => after == before && if has {
            e matches SelectorEffect::CycleAccent(i) && i == sel
        } else {
            nothing
        },
        SelectorAction::ArchiveBoard => nothing && if before.boards@.len() > 0 {
            after.dialog matches Some(ActiveDialog::ConfirmArchiveBoard(d)) && d.board_name@ == (if has {
                before.boards@[sel as int].name@
            } else {
                seq![]
            }) && after == with_dialog(before, after.dialog->0)
        } else {
            after == before
        },
        SelectorAction::ViewArchived => after == before && e is ViewArchived,
    }
}

/// Board names fit the line editor's buffer.
pub open spec fn names_fit(a: Session) -> bool {
    forall|k: int| 0 <= k < a.boards@.len() ==> has_room(#[trigger] a.boards@[k].name@)
}

impl App<ActiveDialog, ActiveInsert> {
    /// Performs a board-selector action (see [`selector_step`]).
    pub fn run_selector(&mut self, action: crate::keymap::board_selector::Action) -> (e: SelectorEffect)
        requires
            names_fit(*old(self)),
        ensures
            selector_step(*old(self), *final(self), action, e),
    {
            let n = self.boards.len();
        let sel = self.selected_board_idx;
        match action {
            SelectorAction::Quit => {
                self.should_quit = true;
                SelectorEffect::Nothing
            },
            SelectorAction::SelectDown => {
                if n > 0 && sel < n - 1 {
                    self.selected_board_idx = sel + 1;
                }
                SelectorEffect::Nothing
            },
            SelectorAction::SelectUp => {
                if sel > 0 {
                    self.selected_board_idx = sel - 1;
                }
                SelectorEffect::Nothing
            },
            SelectorAction::MoveBoardDown => {
                if n > 0 && sel < n && sel + 1 < n {
                    SelectorEffect::SwapBoards(sel, sel + 1)
                } else {
                    SelectorEffect::Nothing
                }
            },
            SelectorAction::MoveBoardUp => {
                if n > 0 && sel > 0 && sel - 1 < n {
                    SelectorEffect::SwapBoards(sel, sel - 1)
                } else {
                    SelectorEffect::Nothing
                }
            },
            SelectorAction::OpenBoard => {
                if sel < n {
                    SelectorEffect::OpenBoard(sel)
                } else {
                    SelectorEffect::Nothing
                }
            },
            SelectorAction::NewBoard => {
                self.start_insert(ActiveInsert::NewBoardName(NewBoardName::new()));
                SelectorEffect::Nothing
            },
            SelectorAction::RenameBoard => {
                if sel < n {
                    let h = RenameBoard::new(self.boards[sel].name.as_str());
                    self.start_insert(ActiveInsert::RenameBoard(h));
                }
                SelectorEffect::Nothing
            },
            SelectorAction::Help => {
                self.previous_mode = Some(self.mode);
                self.mode = AppMode::Help;
                SelectorEffect::Nothing
            },
            SelectorAction::CycleAccentColor => {
                if sel < n {
                    SelectorEffect::CycleAccent(sel)
                } else {
                    SelectorEffect::Nothing
                }
            },
            SelectorAction::ArchiveBoard => {
                if n > 0 {
                    let board_name = if sel < n {
                        owned(self.boards[sel].name.as_str())
                    } else {
                        String::new()
                    };
                    self.open_dialog(ActiveDialog::ConfirmArchiveBoard(ConfirmArchiveBoard { board_name }));
                }
                SelectorEffect::Nothing
            },
            SelectorAction::ViewArchived => SelectorEffect::ViewArchived,
        }
    }

    /// Handles a key in the board selector: the keymap's action for it, if
    /// any (see [`selector_step`]).
    pub fn handle_selector(&mut self, key: Key) -> (e: SelectorEffect)
        requires
            names_fit(*old(self)),
        ensures
            ({
                let i = crate::keymap::first_binding(crate::keymap::board_selector::table(), key.code, key.shift);
                if i >= 0 {
                    selector_step(*old(self), *final(self), crate::keymap::board_selector::table()[i].action, e)
                } else {
                    e is Nothing && *final(self) == *old(self)
                }
            }),
    {
        let map = crate::keymap::board_selector::keymap();
        match lookup(map.as_slice(), key.code, key.shift) {
            Some(action) => self.run_selector(action),
            None => SelectorEffect::Nothing,
        }
    }

    /// The stored order swapped boards `i` and `j`: swap them in the list
    /// too, and select the moved board at its new place.
    pub fn boards_swapped(&mut self, i: usize, j: usize)
        requires
            i < old(self).boards@.len(),
            j < old(self).boards@.len(),
        ensures
            final(self).boards@ == old(self).boards@.update(i as int, old(self).boards@[j as int]).update(
                j as int,
                old(self).boards@[i as int],
            ),
            *final(self) == (App { boards: final(self).boards, selected_board_idx: j, ..*old(self) }),
    {
        let ghost old_boards = self.boards@;
        if i != j {
            let (lo, hi) = if i < j {
                (i, j)
            } else {
                (j, i)
            };
            let h = self.boards.remove(hi);
            let l = self.boards.remove(lo);
            self.boards.insert(lo, h);
            self.boards.insert(hi, l);
            assert(self.boards@ =~= old_boards.update(i as int, old_boards[j as int]).update(j as int, old_boards[i as int]));
        } else {
            assert(self.boards@ =~= old_boards.update(i as int, old_boards[j as int]).update(j as int, old_boards[i as int]));
        }
        self.selected_board_idx = j;
    }
}

impl App<ActiveDialog, ActiveInsert> {
    /// The stored accent color of board `i` was cycled to `color`: the
    /// list shows it, and the status line says so.
    pub fn accent_cycled(&mut self, i: usize, color: LabelColor)
        ensures
            final(self).boards@.len() == old(self).boards@.len(),
            forall|k: int|
                0 <= k < old(self).boards@.len() ==> #[trigger] final(self).boards@[k] == if k == i {
                    BoardMeta { accent_color: color, ..old(self).boards@[k] }
                } else {
                    old(self).boards@[k]
                },
            final(self).status_message matches Some(m) && m@ == "Board color changed"@,
            *final(self) == (App { boards: final(self).boards, status_message: final(self).status_message, ..*old(self) }),
    {
        if i < self.boards.len() {
            let ghost old_boards = self.boards@;
            let mut b = self.boards.remove(i);
            b.accent_color = color;
            self.boards.insert(i, b);
            assert(self.boards@ =~= old_boards.update(i as int, BoardMeta { accent_color: color, ..old_boards[i as int] }));
        }
        self.set_status(owned("Board color changed"));
    }

    /// Shows the archived boards the caller read.
    pub fn show_archived_boards(&mut self, boards: Vec<BoardMeta>)
        ensures
            *final(self) == with_dialog(*old(self), ActiveDialog::ArchivedBoards(ArchivedBoards { boards, selected: 0 })),
    {
        self.open_dialog(ActiveDialog::ArchivedBoards(ArchivedBoards { boards, selected: 0 }));
    }
}

// ── The card detail ───────────────────────────────────────────────

/// What a card-detail action leaves to the caller.
pub enum DetailEffect {
    Nothing,
    /// Apply the command to the open board.
    Apply(Command),
    /// Apply the command, then show the status message.
    ApplyWithStatus(Command, String),
    /// Copy `text` to the clipboard; `what` names it for the status line.
    Copy { text: String, what: String },
}

/// The checklist length and cursor of the selected card, when the
/// selected card exists.
pub open spec fn detail_item(a: Session) -> Option<(Card, int)> {
    match current_card(a) {
        Some(c) => Some((c, a.editor->0.board.detail_item_idx as int)),
        None => None,
    }
}

/// The effect of a card-detail action; `max_scroll` is how far the
/// rendered description can scroll.
pub open spec fn detail_step(
    before: Session,
    after: Session,
    action: crate::keymap::card_detail::Action,
    max_scroll: usize,
    e: DetailEffect,
) -> bool {
    let nothing = e is Nothing;
    match action {
        DetailAction::Close => nothing && board_step(
            App { mode: AppMode::Normal, ..before },
            after,
            |b0: LoadedBoard, b1: LoadedBoard| b1 == LoadedBoard { detail_item_idx: 0, detail_scroll: 0, ..b0 },
        ),
        DetailAction::ItemDown => nothing && board_step(
            before,
            after,
            |b0: LoadedBoard, b1: LoadedBoard|
                b1 == LoadedBoard {
                    detail_item_idx: if b0.detail_item_idx + 1 < crate::board_editor::current_checklist_len(b0) {
                        (b0.detail_item_idx + 1) as usize
                    } else {
                        b0.detail_item_idx
                    },
                    ..b0
                },
        ),
        DetailAction::ItemUp => nothing && board_step(
            before,
            after,
            |b0: LoadedBoard, b1: LoadedBoard|
                b1 == LoadedBoard {
                    detail_item_idx: if b0.detail_item_idx > 0 {
                        (b0.detail_item_idx - 1) as usize
                    } else {
                        0
                    },
                    ..b0
                },
        ),
        DetailAction::ScrollDown => nothing && board_step(
            before,
            after,
            |b0: LoadedBoard, b1: LoadedBoard| b1 == LoadedBoard { detail_scroll: scrolled(b0.detail_scroll, true, max_scroll), ..b0 },
        ),
        DetailAction::ScrollUp => nothing && board_step(
            before,
            after,
            |b0: LoadedBoard, b1: LoadedBoard| b1 == LoadedBoard { detail_scroll: scrolled(b0.detail_scroll, false, max_scroll), ..b0 },
        ),
        DetailAction::ReorderItemDown => after == before && match detail_item(before) {
            Some((c, ii)) => if ii + 1 < c.checklist@.len() {
                e matches DetailEffect::Apply(Command::ReorderChecklistItem { card_id, from, to }) && card_id@ == c.id@
                    && from == ii && to == ii + 1
            } else {
                nothing
            },
            None => nothing,
        },
        DetailAction::ReorderItemUp => after == before && match current_id(before) {
            Some(id) => if before.editor->0.board.detail_item_idx > 0 {
                e matches DetailEffect::Apply(Command::ReorderChecklistItem { card_id, from, to }) && card_id@ == id@
                    && from == before.editor->0.board.detail_item_idx && to == before.editor->0.board.detail_item_idx - 1
            } else {
                nothing
            },
            None => nothing,
        },
        DetailAction::ToggleItem => after == before && match detail_item(before) {
            Some((c, ii)) => if ii < c.checklist@.len() {
                e matches DetailEffect::Apply(Command::ToggleChecklistItem { card_id, item_idx }) && card_id@ == c.id@
                    && item_idx == ii
            } else {
                nothing
            },
            None => nothing,
        },
        DetailAction::DeleteItem => after == before && match detail_item(before) {
            Some((c, ii)) => if ii < c.checklist@.len() {
                e matches DetailEffect::Apply(Command::RemoveChecklistItem { card_id, item_idx }) && card_id@ == c.id@
                    && item_idx == ii
            } else {
                nothing
            },
            None => nothing,
        },
        DetailAction::AddItem => nothing && match current_id(before) {
            Some(id) => (after.insert matches Some(ActiveInsert::NewChecklistItem(h)) && h.card_id@ == id@
                && h.input.buffer@.len() == 0) && after == with_insert(before, after.insert->0),
            None => after == before,
        },
        DetailAction::EditItem => nothing && match detail_item(before) {
            Some((c, ii)) => if ii < c.checklist@.len() {
                (after.insert matches Some(ActiveInsert::EditChecklistItem(h)) && h.card_id@ == c.id@ && h.item_idx == ii
                    && h.input.buffer@ == c.checklist@[ii].text@) && after == with_insert(before, after.insert->0)
            } else {
                after == before
            },
            None => after == before,
        },
        DetailAction::EditDescription => nothing && match current_card(before) {
            Some(c) => (after.insert matches Some(ActiveInsert::Description { card_id, initial }) && card_id@ == c.id@
                && initial@ == c.description@) && after == with_insert(before, after.insert->0),
            None => after == before,
        },
        DetailAction::EditTitle => nothing && match current_card(before) {
            Some(c) => (after.insert matches Some(ActiveInsert::EditCardTitle(h)) && h.card_id@ == c.id@ && !h.inline
                && h.input.buffer@ == c.title@) && after == with_insert(before, after.insert->0),
            None => after == before,
        },
        DetailAction::CopyDescription => after == before && match current_card(before) {
            Some(c) => e matches DetailEffect::Copy { text, what } && text@ == c.description@ && what@
                == "description of '"@ + c.title@ + "'"@,
            None => nothing,
        },
        DetailAction::CopyChecklist => match current_card(before) {
            Some(c) => if c.checklist@.len() == 0 {
                nothing && (after.status_message matches Some(m) && m@ == "Checklist is empty"@) && after == App {
                    status_message: after.status_message,
                    ..before
                }
            } else {
                after == before && (e matches DetailEffect::Copy { text, what } && text@
                    == crate::model::card::markdown_of(c.checklist@) && what@ == "checklist of '"@ + c.title@ + "'"@)
            },
            None => nothing && after == before,
        },
        DetailAction::AssignLabels => nothing && if current_id(before) is Some {
            after == with_dialog(before, ActiveDialog::LabelPicker(LabelPicker { selected_idx: 0 }))
        } else {
            after == before
        },
        DetailAction::ManageLabels => nothing && after == with_dialog(
            before,
            ActiveDialog::LabelManager(LabelManager { selected_idx: 0, from_picker: false }),
        ),
        DetailAction::SetDueDate => nothing && match current_card(before) {
            Some(c) => (after.insert matches Some(ActiveInsert::DatePicker(p)) && p.card_id@ == c.id@ && p.surface
                == InsertSurface::CardDetail && p.picker_date is Some && ((match c.due_date {
                Some(d) => parsed_date(date_text(d)),
                None => parsed_date(seq![]),
            }) matches Some(x) ==> p.picker_date == Some(x))) && after == with_insert(before, after.insert->0),
            None => after == before,
        },
        DetailAction::ClearDueDate => after == before && match current_card(before) {
            Some(c) => e matches DetailEffect::ApplyWithStatus(Command::ClearDueDate { card_id }, m) && card_id@ == c.id@
                && m@ == "Cleared due date of '"@ + c.title@ + "'"@,
            None => nothing,
        },
        DetailAction::HistoryDialog => nothing && if current_id(before) is Some {
            after == with_dialog(before, ActiveDialog::CardHistory(CardHistory { scroll: 0 }))
        } else {
            after == before
        },
        DetailAction::Help => nothing && after == App { previous_mode: Some(before.mode), mode: AppMode::Help, ..before },
        DetailAction::Quit => nothing && after == App { should_quit: true, ..before },
    }
}

/// The description's scroll offset after one step down or up, within
/// `0..=max_scroll` (a stored offset past the maximum counts as the
/// maximum).
pub open spec fn scrolled(cur0: usize, down: bool, max_scroll: usize) -> usize {
    let cur = if cur0 < max_scroll {
        cur0 as int
    } else {
        max_scroll as int
    };
    if down {
        if cur + 1 < max_scroll {
            (cur + 1) as usize
        } else {
            max_scroll
        }
    } else {
        if cur >= 1 {
            (cur - 1) as usize
        } else {
            0
        }
    }
}

/// Checklist texts fit the line editor's buffer, besides what
/// [`session_ok`] asks.
pub open spec fn detail_ok(a: Session) -> bool {
    &&& session_ok(a)
    &&& match a.editor {
        Some(e) => forall|k: int, j: int|
            0 <= k < e.board.cards@.len() && 0 <= j < e.board.cards@[k].checklist@.len() ==> has_room(
                #[trigger] e.board.cards@[k].checklist@[j].text@,
            ),
        None => true,
    }
}

impl App<ActiveDialog, ActiveInsert> {
    /// Performs a card-detail action (see [`detail_step`]); `max_scroll` is
    /// how far the rendered description can scroll.
    pub fn run_detail(&mut self, action: crate::keymap::card_detail::Action, max_scroll: usize) -> (e: DetailEffect)
        requires
            detail_ok(*old(self)),
        ensures
            detail_step(*old(self), *final(self), action, max_scroll, e),
    {
        match action {
            DetailAction::Close => {
                match self.editor.take() {
                    Some(mut ed) => {
                        ed.reset_detail_cursor();
                        self.editor = Some(ed);
                    },
                    None => {},
                }
                self.mode = AppMode::Normal;
                DetailEffect::Nothing
            },
            DetailAction::ItemDown => {
                match self.editor.take() {
                    Some(mut ed) => {
                        ed.detail_item_down();
                        self.editor = Some(ed);
                    },
                    None => {},
                }
                DetailEffect::Nothing
            },
            DetailAction::ItemUp => {
                match self.editor.take() {
                    Some(mut ed) => {
                        ed.detail_item_up();
                        self.editor = Some(ed);
                    },
                    None => {},
                }
                DetailEffect::Nothing
            },
            DetailAction::ScrollDown => {
                match self.editor.take() {
                    Some(mut ed) => {
                        ed.scroll_detail(1, true, max_scroll);
                        self.editor = Some(ed);
                    },
                    None => {},
                }
                DetailEffect::Nothing
            },
            DetailAction::ScrollUp => {
                match self.editor.take() {
                    Some(mut ed) => {
                        ed.scroll_detail(1, false, max_scroll);
                        self.editor = Some(ed);
                    },
                    None => {},
                }
                DetailEffect::Nothing
            },
            DetailAction::ReorderItemDown => match self.selected_card() {
                Some(c) => {
                    let ii = self.editor.as_ref().unwrap().board.detail_item_idx;
                    if ii < c.checklist.len() && ii + 1 < c.checklist.len() {
                        DetailEffect::Apply(
                            Command::ReorderChecklistItem { card_id: owned(c.id.as_str()), from: ii, to: ii + 1 },
                        )
                    } else {
                        DetailEffect::Nothing
                    }
                },
                None => DetailEffect::Nothing,
            },
            DetailAction::ReorderItemUp => match self.selected_card_id() {
                Some(id) => {
                    let ii = self.editor.as_ref().unwrap().board.detail_item_idx;
                    if ii > 0 {
                        DetailEffect::Apply(
                            Command::ReorderChecklistItem { card_id: owned(id.as_str()), from: ii, to: ii - 1 },
                        )
                    } else {
                        DetailEffect::Nothing
                    }
                },
                None => DetailEffect::Nothing,
            },
            DetailAction::ToggleItem => match self.selected_card() {
                Some(c) => {
                    let ii = self.editor.as_ref().unwrap().board.detail_item_idx;
                    if ii < c.checklist.len() {
                        DetailEffect::Apply(Command::ToggleChecklistItem { card_id: owned(c.id.as_str()), item_idx: ii })
                    } else {
                        DetailEffect::Nothing
                    }
                },
                None => DetailEffect::Nothing,
            },
            DetailAction::DeleteItem => match self.selected_card() {
                Some(c) => {
                    let ii = self.editor.as_ref().unwrap().board.detail_item_idx;
                    if ii < c.checklist.len() {
                        DetailEffect::Apply(Command::RemoveChecklistItem { card_id: owned(c.id.as_str()), item_idx: ii })
                    } else {
                        DetailEffect::Nothing
                    }
                },
                None => DetailEffect::Nothing,
            },
            DetailAction::AddItem => {
                let h = match self.selected_card_id() {
                    Some(id) => Some(ActiveInsert::NewChecklistItem(NewChecklistItem::new(owned(id.as_str())))),
                    None => None,
                };
                match h {
                    Some(h) => self.start_insert(h),
                    None => {},
                }
                DetailEffect::Nothing
            },
            DetailAction::EditItem => {
                let h = match self.selected_card() {
                    Some(c) => {
                        let ii = self.editor.as_ref().unwrap().board.detail_item_idx;
                        if ii < c.checklist.len() {
                            proof {
                                let ed = self.editor->0;
                                let id = current_card_id_of(ed.board)->0;
                                crate::board_editor::lemma_index_of(ed.board.cards@, id@);
                                let k = index_of(ed.board.cards@, id@);
                                assert(has_room(ed.board.cards@[k].checklist@[ii as int].text@));
                            }
                            Some(
                                ActiveInsert::EditChecklistItem(
                                    EditChecklistItem::new(owned(c.id.as_str()), ii, c.checklist[ii].text.as_str()),
                                ),
                            )
                        } else {
                            None
                        }
                    },
                    None => None,
                };
                match h {
                    Some(h) => self.start_insert(h),
                    None => {},
                }
                DetailEffect::Nothing
            },
            DetailAction::EditDescription => {
                let h = match self.selected_card() {
                    Some(c) => Some(
                        ActiveInsert::Description { card_id: owned(c.id.as_str()), initial: owned(c.description.as_str()) },
                    ),
                    None => None,
                };
                match h {
                    Some(h) => self.start_insert(h),
                    None => {},
                }
                DetailEffect::Nothing
            },
            DetailAction::EditTitle => {
                let h = match self.selected_card() {
                    Some(c) => {
                        proof {
                            let ed = self.editor->0;
                            let id = current_card_id_of(ed.board)->0;
                            crate::board_editor::lemma_index_of(ed.board.cards@, id@);
                            let k = index_of(ed.board.cards@, id@);
                            assert(has_room(ed.board.cards@[k].title@));
                        }
                        Some(ActiveInsert::EditCardTitle(EditCardTitle::new(owned(c.id.as_str()), c.title.as_str(), false)))
                    },
                    None => None,
                };
                match h {
                    Some(h) => self.start_insert(h),
                    None => {},
                }
                DetailEffect::Nothing
            },
            DetailAction::CopyDescription => match self.selected_card() {
                Some(c) => DetailEffect::Copy {
                    text: owned(c.description.as_str()),
                    what: crate::text::concat3("description of '", c.title.as_str(), "'"),
                },
                None => DetailEffect::Nothing,
            },
            DetailAction::CopyChecklist => {
                let r = match self.selected_card() {
                    Some(c) => if c.checklist.len() == 0 {
                        None
                    } else {
                        Some(
                            DetailEffect::Copy {
                                text: c.checklist_as_markdown(),
                                what: crate::text::concat3("checklist of '", c.title.as_str(), "'"),
                            },
                        )
                    },
                    None => Some(DetailEffect::Nothing),
                };
                match r {
                    Some(e) => e,
                    None => {
                        self.set_status(owned("Checklist is empty"));
                        DetailEffect::Nothing
                    },
                }
            },
            DetailAction::AssignLabels => {
                if self.selected_card_id().is_some() {
                    self.open_dialog(ActiveDialog::LabelPicker(LabelPicker { selected_idx: 0 }));
                }
                DetailEffect::Nothing
            },
            DetailAction::ManageLabels => {
                self.open_dialog(ActiveDialog::LabelManager(LabelManager { selected_idx: 0, from_picker: false }));
                DetailEffect::Nothing
            },
            DetailAction::SetDueDate => {
                let h = match self.selected_card() {
                    Some(c) => {
                        let date_str = match c.due_date {
                            Some(d) => format_date(d),
                            None => String::new(),
                        };
                        Some(
                            ActiveInsert::DatePicker(
                                DatePicker::new(owned(c.id.as_str()), date_str.as_str(), InsertSurface::CardDetail),
                            ),
                        )
                    },
                    None => None,
                };
                match h {
                    Some(h) => self.start_insert(h),
                    None => {},
                }
                DetailEffect::Nothing
            },
            DetailAction::ClearDueDate => match self.selected_card() {
                Some(c) => DetailEffect::ApplyWithStatus(
                    Command::ClearDueDate { card_id: owned(c.id.as_str()) },
                    crate::text::concat3("Cleared due date of '", c.title.as_str(), "'"),
                ),
                None => DetailEffect::Nothing,
            },
            DetailAction::HistoryDialog => {
                if self.selected_card_id().is_some() {
                    self.open_dialog(ActiveDialog::CardHistory(CardHistory { scroll: 0 }));
                }
                DetailEffect::Nothing
            },
            DetailAction::Help => {
                self.previous_mode = Some(self.mode);
                self.mode = AppMode::Help;
                DetailEffect::Nothing
            },
            DetailAction::Quit => {
                self.should_quit = true;
                DetailEffect::Nothing
            },
        }
    }

    /// Handles a key in the card detail: the keymap's action for it, if
    /// any (see [`detail_step`]).
    pub fn handle_detail(&mut self, key: Key, max_scroll: usize) -> (e: DetailEffect)
        requires
            detail_ok(*old(self)),
        ensures
            ({
                let i = crate::keymap::first_binding(crate::keymap::card_detail::table(), key.code, key.shift);
                if i >= 0 {
                    detail_step(*old(self), *final(self), crate::keymap::card_detail::table()[i].action, max_scroll, e)
                } else {
                    e is Nothing && *final(self) == *old(self)
                }
            }),
    {
        let map = crate::keymap::card_detail::keymap();
        match lookup(map.as_slice(), key.code, key.shift) {
            Some(action) => self.run_detail(action, max_scroll),
            None => DetailEffect::Nothing,
        }
    }
}

/// Reordering a checklist item from the card detail moves it by exactly
/// one slot: Shift+Down asks to move the selected item to the next slot,
/// so the checklist becomes the old one with that item and the one below
/// swapped; Shift+Up asks to move it to the slot before. Neither changes
/// the session.
pub proof fn lemma_detail_reorder_one_slot(
    before: Session,
    after: Session,
    action: crate::keymap::card_detail::Action,
    max_scroll: usize,
    e: DetailEffect,
)
    requires
        detail_step(before, after, action, max_scroll, e),
        action == DetailAction::ReorderItemDown || action == DetailAction::ReorderItemUp,
    ensures
        after == before,
        e matches DetailEffect::Apply(Command::ReorderChecklistItem { from, to, .. }) ==> {
            &&& action == DetailAction::ReorderItemDown ==> to == from + 1
            &&& action == DetailAction::ReorderItemUp ==> to + 1 == from
            &&& action == DetailAction::ReorderItemDown ==> (detail_item(before) matches Some((c, ii)) && {
                let l = c.checklist@;
                &&& from == ii && to < l.len()
                &&& l.remove(from as int).insert(to as int, l[from as int]) =~= l.update(from as int, l[from + 1]).update(
                    from + 1,
                    l[from as int],
                )
            })
        },
{
    if action == DetailAction::ReorderItemDown {
        if let DetailEffect::Apply(Command::ReorderChecklistItem { from, to, .. }) = e {
            if let Some((c, ii)) = detail_item(before) {
                let l = c.checklist@;
                let x = l[from as int];
                let moved = l.remove(from as int).insert(to as int, x);
                let swapped = l.update(from as int, l[from + 1]).update(from + 1, x);
                assert forall|j: int| 0 <= j < l.len() implies moved[j] == swapped[j] by {
                    if j < from {
                    } else if j == from {
                    } else if j == from + 1 {
                    } else {
                    }
                }
                assert(moved =~= swapped);
            }
        }
    }
}

} // verus!
