//! The single-line insert handlers: card titles, list and board names,
//! checklist items and label names. They share [`LineInput`] and differ in
//! where they are drawn, their title, and what a confirmed line becomes.
//! A confirmed line is trimmed; an empty one is rejected.

use vstd::prelude::*;

use super::line_input::{byte_len, has_room, line_after, line_ok, trim, LineInput, LineKey};
use super::{InsertOutcome, InsertSideEffect, InsertSurface};
use crate::board_editor::LoadedBoard;
use crate::command::Command;
use crate::dialog::LabelManager;
use crate::key::Key;
use crate::model::ids::ShortId;
use crate::model::label::LabelColor;

verus! {

/// How a key ended for a line input: keep editing, cancel, or confirm
/// with a trimmed text (empty or not).
pub enum Step {
    Stay,
    Cancel,
    Empty,
    Text(String),
}

/// The reaction of `input` to `key`.
pub open spec fn reaction(input: LineInput, key: Key) -> LineKey {
    line_after(input.buffer@, input.char_pos(), key).2
}

/// The trimmed text `input` holds after `key`.
pub open spec fn confirmed(input: LineInput, key: Key) -> Seq<char> {
    trim(line_after(input.buffer@, input.char_pos(), key).0)
}

/// `after` is `before` once `key` was handled.
pub open spec fn input_after(before: LineInput, after: LineInput, key: Key) -> bool {
    let (s2, k2, r2) = line_after(before.buffer@, before.char_pos(), key);
    &&& after.buffer@ == s2
    &&& after.cursor == byte_len(s2.take(k2))
    &&& line_ok(after.buffer@, after.cursor)
}

/// The step `key` makes: confirm gives the trimmed text, empty or not.
pub open spec fn step_of(input: LineInput, key: Key, st: Step) -> bool {
    match reaction(input, key) {
        LineKey::Confirm => if confirmed(input, key).len() == 0 {
            st is Empty
        } else {
            st matches Step::Text(t) && t@ == confirmed(input, key)
        },
        LineKey::Cancel => st is Cancel,
        _ => st is Stay,
    }
}

/// Feed `key` to `input` and classify the result.
pub fn step(input: &mut LineInput, key: Key) -> (st: Step)
    requires
        line_ok(old(input).buffer@, old(input).cursor),
        has_room(old(input).buffer@),
    ensures
        input_after(*old(input), *final(input), key),
        step_of(*old(input), key, st),
{
    match input.handle_key(key) {
        LineKey::Confirm => {
            let t = input.trimmed();
            if t.as_str().is_empty() {
                Step::Empty
            } else {
                Step::Text(t)
            }
        },
        LineKey::Cancel => Step::Cancel,
        _ => Step::Stay,
    }
}

/// The handler's input can take a key.
pub open spec fn ready(input: LineInput) -> bool {
    line_ok(input.buffer@, input.cursor) && has_room(input.buffer@)
}

/// The outcome of a handler that turns a confirmed text into a command
/// (`Confirm`) and cancels on an empty one.
pub open spec fn command_outcome(input: LineInput, key: Key, o: InsertOutcome, made: spec_fn(Command) -> bool) -> bool {
    match reaction(input, key) {
        LineKey::Confirm => if confirmed(input, key).len() == 0 {
            o is Cancel
        } else {
            o matches InsertOutcome::Confirm(c) && made(c)
        },
        LineKey::Cancel => o is Cancel,
        _ => o is Stay,
    }
}

/// Entering the name of a new board.
pub struct NewBoardName {
    pub input: LineInput,
}

impl NewBoardName {
    pub fn new() -> (h: Self)
        ensures
            h.input.buffer@.len() == 0,
            h.input.cursor == 0,
            ready(h.input),
    {
        let h = NewBoardName { input: LineInput::new() };
        assert(byte_len(h.input.buffer@) == 0);
        h
    }

    /// Confirming creates a board with the trimmed name.
    pub fn handle_key(&mut self, key: Key, _board: Option<&LoadedBoard>) -> (o: InsertOutcome)
        requires
            ready(old(self).input),
        ensures
            input_after(old(self).input, final(self).input, key),
            match reaction(old(self).input, key) {
                LineKey::Confirm => if confirmed(old(self).input, key).len() == 0 {
                    o is Cancel
                } else {
                    o matches InsertOutcome::ConfirmSideEffect(InsertSideEffect::CreateBoard { name })
                        && name@ == confirmed(old(self).input, key)
                },
                LineKey::Cancel => o is Cancel,
                _ => o is Stay,
            },
    {
        match step(&mut self.input, key) {
            Step::Text(name) => InsertOutcome::ConfirmSideEffect(InsertSideEffect::CreateBoard { name }),
            Step::Empty | Step::Cancel => InsertOutcome::Cancel,
            Step::Stay => InsertOutcome::Stay,
        }
    }

    pub fn surface(&self) -> (s: InsertSurface)
        ensures
            s == InsertSurface::BoardSelector,
    {
        InsertSurface::BoardSelector
    }

    pub fn title(&self) -> (t: &'static str)
        ensures
            t@ == "New Board"@,
    {
        "New Board"
    }
}

/// Renaming the board selected in the board selector.
pub struct RenameBoard {
    pub input: LineInput,
}

impl RenameBoard {
    pub fn new(current: &str) -> (h: Self)
        requires
            has_room(current@),
        ensures
            h.input.buffer@ == current@,
            h.input.char_pos() == current@.len(),
            ready(h.input),
    {
        RenameBoard { input: LineInput::with_initial(current) }
    }

    /// Confirming renames the selected board to the trimmed name.
    pub fn handle_key(&mut self, key: Key, _board: Option<&LoadedBoard>) -> (o: InsertOutcome)
        requires
            ready(old(self).input),
        ensures
            input_after(old(self).input, final(self).input, key),
            match reaction(old(self).input, key) {
                LineKey::Confirm => if confirmed(old(self).input, key).len() == 0 {
                    o is Cancel
                } else {
                    o matches InsertOutcome::ConfirmSideEffect(InsertSideEffect::RenameSelectedBoard { new_name })
                        && new_name@ == confirmed(old(self).input, key)
                },
                LineKey::Cancel => o is Cancel,
                _ => o is Stay,
            },
    {
        match step(&mut self.input, key) {
            Step::Text(new_name) => InsertOutcome::ConfirmSideEffect(InsertSideEffect::RenameSelectedBoard { new_name }),
            Step::Empty | Step::Cancel => InsertOutcome::Cancel,
            Step::Stay => InsertOutcome::Stay,
        }
    }

    pub fn surface(&self) -> (s: InsertSurface)
        ensures
            s == InsertSurface::BoardSelector,
    {
        InsertSurface::BoardSelector
    }

    pub fn title(&self) -> (t: &'static str)
        ensures
            t@ == "Rename Board"@,
    {
        "Rename Board"
    }
}

/// The id of the selected list of an optional board.
pub open spec fn selected_list_id(board: Option<&LoadedBoard>) -> Option<ShortId> {
    match board {
        Some(b) => if b.selected_list < b.lists@.len() { Some(b.lists@[b.selected_list as int].id) } else { None },
        None => None,
    }
}

/// Entering the title of a new card for the selected list.
pub struct NewCardTitle {
    pub input: LineInput,
}

impl NewCardTitle {
    pub fn new() -> (h: Self)
        ensures
            h.input.buffer@.len() == 0,
            h.input.cursor == 0,
            ready(h.input),
    {
        let h = NewCardTitle { input: LineInput::new() };
        assert(byte_len(h.input.buffer@) == 0);
        h
    }

    /// Confirming adds a card with the trimmed title to the selected list;
    /// without a selected list it cancels.
    pub fn handle_key(&mut self, key: Key, board: Option<&LoadedBoard>) -> (o: InsertOutcome)
        requires
            ready(old(self).input),
        ensures
            input_after(old(self).input, final(self).input, key),
            match reaction(old(self).input, key) {
                LineKey::Confirm => if confirmed(old(self).input, key).len() == 0 || selected_list_id(board) is None {
                    o is Cancel
                } else {
                    o matches InsertOutcome::Confirm(Command::AddCard { list_id, title })
                        && title@ == confirmed(old(self).input, key) && Some(list_id) == selected_list_id(board)
                },
                LineKey::Cancel => o is Cancel,
                _ => o is Stay,
            },
    {
        match step(&mut self.input, key) {
            Step::Text(title) => {
                let list_id = match board {
                    Some(b) => if b.selected_list < b.lists.len() {
                        Some(b.lists[b.selected_list].id.clone())
                    } else {
                        None
                    },
                    None => None,
                };
                match list_id {
                    Some(list_id) => InsertOutcome::Confirm(Command::AddCard { list_id, title }),
                    None => InsertOutcome::Cancel,
                }
            },
            Step::Empty | Step::Cancel => InsertOutcome::Cancel,
            Step::Stay => InsertOutcome::Stay,
        }
    }

    pub fn surface(&self) -> (s: InsertSurface)
        ensures
            s == InsertSurface::BoardView,
    {
        InsertSurface::BoardView
    }

    pub fn title(&self) -> (t: &'static str)
        ensures
            t@ == "New Card"@,
    {
        "New Card"
    }
}

/// Editing a card's title, in the card detail or inline over the board.
pub struct EditCardTitle {
    pub input: LineInput,
    pub inline: bool,
    pub card_id: ShortId,
}

impl EditCardTitle {
    pub fn new(card_id: ShortId, current: &str, inline: bool) -> (h: Self)
        requires
            has_room(current@),
        ensures
            h.input.buffer@ == current@,
            h.input.char_pos() == current@.len(),
            ready(h.input),
            h.card_id == card_id,
            h.inline == inline,
    {
        EditCardTitle { input: LineInput::with_initial(current), inline, card_id }
    }

    /// Confirming sets the card's title to the trimmed text.
    pub fn handle_key(&mut self, key: Key, _board: Option<&LoadedBoard>) -> (o: InsertOutcome)
        requires
            ready(old(self).input),
        ensures
            input_after(old(self).input, final(self).input, key),
            final(self).card_id == old(self).card_id,
            final(self).inline == old(self).inline,
            command_outcome(old(self).input, key, o, |c: Command| c matches Command::EditCardTitle { card_id, title }
                && card_id == old(self).card_id && title@ == confirmed(old(self).input, key)),
    {
        match step(&mut self.input, key) {
            Step::Text(title) => InsertOutcome::Confirm(Command::EditCardTitle { card_id: self.card_id.clone(), title }),
            Step::Empty | Step::Cancel => InsertOutcome::Cancel,
            Step::Stay => InsertOutcome::Stay,
        }
    }

    pub fn surface(&self) -> (s: InsertSurface)
        ensures
            s == if self.inline { InsertSurface::BoardView } else { InsertSurface::CardDetail },
    {
        if self.inline {
            InsertSurface::BoardView
        } else {
            InsertSurface::CardDetail
        }
    }

    pub fn title(&self) -> (t: &'static str)
        ensures
            t@ == "Edit Card Title"@,
    {
        "Edit Card Title"
    }
}

/// Entering the name of a new list.
pub struct NewListName {
    pub input: LineInput,
}

impl NewListName {
    pub fn new() -> (h: Self)
        ensures
            h.input.buffer@.len() == 0,
            h.input.cursor == 0,
            ready(h.input),
    {
        let h = NewListName { input: LineInput::new() };
        assert(byte_len(h.input.buffer@) == 0);
        h
    }

    /// Confirming adds a list with the trimmed name.
    pub fn handle_key(&mut self, key: Key, _board: Option<&LoadedBoard>) -> (o: InsertOutcome)
        requires
            ready(old(self).input),
        ensures
            input_after(old(self).input, final(self).input, key),
            command_outcome(old(self).input, key, o, |c: Command| c matches Command::AddList { name }
                && name@ == confirmed(old(self).input, key)),
    {
        match step(&mut self.input, key) {
            Step::Text(name) => InsertOutcome::Confirm(Command::AddList { name }),
            Step::Empty | Step::Cancel => InsertOutcome::Cancel,
            Step::Stay => InsertOutcome::Stay,
        }
    }

    pub fn surface(&self) -> (s: InsertSurface)
        ensures
            s == InsertSurface::BoardView,
    {
        InsertSurface::BoardView
    }

    pub fn title(&self) -> (t: &'static str)
        ensures
            t@ == "New List"@,
    {
        "New List"
    }
}

/// Renaming a list.
pub struct RenameList {
    pub input: LineInput,
    pub list_id: ShortId,
}

impl RenameList {
    pub fn new(list_id: ShortId, current: &str) -> (h: Self)
        requires
            has_room(current@),
        ensures
            h.input.buffer@ == current@,
            h.input.char_pos() == current@.len(),
            ready(h.input),
            h.list_id == list_id,
    {
        RenameList { input: LineInput::with_initial(current), list_id }
    }

    /// Confirming renames the list to the trimmed text.
    pub fn handle_key(&mut self, key: Key, _board: Option<&LoadedBoard>) -> (o: InsertOutcome)
        requires
            ready(old(self).input),
        ensures
            input_after(old(self).input, final(self).input, key),
            final(self).list_id == old(self).list_id,
            command_outcome(old(self).input, key, o, |c: Command| c matches Command::RenameList { list_id, name }
                && list_id == old(self).list_id && name@ == confirmed(old(self).input, key)),
    {
        match step(&mut self.input, key) {
            Step::Text(name) => InsertOutcome::Confirm(Command::RenameList { list_id: self.list_id.clone(), name }),
            Step::Empty | Step::Cancel => InsertOutcome::Cancel,
            Step::Stay => InsertOutcome::Stay,
        }
    }

    pub fn surface(&self) -> (s: InsertSurface)
        ensures
            s == InsertSurface::BoardView,
    {
        InsertSurface::BoardView
    }

    pub fn title(&self) -> (t: &'static str)
        ensures
            t@ == "Rename List"@,
    {
        "Rename List"
    }
}

/// Entering a new checklist item of a card.
pub struct NewChecklistItem {
    pub input: LineInput,
    pub card_id: ShortId,
}

impl NewChecklistItem {
    pub fn new(card_id: ShortId) -> (h: Self)
        ensures
            h.input.buffer@.len() == 0,
            h.input.cursor == 0,
            ready(h.input),
            h.card_id == card_id,
    {
        let h = NewChecklistItem { input: LineInput::new(), card_id };
        assert(byte_len(h.input.buffer@) == 0);
        h
    }

    /// Confirming adds the trimmed text as an item.
    pub fn handle_key(&mut self, key: Key, _board: Option<&LoadedBoard>) -> (o: InsertOutcome)
        requires
            ready(old(self).input),
        ensures
            input_after(old(self).input, final(self).input, key),
            final(self).card_id == old(self).card_id,
            command_outcome(old(self).input, key, o, |c: Command| c matches Command::AddChecklistItem { card_id, text }
                && card_id == old(self).card_id && text@ == confirmed(old(self).input, key)),
    {
        match step(&mut self.input, key) {
            Step::Text(text) => InsertOutcome::Confirm(Command::AddChecklistItem { card_id: self.card_id.clone(), text }),
            Step::Empty | Step::Cancel => InsertOutcome::Cancel,
            Step::Stay => InsertOutcome::Stay,
        }
    }

    pub fn surface(&self) -> (s: InsertSurface)
        ensures
            s == InsertSurface::CardDetail,
    {
        InsertSurface::CardDetail
    }

    pub fn title(&self) -> (t: &'static str)
        ensures
            t@ == "New Item"@,
    {
        "New Item"
    }
}

/// Editing a checklist item's text.
pub struct EditChecklistItem {
    pub input: LineInput,
    pub card_id: ShortId,
    pub item_idx: usize,
}

impl EditChecklistItem {
    pub fn new(card_id: ShortId, item_idx: usize, current: &str) -> (h: Self)
        requires
            has_room(current@),
        ensures
            h.input.buffer@ == current@,
            h.input.char_pos() == current@.len(),
            ready(h.input),
            h.card_id == card_id,
            h.item_idx == item_idx,
    {
        EditChecklistItem { input: LineInput::with_initial(current), card_id, item_idx }
    }

    /// Confirming sets the item's text to the trimmed text.
    pub fn handle_key(&mut self, key: Key, _board: Option<&LoadedBoard>) -> (o: InsertOutcome)
        requires
            ready(old(self).input),
        ensures
            input_after(old(self).input, final(self).input, key),
            final(self).card_id == old(self).card_id,
            final(self).item_idx == old(self).item_idx,
            command_outcome(old(self).input, key, o, |c: Command| c matches Command::EditChecklistItem { card_id, item_idx, text }
                && card_id == old(self).card_id && item_idx == old(self).item_idx
                && text@ == confirmed(old(self).input, key)),
    {
        match step(&mut self.input, key) {
            Step::Text(text) => InsertOutcome::Confirm(
                Command::EditChecklistItem { card_id: self.card_id.clone(), item_idx: self.item_idx, text },
            ),
            Step::Empty | Step::Cancel => InsertOutcome::Cancel,
            Step::Stay => InsertOutcome::Stay,
        }
    }

    pub fn surface(&self) -> (s: InsertSurface)
        ensures
            s == InsertSurface::CardDetail,
    {
        InsertSurface::CardDetail
    }

    pub fn title(&self) -> (t: &'static str)
        ensures
            t@ == "Edit Item"@,
    {
        "Edit Item"
    }
}

/// Entering the name of a new label, from the label manager.
pub struct NewLabelName {
    pub input: LineInput,
    /// The label to keep selected when the label manager reopens.
    pub label_selected_idx: usize,
    /// The label manager returns to the label picker on close.
    pub from_picker: bool,
}

impl NewLabelName {
    pub fn new(from_picker: bool) -> (h: Self)
        ensures
            h.input.buffer@.len() == 0,
            h.input.cursor == 0,
            ready(h.input),
            h.label_selected_idx == 0,
            h.from_picker == from_picker,
    {
        let h = NewLabelName { input: LineInput::new(), label_selected_idx: 0, from_picker };
        assert(byte_len(h.input.buffer@) == 0);
        h
    }

    /// Confirming defines a label with the trimmed name and reopens the
    /// label manager on it (it is appended, so its index is the number of
    /// labels); the color is `new_color` (the caller's generated pastel)
    /// on a loaded board and red without one. An empty name or Esc
    /// reopens the label manager unchanged.
    pub fn handle_key(&mut self, key: Key, board: Option<&LoadedBoard>, new_color: LabelColor) -> (o: InsertOutcome)
        requires
            ready(old(self).input),
        ensures
            input_after(old(self).input, final(self).input, key),
            final(self).label_selected_idx == old(self).label_selected_idx,
            final(self).from_picker == old(self).from_picker,
            ({
                let back = LabelManager { selected_idx: old(self).label_selected_idx, from_picker: old(self).from_picker };
                match reaction(old(self).input, key) {
                    LineKey::Confirm => if confirmed(old(self).input, key).len() == 0 {
                        o == InsertOutcome::OpenLabelManager(back)
                    } else {
                        o matches InsertOutcome::ConfirmAndOpenLabelManager(Command::DefineLabel { name, color }, m)
                            && name@ == confirmed(old(self).input, key)
                            && color == (if board is Some { new_color } else { LabelColor::Red })
                            && m == (LabelManager {
                                selected_idx: if board is Some { board->0.meta.labels@.len() as usize } else { 0 },
                                from_picker: old(self).from_picker,
                            })
                    },
                    LineKey::Cancel => o == InsertOutcome::OpenLabelManager(back),
                    _ => o is Stay,
                }
            }),
    {
        let back = LabelManager { selected_idx: self.label_selected_idx, from_picker: self.from_picker };
        match step(&mut self.input, key) {
            Step::Text(name) => {
                let (color, new_idx) = match board {
                    Some(b) => (new_color, b.meta.labels.len()),
                    None => (LabelColor::Red, 0),
                };
                InsertOutcome::ConfirmAndOpenLabelManager(
                    Command::DefineLabel { name, color },
                    LabelManager { selected_idx: new_idx, from_picker: self.from_picker },
                )
            },
            Step::Empty | Step::Cancel => InsertOutcome::OpenLabelManager(back),
            Step::Stay => InsertOutcome::Stay,
        }
    }

    pub fn surface(&self) -> (s: InsertSurface)
        ensures
            s == InsertSurface::BoardView,
    {
        InsertSurface::BoardView
    }

    pub fn title(&self) -> (t: &'static str)
        ensures
            t@ == "New Label"@,
    {
        "New Label"
    }
}

/// Renaming a label, from the label manager.
pub struct EditLabelName {
    pub input: LineInput,
    pub label_id: ShortId,
    pub label_idx: usize,
    /// The label manager returns to the label picker on close.
    pub from_picker: bool,
}

impl EditLabelName {
    pub fn new(label_id: ShortId, label_idx: usize, current: &str, from_picker: bool) -> (h: Self)
        requires
            has_room(current@),
        ensures
            h.input.buffer@ == current@,
            h.input.char_pos() == current@.len(),
            ready(h.input),
            h.label_id == label_id,
            h.label_idx == label_idx,
            h.from_picker == from_picker,
    {
        EditLabelName { input: LineInput::with_initial(current), label_id, label_idx, from_picker }
    }

    /// Confirming renames the label to the trimmed text and reopens the
    /// label manager on it; an empty name or Esc reopens it unchanged.
    pub fn handle_key(&mut self, key: Key, _board: Option<&LoadedBoard>) -> (o: InsertOutcome)
        requires
            ready(old(self).input),
        ensures
            input_after(old(self).input, final(self).input, key),
            final(self).label_id == old(self).label_id,
            final(self).label_idx == old(self).label_idx,
            final(self).from_picker == old(self).from_picker,
            ({
                let back = LabelManager { selected_idx: old(self).label_idx, from_picker: old(self).from_picker };
                match reaction(old(self).input, key) {
                    LineKey::Confirm => if confirmed(old(self).input, key).len() == 0 {
                        o == InsertOutcome::OpenLabelManager(back)
                    } else {
                        o matches InsertOutcome::ConfirmAndOpenLabelManager(Command::RenameLabel { label_id, name }, m)
                            && label_id == old(self).label_id && name@ == confirmed(old(self).input, key) && m == back
                    },
                    LineKey::Cancel => o == InsertOutcome::OpenLabelManager(back),
                    _ => o is Stay,
                }
            }),
    {
        let back = LabelManager { selected_idx: self.label_idx, from_picker: self.from_picker };
        match step(&mut self.input, key) {
            Step::Text(name) => InsertOutcome::ConfirmAndOpenLabelManager(
                Command::RenameLabel { label_id: self.label_id.clone(), name },
                back,
            ),
            Step::Empty | Step::Cancel => InsertOutcome::OpenLabelManager(back),
            Step::Stay => InsertOutcome::Stay,
        }
    }

    pub fn surface(&self) -> (s: InsertSurface)
        ensures
            s == InsertSurface::BoardView,
    {
        InsertSurface::BoardView
    }

    pub fn title(&self) -> (t: &'static str)
        ensures
            t@ == "Rename Label"@,
    {
        "Rename Label"
    }
}

} // verus!
