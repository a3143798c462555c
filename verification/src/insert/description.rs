//! The description editor's key map and scrolling. The text itself lives in
//! the caller's text area; this decides what a key asks of it, what saving
//! or leaving gives, and which row the view starts at.

use vstd::prelude::*;

use crate::command::Command;
use crate::insert::InsertOutcome;
use crate::key::{has_ctrl_or_cmd, Key, KeyCode};
use crate::model::ids::ShortId;

verus! {

/// Inline markdown markup.
#[derive(Debug, Clone, Copy, PartialEq, Eq, Structural)]
pub enum Markup {
    Bold,
    Italic,
    Code,
}

/// The marker written on each side of marked-up text.
pub open spec fn marker_of(m: Markup) -> Seq<char> {
    match m {
        Markup::Bold => "**"@,
        Markup::Italic => "*"@,
        Markup::Code => "`"@,
    }
}

/// The marker of `m` (see [`marker_of`]).
pub fn marker(m: Markup) -> (s: &'static str)
    ensures
        s@ == marker_of(m),
{
    match m {
        Markup::Bold => "**",
        Markup::Italic => "*",
        Markup::Code => "`",
    }
}

/// What a key asks of the description editor.
#[derive(Debug, Clone, Copy, PartialEq, Eq, Structural)]
pub enum DescriptionKey {
    /// Save the text (Ctrl/Cmd+S).
    Save,
    /// Leave the editor (Esc).
    Leave,
    Undo,
    Redo,
    /// Wrap the selection in the markup's marker on both sides, or insert
    /// the marker twice with the cursor between.
    Wrap(Markup),
    /// Start the line with a bullet (`- `).
    Bullet,
    /// Enter, continuing lists.
    Enter,
    /// Tab: nest a list item (or type a tab).
    Nest,
    /// Shift+Tab: unnest a list item.
    Unnest,
    /// Move up one visual row.
    Up,
    /// Move down one visual row.
    Down,
    /// Anything else goes to the text area as typed; lists are renumbered
    /// when it changes the number of lines.
    Type,
}

/// The editor's reading of `key`.
pub open spec fn description_key_of(key: Key) -> DescriptionKey {
    let ctrl = key.control || key.command;
    match key.code {
        KeyCode::Char('s') if ctrl => DescriptionKey::Save,
        KeyCode::Esc => DescriptionKey::Leave,
        KeyCode::Char('z') if ctrl => DescriptionKey::Undo,
        KeyCode::Char('y') if ctrl => DescriptionKey::Redo,
        KeyCode::Char('b') if ctrl => DescriptionKey::Wrap(Markup::Bold),
        KeyCode::Char('i') if ctrl => DescriptionKey::Wrap(Markup::Italic),
        KeyCode::Char('k') if ctrl => DescriptionKey::Wrap(Markup::Code),
        KeyCode::Char('l') if ctrl => DescriptionKey::Bullet,
        KeyCode::Enter => DescriptionKey::Enter,
        KeyCode::Tab => if key.shift {
            DescriptionKey::Unnest
        } else {
            DescriptionKey::Nest
        },
        KeyCode::BackTab => DescriptionKey::Unnest,
        KeyCode::Up => DescriptionKey::Up,
        KeyCode::Down => DescriptionKey::Down,
        _ => DescriptionKey::Type,
    }
}

/// What `key` asks of the description editor (see [`description_key_of`]).
pub fn description_key(key: Key) -> (k: DescriptionKey)
    ensures
        k == description_key_of(key),
{
    let ctrl = has_ctrl_or_cmd(&key);
    match key.code {
        KeyCode::Char('s') if ctrl => DescriptionKey::Save,
        KeyCode::Esc => DescriptionKey::Leave,
        KeyCode::Char('z') if ctrl => DescriptionKey::Undo,
        KeyCode::Char('y') if ctrl => DescriptionKey::Redo,
        KeyCode::Char('b') if ctrl => DescriptionKey::Wrap(Markup::Bold),
        KeyCode::Char('i') if ctrl => DescriptionKey::Wrap(Markup::Italic),
        KeyCode::Char('k') if ctrl => DescriptionKey::Wrap(Markup::Code),
        KeyCode::Char('l') if ctrl => DescriptionKey::Bullet,
        KeyCode::Enter => DescriptionKey::Enter,
        KeyCode::Tab => if key.shift {
            DescriptionKey::Unnest
        } else {
            DescriptionKey::Nest
        },
        KeyCode::BackTab => DescriptionKey::Unnest,
        KeyCode::Up => DescriptionKey::Up,
        KeyCode::Down => DescriptionKey::Down,
        _ => DescriptionKey::Type,
    }
}

/// The outcome of saving (`save`) or leaving the editor of card
/// `card_id` with text `text`, opened on `original`: saving confirms the
/// text as the card's description; leaving with the text changed asks
/// first, which the caller does by opening the discard-changes dialog over
/// the editor (`None`); leaving unchanged cancels.
pub fn description_exit(card_id: &ShortId, text: String, original: &str, save: bool) -> (o: Option<InsertOutcome>)
    ensures
        save ==> (o matches Some(InsertOutcome::Confirm(Command::EditCardDescription { card_id: c, body }))
            && c == *card_id && body@ == text@),
        !save && text@ != original@ ==> o is None,
        !save && text@ == original@ ==> o == Some(InsertOutcome::Cancel),
{
    if save {
        Some(InsertOutcome::Confirm(Command::EditCardDescription { card_id: card_id.clone(), body: text }))
    } else if !crate::text::same_text(text.as_str(), original) {
        None
    } else {
        Some(InsertOutcome::Cancel)
    }
}

/// Rows of the description shown at once.
pub const VISIBLE_ROWS: usize = 20;

/// The first row shown once the cursor is on row `cursor_row`: unchanged
/// while the cursor is in view, else moved just enough to show it.
pub open spec fn scroll_for(cursor_row: int, scroll: int) -> int {
    if cursor_row < scroll {
        cursor_row
    } else if cursor_row >= scroll + VISIBLE_ROWS {
        cursor_row - VISIBLE_ROWS + 1
    } else {
        scroll
    }
}

/// The first row shown with the cursor on `cursor_row` (see
/// [`scroll_for`]).
pub fn scroll_after(cursor_row: usize, scroll: usize) -> (s: usize)
    ensures
        s == scroll_for(cursor_row as int, scroll as int),
        s <= cursor_row < s + VISIBLE_ROWS,
{
    if cursor_row < scroll {
        cursor_row
    } else if cursor_row - scroll >= VISIBLE_ROWS {
        cursor_row - VISIBLE_ROWS + 1
    } else {
        scroll
    }
}

} // verus!
