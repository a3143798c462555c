use tct::insert::line_editor::{EditLabelName, NewCardTitle, NewLabelName, NewListName, RenameList};
use tct::insert::line_input::{LineInput, LineKey};
use tct::insert::{InsertOutcome, InsertSurface};
use tct::command::Command;
use tct::dialog::LabelManager;
use tct::key::{Key, KeyCode};
use tct::model::label::LabelColor;

fn k(code: KeyCode) -> Key {
    Key::plain(code)
}

fn ctrl(c: char) -> Key {
    Key { code: KeyCode::Char(c), control: true, command: false, shift: false, alt: false }
}

#[test]
fn umlaut_insertion_keeps_cursor_on_char_boundary() {
    let mut l = LineInput::new();
    l.handle_key(k(KeyCode::Char('ä')));
    l.handle_key(k(KeyCode::Char('b')));
    assert_eq!(l.buffer, "äb");
    assert_eq!(l.cursor, 3);
}

#[test]
fn utf8_backspace_left_right_delete() {
    let mut l = LineInput::with_initial("äöü");
    assert_eq!(l.cursor, 6);

    l.handle_key(k(KeyCode::Backspace));
    assert_eq!(l.buffer, "äö");
    assert_eq!(l.cursor, 4);

    l.handle_key(k(KeyCode::Left));
    assert_eq!(l.cursor, 2);

    l.handle_key(k(KeyCode::Delete));
    assert_eq!(l.buffer, "ä");
    assert_eq!(l.cursor, 2);

    l.handle_key(k(KeyCode::Left));
    assert_eq!(l.cursor, 0);

    l.handle_key(k(KeyCode::Right));
    assert_eq!(l.cursor, 2);

    l.handle_key(k(KeyCode::Backspace));
    assert_eq!(l.buffer, "");
    assert_eq!(l.cursor, 0);
}

#[test]
fn delete_at_end_is_ignored_and_keys_report() {
    let mut l = LineInput::with_initial("ab");
    assert_eq!(l.handle_key(k(KeyCode::Delete)), LineKey::Ignored);
    assert_eq!(l.handle_key(k(KeyCode::Enter)), LineKey::Confirm);
    assert_eq!(l.handle_key(k(KeyCode::Esc)), LineKey::Cancel);
    assert_eq!(l.handle_key(k(KeyCode::Tab)), LineKey::Ignored);
    assert_eq!(l.handle_key(k(KeyCode::Home)), LineKey::Edited);
    assert_eq!(l.cursor, 0);
    l.handle_key(k(KeyCode::Char('x')));
    assert_eq!(l.buffer, "xab");
    assert_eq!(l.cursor, 1);
    l.handle_key(ctrl('e'));
    assert_eq!(l.cursor, 3);
    l.handle_key(ctrl('a'));
    assert_eq!(l.cursor, 0);
    l.handle_key(ctrl('u'));
    assert_eq!(l.buffer, "");
    assert_eq!(l.cursor, 0);
}

#[test]
fn trimmed_drops_outer_whitespace() {
    let l = LineInput::with_initial("  hello world \t");
    assert_eq!(l.trimmed(), "hello world");
    let l = LineInput::with_initial("   ");
    assert_eq!(l.trimmed(), "");
}

#[test]
fn new_list_name_confirms_trimmed_text() {
    let mut h = NewListName::new();
    for c in " Todo ".chars() {
        assert!(matches!(h.handle_key(k(KeyCode::Char(c)), None), InsertOutcome::Stay));
    }
    match h.handle_key(k(KeyCode::Enter), None) {
        InsertOutcome::Confirm(Command::AddList { name }) => assert_eq!(name, "Todo"),
        other => panic!("unexpected {other:?}"),
    }
    assert_eq!(h.surface(), InsertSurface::BoardView);
    assert_eq!(h.title(), "New List");
}

#[test]
fn empty_line_cancels() {
    let mut h = RenameList::new("l1".to_string(), "   ");
    assert!(matches!(h.handle_key(k(KeyCode::Enter), None), InsertOutcome::Cancel));
    let mut h = NewCardTitle::new();
    assert!(matches!(h.handle_key(k(KeyCode::Enter), None), InsertOutcome::Cancel));
}

#[test]
fn new_card_without_board_cancels() {
    let mut h = NewCardTitle::new();
    h.handle_key(k(KeyCode::Char('x')), None);
    assert!(matches!(h.handle_key(k(KeyCode::Enter), None), InsertOutcome::Cancel));
}

#[test]
fn label_name_handlers_reopen_manager() {
    let mut h = NewLabelName::new(true);
    match h.handle_key(k(KeyCode::Esc), None, LabelColor::Blue) {
        InsertOutcome::OpenLabelManager(m) => assert_eq!(m, LabelManager { selected_idx: 0, from_picker: true }),
        other => panic!("unexpected {other:?}"),
    }
    let mut h = NewLabelName::new(false);
    h.handle_key(k(KeyCode::Char('b')), None, LabelColor::Blue);
    match h.handle_key(k(KeyCode::Enter), None, LabelColor::Blue) {
        InsertOutcome::ConfirmAndOpenLabelManager(Command::DefineLabel { name, color }, m) => {
            assert_eq!(name, "b");
            assert_eq!(color, LabelColor::Red);
            assert_eq!(m, LabelManager { selected_idx: 0, from_picker: false });
        }
        other => panic!("unexpected {other:?}"),
    }
    let mut h = EditLabelName::new("lb".to_string(), 2, "old", false);
    h.handle_key(k(KeyCode::Char('!')), None);
    match h.handle_key(k(KeyCode::Enter), None) {
        InsertOutcome::ConfirmAndOpenLabelManager(Command::RenameLabel { label_id, name }, m) => {
            assert_eq!(label_id, "lb");
            assert_eq!(name, "old!");
            assert_eq!(m, LabelManager { selected_idx: 2, from_picker: false });
        }
        other => panic!("unexpected {other:?}"),
    }
}
