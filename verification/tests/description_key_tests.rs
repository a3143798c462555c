use tct::command::Command;
use tct::insert::description::{description_exit, description_key, marker, scroll_after, DescriptionKey, Markup};
use tct::insert::InsertOutcome;
use tct::key::{Key, KeyCode};

fn ctrl(c: char) -> Key {
    Key { code: KeyCode::Char(c), control: true, command: false, shift: false, alt: false }
}

#[test]
fn description_keys_map_to_editor_actions() {
    assert_eq!(description_key(ctrl('s')), DescriptionKey::Save);
    let mut cmd_s = ctrl('s');
    cmd_s.control = false;
    cmd_s.command = true;
    assert_eq!(description_key(cmd_s), DescriptionKey::Save);
    assert_eq!(description_key(Key::plain(KeyCode::Char('s'))), DescriptionKey::Type);
    assert_eq!(description_key(Key::plain(KeyCode::Esc)), DescriptionKey::Leave);
    assert_eq!(description_key(ctrl('b')), DescriptionKey::Wrap(Markup::Bold));
    assert_eq!(description_key(ctrl('k')), DescriptionKey::Wrap(Markup::Code));
    assert_eq!(description_key(ctrl('l')), DescriptionKey::Bullet);
    assert_eq!(description_key(Key::plain(KeyCode::Tab)), DescriptionKey::Nest);
    let mut shift_tab = Key::plain(KeyCode::Tab);
    shift_tab.shift = true;
    assert_eq!(description_key(shift_tab), DescriptionKey::Unnest);
    assert_eq!(description_key(Key::plain(KeyCode::BackTab)), DescriptionKey::Unnest);
    assert_eq!(marker(Markup::Bold), "**");
    assert_eq!(marker(Markup::Italic), "*");
}

#[test]
fn description_exit_saves_asks_or_cancels() {
    let id = "card0001".to_string();
    match description_exit(&id, "new".into(), "old", true) {
        Some(InsertOutcome::Confirm(Command::EditCardDescription { card_id, body })) => {
            assert_eq!(card_id, "card0001");
            assert_eq!(body, "new");
        }
        _ => panic!("save expected"),
    }
    assert!(description_exit(&id, "new".into(), "old", false).is_none());
    assert!(matches!(description_exit(&id, "same".into(), "same", false), Some(InsertOutcome::Cancel)));
}

#[test]
fn scroll_follows_the_cursor() {
    assert_eq!(scroll_after(5, 10), 5);
    assert_eq!(scroll_after(12, 10), 10);
    assert_eq!(scroll_after(29, 10), 10);
    assert_eq!(scroll_after(30, 10), 11);
    assert_eq!(scroll_after(0, 0), 0);
}
