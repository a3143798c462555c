use tct::insert::line_editor::NewCardTitle;
use tct::key::{Key, KeyCode};

fn title_key(h: &mut NewCardTitle, code: KeyCode) {
    h.handle_key(Key::plain(code), None);
}

#[test]
fn test_umlaut_insertion_panic() {
    let mut h = NewCardTitle::new();
    title_key(&mut h, KeyCode::Char('ä'));
    title_key(&mut h, KeyCode::Char('b'));
    assert_eq!(h.input.buffer, "äb");
    assert_eq!(h.input.cursor, 3);
}

#[test]
fn test_utf8_navigation_and_deletion() {
    let mut h = NewCardTitle::new();
    for c in "äöü".chars() {
        title_key(&mut h, KeyCode::Char(c));
    }
    assert_eq!(h.input.cursor, 6);

    title_key(&mut h, KeyCode::Backspace);
    assert_eq!(h.input.buffer, "äö");
    assert_eq!(h.input.cursor, 4);

    title_key(&mut h, KeyCode::Left);
    assert_eq!(h.input.cursor, 2);

    title_key(&mut h, KeyCode::Delete);
    assert_eq!(h.input.buffer, "ä");
    assert_eq!(h.input.cursor, 2);

    title_key(&mut h, KeyCode::Left);
    assert_eq!(h.input.cursor, 0);

    title_key(&mut h, KeyCode::Right);
    assert_eq!(h.input.cursor, 2);

    title_key(&mut h, KeyCode::Backspace);
    assert_eq!(h.input.buffer, "");
    assert_eq!(h.input.cursor, 0);
}
