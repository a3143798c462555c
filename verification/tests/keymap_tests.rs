use tct::key::KeyCode;
use tct::keymap::{board_selector, card_detail, help_rows, lookup, normal, Binding};

#[derive(Clone, Copy, PartialEq, Debug)]
enum A {
    X,
    Y,
    Z,
}

const MAP: &[Binding<A>] = &[
    Binding { code: KeyCode::Up, shift: Some(false), action: A::X, keys: "Up / Down", help: "nav", section: "S" },
    Binding { code: KeyCode::Down, shift: Some(false), action: A::Y, keys: "Up / Down", help: "nav", section: "S" },
    Binding { code: KeyCode::Char('q'), shift: None, action: A::Z, keys: "q", help: "quit", section: "App" },
];

#[test]
fn lookup_respects_shift_requirement() {
    assert_eq!(lookup(MAP, KeyCode::Up, false), Some(A::X));
    assert_eq!(lookup(MAP, KeyCode::Up, true), None);
    assert_eq!(lookup(MAP, KeyCode::Char('q'), true), Some(A::Z));
}

#[test]
fn help_rows_dedupes_shared_rows() {
    assert_eq!(help_rows(MAP, "S"), vec![("Up / Down", "nav")]);
    assert_eq!(help_rows(MAP, "App"), vec![("q", "quit")]);
}

#[test]
fn board_view_keys() {
    let map = normal::keymap();
    assert_eq!(lookup(&map, KeyCode::Left, false), Some(normal::Action::SelectListLeft));
    assert_eq!(lookup(&map, KeyCode::Left, true), Some(normal::Action::MoveCardLeft));
    assert_eq!(lookup(&map, KeyCode::Char('G'), true), Some(normal::Action::JumpLastCard));
    assert_eq!(lookup(&map, KeyCode::Char('q'), false), Some(normal::Action::Quit));
    assert_eq!(lookup(&map, KeyCode::Char('z'), false), None);
    assert_eq!(
        help_rows(&map, "Navigation"),
        vec![
            ("Left / Right", "Switch lists"),
            ("Up / Down", "Navigate cards"),
            ("g / G", "First / last card"),
            ("j / k", "Prev / next board"),
            ("Enter", "Open card detail"),
        ]
    );
}

#[test]
fn card_detail_and_selector_keys() {
    let map = card_detail::keymap();
    assert_eq!(lookup(&map, KeyCode::Left, false), Some(card_detail::Action::ScrollUp));
    assert_eq!(lookup(&map, KeyCode::Up, true), Some(card_detail::Action::ReorderItemUp));
    assert_eq!(lookup(&map, KeyCode::Char(' '), false), Some(card_detail::Action::ToggleItem));
    assert_eq!(help_rows(&map, "Card")[2], ("PgUp/PgDn ←/→", "Scroll description"));
    let map = board_selector::keymap();
    assert_eq!(lookup(&map, KeyCode::Down, true), Some(board_selector::Action::MoveBoardDown));
    assert_eq!(lookup(&map, KeyCode::Enter, false), Some(board_selector::Action::OpenBoard));
}
