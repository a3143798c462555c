use tct::board_editor::BoardEditor;
use tct::mode::AppMode;
use tct::model::board::{BoardMeta, ListMeta};
use tct::model::card::Card;
use tct::session::{cycle_target, App};

type Session = App<&'static str, &'static str>;

fn boards(n: usize) -> Vec<BoardMeta> {
    (0..n)
        .map(|i| {
            let mut b = BoardMeta::new(format!("B{i}"));
            b.id = format!("board00{i}");
            b
        })
        .collect()
}

#[test]
fn cycle_target_steps_forward() {
    let bs = boards(3);
    assert_eq!(cycle_target(&bs, Some("board000"), 1), Some(1));
}

#[test]
fn cycle_target_wraps_backward() {
    let bs = boards(3);
    assert_eq!(cycle_target(&bs, Some("board000"), -1), Some(2));
}

#[test]
fn cycle_target_wraps_forward() {
    let bs = boards(3);
    assert_eq!(cycle_target(&bs, Some("board002"), 1), Some(0));
}

#[test]
fn cycle_target_needs_two_boards() {
    let bs = boards(1);
    assert_eq!(cycle_target(&bs, Some("board000"), -1), None);
    assert_eq!(cycle_target(&bs, Some("board000"), 1), None);
}

#[test]
fn cycle_needs_an_open_listed_board() {
    let bs = boards(3);
    assert_eq!(cycle_target(&bs, None, 1), None);
    assert_eq!(cycle_target(&bs, Some("elsewhere"), 1), None);
    assert_eq!(cycle_target(&bs, Some("board001"), 3), None);
    assert_eq!(cycle_target(&bs, Some("board001"), -4), Some(0));
}

#[test]
fn dialog_round_trip_restores_mode() {
    let mut app: Session = App::new(boards(2));
    app.mode = AppMode::Normal;
    app.open_dialog("labels");
    assert_eq!(app.mode, AppMode::Dialog);
    assert_eq!(app.previous_mode, Some(AppMode::Normal));
    app.open_dialog("confirm");
    assert_eq!(app.previous_mode, Some(AppMode::Normal));
    app.close_dialog();
    assert_eq!(app.mode, AppMode::Normal);
    assert!(app.dialog.is_none());
    assert!(app.previous_mode.is_none());
}

#[test]
fn close_dialog_without_memory_falls_back() {
    let mut app: Session = App::new(vec![]);
    app.open_dialog_over_insert("d");
    app.close_dialog();
    assert_eq!(app.mode, AppMode::BoardSelector);
    let mut meta = BoardMeta::new("X".into());
    meta.lists.push(ListMeta { id: "l0000001".into(), name: "L".into(), archived: false });
    let (editor, _) = BoardEditor::load(meta, vec![], &vec![]);
    app.load_board(editor);
    assert_eq!(app.mode, AppMode::Normal);
    assert!(app.status_message.is_none());
    app.open_dialog_over_insert("d");
    app.close_dialog();
    assert_eq!(app.mode, AppMode::Normal);
}

#[test]
fn start_and_cancel_insert_restore_mode() {
    let mut app: Session = App::new(boards(1));
    app.mode = AppMode::CardDetail;
    app.start_insert("title");
    assert_eq!(app.mode, AppMode::Insert);
    assert!(!app.should_reload());
    app.cancel_insert();
    assert_eq!(app.mode, AppMode::CardDetail);
    assert!(app.insert.is_none());
}

#[test]
fn load_board_reports_repairs_and_reload_rules() {
    let mut app: Session = App::new(boards(2));
    assert!(!app.should_reload());
    let mut meta = BoardMeta::new("X".into());
    meta.lists.push(ListMeta { id: "l0000001".into(), name: "L".into(), archived: false });
    let mut orphan = Card::new("lost".into());
    orphan.list_id = "gone0000".into();
    let (editor, _) = BoardEditor::load(meta, vec![orphan], &vec![5]);
    app.load_board(editor);
    assert_eq!(
        app.status_message.as_deref(),
        Some("Repaired 1 reference issue(s) on load — see card order/labels")
    );
    assert!(app.should_reload());
    app.selected_board_idx = 1;
    app.board_vanished(boards(1));
    assert_eq!(app.mode, AppMode::BoardSelector);
    assert!(app.editor.is_none());
    assert_eq!(app.selected_board_idx, 0);
}
