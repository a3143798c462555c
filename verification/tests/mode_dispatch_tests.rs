use tct::board_directory::swap_order;
use tct::board_editor::{BoardEditor, PositionRequest};
use tct::command::Command;
use tct::dispatch::{ActiveDialog, ActiveInsert, DetailEffect, SelectorEffect, Session};
use tct::key::{Key, KeyCode};
use tct::mode::AppMode;
use tct::model::board::{BoardMeta, ListMeta};
use tct::model::card::{Card, ChecklistItem, Date};
use tct::session::App;

fn key(code: KeyCode) -> Key {
    Key::plain(code)
}

fn shift_key(code: KeyCode) -> Key {
    let mut k = Key::plain(code);
    k.shift = true;
    k
}

fn seed_boards(names: &[&str]) -> Vec<BoardMeta> {
    names
        .iter()
        .enumerate()
        .map(|(i, n)| {
            let mut m = BoardMeta::new((*n).to_string());
            m.id = format!("board00{i}");
            m
        })
        .collect()
}

/// Handles a selector key and performs the effect in memory, keeping a
/// stored board order alongside.
fn press_sel(app: &mut Session, order: &mut Vec<String>, k: Key) -> SelectorEffect {
    let e = app.handle_selector(k);
    match &e {
        SelectorEffect::SwapBoards(i, j) => {
            let a = app.boards[*i].id.clone();
            let b = app.boards[*j].id.clone();
            let displayed: Vec<String> = app.boards.iter().map(|b| b.id.clone()).collect();
            swap_order(order, &a, &b, &displayed);
            app.boards_swapped(*i, *j);
        }
        SelectorEffect::CycleAccent(i) => {
            let next = app.boards[*i].accent_color.next().unwrap();
            app.accent_cycled(*i, next);
        }
        SelectorEffect::ViewArchived => app.show_archived_boards(vec![]),
        _ => {}
    }
    e
}

#[test]
fn down_arrow_advances_selection_within_bounds() {
    let mut app: Session = App::new(seed_boards(&["A", "B", "C"]));
    let mut order = vec![];
    assert_eq!(app.boards.len(), 3);
    assert_eq!(app.selected_board_idx, 0);
    press_sel(&mut app, &mut order, key(KeyCode::Down));
    assert_eq!(app.selected_board_idx, 1);
    press_sel(&mut app, &mut order, key(KeyCode::Down));
    assert_eq!(app.selected_board_idx, 2);
    press_sel(&mut app, &mut order, key(KeyCode::Down));
    assert_eq!(app.selected_board_idx, 2);
}

#[test]
fn board_selector_input_up_arrow_stops_at_zero() {
    let mut app: Session = App::new(seed_boards(&["A", "B"]));
    let mut order = vec![];
    app.selected_board_idx = 1;
    press_sel(&mut app, &mut order, key(KeyCode::Up));
    assert_eq!(app.selected_board_idx, 0);
    press_sel(&mut app, &mut order, key(KeyCode::Up));
    assert_eq!(app.selected_board_idx, 0);
}

#[test]
fn shift_down_swaps_with_next_board_and_persists_order() {
    let boards = seed_boards(&["A", "B", "C"]);
    let mut order: Vec<String> = boards.iter().map(|b| b.id.clone()).collect();
    let mut app: Session = App::new(boards.clone());
    assert_eq!(app.boards[0].name, "A");
    press_sel(&mut app, &mut order, shift_key(KeyCode::Down));
    assert_eq!(app.boards[0].name, "B");
    assert_eq!(app.boards[1].name, "A");
    assert_eq!(app.selected_board_idx, 1);
    assert_eq!(order[0], boards[1].id);
    assert_eq!(order[1], boards[0].id);
}

#[test]
fn shift_up_on_first_board_is_noop() {
    let mut app: Session = App::new(seed_boards(&["A", "B"]));
    let mut order = vec![];
    assert!(matches!(press_sel(&mut app, &mut order, shift_key(KeyCode::Up)), SelectorEffect::Nothing));
    assert_eq!(app.boards[0].name, "A");
    assert_eq!(app.selected_board_idx, 0);
}

#[test]
fn n_enters_new_board_name_insert_mode() {
    let mut app: Session = App::new(vec![]);
    press_sel(&mut app, &mut vec![], key(KeyCode::Char('n')));
    assert!(matches!(app.mode, AppMode::Insert));
    match app.insert.as_ref().unwrap() {
        ActiveInsert::NewBoardName(h) => assert_eq!(h.input.buffer, ""),
        _ => panic!("expected the board name editor"),
    }
}

#[test]
fn r_prefills_rename_with_existing_name() {
    let mut app: Session = App::new(seed_boards(&["My Board"]));
    press_sel(&mut app, &mut vec![], key(KeyCode::Char('r')));
    assert!(matches!(app.mode, AppMode::Insert));
    match app.insert.as_ref().unwrap() {
        ActiveInsert::RenameBoard(h) => assert_eq!(h.input.buffer, "My Board"),
        _ => panic!("expected the rename editor"),
    }
}

#[test]
fn c_cycles_board_accent_color_and_persists() {
    let mut app: Session = App::new(seed_boards(&["A"]));
    let before = app.boards[0].accent_color;
    assert!(matches!(press_sel(&mut app, &mut vec![], key(KeyCode::Char('c'))), SelectorEffect::CycleAccent(0)));
    let after = app.boards[0].accent_color;
    assert_ne!(before, after);
    assert_eq!(app.status_message.as_deref(), Some("Board color changed"));
}

#[test]
fn a_opens_archive_confirmation_when_boards_exist() {
    let mut app: Session = App::new(seed_boards(&["A"]));
    press_sel(&mut app, &mut vec![], key(KeyCode::Char('a')));
    assert!(matches!(app.mode, AppMode::Dialog));
    match app.dialog.as_ref().unwrap() {
        ActiveDialog::ConfirmArchiveBoard(d) => assert_eq!(d.board_name, "A"),
        _ => panic!("expected the archive confirmation"),
    }
}

#[test]
fn a_is_noop_when_no_boards() {
    let mut app: Session = App::new(vec![]);
    assert!(app.boards.is_empty());
    press_sel(&mut app, &mut vec![], key(KeyCode::Char('a')));
    assert!(matches!(app.mode, AppMode::BoardSelector));
}

#[test]
fn v_opens_archived_boards_dialog() {
    let mut app: Session = App::new(vec![]);
    press_sel(&mut app, &mut vec![], key(KeyCode::Char('v')));
    assert!(matches!(app.mode, AppMode::Dialog));
    assert!(app.dialog.is_some());
}

#[test]
fn question_mark_opens_help_and_remembers_previous_mode() {
    let mut app: Session = App::new(vec![]);
    press_sel(&mut app, &mut vec![], key(KeyCode::Char('?')));
    assert!(matches!(app.mode, AppMode::Help));
    assert!(matches!(app.previous_mode.as_ref().unwrap(), AppMode::BoardSelector));
}

#[test]
fn board_selector_input_q_sets_should_quit() {
    let mut app: Session = App::new(vec![]);
    press_sel(&mut app, &mut vec![], key(KeyCode::Char('q')));
    assert!(app.should_quit);
}

#[test]
fn enter_opens_the_selected_board() {
    let mut app: Session = App::new(seed_boards(&["A", "B"]));
    app.selected_board_idx = 1;
    assert!(matches!(app.handle_selector(key(KeyCode::Enter)), SelectorEffect::OpenBoard(1)));
}

// ── The card detail ──

fn setup_card_detail() -> Session {
    let mut meta = BoardMeta::new("Test".into());
    meta.id = "board001".into();
    meta.lists.push(ListMeta { id: "list0001".into(), name: "To Do".into(), archived: false });
    let mut card = Card::new("Card".into());
    card.id = "card0001".into();
    card.list_id = "list0001".into();
    card.position = 1000;
    card.checklist = vec![
        ChecklistItem { text: "a".into(), completed: false },
        ChecklistItem { text: "b".into(), completed: false },
        ChecklistItem { text: "c".into(), completed: false },
    ];
    card.due_date = Some(Date { year: 2099, month: 1, day: 1 });
    let (editor, _) = BoardEditor::load(meta.clone(), vec![card], &vec![]);
    let mut app: Session = App::new(vec![meta]);
    app.load_board(editor);
    app.mode = AppMode::CardDetail;
    app
}

fn key_for(ed: &BoardEditor, cmd: &Command) -> u64 {
    match ed.position_request(cmd) {
        PositionRequest::After(Some(m)) => m + 1000,
        PositionRequest::Between(Some(a), Some(b)) => a + (b - a) / 2,
        _ => 1000,
    }
}

fn press_detail(app: &mut Session, k: Key, max_scroll: usize) -> DetailEffect {
    let e = app.handle_detail(k, max_scroll);
    match &e {
        DetailEffect::Apply(cmd) | DetailEffect::ApplyWithStatus(cmd, _) => {
            let ed = app.editor.as_mut().unwrap();
            let pos = key_for(ed, cmd);
            ed.apply(cmd.clone(), pos).unwrap();
            if let DetailEffect::ApplyWithStatus(_, m) = &e {
                app.set_status(m.clone());
            }
        }
        _ => {}
    }
    e
}

fn press(app: &mut Session, code: KeyCode) -> DetailEffect {
    press_detail(app, key(code), 0)
}

fn press_shift(app: &mut Session, code: KeyCode) -> DetailEffect {
    press_detail(app, shift_key(code), 0)
}

fn board(app: &Session) -> &tct::board_editor::LoadedBoard {
    app.board().unwrap()
}

#[test]
fn esc_returns_to_normal_mode_and_resets_scroll() {
    let mut app = setup_card_detail();
    app.editor.as_mut().unwrap().board.detail_scroll = 5;
    app.editor.as_mut().unwrap().board.detail_item_idx = 2;
    press(&mut app, KeyCode::Esc);
    assert!(matches!(app.mode, AppMode::Normal));
    assert_eq!(board(&app).detail_scroll, 0);
    assert_eq!(board(&app).detail_item_idx, 0);
}

#[test]
fn down_arrow_navigates_checklist_with_clamp() {
    let mut app = setup_card_detail();
    press(&mut app, KeyCode::Down);
    assert_eq!(board(&app).detail_item_idx, 1);
    press(&mut app, KeyCode::Down);
    assert_eq!(board(&app).detail_item_idx, 2);
    press(&mut app, KeyCode::Down);
    assert_eq!(board(&app).detail_item_idx, 2);
}

#[test]
fn card_detail_input_up_arrow_stops_at_zero() {
    let mut app = setup_card_detail();
    app.editor.as_mut().unwrap().board.detail_item_idx = 1;
    press(&mut app, KeyCode::Up);
    assert_eq!(board(&app).detail_item_idx, 0);
    press(&mut app, KeyCode::Up);
    assert_eq!(board(&app).detail_item_idx, 0);
}

#[test]
fn space_toggles_current_checklist_item() {
    let mut app = setup_card_detail();
    press(&mut app, KeyCode::Char(' '));
    assert!(board(&app).current_card().unwrap().checklist[0].completed);
    press(&mut app, KeyCode::Char(' '));
    assert!(!board(&app).current_card().unwrap().checklist[0].completed);
}

#[test]
fn x_deletes_current_checklist_item_and_clamps_selection() {
    let mut app = setup_card_detail();
    app.editor.as_mut().unwrap().board.detail_item_idx = 2;
    press(&mut app, KeyCode::Char('x'));
    assert_eq!(board(&app).current_card().unwrap().checklist.len(), 2);
    assert_eq!(board(&app).detail_item_idx, 1);
}

#[test]
fn shift_down_reorders_checklist_item() {
    let mut app = setup_card_detail();
    press_shift(&mut app, KeyCode::Down);
    assert_eq!(board(&app).detail_item_idx, 1);
    let cl = &board(&app).current_card().unwrap().checklist;
    assert_eq!(cl[0].text, "b");
    assert_eq!(cl[1].text, "a");
    assert_eq!(cl[2].text, "c");
}

#[test]
fn capital_u_clears_due_date_and_logs() {
    let mut app = setup_card_detail();
    press_shift(&mut app, KeyCode::Char('U'));
    let card = board(&app).current_card().unwrap();
    assert!(card.due_date.is_none());
    assert!(card.history.iter().any(|h| h.action.contains("Cleared")));
    assert_eq!(app.status_message.as_deref(), Some("Cleared due date of 'Card'"));
}

#[test]
fn l_lowercase_opens_label_picker_dialog() {
    let mut app = setup_card_detail();
    press(&mut app, KeyCode::Char('l'));
    assert!(matches!(app.mode, AppMode::Dialog));
    assert!(matches!(app.dialog, Some(ActiveDialog::LabelPicker(_))));
}

#[test]
fn l_uppercase_opens_label_manager_dialog() {
    let mut app = setup_card_detail();
    press_shift(&mut app, KeyCode::Char('L'));
    assert!(matches!(app.mode, AppMode::Dialog));
    assert!(matches!(app.dialog, Some(ActiveDialog::LabelManager(_))));
}

#[test]
fn t_starts_card_title_edit_with_prefill() {
    let mut app = setup_card_detail();
    press(&mut app, KeyCode::Char('t'));
    assert!(matches!(app.mode, AppMode::Insert));
    match app.insert.as_ref().unwrap() {
        ActiveInsert::EditCardTitle(h) => {
            assert_eq!(h.input.buffer, "Card");
            assert!(!h.inline);
        }
        _ => panic!("expected the title editor"),
    }
}

#[test]
fn e_starts_description_editor() {
    let mut app = setup_card_detail();
    press(&mut app, KeyCode::Char('e'));
    assert!(matches!(app.mode, AppMode::Insert));
    assert!(matches!(app.insert, Some(ActiveInsert::Description { .. })));
}

#[test]
fn h_opens_card_history_dialog() {
    let mut app = setup_card_detail();
    press(&mut app, KeyCode::Char('h'));
    assert!(matches!(app.mode, AppMode::Dialog));
    assert!(matches!(app.dialog, Some(ActiveDialog::CardHistory(_))));
}

#[test]
fn unmatched_keys_are_noop() {
    let mut app = setup_card_detail();
    assert!(matches!(press(&mut app, KeyCode::Char('z')), DetailEffect::Nothing));
    assert!(matches!(app.mode, AppMode::CardDetail));
}

#[test]
fn enter_on_existing_item_starts_edit_with_prefill() {
    let mut app = setup_card_detail();
    app.editor.as_mut().unwrap().board.detail_item_idx = 1;
    press(&mut app, KeyCode::Enter);
    assert!(matches!(app.mode, AppMode::Insert));
    match app.insert.as_ref().unwrap() {
        ActiveInsert::EditChecklistItem(h) => assert_eq!(h.input.buffer, "b"),
        _ => panic!("expected the checklist item editor"),
    }
}

#[test]
fn page_down_scrolls_description() {
    let mut app = setup_card_detail();
    press_detail(&mut app, key(KeyCode::PageDown), 20);
    assert!(board(&app).detail_scroll > 0);
    press_detail(&mut app, key(KeyCode::PageUp), 20);
    assert_eq!(board(&app).detail_scroll, 0);
}

#[test]
fn arrow_keys_scroll_description() {
    let mut app = setup_card_detail();
    press_detail(&mut app, key(KeyCode::Right), 20);
    assert_eq!(board(&app).detail_scroll, 1);
    press_detail(&mut app, key(KeyCode::Left), 20);
    assert_eq!(board(&app).detail_scroll, 0);
}

#[test]
fn scroll_up_responds_immediately_after_overscroll() {
    let mut app = setup_card_detail();
    app.editor.as_mut().unwrap().board.detail_scroll = 50;
    press_detail(&mut app, key(KeyCode::PageUp), 10);
    assert_eq!(board(&app).detail_scroll, 9);
}

#[test]
fn scroll_down_clamps_to_rendered_max() {
    let mut app = setup_card_detail();
    for _ in 0..10 {
        press_detail(&mut app, key(KeyCode::PageDown), 3);
    }
    assert_eq!(board(&app).detail_scroll, 3);
}

#[test]
fn copy_effects_name_what_they_copy() {
    let mut app = setup_card_detail();
    match press_shift(&mut app, KeyCode::Char('Y')) {
        DetailEffect::Copy { text, what } => {
            assert_eq!(text, "- [ ] a\n- [ ] b\n- [ ] c");
            assert_eq!(what, "checklist of 'Card'");
        }
        _ => panic!("expected a copy"),
    }
}
