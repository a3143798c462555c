use tct::board_editor::{BoardEditor, PositionRequest};
use tct::command::Command;
use tct::dispatch::{ActiveInsert, NormalEffect, Session};
use tct::key::{Key, KeyCode};
use tct::mode::AppMode;
use tct::model::board::{BoardMeta, ListMeta};
use tct::model::card::{Card, Date};
use tct::model::label::LabelColor;
use tct::session::App;

fn key(code: KeyCode) -> Key {
    Key::plain(code)
}

fn shift_key(code: KeyCode) -> Key {
    let mut k = Key::plain(code);
    k.shift = true;
    k
}

fn card(id: &str, title: &str, list: &str, pos: u64) -> Card {
    let mut c = Card::new(title.into());
    c.id = id.into();
    c.list_id = list.into();
    c.position = pos;
    c
}

fn board_meta(id: &str, name: &str, lists: &[(&str, &str)]) -> BoardMeta {
    let mut meta = BoardMeta::new(name.into());
    meta.id = id.into();
    for (lid, lname) in lists {
        meta.lists.push(ListMeta { id: (*lid).into(), name: (*lname).into(), archived: false });
    }
    meta
}

/// A board with two lists; list A has cards a0, a1, a2, list B has b0.
fn fixture() -> Session {
    let meta = board_meta("board001", "Board", &[("list000a", "A"), ("list000b", "B")]);
    let cards = vec![
        card("card00a0", "a0", "list000a", 1000),
        card("card00a1", "a1", "list000a", 2000),
        card("card00a2", "a2", "list000a", 3000),
        card("card00b0", "b0", "list000b", 1000),
    ];
    let (editor, _) = BoardEditor::load(meta.clone(), cards, &vec![]);
    let mut app: Session = App::new(vec![meta]);
    app.load_board(editor);
    app
}

fn single_list_fixture(titles: &[&str]) -> Session {
    let meta = board_meta("board001", "Board", &[("list000a", "L")]);
    let cards = titles
        .iter()
        .enumerate()
        .map(|(i, t)| card(&format!("card000{i}"), t, "list000a", (i as u64 + 1) * 1000))
        .collect();
    let (editor, _) = BoardEditor::load(meta.clone(), cards, &vec![]);
    let mut app: Session = App::new(vec![meta]);
    app.load_board(editor);
    app
}

fn key_for(ed: &BoardEditor, cmd: &Command) -> u64 {
    match ed.position_request(cmd) {
        PositionRequest::Unneeded => 0,
        PositionRequest::After(None) => 1000,
        PositionRequest::After(Some(m)) => m + 1000,
        PositionRequest::Between(None, None) => 1000,
        PositionRequest::Between(Some(a), None) => a + 1000,
        PositionRequest::Between(None, Some(b)) => b / 2,
        PositionRequest::Between(Some(a), Some(b)) => a + (b - a) / 2,
    }
}

/// Handles a key and performs what it leaves to the caller, in memory.
fn handle(app: &mut Session, k: Key) -> NormalEffect {
    let e = app.handle_normal(k);
    match &e {
        NormalEffect::Apply(cmd) | NormalEffect::ApplyWithStatus(cmd, _) => {
            let ed = app.editor.as_mut().unwrap();
            let pos = key_for(ed, cmd);
            ed.apply(cmd.clone(), pos).unwrap();
            if let NormalEffect::ApplyWithStatus(_, msg) = &e {
                app.set_status(msg.clone());
            }
        }
        NormalEffect::CloseBoard => {
            let boards = app.boards.clone();
            app.close_board(boards);
        }
        _ => {}
    }
    e
}

fn board(app: &Session) -> &tct::board_editor::LoadedBoard {
    app.board().unwrap()
}

#[test]
fn down_moves_selection() {
    let mut app = fixture();
    assert_eq!(board(&app).selected_card[0], 0);
    handle(&mut app, key(KeyCode::Down));
    assert_eq!(board(&app).selected_card[0], 1);
}

#[test]
fn down_stops_at_last_card() {
    let mut app = fixture();
    for _ in 0..10 {
        handle(&mut app, key(KeyCode::Down));
    }
    assert_eq!(board(&app).selected_card[0], 2);
}

#[test]
fn up_stops_at_zero() {
    let mut app = fixture();
    for _ in 0..5 {
        handle(&mut app, key(KeyCode::Up));
    }
    assert_eq!(board(&app).selected_card[0], 0);
}

#[test]
fn right_moves_to_next_list() {
    let mut app = fixture();
    handle(&mut app, key(KeyCode::Right));
    assert_eq!(board(&app).selected_list, 1);
}

#[test]
fn right_stops_at_last_list() {
    let mut app = fixture();
    for _ in 0..5 {
        handle(&mut app, key(KeyCode::Right));
    }
    assert_eq!(board(&app).selected_list, 1);
}

#[test]
fn left_stops_at_zero() {
    let mut app = fixture();
    for _ in 0..5 {
        handle(&mut app, key(KeyCode::Left));
    }
    assert_eq!(board(&app).selected_list, 0);
}

#[test]
fn g_jumps_to_top() {
    let mut app = fixture();
    app.editor.as_mut().unwrap().board.selected_card[0] = 2;
    handle(&mut app, key(KeyCode::Char('g')));
    assert_eq!(board(&app).selected_card[0], 0);
}

#[test]
fn shift_g_jumps_to_bottom() {
    let mut app = fixture();
    handle(&mut app, shift_key(KeyCode::Char('G')));
    assert_eq!(board(&app).selected_card[0], 2);
}

#[test]
fn shift_down_moves_card_within_list() {
    let mut app = fixture();
    handle(&mut app, shift_key(KeyCode::Down));
    let b = board(&app);
    assert_eq!(b.lists[0].card_ids[0], "card00a1");
    assert_eq!(b.lists[0].card_ids[1], "card00a0");
    assert_eq!(b.selected_card[0], 1);
}

#[test]
fn shift_up_at_top_is_noop() {
    let mut app = fixture();
    handle(&mut app, shift_key(KeyCode::Up));
    let b = board(&app);
    assert_eq!(b.lists[0].card_ids[0], "card00a0");
    assert_eq!(b.selected_card[0], 0);
}

#[test]
fn shift_down_at_bottom_is_noop() {
    let mut app = fixture();
    app.editor.as_mut().unwrap().board.selected_card[0] = 2;
    handle(&mut app, shift_key(KeyCode::Down));
    let b = board(&app);
    assert_eq!(b.lists[0].card_ids[2], "card00a2");
    assert_eq!(b.selected_card[0], 2);
}

#[test]
fn shift_right_moves_card_to_next_list() {
    let mut app = fixture();
    handle(&mut app, shift_key(KeyCode::Right));
    let b = board(&app);
    assert_eq!(b.lists[0].card_ids.len(), 2);
    assert!(b.lists[1].card_ids.contains(&"card00a0".to_string()));
    assert_eq!(b.selected_list, 1);
}

#[test]
fn shift_left_from_first_list_is_noop() {
    let mut app = fixture();
    handle(&mut app, shift_key(KeyCode::Left));
    let b = board(&app);
    assert_eq!(b.lists[0].card_ids.len(), 3);
    assert_eq!(b.lists[0].card_ids[0], "card00a0");
}

#[test]
fn shift_right_from_last_list_is_noop() {
    let mut app = fixture();
    handle(&mut app, key(KeyCode::Right));
    assert_eq!(board(&app).selected_list, 1);
    handle(&mut app, shift_key(KeyCode::Right));
    let b = board(&app);
    assert_eq!(b.lists[1].card_ids.len(), 1);
    assert_eq!(b.lists[1].card_ids[0], "card00b0");
}

#[test]
fn normal_q_sets_should_quit() {
    let mut app = fixture();
    handle(&mut app, key(KeyCode::Char('q')));
    assert!(app.should_quit);
}

#[test]
fn question_enters_help() {
    let mut app = fixture();
    handle(&mut app, key(KeyCode::Char('?')));
    assert_eq!(app.mode, AppMode::Help);
    assert_eq!(app.previous_mode, Some(AppMode::Normal));
}

#[test]
fn b_returns_to_board_selector() {
    let mut app = fixture();
    assert!(matches!(handle(&mut app, key(KeyCode::Char('b'))), NormalEffect::CloseBoard));
    assert!(app.editor.is_none());
    assert_eq!(app.mode, AppMode::BoardSelector);
}

#[test]
fn enter_opens_card_detail() {
    let mut app = fixture();
    handle(&mut app, key(KeyCode::Enter));
    assert_eq!(app.mode, AppMode::CardDetail);
}

#[test]
fn slash_enters_command_and_clears_query() {
    let mut app = fixture();
    app.search_query = "old".into();
    handle(&mut app, key(KeyCode::Char('/')));
    assert_eq!(app.mode, AppMode::Command);
    assert!(app.search_query.is_empty());
}

#[test]
fn shift_f_clears_filters() {
    let mut app = fixture();
    app.search_active = true;
    app.search_query = "x".into();
    app.label_filter = Some(LabelColor::Red);
    handle(&mut app, shift_key(KeyCode::Char('F')));
    assert!(!app.search_active);
    assert!(app.search_query.is_empty());
    assert!(app.label_filter.is_none());
    assert_eq!(app.status_message.as_deref(), Some("Filters cleared"));
}

#[test]
fn shift_u_clears_due_date() {
    let mut app = fixture();
    {
        let b = &mut app.editor.as_mut().unwrap().board;
        let k = b.cards.iter().position(|c| c.id == "card00a0").unwrap();
        b.cards[k].due_date = Some(Date { year: 2099, month: 1, day: 1 });
    }
    handle(&mut app, shift_key(KeyCode::Char('U')));
    let b = board(&app);
    assert!(b.cards.iter().find(|c| c.id == "card00a0").unwrap().due_date.is_none());
    assert_eq!(app.status_message.as_deref(), Some("Due date cleared"));
}

#[test]
fn search_nav_skips_non_matching_cards() {
    let mut app = single_list_fixture(&["alpha", "BINGO match", "gamma"]);
    app.search_active = true;
    app.search_query = "BINGO".into();
    handle(&mut app, key(KeyCode::Down));
    assert_eq!(board(&app).selected_card[0], 1);
    handle(&mut app, key(KeyCode::Down));
    assert_eq!(board(&app).selected_card[0], 1);
}

#[test]
fn search_nav_up_finds_previous_match() {
    let mut app = single_list_fixture(&["BINGO one", "nope", "BINGO three"]);
    app.search_active = true;
    app.search_query = "BINGO".into();
    app.editor.as_mut().unwrap().board.selected_card[0] = 2;
    handle(&mut app, key(KeyCode::Up));
    assert_eq!(board(&app).selected_card[0], 0);
}

#[test]
fn shift_left_arrow_swaps_lists() {
    let mut app = fixture();
    handle(&mut app, key(KeyCode::Right));
    handle(&mut app, shift_key(KeyCode::Char('<')));
    let b = board(&app);
    assert_eq!(b.lists[0].name, "B");
    assert_eq!(b.lists[1].name, "A");
    assert_eq!(b.selected_list, 0);
}

#[test]
fn shift_right_arrow_swaps_lists() {
    let mut app = fixture();
    handle(&mut app, shift_key(KeyCode::Char('>')));
    let b = board(&app);
    assert_eq!(b.lists[0].name, "B");
    assert_eq!(b.lists[1].name, "A");
    assert_eq!(b.selected_list, 1);
}

#[test]
fn t_starts_inline_title_edit() {
    let mut app = fixture();
    handle(&mut app, key(KeyCode::Char('t')));
    assert!(matches!(app.mode, AppMode::Insert));
    match app.insert.as_ref().unwrap() {
        ActiveInsert::EditCardTitle(h) => {
            assert_eq!(h.input.buffer, "a0");
            assert!(h.inline);
        }
        _ => panic!("expected the title editor"),
    }
    assert_eq!(app.previous_mode, Some(AppMode::Normal));
}

#[test]
fn e_starts_description_edit() {
    let mut app = fixture();
    {
        let b = &mut app.editor.as_mut().unwrap().board;
        let k = b.cards.iter().position(|c| c.id == "card00a0").unwrap();
        b.cards[k].description = "hello desc".into();
    }
    handle(&mut app, key(KeyCode::Char('e')));
    assert!(matches!(app.mode, AppMode::Insert));
    match app.insert.as_ref().unwrap() {
        ActiveInsert::Description { card_id, initial } => {
            assert_eq!(card_id, "card00a0");
            assert_eq!(initial, "hello desc");
        }
        _ => panic!("expected the description editor"),
    }
    assert_eq!(app.previous_mode, Some(AppMode::Normal));
}

fn three_boards_first_open() -> (Session, Vec<BoardMeta>) {
    let metas: Vec<BoardMeta> =
        ["A", "B", "C"].iter().enumerate().map(|(i, n)| board_meta(&format!("board00{i}"), n, &[])).collect();
    let mut app: Session = App::new(metas.clone());
    let (editor, _) = BoardEditor::load(metas[0].clone(), vec![], &vec![]);
    app.load_board(editor);
    (app, metas)
}

fn switch(app: &mut Session, metas: &[BoardMeta], k: Key) {
    if let NormalEffect::SwitchBoard(i) = app.handle_normal(k) {
        let (editor, _) = BoardEditor::load(metas[i].clone(), vec![], &vec![]);
        app.switch_to_board(editor, i);
    }
}

fn open_board_id(app: &Session) -> String {
    app.board().unwrap().meta.id.clone()
}

#[test]
fn k_switches_to_next_board() {
    let (mut app, metas) = three_boards_first_open();
    assert_eq!(open_board_id(&app), metas[0].id);
    switch(&mut app, &metas, key(KeyCode::Char('k')));
    assert_eq!(open_board_id(&app), metas[1].id);
    assert_eq!(app.selected_board_idx, 1);
    assert_eq!(app.mode, AppMode::Normal);
    assert_eq!(app.status_message.as_deref(), Some("Switched to 'B'"));
}

#[test]
fn j_wraps_to_last_board() {
    let (mut app, metas) = three_boards_first_open();
    switch(&mut app, &metas, key(KeyCode::Char('j')));
    assert_eq!(open_board_id(&app), metas[2].id);
    assert_eq!(app.selected_board_idx, 2);
}

#[test]
fn k_wraps_from_last_to_first() {
    let (mut app, metas) = three_boards_first_open();
    let (editor, _) = BoardEditor::load(metas[2].clone(), vec![], &vec![]);
    app.load_board(editor);
    app.selected_board_idx = 2;
    switch(&mut app, &metas, key(KeyCode::Char('k')));
    assert_eq!(open_board_id(&app), metas[0].id);
    assert_eq!(app.selected_board_idx, 0);
}

#[test]
fn j_k_are_noop_with_single_board() {
    let m = board_meta("board009", "Solo", &[]);
    let mut app: Session = App::new(vec![m.clone()]);
    let (editor, _) = BoardEditor::load(m.clone(), vec![], &vec![]);
    app.load_board(editor);
    assert!(matches!(app.handle_normal(key(KeyCode::Char('j'))), NormalEffect::Nothing));
    assert_eq!(open_board_id(&app), m.id);
    assert!(matches!(app.handle_normal(key(KeyCode::Char('k'))), NormalEffect::Nothing));
    assert_eq!(open_board_id(&app), m.id);
}

#[test]
fn dialogs_and_archived_views() {
    let mut app = fixture();
    handle(&mut app, key(KeyCode::Char('a')));
    assert_eq!(app.mode, AppMode::Dialog);
    app.close_dialog();
    assert_eq!(app.mode, AppMode::Normal);
    handle(&mut app, shift_key(KeyCode::Char('V')));
    assert_eq!(app.status_message.as_deref(), Some("No archived lists"));
    assert!(matches!(handle(&mut app, key(KeyCode::Char('v'))), NormalEffect::ViewArchivedCards));
    app.show_archived_cards(vec![]);
    assert_eq!(app.status_message.as_deref(), Some("No archived cards"));
    assert!(matches!(handle(&mut app, key(KeyCode::Char('y'))), NormalEffect::Copy(ref t) if t == "a0"));
    assert!(matches!(handle(&mut app, key(KeyCode::Char('z'))), NormalEffect::Nothing));
}
