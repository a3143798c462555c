use tct::board_editor::{BoardEditor, PositionRequest};
use tct::command::Command;
use tct::dispatch::{ActiveInsert, Session};
use tct::insert::date_picker::DatePicker;
use tct::insert::{InsertOutcome, InsertSurface};
use tct::key::{Key, KeyCode};
use tct::mode::AppMode;
use tct::model::board::{BoardMeta, ListMeta};
use tct::model::calendar::{date_today, days_in_month};
use tct::model::card::{Card, Date};
use tct::session::App;

fn due_ymd(year: i32, month: u32, day: u32) -> Option<Date> {
    Some(Date { year, month, day })
}

/// A board "B" with list "L" holding card "C", in card detail with the
/// due-date picker open on 2026-05-18.
fn setup() -> Session {
    let mut meta = BoardMeta::new("B".into());
    meta.id = "board001".into();
    meta.lists.push(ListMeta { id: "list0001".into(), name: "L".into(), archived: false });
    let mut card = Card::new("C".into());
    card.id = "card0001".into();
    card.list_id = "list0001".into();
    card.position = 1000;
    let (editor, _) = BoardEditor::load(meta.clone(), vec![card], &vec![]);
    let mut app: Session = App::new(vec![meta]);
    app.load_board(editor);
    app.mode = AppMode::CardDetail;
    app.start_insert(ActiveInsert::DatePicker(DatePicker::new("card0001".into(), "2026-05-18", InsertSurface::CardDetail)));
    app
}

fn picker(app: &mut Session) -> &mut DatePicker {
    match app.insert.as_mut() {
        Some(ActiveInsert::DatePicker(p)) => p,
        _ => panic!("no date picker"),
    }
}

fn picker_date(app: &Session) -> Option<Date> {
    match app.insert.as_ref() {
        Some(ActiveInsert::DatePicker(p)) => p.picker_date,
        _ => None,
    }
}

fn in_picker(app: &Session) -> bool {
    matches!(app.insert, Some(ActiveInsert::DatePicker(_))) && app.mode == AppMode::Insert
}

fn due_key(app: &mut Session, k: Key) {
    let o = picker(app).handle_key(k);
    let status = match &o {
        InsertOutcome::Confirm(cmd) => app.confirm_status(cmd),
        _ => None,
    };
    if let InsertOutcome::Confirm(cmd) = &o {
        let ed = app.editor.as_mut().unwrap();
        let pos = match ed.position_request(cmd) {
            PositionRequest::Unneeded => 0,
            _ => 1000,
        };
        ed.apply(cmd.clone(), pos).unwrap();
    }
    app.finish_insert(o, status);
}

fn press(app: &mut Session, code: KeyCode) {
    due_key(app, Key::plain(code));
}

fn due_date_of_card(app: &Session) -> Option<Date> {
    app.board().unwrap().current_card().unwrap().due_date
}

#[test]
fn days_in_month_handles_leap_years() {
    assert_eq!(days_in_month(2024, 2), 29);
    assert_eq!(days_in_month(2025, 2), 28);
    assert_eq!(days_in_month(2025, 4), 30);
    assert_eq!(days_in_month(2025, 12), 31);
}

#[test]
fn left_arrow_subtracts_one_day() {
    let mut app = setup();
    picker(&mut app).picker_date = due_ymd(2026, 5, 18);
    press(&mut app, KeyCode::Left);
    assert_eq!(picker_date(&app), due_ymd(2026, 5, 17));
    assert_eq!(picker(&mut app).buffer, "2026-05-17");
}

#[test]
fn down_arrow_advances_one_week() {
    let mut app = setup();
    picker(&mut app).picker_date = due_ymd(2026, 5, 18);
    press(&mut app, KeyCode::Down);
    assert_eq!(picker_date(&app), due_ymd(2026, 5, 25));
}

#[test]
fn pageup_subtracts_one_month_clamping_day() {
    let mut app = setup();
    picker(&mut app).picker_date = due_ymd(2025, 3, 31);
    picker(&mut app).buffer = "2025-03-31".into();
    press(&mut app, KeyCode::PageUp);
    assert_eq!(picker_date(&app), due_ymd(2025, 2, 28));
}

#[test]
fn shift_pagedown_advances_one_year() {
    let mut app = setup();
    picker(&mut app).picker_date = due_ymd(2026, 5, 18);
    let mut k = Key::plain(KeyCode::PageDown);
    k.shift = true;
    due_key(&mut app, k);
    assert_eq!(picker_date(&app), due_ymd(2027, 5, 18));
}

#[test]
fn t_jumps_to_today() {
    let mut app = setup();
    picker(&mut app).picker_date = due_ymd(1999, 1, 1);
    press(&mut app, KeyCode::Char('t'));
    assert_eq!(picker_date(&app), Some(date_today()));
}

#[test]
fn home_jumps_to_first_of_month() {
    let mut app = setup();
    picker(&mut app).picker_date = due_ymd(2026, 5, 18);
    press(&mut app, KeyCode::Home);
    assert_eq!(picker_date(&app), due_ymd(2026, 5, 1));
}

#[test]
fn end_jumps_to_last_of_month() {
    let mut app = setup();
    picker(&mut app).picker_date = due_ymd(2026, 2, 1);
    press(&mut app, KeyCode::End);
    assert_eq!(picker_date(&app), due_ymd(2026, 2, 28));
}

#[test]
fn enter_persists_due_date_and_exits_picker() {
    let mut app = setup();
    picker(&mut app).picker_date = due_ymd(2026, 5, 18);
    picker(&mut app).buffer = "2026-05-18".into();
    press(&mut app, KeyCode::Enter);
    assert_eq!(due_date_of_card(&app), due_ymd(2026, 5, 18));
    assert!(!in_picker(&app));
}

#[test]
fn enter_with_empty_buffer_clears_due_date() {
    let mut app = setup();
    {
        let ed = app.editor.as_mut().unwrap();
        ed.board.cards[0].due_date = due_ymd(2030, 1, 1);
    }
    picker(&mut app).buffer.clear();
    picker(&mut app).cursor = 0;
    picker(&mut app).picker_date = None;
    press(&mut app, KeyCode::Enter);
    assert!(due_date_of_card(&app).is_none());
}

#[test]
fn enter_with_invalid_buffer_sets_status_and_stays_in_picker() {
    let mut app = setup();
    picker(&mut app).buffer = "not-a-date".into();
    picker(&mut app).cursor = 10;
    picker(&mut app).picker_date = None;
    press(&mut app, KeyCode::Enter);
    assert!(in_picker(&app));
    assert!(app.status_message.as_ref().unwrap().contains("Invalid"));
}

#[test]
fn esc_cancels_picker_without_changing_due_date() {
    let mut app = setup();
    let original = due_date_of_card(&app);
    press(&mut app, KeyCode::Esc);
    assert!(!in_picker(&app));
    assert!(picker_date(&app).is_none());
    assert_eq!(due_date_of_card(&app), original);
}

#[test]
fn typing_digit_appends_to_buffer_and_reparses_picker() {
    let mut app = setup();
    picker(&mut app).buffer.clear();
    picker(&mut app).cursor = 0;
    picker(&mut app).picker_date = None;
    for c in "2026-05-19".chars() {
        press(&mut app, KeyCode::Char(c));
    }
    assert_eq!(picker(&mut app).buffer, "2026-05-19");
    assert_eq!(picker_date(&app), due_ymd(2026, 5, 19));
}

#[test]
fn confirmed_due_date_names_the_card_in_status() {
    let mut app = setup();
    press(&mut app, KeyCode::Enter);
    assert_eq!(app.status_message.as_deref(), Some("Due date of 'C' set to 2026-05-18"));
    assert_eq!(app.mode, AppMode::CardDetail);
    let cmd = Command::ClearDueDate { card_id: "card0001".into() };
    assert_eq!(app.confirm_status(&cmd).as_deref(), Some("Cleared due date of 'C'"));
}
