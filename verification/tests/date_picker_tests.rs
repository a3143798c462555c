use tct::command::Command;
use tct::insert::date_picker::DatePicker;
use tct::insert::{InsertOutcome, InsertSurface};
use tct::key::{Key, KeyCode};
use tct::model::calendar::{date_today, days_in_month};
use tct::model::card::Date;

fn make_picker() -> DatePicker {
    DatePicker::new("card1".into(), "2026-05-18", InsertSurface::CardDetail)
}

fn ymd(year: i32, month: u32, day: u32) -> Option<Date> {
    Some(Date { year, month, day })
}

fn press(p: &mut DatePicker, code: KeyCode) -> InsertOutcome {
    p.handle_key(Key::plain(code))
}

#[test]
fn date_picker_days_in_month_handles_leap_years() {
    assert_eq!(days_in_month(2024, 2), 29);
    assert_eq!(days_in_month(2025, 2), 28);
    assert_eq!(days_in_month(2025, 4), 30);
    assert_eq!(days_in_month(2025, 12), 31);
}

#[test]
fn date_picker_left_arrow_subtracts_one_day() {
    let mut p = make_picker();
    press(&mut p, KeyCode::Left);
    assert_eq!(p.picker_date, ymd(2026, 5, 17));
    assert_eq!(p.buffer, "2026-05-17");
}

#[test]
fn date_picker_down_arrow_advances_one_week() {
    let mut p = make_picker();
    press(&mut p, KeyCode::Down);
    assert_eq!(p.picker_date, ymd(2026, 5, 25));
}

#[test]
fn date_picker_pageup_subtracts_one_month_clamping_day() {
    let mut p = make_picker();
    p.picker_date = ymd(2025, 3, 31);
    p.buffer = "2025-03-31".into();
    press(&mut p, KeyCode::PageUp);
    assert_eq!(p.picker_date, ymd(2025, 2, 28));
}

#[test]
fn date_picker_shift_pagedown_advances_one_year() {
    let mut p = make_picker();
    let mut key = Key::plain(KeyCode::PageDown);
    key.shift = true;
    p.handle_key(key);
    assert_eq!(p.picker_date, ymd(2027, 5, 18));
}

#[test]
fn date_picker_t_jumps_to_today() {
    let mut p = make_picker();
    p.picker_date = ymd(1999, 1, 1);
    press(&mut p, KeyCode::Char('t'));
    assert_eq!(p.picker_date, Some(date_today()));
}

#[test]
fn date_picker_home_jumps_to_first_of_month() {
    let mut p = make_picker();
    press(&mut p, KeyCode::Home);
    assert_eq!(p.picker_date, ymd(2026, 5, 1));
}

#[test]
fn date_picker_end_jumps_to_last_of_month() {
    let mut p = make_picker();
    p.picker_date = ymd(2026, 2, 1);
    press(&mut p, KeyCode::End);
    assert_eq!(p.picker_date, ymd(2026, 2, 28));
}

#[test]
fn enter_returns_setduedate_confirm() {
    let mut p = make_picker();
    let out = press(&mut p, KeyCode::Enter);
    match out {
        InsertOutcome::Confirm(Command::SetDueDate { date, .. }) => {
            assert_eq!(date, Date { year: 2026, month: 5, day: 18 });
        }
        _ => panic!("expected Confirm(SetDueDate)"),
    }
}

#[test]
fn enter_with_empty_buffer_clears() {
    let mut p = make_picker();
    p.buffer.clear();
    p.picker_date = None;
    let out = press(&mut p, KeyCode::Enter);
    assert!(matches!(out, InsertOutcome::Confirm(Command::ClearDueDate { .. })));
}

#[test]
fn enter_with_invalid_buffer_returns_cancel_with_status() {
    let mut p = make_picker();
    p.buffer = "not-a-date".into();
    p.picker_date = None;
    let out = press(&mut p, KeyCode::Enter);
    assert!(matches!(out, InsertOutcome::CancelWithStatus(_)));
}

#[test]
fn typing_digits_reparses_picker() {
    let mut p = make_picker();
    p.buffer.clear();
    p.picker_date = None;
    for c in "2026-05-19".chars() {
        press(&mut p, KeyCode::Char(c));
    }
    assert_eq!(p.buffer, "2026-05-19");
    assert_eq!(p.picker_date, ymd(2026, 5, 19));
}

#[test]
fn enter_with_none_in_any_case_clears() {
    let mut p = make_picker();
    p.buffer = "  NoNe ".into();
    let out = press(&mut p, KeyCode::Enter);
    assert!(matches!(out, InsertOutcome::Confirm(Command::ClearDueDate { .. })));
}

#[test]
fn ctrl_u_clears_buffer_and_calendar() {
    let mut p = make_picker();
    let mut key = Key::plain(KeyCode::Char('u'));
    key.control = true;
    p.handle_key(key);
    assert_eq!(p.buffer, "");
    assert_eq!(p.cursor, 0);
    assert_eq!(p.picker_date, None);
}

#[test]
fn backspace_reparses_and_keeps_calendar_on_partial_text() {
    let mut p = make_picker();
    press(&mut p, KeyCode::Backspace);
    assert_eq!(p.buffer, "2026-05-1");
    assert_eq!(p.cursor, 9);
    // The calendar follows the text only where it parses as a date.
    assert!(p.picker_date == ymd(2026, 5, 1) || p.picker_date == ymd(2026, 5, 18));
}

#[test]
fn end_of_december_and_leap_february() {
    let mut p = make_picker();
    p.picker_date = ymd(2025, 12, 3);
    press(&mut p, KeyCode::End);
    assert_eq!(p.picker_date, ymd(2025, 12, 31));
    p.picker_date = ymd(2024, 2, 10);
    press(&mut p, KeyCode::End);
    assert_eq!(p.picker_date, ymd(2024, 2, 29));
    assert_eq!(p.buffer, "2024-02-29");
}

#[test]
fn month_steps_cross_year_boundaries() {
    let mut p = make_picker();
    p.picker_date = ymd(2025, 1, 31);
    press(&mut p, KeyCode::PageUp);
    assert_eq!(p.picker_date, ymd(2024, 12, 31));
    press(&mut p, KeyCode::PageDown);
    press(&mut p, KeyCode::PageDown);
    assert_eq!(p.picker_date, ymd(2025, 2, 28));
    p.picker_date = ymd(2026, 1, 1);
    press(&mut p, KeyCode::Left);
    assert_eq!(p.picker_date, ymd(2025, 12, 31));
}

#[test]
fn new_with_unparsable_prefill_starts_today() {
    let p = DatePicker::new("c".into(), "someday", InsertSurface::BoardView);
    assert_eq!(p.picker_date, Some(date_today()));
    assert_eq!(p.cursor, p.buffer.len());
}
