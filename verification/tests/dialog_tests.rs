use tct::board_editor::{BoardEditor, LoadedBoard};
use tct::command::Command;
use tct::dialog::{
    ArchivedLists, CardHistory, ConfirmArchiveBoard, ConfirmArchiveList, ConfirmCancelEdit, ConfirmDeleteLabel,
    DialogBackground, DialogSideEffect, Follow, LabelManager, LabelPicker, NextDialog,
};
use tct::key::{Key, KeyCode};
use tct::mode::AppMode;
use tct::model::board::{BoardMeta, ListMeta};
use tct::model::card::Card;
use tct::model::label::{Label, LabelColor};
use tct::model::list::CardList;

fn board_with_label() -> LoadedBoard {
    let mut meta = BoardMeta::new("Test".into());
    meta.labels.push(Label::new("bug".into(), LabelColor::Red));
    LoadedBoard {
        meta,
        lists: vec![],
        cards: vec![],
        selected_list: 0,
        selected_card: vec![],
        scroll_offset: vec![],
        detail_item_idx: 0,
        detail_scroll: 0,
    }
}

fn press(mgr: &mut LabelManager, code: KeyCode, board: Option<&LoadedBoard>) -> tct::dialog::DialogOutcome {
    mgr.handle_key(Key::plain(code), board, LabelColor::Cyan)
}

#[test]
fn esc_from_picker_reopens_picker() {
    let mut mgr = LabelManager { selected_idx: 0, from_picker: true };
    let outcome = press(&mut mgr, KeyCode::Esc, None);
    assert!(matches!(outcome.follow, Follow::Open(_)));
}

#[test]
fn esc_without_picker_origin_closes_and_restores_origin_mode() {
    let mut mgr = LabelManager { selected_idx: 0, from_picker: false };
    let outcome = press(&mut mgr, KeyCode::Esc, None);
    assert!(matches!(outcome.follow, Follow::Close));
}

#[test]
fn d_opens_delete_confirmation() {
    let board = board_with_label();
    let mut mgr = LabelManager { selected_idx: 0, from_picker: false };
    let outcome = press(&mut mgr, KeyCode::Char('d'), Some(&board));
    assert!(matches!(outcome.follow, Follow::Open(_)));
}

#[test]
fn x_is_not_bound() {
    let board = board_with_label();
    let mut mgr = LabelManager { selected_idx: 0, from_picker: false };
    let outcome = press(&mut mgr, KeyCode::Char('x'), Some(&board));
    assert!(matches!(outcome.follow, Follow::Stay));
}

#[test]
fn question_mark_shows_dialog_help() {
    let mut mgr = LabelManager { selected_idx: 0, from_picker: false };
    let outcome = press(&mut mgr, KeyCode::Char('?'), None);
    assert!(matches!(outcome.follow, Follow::Help));
    assert!(mgr.help().is_some());
}

#[test]
fn capital_c_opens_color_picker_for_selected_label() {
    let board = board_with_label();
    let mut mgr = LabelManager { selected_idx: 0, from_picker: false };
    let outcome = press(&mut mgr, KeyCode::Char('C'), Some(&board));
    assert!(matches!(outcome.follow, Follow::Open(NextDialog::ColorPickerForLabel { label_idx: 0, .. })));
}

#[test]
fn c_cycles_named_color_and_uses_given_custom_successor() {
    let mut board = board_with_label();
    let mut mgr = LabelManager { selected_idx: 0, from_picker: false };
    let outcome = press(&mut mgr, KeyCode::Char('c'), Some(&board));
    assert!(matches!(outcome.apply, Some(Command::SetLabelColor { color: LabelColor::Orange, .. })));
    board.meta.labels[0].color = LabelColor::Custom { r: 1, g: 2, b: 3 };
    let outcome = mgr.handle_key(Key::plain(KeyCode::Char('c')), Some(&board), LabelColor::Custom { r: 9, g: 9, b: 9 });
    assert!(matches!(outcome.apply, Some(Command::SetLabelColor { color: LabelColor::Custom { r: 9, g: 9, b: 9 }, .. })));
}

#[test]
fn shift_moves_label_in_palette() {
    let mut board = board_with_label();
    board.meta.labels.push(Label::new("feat".into(), LabelColor::Blue));
    let mut mgr = LabelManager { selected_idx: 0, from_picker: false };
    let shifted = Key { code: KeyCode::Down, control: false, command: false, shift: true, alt: false };
    let outcome = mgr.handle_key(shifted, Some(&board), LabelColor::Cyan);
    assert!(matches!(outcome.side_effect, Some(DialogSideEffect::ReorderLabels { from: 0, to: 1 })));
    assert_eq!(mgr.selected_idx, 1);
    let outcome = press(&mut mgr, KeyCode::Down, Some(&board));
    assert!(outcome.side_effect.is_none());
    assert_eq!(mgr.selected_idx, 1);
}

#[test]
fn picker_toggles_label_on_selected_card() {
    let mut meta = BoardMeta::new("Test".into());
    meta.lists.push(ListMeta { id: "l0000001".into(), name: "L".into(), archived: false });
    meta.labels.push(Label::new("bug".into(), LabelColor::Red));
    let mut card = Card::new("c".into());
    card.list_id = "l0000001".into();
    let (ed, _) = BoardEditor::load(meta, vec![card], &vec![]);
    let mut picker = LabelPicker { selected_idx: 0 };
    let outcome = picker.handle_key(Key::plain(KeyCode::Enter), Some(ed.board()));
    assert!(matches!(outcome.apply, Some(Command::ToggleLabel { .. })));
    let outcome = picker.handle_key(Key::plain(KeyCode::Char('L')), Some(ed.board()));
    assert!(matches!(outcome.follow, Follow::Open(NextDialog::LabelManager(LabelManager { selected_idx: 0, from_picker: true }))));
}

#[test]
fn confirm_delete_label_reports_and_returns_to_manager() {
    let board = board_with_label();
    let mut d = ConfirmDeleteLabel { label_idx: 0, from_picker: true };
    let outcome = d.handle_key(Key::plain(KeyCode::Char('y')), Some(&board));
    assert!(matches!(outcome.apply, Some(Command::DeleteLabel { .. })));
    assert_eq!(outcome.status.as_deref(), Some("Deleted label 'bug'"));
    assert!(matches!(outcome.follow, Follow::Open(NextDialog::LabelManager(LabelManager { selected_idx: 0, from_picker: true }))));
}

#[test]
fn confirm_archive_board_goes_back_to_selector() {
    let mut d = ConfirmArchiveBoard { board_name: "Plans".into() };
    let outcome = d.handle_key(Key::plain(KeyCode::Char('Y')), None);
    assert!(matches!(outcome.side_effect, Some(DialogSideEffect::ArchiveSelectedBoard)));
    assert_eq!(outcome.status.as_deref(), Some("Archived board 'Plans'"));
    assert!(matches!(outcome.follow, Follow::CloseTo(AppMode::BoardSelector)));
    assert_eq!(d.background(), DialogBackground::BoardSelector);
}

#[test]
fn confirm_archive_list_without_board_closes() {
    let mut d = ConfirmArchiveList;
    let outcome = d.handle_key(Key::plain(KeyCode::Char('y')), None);
    assert!(outcome.apply.is_none());
    assert!(matches!(outcome.follow, Follow::Close));
}

#[test]
fn confirm_cancel_edit_discards_or_resumes() {
    let mut d = ConfirmCancelEdit;
    assert!(matches!(d.handle_key(Key::plain(KeyCode::Char('y')), None).side_effect, Some(DialogSideEffect::DiscardDescriptionEdit)));
    assert!(matches!(d.handle_key(Key::plain(KeyCode::Esc), None).side_effect, Some(DialogSideEffect::ResumeDescriptionEdit)));
}

#[test]
fn card_history_scrolls_without_underflow() {
    let mut d = CardHistory { scroll: 0 };
    d.handle_key(Key::plain(KeyCode::Up), None);
    assert_eq!(d.scroll, 0);
    d.handle_key(Key::plain(KeyCode::PageDown), None);
    d.handle_key(Key::plain(KeyCode::Char('j')), None);
    assert_eq!(d.scroll, 11);
    d.handle_key(Key::plain(KeyCode::Char('g')), None);
    assert_eq!(d.scroll, 0);
    assert!(matches!(d.handle_key(Key::plain(KeyCode::Char('q')), None).follow, Follow::Close));
}

#[test]
fn archived_lists_restore_then_delete() {
    let lists = vec![
        CardList { id: "l1".into(), name: "One".into(), card_ids: vec![], archived: true },
        CardList { id: "l2".into(), name: "Two".into(), card_ids: vec!["c9".into()], archived: true },
    ];
    let mut d = ArchivedLists { lists, selected: 1 };
    let outcome = d.handle_key(Key::plain(KeyCode::Enter), None);
    assert!(matches!(outcome.apply, Some(Command::RestoreList { ref list_id }) if list_id == "l2"));
    assert_eq!(outcome.status.as_deref(), Some("Restored list 'Two'"));
    assert!(matches!(outcome.follow, Follow::Stay));
    assert_eq!(d.selected, 0);
    let outcome = d.handle_key(Key::plain(KeyCode::Char('x')), None);
    assert!(matches!(outcome.side_effect, Some(DialogSideEffect::DeleteArchivedList { .. })));
    assert!(matches!(outcome.follow, Follow::Close));
    assert!(d.lists.is_empty());
}

#[test]
fn uppercase_l_opens_label_manager_even_without_labels() {
    let mut picker = LabelPicker { selected_idx: 0 };
    let mut key = Key::plain(KeyCode::Char('L'));
    key.shift = true;
    let outcome = picker.handle_key(key, None);
    assert!(matches!(outcome.follow, Follow::Open(_)));
}
