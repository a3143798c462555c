use tct::board_editor::{BoardEditor, PositionRequest};
use tct::command::Command;
use tct::dialog::{
    ConfirmCancelEdit, DialogOutcome, DialogSideEffect, Follow, LabelManager, LabelPicker, NextDialog,
};
use tct::dispatch::{ActiveDialog, ActiveInsert, DetailEffect, NormalEffect, Session};
use tct::flow::{DialogFollowUp, DialogWork};
use tct::insert::line_editor::{EditCardTitle, NewCardTitle};
use tct::insert::{InsertOutcome, InsertSideEffect};
use tct::key::{Key, KeyCode};
use tct::mode::AppMode;
use tct::model::board::{BoardMeta, ListMeta};
use tct::model::card::Card;
use tct::model::label::{Label, LabelColor};
use tct::session::App;

fn flow_card(id: &str, title: &str, list: &str, pos: u64) -> Card {
    let mut c = Card::new(title.into());
    c.id = id.into();
    c.list_id = list.into();
    c.position = pos;
    c
}

/// A board "Test" with one list "To Do" holding one card "Card".
fn one_card_session() -> Session {
    let mut meta = BoardMeta::new("Test".into());
    meta.id = "board001".into();
    meta.lists.push(ListMeta { id: "list0001".into(), name: "To Do".into(), archived: false });
    let cards = vec![flow_card("card0001", "Card", "list0001", 1000)];
    let (editor, _) = BoardEditor::load(meta.clone(), cards, &vec![]);
    let mut app: Session = App::new(vec![meta]);
    app.load_board(editor);
    app
}

fn app_in_card_detail() -> Session {
    let mut app = one_card_session();
    app.mode = AppMode::CardDetail;
    app
}

fn position_for(ed: &BoardEditor, cmd: &Command) -> u64 {
    match ed.position_request(cmd) {
        PositionRequest::Unneeded => 0,
        PositionRequest::After(None) => 1000,
        PositionRequest::After(Some(m)) => m + 1000,
        PositionRequest::Between(None, None) => 1000,
        PositionRequest::Between(Some(a), None) => a + 1000,
        PositionRequest::Between(None, Some(b)) => b / 2,
        PositionRequest::Between(Some(a), Some(b)) => a + (b - a) / 2,
    }
}

fn apply_cmd(app: &mut Session, cmd: Command) {
    let ed = app.editor.as_mut().unwrap();
    let pos = position_for(ed, &cmd);
    ed.apply(cmd, pos).unwrap();
}

/// Whether the description editor stands in for an edited text; the
/// editor itself runs outside the library, so a test says so.
struct Harness {
    description_modified: bool,
}

/// Routes a key the way the interface does, in memory.
fn route(app: &mut Session, h: &mut Harness, code: KeyCode) {
    let k = Key::plain(code);
    match app.mode {
        AppMode::Normal => match app.handle_normal(k) {
            NormalEffect::Apply(cmd) => apply_cmd(app, cmd),
            NormalEffect::ApplyWithStatus(cmd, s) => {
                apply_cmd(app, cmd);
                app.set_status(s);
            }
            _ => {}
        },
        AppMode::CardDetail => match app.handle_detail(k, 0) {
            DetailEffect::Apply(cmd) => apply_cmd(app, cmd),
            DetailEffect::ApplyWithStatus(cmd, s) => {
                apply_cmd(app, cmd);
                app.set_status(s);
            }
            _ => {}
        },
        AppMode::Dialog => {
            let o = app.dialog_key(k, LabelColor::Custom { r: 1, g: 2, b: 3 }).unwrap();
            if let Some(cmd) = o.apply {
                apply_cmd(app, cmd);
            }
            if let Some(eff) = o.side_effect {
                if let DialogWork::Apply(cmd) = app.dialog_side_effect(eff) {
                    apply_cmd(app, cmd);
                }
            }
            app.finish_dialog(o.follow, o.status);
        }
        AppMode::Insert => {
            if let Some(ActiveInsert::Description { .. }) = &app.insert {
                if code == KeyCode::Esc {
                    if h.description_modified {
                        app.open_dialog_over_insert(ActiveDialog::ConfirmCancelEdit(ConfirmCancelEdit));
                    } else {
                        app.cancel_insert();
                    }
                } else {
                    h.description_modified = true;
                }
                return;
            }
            let board = app.editor.as_ref().map(|e| &e.board);
            let o = match app.insert.as_mut().unwrap() {
                ActiveInsert::NewLabelName(x) => x.handle_key(k, board, LabelColor::Red),
                ActiveInsert::EditLabelName(x) => x.handle_key(k, board),
                ActiveInsert::NewCardTitle(x) => x.handle_key(k, board),
                ActiveInsert::EditCardTitle(x) => x.handle_key(k, board),
                _ => InsertOutcome::Stay,
            };
            let status = match &o {
                InsertOutcome::Confirm(cmd) | InsertOutcome::ConfirmAndOpenLabelManager(cmd, _) => {
                    app.confirm_status(cmd)
                }
                _ => None,
            };
            match &o {
                InsertOutcome::Confirm(cmd) | InsertOutcome::ConfirmAndOpenLabelManager(cmd, _) => {
                    apply_cmd(app, cmd.clone())
                }
                _ => {}
            }
            app.finish_insert(o, status);
        }
        AppMode::Help => app.handle_help(k),
        _ => {}
    }
}

fn press_all(app: &mut Session, h: &mut Harness, codes: &[KeyCode]) {
    for c in codes {
        route(app, h, *c);
    }
}

fn app_editing_description() -> (Session, Harness) {
    let mut app = app_in_card_detail();
    let mut h = Harness { description_modified: false };
    route(&mut app, &mut h, KeyCode::Char('e'));
    assert!(matches!(app.mode, AppMode::Insert));
    route(&mut app, &mut h, KeyCode::Char('x'));
    (app, h)
}

fn is_description_editor(app: &Session) -> bool {
    matches!(app.insert, Some(ActiveInsert::Description { .. }))
}

#[test]
fn esc_with_unsaved_changes_opens_dialog_and_keeps_editor_alive() {
    let (mut app, mut h) = app_editing_description();
    route(&mut app, &mut h, KeyCode::Esc);
    assert!(matches!(app.mode, AppMode::Dialog));
    assert!(app.dialog.is_some());
    assert!(is_description_editor(&app), "editor handler dropped");
}

#[test]
fn resume_returns_to_a_live_editor_not_a_frozen_insert_mode() {
    let (mut app, mut h) = app_editing_description();
    route(&mut app, &mut h, KeyCode::Esc);
    route(&mut app, &mut h, KeyCode::Char('n'));
    assert!(matches!(app.mode, AppMode::Insert));
    assert!(is_description_editor(&app), "resumed Insert mode has no handler");
    route(&mut app, &mut h, KeyCode::Char('z'));
    assert!(matches!(app.mode, AppMode::Insert));
    assert!(is_description_editor(&app));
}

#[test]
fn discard_returns_to_card_detail_not_a_frozen_insert_mode() {
    let (mut app, mut h) = app_editing_description();
    route(&mut app, &mut h, KeyCode::Esc);
    route(&mut app, &mut h, KeyCode::Char('y'));
    assert!(matches!(app.mode, AppMode::CardDetail), "discard should return to CardDetail, got {:?}", app.mode);
    assert!(app.insert.is_none(), "editor handler should be gone");
    assert!(app.dialog.is_none());
    route(&mut app, &mut h, KeyCode::Esc);
    assert!(matches!(app.mode, AppMode::Normal));
}

#[test]
fn label_create_round_trip_from_card_detail_does_not_freeze() {
    let mut app = app_in_card_detail();
    let mut h = Harness { description_modified: false };
    route(&mut app, &mut h, KeyCode::Char('l'));
    route(&mut app, &mut h, KeyCode::Char('L'));
    route(&mut app, &mut h, KeyCode::Char('n'));
    assert!(matches!(app.mode, AppMode::Insert));
    for c in "bug".chars() {
        route(&mut app, &mut h, KeyCode::Char(c));
    }
    route(&mut app, &mut h, KeyCode::Enter);
    assert!(matches!(app.mode, AppMode::Dialog));
    route(&mut app, &mut h, KeyCode::Esc);
    assert!(matches!(app.mode, AppMode::Dialog));
    route(&mut app, &mut h, KeyCode::Esc);
    assert!(matches!(app.mode, AppMode::CardDetail), "picker close must land on CardDetail, got {:?}", app.mode);
    let board = app.board().unwrap();
    assert_eq!(board.meta.labels.len(), 1);
    assert!(board.current_card().unwrap().label_ids.is_empty());
    route(&mut app, &mut h, KeyCode::Esc);
    assert!(matches!(app.mode, AppMode::Normal));
}

#[test]
fn label_manager_from_card_detail_returns_to_card_detail() {
    let mut app = app_in_card_detail();
    let mut h = Harness { description_modified: false };
    route(&mut app, &mut h, KeyCode::Char('L'));
    assert!(matches!(app.mode, AppMode::Dialog));
    route(&mut app, &mut h, KeyCode::Esc);
    assert!(matches!(app.mode, AppMode::CardDetail));
}

#[test]
fn help_over_dialog_returns_to_dialog() {
    let mut app = app_in_card_detail();
    let mut h = Harness { description_modified: false };
    route(&mut app, &mut h, KeyCode::Char('L'));
    route(&mut app, &mut h, KeyCode::Char('?'));
    assert!(matches!(app.mode, AppMode::Help));
    assert!(app.dialog.is_some());
    route(&mut app, &mut h, KeyCode::Esc);
    assert!(matches!(app.mode, AppMode::Dialog));
    route(&mut app, &mut h, KeyCode::Esc);
    assert!(matches!(app.mode, AppMode::CardDetail));
}

#[test]
fn start_insert_with_prefill() {
    let mut app: Session = App::new(vec![]);
    app.start_insert(ActiveInsert::EditCardTitle(EditCardTitle::new("abc".into(), "hello", true)));
    match app.insert.as_ref().unwrap() {
        ActiveInsert::EditCardTitle(h) => {
            assert_eq!(h.input.buffer, "hello");
            assert_eq!(h.input.cursor, 5);
        }
        _ => panic!("not the title editor"),
    }
    assert!(matches!(app.mode, AppMode::Insert));
}

// ── the library's own cases ──────────────────────────────────────────────

#[test]
fn help_key_q_leaves_help_to_remembered_mode() {
    let mut app = one_card_session();
    app.mode = AppMode::Help;
    app.previous_mode = Some(AppMode::CardDetail);
    app.handle_help(Key::plain(KeyCode::Char('x')));
    assert_eq!(app.mode, AppMode::Help);
    app.handle_help(Key::plain(KeyCode::Char('q')));
    assert_eq!(app.mode, AppMode::CardDetail);
    assert_eq!(app.previous_mode, None);
}

#[test]
fn help_key_without_memory_falls_back_to_board() {
    let mut app = one_card_session();
    app.mode = AppMode::Help;
    app.previous_mode = None;
    app.handle_help(Key::plain(KeyCode::Esc));
    assert_eq!(app.mode, AppMode::Normal);
    let mut bare: Session = App::new(vec![]);
    bare.mode = AppMode::Help;
    bare.handle_help(Key::plain(KeyCode::Esc));
    assert_eq!(bare.mode, AppMode::BoardSelector);
}

#[test]
fn insert_started_over_dialog_keeps_base_return_mode() {
    let mut app = app_in_card_detail();
    app.open_dialog(ActiveDialog::LabelManager(LabelManager { selected_idx: 0, from_picker: false }));
    assert_eq!(app.previous_mode, Some(AppMode::CardDetail));
    app.dialog = None;
    app.start_insert(ActiveInsert::NewCardTitle(NewCardTitle::new()));
    assert_eq!(app.previous_mode, Some(AppMode::CardDetail));
    app.cancel_insert();
    assert_eq!(app.mode, AppMode::CardDetail);
}

#[test]
fn confirm_status_names_the_card_for_due_dates() {
    let app = one_card_session();
    let s = app.confirm_status(&Command::ClearDueDate { card_id: "card0001".into() });
    assert_eq!(s.as_deref(), Some("Cleared due date of 'Card'"));
    let s = app.confirm_status(&Command::ClearDueDate { card_id: "nosuchid".into() });
    assert_eq!(s.as_deref(), Some("Cleared due date of 'card'"));
    let s = app.confirm_status(&Command::AddList { name: "Doing".into() });
    assert_eq!(s.as_deref(), Some("Added list 'Doing'"));
    let s = app.confirm_status(&Command::ArchiveCard { card_id: "card0001".into() });
    assert_eq!(s, None);
}

#[test]
fn finish_insert_confirm_shows_status_and_returns() {
    let mut app = app_in_card_detail();
    app.start_insert(ActiveInsert::NewCardTitle(NewCardTitle::new()));
    let cmd = Command::AddList { name: "Doing".into() };
    let status = app.confirm_status(&cmd);
    app.finish_insert(InsertOutcome::Confirm(cmd), status);
    assert_eq!(app.mode, AppMode::CardDetail);
    assert!(app.insert.is_none());
    assert_eq!(app.status_message.as_deref(), Some("Added list 'Doing'"));
}

#[test]
fn finish_insert_stay_and_cancel_with_status() {
    let mut app = app_in_card_detail();
    app.start_insert(ActiveInsert::NewCardTitle(NewCardTitle::new()));
    app.finish_insert(InsertOutcome::Stay, None);
    assert_eq!(app.mode, AppMode::Insert);
    app.finish_insert(InsertOutcome::CancelWithStatus("Invalid date".into()), None);
    assert_eq!(app.mode, AppMode::Insert);
    assert_eq!(app.status_message.as_deref(), Some("Invalid date"));
    app.finish_insert(InsertOutcome::Cancel, None);
    assert_eq!(app.mode, AppMode::CardDetail);
}

#[test]
fn finish_insert_reopens_label_manager() {
    let mut app = app_in_card_detail();
    app.start_insert(ActiveInsert::NewCardTitle(NewCardTitle::new()));
    app.finish_insert(InsertOutcome::OpenLabelManager(LabelManager { selected_idx: 2, from_picker: true }), None);
    assert_eq!(app.mode, AppMode::Dialog);
    assert!(app.insert.is_none());
    assert!(matches!(app.dialog, Some(ActiveDialog::LabelManager(LabelManager { selected_idx: 2, from_picker: true }))));
    assert_eq!(app.previous_mode, Some(AppMode::CardDetail));
}

#[test]
fn side_effect_rename_renames_selected_board() {
    let mut a = BoardMeta::new("One".into());
    a.id = "board001".into();
    let mut b = BoardMeta::new("Two".into());
    b.id = "board002".into();
    let mut app: Session = App::new(vec![a, b]);
    app.selected_board_idx = 1;
    let s = app.side_effect_done(&InsertSideEffect::RenameSelectedBoard { new_name: "Deux".into() });
    assert_eq!(s, "Renamed board to 'Deux'");
    assert_eq!(app.boards[0].name, "One");
    assert_eq!(app.boards[1].name, "Deux");
    let s = app.side_effect_done(&InsertSideEffect::CreateBoard { name: "Three".into() });
    assert_eq!(s, "Created board 'Three'");
    assert_eq!(app.boards.len(), 2);
}

#[test]
fn finish_dialog_close_to_and_replace() {
    let mut app = app_in_card_detail();
    app.open_dialog(ActiveDialog::LabelPicker(LabelPicker { selected_idx: 0 }));
    let r = app.finish_dialog(
        Follow::Open(NextDialog::LabelManager(LabelManager { selected_idx: 0, from_picker: true })),
        Some("hello".into()),
    );
    assert!(matches!(r, DialogFollowUp::Done));
    assert!(matches!(app.dialog, Some(ActiveDialog::LabelManager(_))));
    assert_eq!(app.status_message.as_deref(), Some("hello"));
    app.finish_dialog(Follow::CloseTo(AppMode::Normal), None);
    assert!(app.dialog.is_none());
    assert_eq!(app.mode, AppMode::Normal);
    assert_eq!(app.previous_mode, Some(AppMode::CardDetail));
}

#[test]
fn finish_dialog_hands_out_color_picker() {
    let mut app = app_in_card_detail();
    app.open_dialog(ActiveDialog::LabelManager(LabelManager { selected_idx: 0, from_picker: false }));
    let r = app.finish_dialog(
        Follow::Open(NextDialog::ColorPickerForLabel {
            color: LabelColor::Blue,
            label_id: "label001".into(),
            label_idx: 0,
            from_picker: false,
        }),
        None,
    );
    match r {
        DialogFollowUp::OpenColorPicker { color, label_id, label_idx, from_picker } => {
            assert_eq!(color, LabelColor::Blue);
            assert_eq!(label_id, "label001");
            assert_eq!(label_idx, 0);
            assert!(!from_picker);
        }
        _ => panic!("color picker expected"),
    }
    assert_eq!(app.mode, AppMode::Dialog);
}

#[test]
fn dialog_side_effect_file_work_goes_to_caller() {
    let mut app = app_in_card_detail();
    let w = app.dialog_side_effect(DialogSideEffect::DeleteArchivedCard { card_id: "card0009".into() });
    assert!(matches!(w, DialogWork::Files(DialogSideEffect::DeleteArchivedCard { .. })));
    assert_eq!(app.mode, AppMode::CardDetail);
}

#[test]
fn dialog_side_effect_reorder_checks_range() {
    let mut app = app_in_card_detail();
    let w = app.dialog_side_effect(DialogSideEffect::ReorderLabels { from: 0, to: 1 });
    assert!(matches!(w, DialogWork::Done));
    app.editor.as_mut().unwrap().board.meta.labels =
        vec![Label::new("a".into(), LabelColor::Red), Label::new("b".into(), LabelColor::Green)];
    let w = app.dialog_side_effect(DialogSideEffect::ReorderLabels { from: 0, to: 1 });
    match w {
        DialogWork::Apply(cmd) => {
            apply_cmd(&mut app, cmd);
        }
        _ => panic!("reorder expected"),
    }
    let labels = &app.board().unwrap().meta.labels;
    assert_eq!(labels[0].name, "b");
    assert_eq!(labels[1].name, "a");
}

#[test]
fn dialog_side_effect_stages_card_before_restore() {
    let mut app = app_in_card_detail();
    let mut archived = flow_card("card0002", "Old", "list0001", 500);
    archived.archived = true;
    let w = app.dialog_side_effect(DialogSideEffect::StageAndRestoreCard { card: archived });
    assert_eq!(app.board().unwrap().cards.len(), 2);
    match w {
        DialogWork::Apply(Command::RestoreCard { card_id }) => {
            assert_eq!(card_id, "card0002");
            apply_cmd(&mut app, Command::RestoreCard { card_id });
        }
        _ => panic!("restore expected"),
    }
    let b = app.board().unwrap();
    assert!(b.cards.iter().all(|c| !c.archived));
}

#[test]
fn dialog_side_effect_rename_label_needs_the_label() {
    let mut app = app_in_card_detail();
    app.open_dialog(ActiveDialog::LabelManager(LabelManager { selected_idx: 0, from_picker: false }));
    let w = app.dialog_side_effect(DialogSideEffect::StartRenameLabelInsert {
        label_idx: 0,
        current_name: "bug".into(),
        from_picker: false,
    });
    assert!(matches!(w, DialogWork::Done));
    assert_eq!(app.mode, AppMode::Dialog);
    let l = Label::new("bug".into(), LabelColor::Red);
    let id = l.id.clone();
    app.editor.as_mut().unwrap().board.meta.labels = vec![l];
    app.dialog_side_effect(DialogSideEffect::StartRenameLabelInsert {
        label_idx: 0,
        current_name: "bug".into(),
        from_picker: false,
    });
    assert_eq!(app.mode, AppMode::Insert);
    assert!(app.dialog.is_none());
    match app.insert.as_ref().unwrap() {
        ActiveInsert::EditLabelName(h) => {
            assert_eq!(h.label_id, id);
            assert_eq!(h.input.buffer, "bug");
        }
        _ => panic!("label rename expected"),
    }
    assert_eq!(app.previous_mode, Some(AppMode::CardDetail));
}

#[test]
fn dialog_key_without_dialog_does_nothing() {
    let mut app = app_in_card_detail();
    let o: Option<DialogOutcome> = app.dialog_key(Key::plain(KeyCode::Esc), LabelColor::Red);
    assert!(o.is_none());
    assert_eq!(app.mode, AppMode::CardDetail);
}

#[test]
fn new_card_then_normal_mode_round_trip() {
    let mut app = one_card_session();
    let mut h = Harness { description_modified: false };
    press_all(&mut app, &mut h, &[KeyCode::Char('n'), KeyCode::Char('z'), KeyCode::Enter]);
    assert_eq!(app.mode, AppMode::Normal);
    assert_eq!(app.board().unwrap().cards.len(), 2);
    assert_eq!(app.status_message.as_deref(), Some("Added card 'z'"));
}
