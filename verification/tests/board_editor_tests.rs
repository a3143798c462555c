use tct::board_editor::{BoardEditor, BoardEditorError, EntityKind, InvariantKind, LoadedBoard, PendingWrite, PositionRequest};
use tct::command::{Command, MoveDir};
use tct::model::board::{BoardMeta, ListMeta};
use tct::model::card::{Card, ChecklistItem};
use tct::model::ids::ShortId;
use tct::model::label::{Label, LabelColor};
use tct::model::list::CardList;

fn fixed_card(id: &str, title: &str) -> Card {
    let mut c = Card::new(title.into());
    c.id = id.into();
    c
}

fn loaded_board(cards: Vec<Card>) -> LoadedBoard {
    let card_ids: Vec<_> = cards.iter().map(|c| c.id.clone()).collect();
    LoadedBoard {
        meta: BoardMeta::new("X".into()),
        lists: vec![CardList { id: "l".into(), name: "L".into(), card_ids, archived: false }],
        cards,
        selected_list: 0,
        selected_card: vec![0],
        scroll_offset: vec![0],
        detail_item_idx: 0,
        detail_scroll: 0,
    }
}

/// A board with the given lists; each card is placed in list `list` at key `pos`.
fn board_with(lists: &[&str], cards: Vec<(&str, &str, usize, u64, bool)>) -> BoardEditor {
    let mut meta = BoardMeta::new("B".into());
    for (i, name) in lists.iter().enumerate() {
        meta.lists.push(ListMeta { id: format!("list{i}"), name: (*name).into(), archived: false });
    }
    let mut all = Vec::new();
    for (id, title, list, pos, archived) in cards {
        let mut c = fixed_card(id, title);
        c.list_id = format!("list{list}");
        c.position = pos;
        c.archived = archived;
        all.push(c);
    }
    let (editor, changed) = BoardEditor::load(meta, all, &vec![]);
    assert!(changed.is_empty());
    editor
}

fn ids(editor: &BoardEditor, list: usize) -> Vec<ShortId> {
    editor.board().lists[list].card_ids.clone()
}

fn visible_order(ed: &BoardEditor, list: usize) -> Vec<ShortId> {
    ed.board().visible_cards(list, None).into_iter().map(|i| ed.board().lists[list].card_ids[i].clone()).collect()
}

fn key_for(ed: &BoardEditor, cmd: &Command) -> u64 {
    match ed.position_request(cmd) {
        PositionRequest::Unneeded => 0,
        PositionRequest::After(None) => 1,
        PositionRequest::After(Some(m)) => m + 1,
        PositionRequest::Between(None, None) => 1000,
        PositionRequest::Between(Some(a), None) => a + 1000,
        PositionRequest::Between(None, Some(b)) => b - 1,
        PositionRequest::Between(Some(a), Some(b)) => a + (b - a) / 2,
    }
}

fn run(ed: &mut BoardEditor, cmd: Command) -> Result<Vec<PendingWrite>, BoardEditorError> {
    let key = key_for(ed, &cmd);
    ed.apply(cmd, key)
}

#[test]
fn visible_cards_empty_for_no_search_match() {
    let board = loaded_board(vec![fixed_card("c1", "alpha")]);
    assert!(board.visible_cards(0, Some("zzz")).is_empty());
}

#[test]
fn visible_cards_skips_archived() {
    let mut cards = vec![fixed_card("id1", "a"), fixed_card("id2", "b")];
    cards[1].archived = true;
    let board = loaded_board(cards);
    assert_eq!(board.visible_cards(0, None), vec![0]);
}

#[test]
fn visible_cards_search_hides_non_matching() {
    let cards = vec![fixed_card("c1", "alpha"), fixed_card("c2", "BINGO"), fixed_card("c3", "gamma")];
    let board = loaded_board(cards);
    assert_eq!(board.visible_cards(0, Some("bingo")), vec![1]);
    assert_eq!(board.visible_cards(0, None), vec![0, 1, 2]);
}

#[test]
fn select_card_down_skips_to_next_search_match() {
    let cards = vec![fixed_card("c1", "alpha"), fixed_card("c2", "BINGO match"), fixed_card("c3", "gamma")];
    let mut editor = BoardEditor::from_loaded(loaded_board(cards));
    editor.select_card_down(Some("BINGO"));
    assert_eq!(editor.board().selected_card[0], 1);
    editor.select_card_down(Some("BINGO"));
    assert_eq!(editor.board().selected_card[0], 1);
}

#[test]
fn apply_missing_card_returns_not_found() {
    let mut editor = board_with(&["TODO"], vec![("c1", "one", 0, 1, false)]);
    let err = run(&mut editor, Command::ArchiveCard { card_id: "bogus123".into() }).unwrap_err();
    assert!(matches!(err, BoardEditorError::NotFound { kind: EntityKind::Card, .. }));
}

#[test]
fn move_up_skips_interleaved_archived_card() {
    let mut editor = board_with(
        &["TODO"],
        vec![("top", "top", 0, 10, false), ("arch1", "arch1", 0, 20, true), ("arch2", "arch2", 0, 30, true), ("bottom", "bottom", 0, 40, false)],
    );
    assert_eq!(editor.board().visible_cards(0, None).len(), 2);
    run(&mut editor, Command::MoveCard { card_id: "bottom".into(), direction: MoveDir::Up }).unwrap();
    assert_eq!(visible_order(&editor, 0), vec!["bottom".to_string(), "top".to_string()]);
    assert_eq!(editor.board().current_card_id(), Some(&"bottom".to_string()));
    let meta = editor.board().meta.clone();
    let cards = editor.board().cards.clone();
    editor.reload(meta, cards);
    assert_eq!(visible_order(&editor, 0), vec!["bottom".to_string(), "top".to_string()], "survives reload");
}

/// Reads the board back as it was last written: the editor's own metadata
/// and cards, rebuilt into lists.
fn reload_from_saved(ed: &mut BoardEditor) {
    let meta = ed.board().meta.clone();
    let cards = ed.board().cards.clone();
    ed.reload(meta, cards);
}

fn card_by_id<'a>(ed: &'a BoardEditor, id: &str) -> &'a Card {
    ed.board().cards.iter().find(|c| c.id == id).unwrap()
}

#[test]
fn move_card_all_directions_persist_across_reload() {
    let mut editor = board_with(&["A", "B"], vec![("a0", "a0", 0, 10, false), ("a1", "a1", 0, 20, false), ("a2", "a2", 0, 30, false)]);
    let lb = editor.board().lists[1].id.clone();
    let a = vec!["a0".to_string(), "a1".to_string(), "a2".to_string()];
    assert_eq!(ids(&editor, 0), a);

    // Down, then reload.
    run(&mut editor, Command::MoveCard { card_id: "a0".into(), direction: MoveDir::Down }).unwrap();
    let mem = ids(&editor, 0);
    assert_eq!(mem, vec![a[1].clone(), a[0].clone(), a[2].clone()]);
    reload_from_saved(&mut editor);
    assert_eq!(ids(&editor, 0), mem, "down survives reload");

    // Up brings it back.
    run(&mut editor, Command::MoveCard { card_id: "a0".into(), direction: MoveDir::Up }).unwrap();
    reload_from_saved(&mut editor);
    assert_eq!(ids(&editor, 0), a, "up survives reload");

    // Right: a0 -> list B.
    run(&mut editor, Command::MoveCard { card_id: "a0".into(), direction: MoveDir::Right }).unwrap();
    assert_eq!(editor.board().selected_list, 1);
    reload_from_saved(&mut editor);
    assert_eq!(ids(&editor, 0), vec![a[1].clone(), a[2].clone()], "src after right");
    assert_eq!(ids(&editor, 1), vec![a[0].clone()], "dst after right");
    assert_eq!(card_by_id(&editor, "a0").list_id, lb);

    // Left: a0 back to list A.
    run(&mut editor, Command::MoveCard { card_id: "a0".into(), direction: MoveDir::Left }).unwrap();
    reload_from_saved(&mut editor);
    assert!(ids(&editor, 1).is_empty(), "dst empty after left");
    assert!(ids(&editor, 0).contains(&a[0]));

    // A move with nowhere to go does nothing and writes nothing.
    let w = run(&mut editor, Command::MoveCard { card_id: "a0".into(), direction: MoveDir::Left }).unwrap();
    assert!(w.is_empty());
}

#[test]
fn add_card_appends_and_selects() {
    let mut ed = board_with(&["L"], vec![("e1", "existing", 0, 5, false)]);
    assert_eq!(ed.position_request(&Command::AddCard { list_id: "list0".into(), title: "x".into() }), PositionRequest::After(Some(5)));
    let w = run(&mut ed, Command::AddCard { list_id: "list0".into(), title: "fresh".into() }).unwrap();
    let new_id = ed.last_added_card_id().cloned().unwrap();
    assert!(matches!(&w[..], [PendingWrite::Card(id)] if *id == new_id));
    assert_eq!(ids(&ed, 0), vec!["e1".to_string(), new_id.clone()]);
    assert_eq!(ed.board().selected_card[0], 1);
    assert_eq!(ed.board().current_card().unwrap().title, "fresh");
    assert_eq!(ed.board().current_card().unwrap().history[0].action, "Created");
    let err = run(&mut ed, Command::AddCard { list_id: "nolist00".into(), title: "y".into() }).unwrap_err();
    assert!(matches!(err, BoardEditorError::NotFound { kind: EntityKind::List, .. }));
    assert!(ed.last_added_card_id().is_none());
}

#[test]
fn edit_title_and_description() {
    let mut ed = board_with(&["L"], vec![("c1", "old", 0, 1, false)]);
    run(&mut ed, Command::EditCardTitle { card_id: "c1".into(), title: "new".into() }).unwrap();
    run(&mut ed, Command::EditCardDescription { card_id: "c1".into(), body: "body".into() }).unwrap();
    let c = ed.board().current_card().unwrap();
    assert_eq!(c.title, "new");
    assert_eq!(c.description, "body");
    assert_eq!(c.history.len(), 2);
    assert_eq!(c.history[0].action, "Edited title");
    // The same title again only touches the card.
    run(&mut ed, Command::EditCardTitle { card_id: "c1".into(), title: "new".into() }).unwrap();
    assert_eq!(ed.board().current_card().unwrap().history.len(), 2);
}

#[test]
fn due_date_set_then_clear() {
    let mut ed = board_with(&["L"], vec![("c1", "t", 0, 1, false)]);
    let date = tct::model::card::Date { year: 2025, month: 3, day: 9 };
    run(&mut ed, Command::SetDueDate { card_id: "c1".into(), date }).unwrap();
    let c = ed.board().current_card().unwrap();
    assert_eq!(c.due_date, Some(date));
    assert_eq!(c.history.last().unwrap().action, "Set due date to 2025-03-09");
    run(&mut ed, Command::ClearDueDate { card_id: "c1".into() }).unwrap();
    assert_eq!(ed.board().current_card().unwrap().due_date, None);
    assert_eq!(ed.board().current_card().unwrap().history.last().unwrap().action, "Cleared due date");
}

#[test]
fn archive_then_restore_card() {
    let mut ed = board_with(&["L"], vec![("c1", "t", 0, 1, false), ("c2", "u", 0, 2, false)]);
    run(&mut ed, Command::ArchiveCard { card_id: "c1".into() }).unwrap();
    assert_eq!(visible_order(&ed, 0), vec!["c2".to_string()]);
    assert_eq!(ids(&ed, 0), vec!["c1".to_string(), "c2".to_string()]);
    run(&mut ed, Command::RestoreCard { card_id: "c1".into() }).unwrap();
    assert_eq!(visible_order(&ed, 0), vec!["c1".to_string(), "c2".to_string()]);
    let c = &ed.board().cards[0];
    assert_eq!(c.history.last().unwrap().action, "Restored from archive");
}

#[test]
fn restore_card_of_archived_list_reattaches_to_first_list() {
    let mut ed = board_with(&["A", "B"], vec![("c1", "t", 1, 1, true), ("c0", "z", 0, 7, false)]);
    run(&mut ed, Command::ArchiveList { list_id: "list1".into() }).unwrap();
    assert_eq!(ed.position_request(&Command::RestoreCard { card_id: "c1".into() }), PositionRequest::After(Some(7)));
    run(&mut ed, Command::RestoreCard { card_id: "c1".into() }).unwrap();
    assert_eq!(ids(&ed, 0), vec!["c0".to_string(), "c1".to_string()]);
    let c = ed.board().cards.iter().find(|c| c.id == "c1").unwrap();
    assert_eq!(c.list_id, "list0");
    assert!(!c.archived);
}

#[test]
fn checklist_lifecycle() {
    let mut ed = board_with(&["L"], vec![("c1", "t", 0, 1, false)]);
    run(&mut ed, Command::AddChecklistItem { card_id: "c1".into(), text: "one".into() }).unwrap();
    run(&mut ed, Command::AddChecklistItem { card_id: "c1".into(), text: "two".into() }).unwrap();
    assert_eq!(ed.board().detail_item_idx, 1);
    run(&mut ed, Command::ToggleChecklistItem { card_id: "c1".into(), item_idx: 0 }).unwrap();
    run(&mut ed, Command::EditChecklistItem { card_id: "c1".into(), item_idx: 1, text: "deux".into() }).unwrap();
    run(&mut ed, Command::ReorderChecklistItem { card_id: "c1".into(), from: 1, to: 0 }).unwrap();
    {
        let c = ed.board().current_card().unwrap();
        assert_eq!(c.checklist[0].text, "deux");
        assert_eq!(c.checklist[1].text, "one");
        assert!(c.checklist[1].completed);
        let actions: Vec<_> = c.history.iter().map(|h| h.action.clone()).collect();
        assert_eq!(
            actions,
            vec![
                "Added checklist item 'one'",
                "Added checklist item 'two'",
                "Completed checklist item 'one'",
                "Renamed checklist item 'two' → 'deux'",
                "Reordered checklist item 'deux'",
            ]
        );
    }
    run(&mut ed, Command::RemoveChecklistItem { card_id: "c1".into(), item_idx: 1 }).unwrap();
    assert_eq!(ed.board().current_card().unwrap().checklist.len(), 1);
    assert_eq!(ed.board().detail_item_idx, 0);
    let err = run(&mut ed, Command::ToggleChecklistItem { card_id: "c1".into(), item_idx: 5 }).unwrap_err();
    assert!(matches!(err, BoardEditorError::Invariant(InvariantKind::ChecklistIndex)));
}

#[test]
fn toggle_label_assignment() {
    let mut ed = board_with(&["L"], vec![("c1", "t", 0, 1, false)]);
    run(&mut ed, Command::DefineLabel { name: "bug".into(), color: LabelColor::Red }).unwrap();
    let lid = ed.board().meta.labels[0].id.clone();
    run(&mut ed, Command::ToggleLabel { card_id: "c1".into(), label_id: lid.clone() }).unwrap();
    assert_eq!(ed.board().current_card().unwrap().label_ids, vec![lid.clone()]);
    assert_eq!(ed.board().current_card().unwrap().history.last().unwrap().action, "Added label 'bug'");
    run(&mut ed, Command::ToggleLabel { card_id: "c1".into(), label_id: lid.clone() }).unwrap();
    assert!(ed.board().current_card().unwrap().label_ids.is_empty());
    let err = run(&mut ed, Command::ToggleLabel { card_id: "c1".into(), label_id: "nolabel0".into() }).unwrap_err();
    assert!(matches!(err, BoardEditorError::NotFound { kind: EntityKind::Label, .. }));
}

#[test]
fn delete_label_prunes_from_card_on_next_save() {
    let mut ed = board_with(&["L"], vec![("c1", "t", 0, 1, false)]);
    run(&mut ed, Command::DefineLabel { name: "bug".into(), color: LabelColor::Red }).unwrap();
    let lid = ed.board().meta.labels[0].id.clone();
    run(&mut ed, Command::ToggleLabel { card_id: "c1".into(), label_id: lid.clone() }).unwrap();
    run(&mut ed, Command::DeleteLabel { label_id: lid.clone() }).unwrap();
    assert_eq!(ed.board().current_card().unwrap().label_ids, vec![lid.clone()]);
    let saved = ed.card_for_save(&"c1".to_string()).unwrap();
    assert!(saved.label_ids.is_empty());
}

#[test]
fn label_meta_commands() {
    let mut ed = board_with(&["L"], vec![]);
    run(&mut ed, Command::DefineLabel { name: "a".into(), color: LabelColor::Red }).unwrap();
    run(&mut ed, Command::DefineLabel { name: "b".into(), color: LabelColor::Blue }).unwrap();
    let la = ed.board().meta.labels[0].id.clone();
    run(&mut ed, Command::RenameLabel { label_id: la.clone(), name: "alpha".into() }).unwrap();
    run(&mut ed, Command::SetLabelColor { label_id: la.clone(), color: LabelColor::Green }).unwrap();
    let w = run(&mut ed, Command::ReorderLabels { from: 0, to: 1 }).unwrap();
    assert_eq!(w.len(), 1);
    assert_eq!(ed.board().meta.labels[1].name, "alpha");
    assert_eq!(ed.board().meta.labels[1].color, LabelColor::Green);
    let w = run(&mut ed, Command::ReorderLabels { from: 1, to: 1 }).unwrap();
    assert!(w.is_empty());
    let err = run(&mut ed, Command::ReorderLabels { from: 0, to: 9 }).unwrap_err();
    assert!(matches!(err, BoardEditorError::Invariant(InvariantKind::LabelIndex)));
}

#[test]
fn list_commands() {
    let mut ed = board_with(&["A", "B"], vec![]);
    run(&mut ed, Command::AddList { name: "C".into() }).unwrap();
    assert_eq!(ed.board().lists.len(), 3);
    assert_eq!(ed.board().selected_list, 2);
    run(&mut ed, Command::RenameList { list_id: "list0".into(), name: "Alpha".into() }).unwrap();
    assert_eq!(ed.board().lists[0].name, "Alpha");
    assert_eq!(ed.board().meta.lists[0].name, "Alpha");
    run(&mut ed, Command::MoveList { list_id: "list0".into(), direction: MoveDir::Right }).unwrap();
    assert_eq!(ed.board().lists[1].id, "list0");
    assert_eq!(ed.board().meta.lists[1].id, "list0");
    let err = run(&mut ed, Command::MoveList { list_id: "list0".into(), direction: MoveDir::Up }).unwrap_err();
    assert!(matches!(err, BoardEditorError::Invariant(InvariantKind::MoveListDirection)));
}

#[test]
fn archive_then_restore_list() {
    let mut ed = board_with(&["A", "B"], vec![("c1", "t", 1, 1, false)]);
    run(&mut ed, Command::ArchiveList { list_id: "list1".into() }).unwrap();
    assert_eq!(ed.board().lists.len(), 1);
    assert!(ed.board().meta.lists[1].archived);
    let archived = ed.archived_lists();
    assert_eq!(archived.len(), 1);
    assert_eq!(archived[0].card_ids, vec!["c1".to_string()]);
    run(&mut ed, Command::RestoreList { list_id: "list1".into() }).unwrap();
    assert_eq!(ed.board().lists.len(), 2);
    assert_eq!(ed.board().lists[1].card_ids, vec!["c1".to_string()]);
}

#[test]
fn board_commands() {
    let mut ed = board_with(&["A"], vec![]);
    let id = ed.board().meta.id.clone();
    run(&mut ed, Command::RenameBoard { name: "Renamed".into() }).unwrap();
    run(&mut ed, Command::SetAccentColor { color: LabelColor::Purple }).unwrap();
    run(&mut ed, Command::ArchiveBoard { board_id: id.clone() }).unwrap();
    assert!(ed.board().meta.archived);
    run(&mut ed, Command::RestoreBoard { board_id: id.clone() }).unwrap();
    assert!(!ed.board().meta.archived);
    assert_eq!(ed.board().meta.name, "Renamed");
    assert_eq!(ed.board().meta.accent_color, LabelColor::Purple);
    let err = run(&mut ed, Command::ArchiveBoard { board_id: "other000".into() }).unwrap_err();
    assert!(matches!(err, BoardEditorError::NotFound { kind: EntityKind::Board, .. }));
}

#[test]
fn load_reattaches_orphan_card_and_reports() {
    let mut meta = BoardMeta::new("B".into());
    meta.lists.push(ListMeta { id: "list0".into(), name: "L".into(), archived: false });
    meta.labels.push(Label { id: "lab00001".into(), name: "x".into(), color: LabelColor::Red });
    let mut orphan = fixed_card("c1", "lost");
    orphan.list_id = "gone0000".into();
    let mut tagged = fixed_card("c2", "tagged");
    tagged.list_id = "list0".into();
    tagged.label_ids = vec!["lab00001".into(), "dead0000".into()];
    let (ed, changed) = BoardEditor::load(meta, vec![orphan, tagged], &vec![42]);
    assert_eq!(changed, vec!["c1".to_string(), "c2".to_string()]);
    assert_eq!(
        ed.diagnostics,
        vec![
            "card \"lost\" pointed at missing list — reattached to first list".to_string(),
            "card \"tagged\" had 1 unknown label ref(s) removed".to_string(),
        ]
    );
    assert_eq!(ed.board().cards[0].list_id, "list0");
    assert_eq!(ed.board().cards[0].position, 42);
    assert_eq!(ed.board().cards[1].label_ids, vec!["lab00001".to_string()]);
}

#[test]
fn load_clean_board_has_no_diagnostics() {
    let ed = board_with(&["L"], vec![("c1", "a", 0, 1, false)]);
    assert!(ed.diagnostics.is_empty());
}

#[test]
fn reload_keeps_selection_where_it_fits() {
    let mut ed = board_with(&["A", "B"], vec![("c1", "a", 1, 1, false), ("c2", "b", 1, 2, false)]);
    ed.select_list_right();
    ed.select_card_down(None);
    assert_eq!(ed.board().selected_card, vec![0, 1]);
    let meta = ed.board().meta.clone();
    let mut c1 = fixed_card("c1", "a");
    c1.list_id = "list1".into();
    c1.position = 1;
    ed.reload(meta, vec![c1]);
    assert_eq!(ed.board().selected_list, 1);
    assert_eq!(ed.board().selected_card, vec![0, 0]);
}

#[test]
fn delete_archived_card_and_list_in_memory() {
    let mut ed = board_with(&["A", "B"], vec![("c1", "a", 1, 1, true), ("c2", "b", 0, 2, false)]);
    ed.delete_archived_card(&"c1".to_string());
    assert_eq!(ed.board().cards.len(), 1);
    let w = ed.delete_archived_list(&"list1".to_string(), &vec!["c2".to_string()]);
    assert!(matches!(&w[..], [PendingWrite::Board]));
    assert!(ed.board().cards.is_empty());
    assert_eq!(ed.board().meta.lists.len(), 1);
}

#[test]
fn detail_cursor_and_scroll() {
    let mut ed = board_with(&["L"], vec![("c1", "t", 0, 1, false)]);
    run(&mut ed, Command::AddChecklistItem { card_id: "c1".into(), text: "a".into() }).unwrap();
    run(&mut ed, Command::AddChecklistItem { card_id: "c1".into(), text: "b".into() }).unwrap();
    ed.reset_detail_cursor();
    assert_eq!(ed.board().detail_item_idx, 0);
    ed.detail_item_down();
    ed.detail_item_down();
    assert_eq!(ed.board().detail_item_idx, 1);
    ed.detail_item_up();
    assert_eq!(ed.board().detail_item_idx, 0);
    ed.scroll_detail(3, true, 5);
    ed.scroll_detail(3, true, 5);
    assert_eq!(ed.board().detail_scroll, 5);
    ed.scroll_detail(10, false, 5);
    assert_eq!(ed.board().detail_scroll, 0);
    let _ = ChecklistItem { text: String::new(), completed: false };
}

// Build a single-list board, one card homed in that list. `mutate` can
// break it before the invariant check runs.
fn invariant_board(mutate: impl FnOnce(&mut LoadedBoard)) -> BoardEditor {
    let list_id = "lst00001".to_string();
    let mut meta = BoardMeta::new("X".into());
    meta.lists.push(ListMeta { id: list_id.clone(), name: "L".into(), archived: false });
    let mut card = fixed_card("c0000001", "a");
    card.list_id = list_id;
    card.position = 1;
    let cards = vec![card];
    let lists = tct::model::list::build_lists(&meta, &cards, false);
    let mut board = LoadedBoard {
        meta,
        lists,
        cards,
        selected_list: 0,
        selected_card: vec![0],
        scroll_offset: vec![0],
        detail_item_idx: 0,
        detail_scroll: 0,
    };
    mutate(&mut board);
    BoardEditor::from_loaded(board)
}

#[test]
fn check_invariants_passes_on_well_formed_board() {
    let editor = invariant_board(|_| {});
    assert!(editor.check_invariants().is_ok());
}

#[test]
fn check_invariants_detects_orphan_card() {
    let editor = invariant_board(|b| {
        b.cards[0].list_id = "ghostlst".into();
    });
    let err = editor.check_invariants().unwrap_err();
    assert!(err.contains("naming no known List"), "got: {err}");
    assert_eq!(err, "card c0000001 has list_id \"ghostlst\" naming no known List");
}

#[test]
fn check_invariants_detects_selection_out_of_range() {
    let editor = invariant_board(|b| b.selected_card[0] = 5);
    let err = editor.check_invariants().unwrap_err();
    assert!(err.contains("ordinal"), "got: {err}");
    assert_eq!(err, "list idx 0 selected_card ordinal 5 >= visible count 1");
}

#[test]
fn check_invariants_detects_diverged_card_ids() {
    let editor = invariant_board(|b| b.lists[0].card_ids.push("phantom0".into()));
    let err = editor.check_invariants().unwrap_err();
    assert!(err.contains("diverged"), "got: {err}");
}

#[test]
fn check_invariants_counts_slots() {
    let editor = invariant_board(|b| b.scroll_offset.clear());
    assert_eq!(editor.check_invariants().unwrap_err(), "scroll_offset has 0 slots, expected 1");
    let editor = invariant_board(|b| b.selected_list = 3);
    assert_eq!(editor.check_invariants().unwrap_err(), "selected_list 3 out of range (lists: 1)");
}

#[test]
fn clamp_selection_within_bounds_unchanged() {
    let cards = vec![fixed_card("aaaaaaaa", "A"), fixed_card("bbbbbbbb", "B"), fixed_card("cccccccc", "C")];
    let mut board = loaded_board(cards);
    board.selected_card[0] = 1;
    board.clamp_selection();
    assert_eq!(board.selected_card[0], 1);
}

#[test]
fn clamp_selection_caps_to_last_visible() {
    let cards = vec![fixed_card("aaaaaaaa", "A"), fixed_card("bbbbbbbb", "B")];
    let mut board = loaded_board(cards);
    board.selected_card[0] = 5;
    board.clamp_selection();
    assert_eq!(board.selected_card[0], 1);
}

#[test]
fn clamp_selection_zeros_when_no_visible_cards() {
    let mut board = loaded_board(vec![]);
    board.selected_card[0] = 3;
    board.clamp_selection();
    assert_eq!(board.selected_card[0], 0);
}

#[test]
fn clamp_selection_skips_archived() {
    let mut cards = vec![fixed_card("aaaaaaaa", "A"), fixed_card("bbbbbbbb", "B")];
    cards[1].archived = true;
    let mut board = loaded_board(cards);
    board.selected_card[0] = 1;
    board.clamp_selection();
    assert_eq!(board.selected_card[0], 0);
}

#[test]
fn visible_card_count_excludes_archived_and_missing() {
    let mut cards = vec![fixed_card("aaaaaaaa", "A"), fixed_card("bbbbbbbb", "B")];
    cards[1].archived = true;
    let mut board = loaded_board(cards);
    board.lists[0].card_ids.push("orphanid".into());
    assert_eq!(board.visible_card_count(0), 1);
}

#[test]
fn current_card_returns_selected() {
    let cards = vec![fixed_card("aaaaaaaa", "A"), fixed_card("bbbbbbbb", "B")];
    let mut board = loaded_board(cards);
    board.selected_card[0] = 1;
    assert_eq!(board.current_card_id().unwrap(), "bbbbbbbb");
    assert_eq!(board.current_card().unwrap().title, "B");
}

#[test]
fn current_card_none_on_empty_list() {
    let board = loaded_board(vec![]);
    assert!(board.current_card_id().is_none());
    assert!(board.current_card().is_none());
}
