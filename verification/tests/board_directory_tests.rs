use tct::board_directory::{active_boards, archive, archived_boards, cycle_accent, restore, swap_order};
use tct::board_editor::BoardEditor;
use tct::model::board::{BoardMeta, ListMeta};
use tct::model::ids::ShortId;
use tct::model::label::LabelColor;

fn editor_for(name: &str) -> BoardEditor {
    let mut meta = BoardMeta::new(name.into());
    meta.lists.push(ListMeta { id: "listaaaa".into(), name: "L".into(), archived: false });
    let (ed, _) = BoardEditor::load(meta, vec![], &vec![]);
    ed
}

#[test]
fn archive_and_restore_roundtrip() {
    let mut ed = editor_for("Board");
    let id = ed.board().meta.id.clone();
    let mut order: Vec<ShortId> = vec![id.clone()];
    archive(&mut ed, &id, &mut order).unwrap();
    let all = vec![ed.board().meta.clone()];
    assert!(active_boards(all.clone(), &order).is_empty());
    assert_eq!(archived_boards(all).len(), 1);
    assert!(order.is_empty());

    restore(&mut ed, &id, &mut order).unwrap();
    let all = vec![ed.board().meta.clone()];
    assert_eq!(active_boards(all.clone(), &order).len(), 1);
    assert!(archived_boards(all).is_empty());
    assert_eq!(order, vec![id]);
}

#[test]
fn swap_order_persists() {
    let a: ShortId = "boardaaa".into();
    let b: ShortId = "boardbbb".into();
    let mut order = vec![a.clone(), b.clone()];
    assert!(swap_order(&mut order, &a, &b, &vec![a.clone(), b.clone()]));
    assert_eq!(order, vec![b, a]);
}

#[test]
fn cycle_accent_changes_and_persists() {
    // A new board's accent is a custom pastel; cycling goes to a named colour.
    let mut ed = editor_for("Acc");
    ed.board.meta.accent_color = LabelColor::Custom { r: 200, g: 180, b: 220 };
    let before = ed.board().meta.accent_color;
    let (after, writes) = cycle_accent(&mut ed).unwrap();
    assert_ne!(before, after);
    assert_eq!(after, LabelColor::Red);
    assert_eq!(ed.board().meta.accent_color, after);
    assert!(!writes.is_empty());
}

#[test]
fn cycle_accent_steps_through_named_colors() {
    let mut ed = editor_for("Acc");
    ed.board.meta.accent_color = LabelColor::Red;
    assert_eq!(cycle_accent(&mut ed).unwrap().0, LabelColor::Orange);
    ed.board.meta.accent_color = LabelColor::Cyan;
    assert_eq!(cycle_accent(&mut ed).unwrap().0, LabelColor::Red);
}
