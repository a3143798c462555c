use tct::model::board::BoardMeta;
use tct::model::card::{Card, ChecklistItem};
use tct::model::label::{Label, LabelColor};

#[test]
fn checklist_reorder_basic() {
    let mut card = Card::new("Test".into());
    card.checklist = vec![
        ChecklistItem { text: "A".into(), completed: false },
        ChecklistItem { text: "B".into(), completed: false },
        ChecklistItem { text: "C".into(), completed: false },
    ];
    card.checklist.swap(0, 1);
    assert_eq!(card.checklist[0].text, "B");
    assert_eq!(card.checklist[1].text, "A");
    assert_eq!(card.checklist[2].text, "C");
}

#[test]
fn checklist_reorder_move_up() {
    let mut card = Card::new("Test".into());
    card.checklist = vec![
        ChecklistItem { text: "A".into(), completed: true },
        ChecklistItem { text: "B".into(), completed: false },
    ];
    card.checklist.swap(1, 0);
    assert_eq!(card.checklist[0].text, "B");
    assert_eq!(card.checklist[1].text, "A");
    assert!(!card.checklist[0].completed);
    assert!(card.checklist[1].completed);
}

#[test]
fn checklist_reorder_at_top_is_noop() {
    let mut card = Card::new("Test".into());
    card.checklist = vec![
        ChecklistItem { text: "A".into(), completed: false },
        ChecklistItem { text: "B".into(), completed: false },
    ];
    let idx = 0usize;
    if idx > 0 {
        card.checklist.swap(idx, idx - 1);
    }
    assert_eq!(card.checklist[0].text, "A");
    assert_eq!(card.checklist[1].text, "B");
}

#[test]
fn checklist_reorder_at_bottom_is_noop() {
    let mut card = Card::new("Test".into());
    card.checklist = vec![
        ChecklistItem { text: "A".into(), completed: false },
        ChecklistItem { text: "B".into(), completed: false },
    ];
    let idx = 1usize;
    if idx + 1 < card.checklist.len() {
        card.checklist.swap(idx, idx + 1);
    }
    assert_eq!(card.checklist[0].text, "A");
    assert_eq!(card.checklist[1].text, "B");
}

#[test]
fn checklist_reorder_empty_is_noop() {
    let mut card = Card::new("Test".into());
    let idx = 0usize;
    if idx + 1 < card.checklist.len() {
        card.checklist.swap(idx, idx + 1);
    }
    assert!(card.checklist.is_empty());
}

#[test]
fn due_date_clear_when_none_is_noop() {
    let mut card = Card::new("Task".into());
    assert!(card.due_date.is_none());
    card.due_date = None;
    card.touch();
    assert!(card.due_date.is_none());
}

#[test]
fn label_reorder_basic() {
    let mut board = BoardMeta::new("Board".into());
    board.labels = vec![
        Label::new("alpha".into(), LabelColor::Red),
        Label::new("beta".into(), LabelColor::Green),
        Label::new("gamma".into(), LabelColor::Blue),
    ];
    board.labels.swap(1, 2);
    assert_eq!(board.labels[0].name, "alpha");
    assert_eq!(board.labels[1].name, "gamma");
    assert_eq!(board.labels[2].name, "beta");
}

#[test]
fn label_reorder_at_top_is_noop() {
    let mut board = BoardMeta::new("Board".into());
    board.labels = vec![Label::new("only".into(), LabelColor::Red), Label::new("two".into(), LabelColor::Green)];
    let idx = 0usize;
    if idx > 0 {
        board.labels.swap(idx, idx - 1);
    }
    assert_eq!(board.labels[0].name, "only");
    assert_eq!(board.labels[1].name, "two");
}

#[test]
fn label_reorder_at_bottom_is_noop() {
    let mut board = BoardMeta::new("Board".into());
    board.labels = vec![Label::new("one".into(), LabelColor::Red), Label::new("two".into(), LabelColor::Green)];
    let idx = 1usize;
    if idx + 1 < board.labels.len() {
        board.labels.swap(idx, idx + 1);
    }
    assert_eq!(board.labels[0].name, "one");
    assert_eq!(board.labels[1].name, "two");
}

#[test]
fn label_reorder_preserves_ids() {
    let mut board = BoardMeta::new("Board".into());
    let l1 = Label::new("alpha".into(), LabelColor::Red);
    let l2 = Label::new("beta".into(), LabelColor::Green);
    let id1 = l1.id.clone();
    let id2 = l2.id.clone();
    board.labels = vec![l1, l2];
    board.labels.swap(0, 1);
    assert_eq!(board.labels[0].id, id2);
    assert_eq!(board.labels[1].id, id1);
}
