use tct::model::card::{Card, ChecklistItem, HISTORY_LIMIT};
use tct::model::ids::new_id;
use tct::model::label::{Label, LabelColor};

fn pause() {
    let start = std::time::Instant::now();
    while start.elapsed() < std::time::Duration::from_millis(2) {}
}

#[test]
fn new_card_defaults() {
    let card = Card::new("Test".into());
    assert_eq!(card.title, "Test");
    assert!(card.description.is_empty());
    assert!(card.label_ids.is_empty());
    assert!(card.due_date.is_none());
    assert!(!card.archived);
}

#[test]
fn checklist_progress_empty() {
    let card = Card::new("Test".into());
    assert_eq!(card.checklist_progress(), None);
}

#[test]
fn checklist_progress_counts() {
    let mut card = Card::new("Test".into());
    card.checklist = vec![
        ChecklistItem { text: "A".into(), completed: true },
        ChecklistItem { text: "B".into(), completed: false },
        ChecklistItem { text: "C".into(), completed: true },
    ];
    assert_eq!(card.checklist_progress(), Some((2, 3)));
}

#[test]
fn has_description_false_when_empty() {
    let card = Card::new("Test".into());
    assert!(!card.has_description());
}

#[test]
fn has_description_true_when_set() {
    let mut card = Card::new("Test".into());
    card.description = "some content".into();
    assert!(card.has_description());
}

#[test]
fn search_matches_title() {
    let card = Card::new("Fix login bug".into());
    assert!(card.matches_search("login", &[]));
    assert!(card.matches_search("LOGIN", &[]));
    assert!(!card.matches_search("signup", &[]));
}

#[test]
fn search_matches_checklist() {
    let mut card = Card::new("Task".into());
    card.checklist.push(ChecklistItem { text: "Deploy to staging".into(), completed: false });
    assert!(card.matches_search("deploy", &[]));
    assert!(card.matches_search("DEPLOY", &[]));
    assert!(!card.matches_search("production", &[]));
}

#[test]
fn search_matches_label() {
    let label = Label::new("BUG".into(), LabelColor::Red);
    let mut card = Card::new("Task".into());
    card.label_ids.push(label.id.clone());
    assert!(card.matches_search("bug", &[label]));
}

#[test]
fn resolved_labels_follow_board_order() {
    let l1 = Label::new("alpha".into(), LabelColor::Red);
    let l2 = Label::new("beta".into(), LabelColor::Green);
    let l3 = Label::new("gamma".into(), LabelColor::Blue);
    let board_labels = vec![l1.clone(), l2.clone(), l3.clone()];

    let mut card = Card::new("Task".into());
    card.label_ids = vec![l3.id.clone(), l1.id.clone(), l2.id.clone()];

    let resolved = card.resolved_labels(&board_labels);
    assert_eq!(resolved[0].name, "alpha");
    assert_eq!(resolved[1].name, "beta");
    assert_eq!(resolved[2].name, "gamma");
}

#[test]
fn log_appends_entry_and_advances_updated_at() {
    let mut card = Card::new("Task".into());
    let original = card.updated_at;
    pause();
    card.log("Did something".to_string());
    assert_eq!(card.history.len(), 1);
    assert_eq!(card.history[0].action, "Did something");
    assert!(card.updated_at > original);
}

#[test]
fn log_caps_at_history_limit() {
    let mut card = Card::new("Task".into());
    for i in 0..HISTORY_LIMIT + 10 {
        card.log(format!("event {i}"));
    }
    assert_eq!(card.history.len(), HISTORY_LIMIT);
    assert_eq!(card.history.first().unwrap().action, "event 10");
    assert_eq!(card.history.last().unwrap().action, format!("event {}", HISTORY_LIMIT + 9));
}

#[test]
fn touch_advances_updated_at() {
    let mut card = Card::new("Task".into());
    let original = card.updated_at;
    pause();
    card.touch();
    assert!(card.updated_at > original);
}

#[test]
fn checklist_progress_all_done() {
    let mut card = Card::new("Test".into());
    card.checklist = vec![
        ChecklistItem { text: "A".into(), completed: true },
        ChecklistItem { text: "B".into(), completed: true },
    ];
    assert_eq!(card.checklist_progress(), Some((2, 2)));
}

#[test]
fn checklist_progress_none_done() {
    let mut card = Card::new("Test".into());
    card.checklist = vec![
        ChecklistItem { text: "A".into(), completed: false },
        ChecklistItem { text: "B".into(), completed: false },
    ];
    assert_eq!(card.checklist_progress(), Some((0, 2)));
}

#[test]
fn checklist_as_markdown_mixed() {
    let mut card = Card::new("Task".into());
    card.checklist = vec![
        ChecklistItem { text: "Reproduce".into(), completed: true },
        ChecklistItem { text: "Fix".into(), completed: false },
        ChecklistItem { text: "Test".into(), completed: true },
    ];
    let md = card.checklist_as_markdown();
    assert_eq!(md, "- [x] Reproduce\n- [ ] Fix\n- [x] Test");
}

#[test]
fn checklist_as_markdown_empty() {
    let card = Card::new("Task".into());
    assert_eq!(card.checklist_as_markdown(), "");
}

#[test]
fn checklist_as_markdown_single_item() {
    let mut card = Card::new("Task".into());
    card.checklist = vec![ChecklistItem { text: "alone".into(), completed: false }];
    assert_eq!(card.checklist_as_markdown(), "- [ ] alone");
}

#[test]
fn checklist_as_markdown_preserves_special_chars() {
    let mut card = Card::new("Task".into());
    card.checklist = vec![ChecklistItem { text: "with **bold** and `code`".into(), completed: true }];
    assert_eq!(card.checklist_as_markdown(), "- [x] with **bold** and `code`");
}

#[test]
fn archive_round_trip() {
    let mut card = Card::new("Task".into());
    assert!(!card.archived);
    card.archived = true;
    assert!(card.archived);
    card.archived = false;
    assert!(!card.archived);
}

#[test]
fn search_empty_query_matches_everything() {
    let card = Card::new("Anything".into());
    assert!(card.matches_search("", &[]));
}

#[test]
fn card_search_matches_description() {
    let mut card = Card::new("Title".into());
    card.description = "Auth token expires".into();
    assert!(card.matches_search("auth", &[]));
    assert!(card.matches_search("EXPIRES", &[]));
    assert!(!card.matches_search("nothing", &[]));
}

#[test]
fn resolved_labels_reflect_reorder() {
    let l1 = Label::new("first".into(), LabelColor::Red);
    let l2 = Label::new("second".into(), LabelColor::Green);
    let mut board_labels = vec![l1.clone(), l2.clone()];

    let mut card = Card::new("Task".into());
    card.label_ids = vec![l1.id.clone(), l2.id.clone()];

    let resolved = card.resolved_labels(&board_labels);
    assert_eq!(resolved[0].name, "first");
    assert_eq!(resolved[1].name, "second");

    board_labels.swap(0, 1);

    let resolved = card.resolved_labels(&board_labels);
    assert_eq!(resolved[0].name, "second");
    assert_eq!(resolved[1].name, "first");
}

#[test]
fn default_is_cyan() {
    assert_eq!(LabelColor::default(), LabelColor::Cyan);
}

#[test]
fn id_is_8_chars() {
    let id = new_id();
    assert_eq!(id.len(), 8);
}

#[test]
fn ids_are_unique() {
    let a = new_id();
    let b = new_id();
    assert_ne!(a, b);
}

#[test]
fn named_colors_cycle_through_the_palette() {
    let order = [
        LabelColor::Red,
        LabelColor::Orange,
        LabelColor::Yellow,
        LabelColor::Green,
        LabelColor::Blue,
        LabelColor::Purple,
        LabelColor::Pink,
        LabelColor::Cyan,
    ];
    for i in 0..order.len() {
        assert_eq!(order[i].next(), Some(order[(i + 1) % order.len()]));
    }
    assert_eq!(LabelColor::Custom { r: 1, g: 2, b: 3 }.next(), None);
}

#[test]
fn display_names_and_rgb() {
    assert_eq!(LabelColor::Green.display_name(), "green");
    assert_eq!(LabelColor::Custom { r: 0xaa, g: 0xbb, b: 0x0c }.display_name(), "#aabb0c");
    assert_eq!(LabelColor::Cyan.to_rgb(), (170, 240, 240));
    assert_eq!(LabelColor::Custom { r: 1, g: 2, b: 3 }.to_rgb(), (1, 2, 3));
    assert_eq!(LabelColor::Custom { r: 1, g: 2, b: 3 }.cli_name(), "custom");
}

#[test]
fn move_card_clamps_to_end_when_dst_shorter() {
    let mut src = vec!["a", "b", "c", "d", "e"];
    let mut dst = vec!["x", "y"];
    let ci = 4;
    let card = src.remove(ci);
    let insert_at = ci.min(dst.len());
    dst.insert(insert_at, card);
    assert_eq!(dst, vec!["x", "y", "e"]);
    assert_eq!(insert_at, 2);
}
