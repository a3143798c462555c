use tct::cli_format::{
    active_cards, archived_card_row, board_row, card_detail, card_line, checklist_lines, label_change, label_row,
    lines_of, toggled_message,
};
use tct::cli_plan::{
    boards_action, card_edits, cards_request, checklist_index, checklist_request, entry, labels_request, lists_request,
    BoardsAction, CardsAction, ChecklistAction, Entry, LabelsAction, ListsAction,
};
use tct::command::Command;
use tct::model::board::BoardMeta;
use tct::model::card::{Card, ChecklistItem, Date};
use tct::model::label::{Label, LabelColor};
use tct::model::list::CardList;

fn a(words: &[&str]) -> Vec<String> {
    words.iter().map(|s| s.to_string()).collect()
}

fn d(year: i32, month: u32, day: u32) -> Date {
    Date { year, month, day }
}

#[test]
fn entry_picks_help_subcommand_or_interface() {
    assert_eq!(entry(&a(&["cards", "x", "--help"])), Entry::Help);
    assert_eq!(entry(&a(&["-h"])), Entry::Help);
    assert_eq!(entry(&a(&["help"])), Entry::Help);
    assert_eq!(entry(&a(&["boards"])), Entry::Subcommand);
    assert_eq!(entry(&a(&["--board", "Work"])), Entry::Interface);
    assert_eq!(entry(&a(&[])), Entry::Interface);
}

#[test]
fn boards_action_follows_flag_order() {
    assert!(matches!(boards_action(&a(&["--create", "X", "--archived"])), BoardsAction::Archived));
    match boards_action(&a(&["--delete", "Old", "--create", "New"])) {
        BoardsAction::Create { name } => assert_eq!(name, "New"),
        _ => panic!("create expected"),
    }
    assert!(matches!(boards_action(&a(&["--create"])), BoardsAction::Overview));
}

#[test]
fn lists_request_needs_a_board() {
    assert_eq!(
        lists_request(&a(&[])).err().unwrap(),
        "Usage: tct lists <board> [--create|--rename|--archive|--restore|--delete|--archived ...]"
    );
    match lists_request(&a(&["Work", "--rename", "Todo", "Backlog"])).unwrap() {
        (b, ListsAction::Rename { list, name }) => {
            assert_eq!(b, "Work");
            assert_eq!(list, "Todo");
            assert_eq!(name, "Backlog");
        }
        _ => panic!("rename expected"),
    }
}

#[test]
fn cards_request_reads_create_and_show() {
    match cards_request(&a(&["Work", "--create", "Todo", "Write tests"])).unwrap() {
        (_, CardsAction::Create { list, title }) => {
            assert_eq!(list, "Todo");
            assert_eq!(title, "Write tests");
        }
        _ => panic!("create expected"),
    }
    assert!(matches!(cards_request(&a(&["Work", "--show", "c1"])).unwrap().1, CardsAction::Show { .. }));
    assert!(matches!(cards_request(&a(&["Work"])).unwrap().1, CardsAction::Overview));
    assert!(cards_request(&a(&[])).is_err());
}

#[test]
fn labels_and_checklist_requests() {
    match labels_request(&a(&["Work", "--assign", "card", "bug"])).unwrap() {
        (_, LabelsAction::Assign { card, label }) => {
            assert_eq!(card, "card");
            assert_eq!(label, "bug");
        }
        _ => panic!("assign expected"),
    }
    assert_eq!(checklist_request(&a(&["Work"])).err().unwrap(), "Missing required argument: card name");
    match checklist_request(&a(&["Work", "Card", "--toggle", "2"])).unwrap() {
        (b, c, ChecklistAction::Toggle { index }) => {
            assert_eq!((b.as_str(), c.as_str(), index.as_str()), ("Work", "Card", "2"));
        }
        _ => panic!("toggle expected"),
    }
}

#[test]
fn checklist_index_checks_number_and_range() {
    assert_eq!(checklist_index("2", 3), Ok(1));
    assert_eq!(checklist_index("+3", 3), Ok(2));
    assert_eq!(checklist_index("0", 3), Err("Index must be >= 1".to_string()));
    assert_eq!(checklist_index("4", 3), Err("Index 4 out of range (card has 3 items)".to_string()));
    assert_eq!(checklist_index("x", 3), Err("Item index must be a positive integer".to_string()));
    assert_eq!(checklist_index("-1", 3), Err("Item index must be a positive integer".to_string()));
    assert_eq!(checklist_index("", 3), Err("Item index must be a positive integer".to_string()));
    assert_eq!(
        checklist_index("99999999999999999999999", 3),
        Err("Item index must be a positive integer".to_string())
    );
}

#[test]
fn card_edits_builds_commands_in_order() {
    let id = "card0001".to_string();
    let cmds = card_edits(&id, &a(&["Work", "--edit", "c", "--due", "2026-05-18", "--title", "New"])).unwrap();
    assert_eq!(cmds.len(), 2);
    assert!(matches!(&cmds[0], Command::EditCardTitle { title, .. } if title == "New"));
    assert!(matches!(&cmds[1], Command::SetDueDate { date, .. } if *date == d(2026, 5, 18)));
    let cmds = card_edits(&id, &a(&["--due", "none", "--description", "body"])).unwrap();
    assert!(matches!(&cmds[0], Command::EditCardDescription { body, .. } if body == "body"));
    assert!(matches!(&cmds[1], Command::ClearDueDate { .. }));
    assert_eq!(
        card_edits(&id, &a(&["--edit", "c"])).err().unwrap(),
        "cards --edit requires at least one of: --title, --description, --due"
    );
    assert_eq!(
        card_edits(&id, &a(&["--due", "2026-13-01", "--title", "T"])).err().unwrap(),
        "Invalid date format. Use YYYY-MM-DD or 'none'."
    );
}

fn sample_card() -> Card {
    let mut c = Card::new("Fix bug".into());
    c.id = "abcd1234".into();
    c
}

#[test]
fn card_line_shows_labels_due_and_progress() {
    let mut c = sample_card();
    let bug = Label::new("bug".into(), LabelColor::Red);
    let ui = Label::new("ui".into(), LabelColor::Blue);
    c.label_ids = vec![ui.id.clone(), bug.id.clone()];
    c.due_date = Some(d(2026, 1, 2));
    c.checklist = vec![
        ChecklistItem { text: "a".into(), completed: true },
        ChecklistItem { text: "b".into(), completed: false },
    ];
    let labels = vec![bug, ui];
    assert_eq!(
        card_line(3, &c, &labels, d(2026, 1, 3)),
        "    3. [abcd1234]  Fix bug  [bug, ui]  due: 2026-01-02 (OVERDUE)  checklist: 1/2"
    );
    assert_eq!(
        card_line(3, &c, &labels, d(2026, 1, 2)),
        "    3. [abcd1234]  Fix bug  [bug, ui]  due: 2026-01-02  checklist: 1/2"
    );
    let plain = sample_card();
    assert_eq!(card_line(1, &plain, &vec![], d(2026, 1, 1)), "    1. [abcd1234]  Fix bug");
}

#[test]
fn card_detail_lists_every_part() {
    let mut c = sample_card();
    c.description = "line one\r\nline two\n".into();
    c.checklist = vec![ChecklistItem { text: "step".into(), completed: true }];
    c.created_at = 0;
    c.updated_at = 86_400_000_000 * 2 - 1;
    let mut board = BoardMeta::new("Work".into());
    board.id = "board001".into();
    let mut list = CardList::new("Todo".into());
    list.id = "list0001".into();
    let lines = card_detail(&c, &board, &list, d(2026, 1, 1));
    assert_eq!(
        lines,
        vec![
            "Card:        Fix bug [abcd1234]",
            "Board:       Work [board001]",
            "List:        Todo [list0001]",
            "Checklist:   1/1",
            "  [x] step",
            "Created:     1970-01-01",
            "Updated:     1970-01-02",
            "Description:",
            "  line one",
            "  line two",
        ]
    );
}

#[test]
fn lines_of_follows_str_lines() {
    for s in ["", "a", "a\n", "a\r\nb", "a\n\nb\n", "x\r", "\n", "a\rb\n"] {
        let mine = lines_of(s);
        let std: Vec<String> = s.lines().map(String::from).collect();
        assert_eq!(mine, std, "for {s:?}");
    }
}

#[test]
fn timestamps_before_the_epoch_round_down() {
    let mut c = sample_card();
    c.updated_at = -1;
    assert_eq!(archived_card_row(2, &c), "  2. [abcd1234]  Fix bug  (archived: 1969-12-31)");
}

#[test]
fn board_row_pads_the_name() {
    let mut b = BoardMeta::new("Work".into());
    b.id = "board001".into();
    let expected = format!("  [board001]  {:<30} {} lists, {} active cards", "Work", 2, 5);
    assert_eq!(board_row(&b, 2, 5), expected);
    b.name = "x".repeat(40);
    let expected = format!("  [board001]  {:<30} {} lists, {} active cards", b.name, 1, 0);
    assert_eq!(board_row(&b, 1, 0), expected);
}

#[test]
fn active_cards_skips_archived_and_missing() {
    let mut c1 = sample_card();
    c1.id = "c1".into();
    let mut c2 = sample_card();
    c2.id = "c2".into();
    c2.archived = true;
    let cards = vec![c1, c2];
    let ids: Vec<String> = vec!["c2".into(), "nope".into(), "c1".into()];
    assert_eq!(active_cards(&ids, &cards), vec![0]);
}

#[test]
fn checklist_lines_number_items() {
    let mut c = sample_card();
    assert_eq!(checklist_lines(&c), vec!["Card: Fix bug  Checklist: no items", "  (no items)"]);
    c.checklist = vec![
        ChecklistItem { text: "a".into(), completed: false },
        ChecklistItem { text: "b".into(), completed: true },
    ];
    assert_eq!(checklist_lines(&c), vec!["Card: Fix bug  Checklist: 1/2", "  1. [ ] a", "  2. [x] b"]);
}

#[test]
fn messages_for_toggles_labels_and_changes() {
    assert_eq!(toggled_message(2, "b", true), "Toggled item 2 ('b') → done.");
    assert_eq!(toggled_message(1, "a", false), "Toggled item 1 ('a') → undone.");
    let l = Label::new("bug".into(), LabelColor::Green);
    assert_eq!(label_row(&l), format!("  [{}]  bug  (green)", l.id));
    let mut c = sample_card();
    let (cmd, msg) = label_change(&c, &l, true);
    assert!(matches!(cmd, Some(Command::ToggleLabel { .. })));
    assert_eq!(msg, "Assigned label 'bug' to card 'Fix bug'.");
    let (cmd, msg) = label_change(&c, &l, false);
    assert!(cmd.is_none());
    assert_eq!(msg, "Label 'bug' is not assigned to card 'Fix bug'.");
    c.label_ids.push(l.id.clone());
    let (cmd, msg) = label_change(&c, &l, true);
    assert!(cmd.is_none());
    assert_eq!(msg, "Label 'bug' already assigned to card 'Fix bug'.");
    let (cmd, msg) = label_change(&c, &l, false);
    assert!(cmd.is_some());
    assert_eq!(msg, "Removed label 'bug' from card 'Fix bug'.");
}
