use tct::model::board::BoardMeta;
use tct::model::card::{Card, ChecklistItem};
use tct::model::label::{Label, LabelColor};
use tct::model::list::CardList;
use tct::search::{boards_to_search, card_hits, card_matches_regex, list_selected, matching_cards, Pattern, SearchQuery};

fn re(p: &str) -> Pattern {
    Pattern::compile(p).ok().unwrap()
}

#[test]
fn search_matches_checklist_text() {
    let mut card = Card::new("Task".into());
    card.checklist.push(ChecklistItem { text: "Deploy to staging".into(), completed: false });
    let q = |s: &str| SearchQuery::Text(s.into());
    assert!(card_hits(&card, &q("deploy"), &vec![]));
    assert!(card_hits(&card, &q("DEPLOY"), &vec![]));
    assert!(!card_hits(&card, &q("production"), &vec![]));
}

#[test]
fn search_matches_label_name() {
    let label = Label::new("critical-bug".into(), LabelColor::Red);
    let mut card = Card::new("Task".into());
    card.label_ids.push(label.id.clone());
    let q = |s: &str| SearchQuery::Text(s.into());
    assert!(card_hits(&card, &q("critical"), &vec![label.clone()]));
    assert!(card_hits(&card, &q("CRITICAL-BUG"), &vec![label.clone()]));
    assert!(!card_hits(&card, &q("feature"), &vec![label]));
}

#[test]
fn search_regex_special_chars() {
    let mut card = Card::new("Fix bug #42".into());
    card.description = "Error: null pointer at line 10".into();
    assert!(card_matches_regex(&card, &re(r"#\d+"), &vec![]));
    assert!(card_matches_regex(&card, &re(r"null pointer"), &vec![]));
    assert!(!card_matches_regex(&card, &re(r"^\d+$"), &vec![]));
}

#[test]
fn search_regex_matches_checklist() {
    let mut card = Card::new("Task".into());
    card.checklist.push(ChecklistItem { text: "step 1: prepare".into(), completed: false });
    card.checklist.push(ChecklistItem { text: "step 2: execute".into(), completed: false });
    assert!(card_matches_regex(&card, &re(r"step \d+:"), &vec![]));
    assert!(!card_matches_regex(&card, &re(r"step 9:"), &vec![]));
}

#[test]
fn search_regex_invalid_errors() {
    let err = Pattern::compile("[unclosed").err().unwrap();
    assert_eq!(err, "Invalid regular expression");
}

#[test]
fn regex_case_flag_anchors_and_label_names() {
    let label = Label::new("urgent".into(), LabelColor::Orange);
    let mut card = Card::new("Fix login".into());
    assert!(card_matches_regex(&card, &re("(?i)LOGIN"), &vec![]));
    assert!(!card_matches_regex(&card, &re("LOGIN"), &vec![]));
    assert!(card_matches_regex(&card, &re("^Fix"), &vec![]));
    assert!(!card_matches_regex(&card, &re("^login"), &vec![]));
    assert!(!card_matches_regex(&card, &re("^urg"), &vec![label.clone()]));
    card.label_ids.push(label.id.clone());
    assert!(card_matches_regex(&card, &re("^urg"), &vec![label]));
}

fn board(name: &str) -> BoardMeta {
    BoardMeta::new(name.into())
}

#[test]
fn board_filter_selects_by_name_and_errors_without_match() {
    let boards = vec![board("Work"), board("Home"), board("Homework")];
    assert_eq!(boards_to_search(&boards, &vec![]).unwrap(), vec![0, 1, 2]);
    assert_eq!(boards_to_search(&boards, &vec!["WORK".into()]).unwrap(), vec![0, 2]);
    assert_eq!(boards_to_search(&boards, &vec!["home".into(), "zzz".into()]).unwrap(), vec![1, 2]);
    assert_eq!(
        boards_to_search(&boards, &vec!["garden".into()]).unwrap_err(),
        "No boards match the --board filter."
    );
    assert_eq!(boards_to_search(&vec![], &vec![]).unwrap(), Vec::<usize>::new());
}

#[test]
fn list_filter_and_archived_cards() {
    let mut a = Card::new("Fix login".into());
    a.id = "aaaaaaaa".into();
    let mut b = Card::new("Login page".into());
    b.id = "bbbbbbbb".into();
    b.archived = true;
    let mut c = Card::new("Redesign".into());
    c.id = "cccccccc".into();
    let cards = vec![a, b, c];
    let list = CardList {
        id: "l1".into(),
        name: "In Progress".into(),
        card_ids: vec!["bbbbbbbb".into(), "missing0".into(), "aaaaaaaa".into(), "cccccccc".into()],
        archived: false,
    };
    assert!(list_selected(&list, None));
    assert!(list_selected(&list, Some("progress")));
    assert!(!list_selected(&list, Some("done")));
    let q = SearchQuery::Text("login".into());
    assert_eq!(matching_cards(&list, &cards, &q, &vec![], false), vec![0]);
    assert_eq!(matching_cards(&list, &cards, &q, &vec![], true), vec![1, 0]);
    let q = SearchQuery::Regex(re("^Re"));
    assert_eq!(matching_cards(&list, &cards, &q, &vec![], false), vec![2]);
}
