use tct::board_directory::{active_boards, archived_boards, ordered_boards, sort_by_name};
use tct::model::board::BoardMeta;

fn create_board(name: &str) -> BoardMeta {
    BoardMeta::new(name.into())
}

fn names(v: &[BoardMeta]) -> Vec<&str> {
    v.iter().map(|b| b.name.as_str()).collect()
}

#[test]
fn list_boards_excludes_archived() {
    let a = create_board("Active");
    let mut b = create_board("Archived");
    b.archived = true;
    let all = vec![a, b];
    let active = active_boards(all.clone(), &vec![]);
    assert!(active.iter().any(|x| x.name == "Active"));
    assert!(!active.iter().any(|x| x.name == "Archived"));
    let archived = archived_boards(all);
    assert_eq!(archived.len(), 1);
    assert_eq!(archived[0].name, "Archived");
}

#[test]
fn list_boards_respects_order() {
    let b1 = create_board("Alpha");
    let b2 = create_board("Beta");
    let b3 = create_board("Gamma");
    let order = vec![b3.id.clone(), b1.id.clone(), b2.id.clone()];
    let listed = active_boards(vec![b1, b2, b3], &order);
    assert_eq!(listed[0].name, "Gamma");
    assert_eq!(listed[1].name, "Alpha");
    assert_eq!(listed[2].name, "Beta");
}

#[test]
fn unordered_boards_alphabetical_fallback() {
    let listed = active_boards(vec![create_board("Charlie"), create_board("Alpha"), create_board("Bravo")], &vec![]);
    assert_eq!(listed[0].name, "Alpha");
    assert_eq!(listed[1].name, "Bravo");
    assert_eq!(listed[2].name, "Charlie");
}

#[test]
fn ordered_then_sorted_rest_and_unknown_ids_ignored() {
    let d = create_board("Delta");
    let a = create_board("alpha");
    let c = create_board("Charlie");
    let z = create_board("Zulu");
    let order = vec!["missing1".to_string(), z.id.clone(), z.id.clone(), d.id.clone()];
    let listed = ordered_boards(vec![d, a, c, z], &order);
    assert_eq!(names(&listed), vec!["Zulu", "Delta", "Charlie", "alpha"]);
}

#[test]
fn sort_by_name_is_stable_and_by_code_point() {
    let mut x1 = create_board("Same");
    x1.id = "first000".into();
    let mut x2 = create_board("Same");
    x2.id = "second00".into();
    let sorted = sort_by_name(vec![create_board("b"), x1, create_board("B"), x2, create_board("Ä")]);
    assert_eq!(names(&sorted), vec!["B", "Same", "Same", "b", "Ä"]);
    assert_eq!(sorted[1].id, "first000");
    assert_eq!(sorted[2].id, "second00");
}
