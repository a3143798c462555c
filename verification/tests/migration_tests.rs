use tct::migration::{migrated_lists, placements};
use tct::model::list::CardList;

fn list(id: &str, name: &str, cards: &[&str], archived: bool) -> CardList {
    let mut l = CardList::new(name.into());
    l.id = id.into();
    l.card_ids = cards.iter().map(|s| s.to_string()).collect();
    l.archived = archived;
    l
}

#[test]
fn migration_orders_lists_and_places_cards() {
    let backlog = list("backlog1", "Backlog", &["c1", "c2"], false);
    let done = list("done0001", "Done", &["c3"], false);
    let order = vec!["backlog1".to_string(), "done0001".to_string()];
    let lists = vec![done.clone(), backlog.clone()];
    let defs = migrated_lists(&order, &lists);
    assert_eq!(defs.len(), 2);
    assert_eq!(defs[0].name, "Backlog");
    assert_eq!(defs[1].name, "Done");
    let p = placements(&lists);
    assert_eq!(
        p,
        vec![
            ("c3".to_string(), "done0001".to_string(), 1),
            ("c1".to_string(), "backlog1".to_string(), 1),
            ("c2".to_string(), "backlog1".to_string(), 2),
        ]
    );
}

#[test]
fn migration_puts_unordered_then_archived_lists_last_once_each() {
    let a = list("aaaaaaaa", "A", &[], false);
    let b = list("bbbbbbbb", "B", &[], true);
    let c = list("cccccccc", "C", &[], false);
    let dup = list("cccccccc", "C again", &[], false);
    let order = vec!["bbbbbbbb".to_string(), "cccccccc".to_string(), "zzzzzzzz".to_string()];
    let defs = migrated_lists(&order, &vec![a, b, c, dup]);
    let names: Vec<&str> = defs.iter().map(|d| d.name.as_str()).collect();
    assert_eq!(names, vec!["C", "A", "B"]);
    assert!(defs[2].archived);
}
