use tct::insert::markdown::TextState;

fn doc(initial: &str, row: usize, col: usize) -> TextState {
    TextState { lines: initial.split('\n').map(String::from).collect(), row, col }
}

fn doc_end(initial: &str, row: usize) -> TextState {
    let col = initial.split('\n').nth(row).unwrap().chars().count();
    doc(initial, row, col)
}

fn doc_lines(t: &TextState) -> Vec<String> {
    t.lines.clone()
}

fn texts(items: &[&str]) -> Vec<String> {
    items.iter().map(|s| s.to_string()).collect()
}

#[test]
fn enter_at_col0_of_first_list_line_inserts_blank_line_above() {
    let mut e = doc("- first\n- second", 0, 0);
    assert_eq!((e.row, e.col), (0, 0));
    e.handle_enter_in_list();
    assert_eq!(doc_lines(&e), texts(&["", "- first", "- second"]));
    assert_eq!((e.row, e.col), (0, 0));
}

#[test]
fn enter_at_col0_of_inner_list_line_still_continues_list() {
    let mut e = doc("intro\n- first\n- second", 1, 0);
    assert_eq!((e.row, e.col), (1, 0));
    e.handle_enter_in_list();
    assert_eq!(doc_lines(&e), texts(&["intro", "- first", "- ", "- second"]));
}

#[test]
fn enter_at_end_of_list_item_continues_list() {
    let mut e = doc_end("- first", 0);
    e.handle_enter_in_list();
    assert_eq!(doc_lines(&e), texts(&["- first", "- "]));
}

#[test]
fn enter_at_end_of_numbered_item_continues_with_next_number() {
    let mut e = doc_end("1. first", 0);
    e.handle_enter_in_list();
    assert_eq!(doc_lines(&e), texts(&["1. first", "2. "]));
}

#[test]
fn enter_in_numbered_list_renumbers_following_items() {
    let mut e = doc_end("1. a\n2. b\n3. c", 0);
    e.handle_enter_in_list();
    assert_eq!(doc_lines(&e), texts(&["1. a", "2. ", "3. b", "4. c"]));
    assert_eq!((e.row, e.col), (1, 3));
}

#[test]
fn enter_at_last_numbered_item_does_not_renumber() {
    let mut e = doc_end("1. a\n2. b", 1);
    e.handle_enter_in_list();
    assert_eq!(doc_lines(&e), texts(&["1. a", "2. b", "3. "]));
}

#[test]
fn enter_in_parent_numbered_list_skips_nested_children() {
    let mut e = doc_end("1. parent\n   1. child\n   2. child\n2. parent2", 0);
    e.handle_enter_in_list();
    assert_eq!(doc_lines(&e), texts(&["1. parent", "2. ", "   1. child", "   2. child", "3. parent2"]));
}

#[test]
fn enter_in_nested_numbered_list_does_not_renumber_parents() {
    let mut e = doc_end("1. parent\n   1. child\n   2. child2\n2. parent2", 1);
    e.handle_enter_in_list();
    assert_eq!(doc_lines(&e), texts(&["1. parent", "   1. child", "   2. ", "   3. child2", "2. parent2"]));
}

#[test]
fn enter_renumbers_non_canonical_numbered_list_fully() {
    let mut e = doc_end("1. a\n5. b\n7. c", 0);
    e.handle_enter_in_list();
    assert_eq!(doc_lines(&e), texts(&["1. a", "2. ", "3. b", "4. c"]));
    assert_eq!((e.row, e.col), (1, 3));
}

#[test]
fn enter_preserves_lists_starting_at_nonzero_number() {
    let mut e = doc_end("3. a\n4. b\n4. c", 0);
    e.handle_enter_in_list();
    assert_eq!(doc_lines(&e), texts(&["3. a", "4. ", "5. b", "6. c"]));
}

#[test]
fn enter_in_middle_of_list_renumbers_items_above_and_below() {
    let mut e = doc_end("1. a\n1. b\n1. c\n1. d", 1);
    e.handle_enter_in_list();
    assert_eq!(doc_lines(&e), texts(&["1. a", "2. b", "3. ", "4. c", "5. d"]));
}

#[test]
fn enter_below_paragraph_renumbers_only_the_list_run() {
    let mut e = doc_end("intro text\n1. foo\n2. bar", 1);
    e.handle_enter_in_list();
    assert_eq!(doc_lines(&e), texts(&["intro text", "1. foo", "2. ", "3. bar"]));
}

#[test]
fn enter_does_not_touch_earlier_unrelated_numbered_list() {
    let mut e = doc_end("1. orphan\nunrelated\n1. foo\n2. bar", 2);
    e.handle_enter_in_list();
    assert_eq!(doc_lines(&e), texts(&["1. orphan", "unrelated", "1. foo", "2. ", "3. bar"]));
}

#[test]
fn tab_nests_numbered_list_item_and_resets_to_one() {
    let mut e = doc_end("1. parent\n2. child", 1);
    assert!(e.handle_tab_nest());
    assert_eq!(doc_lines(&e), texts(&["1. parent", "   1. child"]));
}

#[test]
fn tab_nests_into_existing_nested_run() {
    let mut e = doc_end("1. parent\n   1. existing-nested\n2. orphan", 2);
    assert!(e.handle_tab_nest());
    assert_eq!(doc_lines(&e), texts(&["1. parent", "   1. existing-nested", "   2. orphan"]));
}

#[test]
fn tab_nests_unordered_list_item() {
    let mut e = doc_end("- a\n- b", 1);
    assert!(e.handle_tab_nest());
    assert_eq!(doc_lines(&e), texts(&["- a", "   - b"]));
}

#[test]
fn shift_tab_unnests_nested_item_and_joins_parent_list() {
    let mut e = doc_end("1. parent\n   1. child", 1);
    e.handle_shift_tab_unnest();
    assert_eq!(doc_lines(&e), texts(&["1. parent", "2. child"]));
}

#[test]
fn shift_tab_on_top_level_list_item_is_noop() {
    let mut e = doc_end("1. a\n2. b", 1);
    e.handle_shift_tab_unnest();
    assert_eq!(doc_lines(&e), texts(&["1. a", "2. b"]));
}
