use tct::board_editor::loading::{reattach_keys, reattach_keys_ok};
use tct::board_editor::placement::{fits_request, key_in_request};
use tct::board_editor::{BoardEditor, LoadedBoard, PositionRequest};
use tct::model::board::{BoardMeta, ListMeta};
use tct::model::card::Card;
use tct::model::list::CardList;

fn card_in(id: &str, list: &str, pos: u64) -> Card {
    let mut c = Card::new(id.into());
    c.id = id.into();
    c.list_id = list.into();
    c.position = pos;
    c
}

fn one_list_meta() -> BoardMeta {
    let mut meta = BoardMeta::new("B".into());
    meta.lists.push(ListMeta { id: "list0".into(), name: "L".into(), archived: false });
    meta
}

#[test]
fn fits_request_follows_each_kind() {
    assert!(fits_request(&PositionRequest::Unneeded, 0));
    assert!(fits_request(&PositionRequest::After(None), 0));
    assert!(fits_request(&PositionRequest::After(Some(5)), 6));
    assert!(!fits_request(&PositionRequest::After(Some(5)), 5));
    assert!(fits_request(&PositionRequest::Between(Some(2), Some(4)), 3));
    assert!(!fits_request(&PositionRequest::Between(Some(2), Some(4)), 4));
    assert!(!fits_request(&PositionRequest::Between(Some(2), Some(4)), 2));
    assert!(fits_request(&PositionRequest::Between(None, Some(4)), 0));
    assert!(fits_request(&PositionRequest::Between(Some(9), None), 10));
}

#[test]
fn key_in_request_picks_a_fitting_key() {
    assert_eq!(key_in_request(&PositionRequest::Unneeded), Some(0));
    assert_eq!(key_in_request(&PositionRequest::After(None)), Some(0));
    assert_eq!(key_in_request(&PositionRequest::After(Some(7))), Some(8));
    assert_eq!(key_in_request(&PositionRequest::Between(Some(10), Some(20))), Some(15));
    assert_eq!(key_in_request(&PositionRequest::Between(Some(10), None)), Some(11));
    assert_eq!(key_in_request(&PositionRequest::Between(None, Some(20))), Some(10));
    assert_eq!(key_in_request(&PositionRequest::Between(Some(10), Some(12))), Some(11));
}

#[test]
fn key_in_request_none_without_room() {
    assert_eq!(key_in_request(&PositionRequest::After(Some(u64::MAX))), None);
    assert_eq!(key_in_request(&PositionRequest::Between(Some(10), Some(11))), None);
    assert_eq!(key_in_request(&PositionRequest::Between(Some(u64::MAX), None)), None);
}

#[test]
fn reattach_keys_must_rise_past_the_tail() {
    let meta = one_list_meta();
    let cards = vec![card_in("k", "list0", 10), card_in("o1", "ghostlst", 0), card_in("o2", "ghostlst", 0)];
    assert!(reattach_keys_ok(&meta, &cards, &vec![11, 12]));
    assert!(!reattach_keys_ok(&meta, &cards, &vec![11]), "one key short");
    assert!(!reattach_keys_ok(&meta, &cards, &vec![12, 11]), "falling keys");
    assert!(!reattach_keys_ok(&meta, &cards, &vec![11, 11]), "repeated key");
    assert!(!reattach_keys_ok(&meta, &cards, &vec![10, 12]), "not past the tail");
    assert!(reattach_keys_ok(&meta, &cards[..1].to_vec(), &vec![]), "nothing to reattach");
}

#[test]
fn reattach_keys_follow_the_tail() {
    let meta = one_list_meta();
    let cards = vec![card_in("k", "list0", 10), card_in("o1", "ghostlst", 0), card_in("o2", "ghostlst", 0)];
    assert_eq!(reattach_keys(&meta, &cards), Some(vec![11, 12]));
    let empty_list = vec![card_in("o1", "ghostlst", 7)];
    assert_eq!(reattach_keys(&meta, &empty_list), Some(vec![0]));
    let full = vec![card_in("k", "list0", u64::MAX - 1), card_in("o1", "x", 0), card_in("o2", "y", 0)];
    assert_eq!(reattach_keys(&meta, &full), None);
}

#[test]
fn load_places_reattached_cards_last_in_order() {
    let meta = one_list_meta();
    let cards = vec![card_in("o1", "ghostlst", 0), card_in("k", "list0", 10), card_in("o2", "ghostlst", 0)];
    let keys = reattach_keys(&meta, &cards).unwrap();
    let (ed, changed) = BoardEditor::load(meta, cards, &keys);
    assert_eq!(changed, vec!["o1".to_string(), "o2".to_string()]);
    assert_eq!(ed.board().lists[0].card_ids, vec!["k".to_string(), "o1".to_string(), "o2".to_string()]);
}

fn archived_first_board(ordinal: usize) -> LoadedBoard {
    let mut x = card_in("xxxxxxxx", "l", 1);
    x.archived = true;
    let y = card_in("yyyyyyyy", "l", 2);
    LoadedBoard {
        meta: BoardMeta::new("X".into()),
        lists: vec![CardList {
            id: "l".into(),
            name: "L".into(),
            card_ids: vec!["xxxxxxxx".into(), "yyyyyyyy".into()],
            archived: false,
        }],
        cards: vec![x, y],
        selected_list: 0,
        selected_card: vec![ordinal],
        scroll_offset: vec![0],
        detail_item_idx: 0,
        detail_scroll: 0,
    }
}

#[test]
fn current_card_counts_only_shown_cards() {
    assert_eq!(archived_first_board(0).current_card_id(), Some(&"yyyyyyyy".to_string()));
    assert!(archived_first_board(1).current_card_id().is_none());
}
