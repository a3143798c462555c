use tct::board_editor::{BoardEditor, PendingWrite, PositionRequest};
use tct::command::{Command, MoveDir};
use tct::model::board::{BoardMeta, ListMeta};
use tct::model::card::Card;
use tct::model::label::LabelColor;
use tct::model::ids::ShortId;

/// What the files hold: the board's metadata and each card as last
/// written.
struct Disk {
    meta: BoardMeta,
    cards: Vec<Card>,
}

impl Disk {
    fn write(&mut self, ed: &BoardEditor, writes: Vec<PendingWrite>) {
        for w in writes {
            match w {
                PendingWrite::Board => self.meta = ed.board().meta.clone(),
                PendingWrite::Card(id) => {
                    if let Some(c) = ed.card_for_save(&id) {
                        match self.cards.iter_mut().find(|x| x.id == id) {
                            Some(slot) => *slot = c,
                            None => self.cards.push(c),
                        }
                    }
                }
            }
        }
    }
}

fn key_for(ed: &BoardEditor, cmd: &Command) -> u64 {
    match ed.position_request(cmd) {
        PositionRequest::Unneeded => 0,
        PositionRequest::After(None) => 1,
        PositionRequest::After(Some(m)) => m + 1,
        PositionRequest::Between(None, None) => 1000,
        PositionRequest::Between(Some(a), None) => a + 1000,
        PositionRequest::Between(None, Some(b)) => b - 1,
        PositionRequest::Between(Some(a), Some(b)) => a + (b - a) / 2,
    }
}

/// Applies a command and performs the writes it asks for.
fn apply(ed: &mut BoardEditor, disk: &mut Disk, cmd: Command) {
    let key = key_for(ed, &cmd);
    let writes = ed.apply(cmd, key).unwrap();
    disk.write(ed, writes);
}

/// Reads the board back from the files.
fn reload(ed: &mut BoardEditor, disk: &Disk) {
    ed.reload(disk.meta.clone(), disk.cards.clone());
}

fn card<'a>(ed: &'a BoardEditor, id: &str) -> &'a Card {
    ed.board().cards.iter().find(|c| c.id == id).unwrap()
}

/// A board with one list `L` and one card per title, at rising positions.
fn editor_with_cards(titles: &[&str]) -> (BoardEditor, Disk, ShortId, Vec<ShortId>) {
    let mut meta = BoardMeta::new("Test".into());
    let lid: ShortId = "listaaaa".into();
    meta.lists.push(ListMeta { id: lid.clone(), name: "L".into(), archived: false });
    let mut cards = Vec::new();
    for (i, t) in titles.iter().enumerate() {
        let mut c = Card::new((*t).into());
        c.id = format!("card{i:04}");
        c.list_id = lid.clone();
        c.position = (i as u64 + 1) * 1000;
        cards.push(c);
    }
    let ids: Vec<ShortId> = cards.iter().map(|c| c.id.clone()).collect();
    let disk = Disk { meta: meta.clone(), cards: cards.clone() };
    let (ed, _) = BoardEditor::load(meta, cards, &vec![]);
    (ed, disk, lid, ids)
}

#[test]
fn load_strips_dangling_label_refs() {
    let (_, mut disk, _, c) = editor_with_cards(&["Task"]);
    disk.cards[0].label_ids = vec!["nolabel1".into(), "nolabel2".into()];
    let (ed, changed) = BoardEditor::load(disk.meta.clone(), disk.cards.clone(), &vec![]);
    assert_eq!(ed.diagnostics.len(), 1);
    assert!(card(&ed, &c[0]).label_ids.is_empty());
    assert_eq!(changed, vec![c[0].clone()]);
    disk.write(&ed, changed.into_iter().map(PendingWrite::Card).collect());
    assert!(disk.cards[0].label_ids.is_empty());
}

#[test]
fn apply_archive_card_persists_and_logs() {
    let (mut ed, mut disk, _, c) = editor_with_cards(&["Task"]);
    apply(&mut ed, &mut disk, Command::ArchiveCard { card_id: c[0].clone() });
    let now = card(&ed, &c[0]);
    assert!(now.archived);
    assert!(now.history.iter().any(|h| h.action == "Archived"));
    let saved = &disk.cards[0];
    assert!(saved.archived);
    assert!(saved.history.iter().any(|h| h.action == "Archived"));
}

#[test]
fn apply_restore_card_clears_archive_and_logs() {
    let (mut ed, mut disk, _, c) = editor_with_cards(&["Task"]);
    apply(&mut ed, &mut disk, Command::ArchiveCard { card_id: c[0].clone() });
    apply(&mut ed, &mut disk, Command::RestoreCard { card_id: c[0].clone() });
    let now = card(&ed, &c[0]);
    assert!(!now.archived);
    let actions: Vec<&str> = now.history.iter().map(|h| h.action.as_str()).collect();
    assert!(actions.contains(&"Archived"));
    assert!(actions.contains(&"Restored from archive"));
}

#[test]
fn add_card_persists_across_reload() {
    let (mut ed, mut disk, lid, _) = editor_with_cards(&["existing"]);
    apply(&mut ed, &mut disk, Command::AddCard { list_id: lid.clone(), title: "fresh".into() });
    let new_id = ed.last_added_card_id().cloned().unwrap();
    reload(&mut ed, &disk);
    assert_eq!(card(&ed, &new_id).title, "fresh");
    assert_eq!(card(&ed, &new_id).list_id, lid);
    // Ordered after the existing card.
    assert_eq!(ed.board().lists[0].card_ids.last(), Some(&new_id));
}

#[test]
fn edit_title_and_description_persist_across_reload() {
    let (mut ed, mut disk, _, c) = editor_with_cards(&["orig"]);
    let id = c[0].clone();
    apply(&mut ed, &mut disk, Command::EditCardTitle { card_id: id.clone(), title: "renamed".into() });
    apply(&mut ed, &mut disk, Command::EditCardDescription { card_id: id.clone(), body: "body text".into() });
    reload(&mut ed, &disk);
    assert_eq!(card(&ed, &id).title, "renamed");
    assert_eq!(card(&ed, &id).description, "body text");
}

#[test]
fn archive_then_restore_card_persists_across_reload() {
    let (mut ed, mut disk, lid, c) = editor_with_cards(&["task"]);
    let id = c[0].clone();
    apply(&mut ed, &mut disk, Command::ArchiveCard { card_id: id.clone() });
    reload(&mut ed, &disk);
    assert!(card(&ed, &id).archived);
    apply(&mut ed, &mut disk, Command::RestoreCard { card_id: id.clone() });
    reload(&mut ed, &disk);
    assert!(!card(&ed, &id).archived);
    // Still a member of its original list, hence visible again.
    assert_eq!(card(&ed, &id).list_id, lid);
    assert!(ed.board().lists[0].card_ids.contains(&id));
}

#[test]
fn checklist_lifecycle_persists_across_reload() {
    let (mut ed, mut disk, _, c) = editor_with_cards(&["task"]);
    let id = c[0].clone();
    apply(&mut ed, &mut disk, Command::AddChecklistItem { card_id: id.clone(), text: "one".into() });
    apply(&mut ed, &mut disk, Command::AddChecklistItem { card_id: id.clone(), text: "two".into() });
    apply(&mut ed, &mut disk, Command::AddChecklistItem { card_id: id.clone(), text: "three".into() });
    apply(&mut ed, &mut disk, Command::ToggleChecklistItem { card_id: id.clone(), item_idx: 0 });
    apply(&mut ed, &mut disk, Command::EditChecklistItem { card_id: id.clone(), item_idx: 1, text: "TWO".into() });
    apply(&mut ed, &mut disk, Command::ReorderChecklistItem { card_id: id.clone(), from: 2, to: 0 });
    reload(&mut ed, &disk);
    let cl = &card(&ed, &id).checklist;
    let names: Vec<&str> = cl.iter().map(|i| i.text.as_str()).collect();
    assert_eq!(names, vec!["three", "one", "TWO"], "order after reorder");
    // "one" was completed; it is now at index 1 after the reorder.
    assert!(cl[1].completed);
    apply(&mut ed, &mut disk, Command::RemoveChecklistItem { card_id: id.clone(), item_idx: 0 });
    reload(&mut ed, &disk);
    let names: Vec<&str> = card(&ed, &id).checklist.iter().map(|i| i.text.as_str()).collect();
    assert_eq!(names, vec!["one", "TWO"]);
}

#[test]
fn toggle_label_assignment_persists_across_reload() {
    let (mut ed, mut disk, _, c) = editor_with_cards(&["task"]);
    let id = c[0].clone();
    apply(&mut ed, &mut disk, Command::DefineLabel { name: "urgent".into(), color: LabelColor::Red });
    let lbl = ed.board().meta.labels[0].id.clone();
    apply(&mut ed, &mut disk, Command::ToggleLabel { card_id: id.clone(), label_id: lbl.clone() });
    reload(&mut ed, &disk);
    assert_eq!(card(&ed, &id).label_ids, vec![lbl.clone()]);
    assert_eq!(card(&ed, &id).history.last().unwrap().action, "Added label 'urgent'");
    apply(&mut ed, &mut disk, Command::ToggleLabel { card_id: id.clone(), label_id: lbl.clone() });
    reload(&mut ed, &disk);
    assert!(card(&ed, &id).label_ids.is_empty());
    assert_eq!(card(&ed, &id).history.last().unwrap().action, "Removed label 'urgent'");
}

#[test]
fn label_meta_commands_persist_across_reload() {
    let (mut ed, mut disk, _, _) = editor_with_cards(&["task"]);
    apply(&mut ed, &mut disk, Command::DefineLabel { name: "a".into(), color: LabelColor::Red });
    apply(&mut ed, &mut disk, Command::DefineLabel { name: "b".into(), color: LabelColor::Green });
    let a = ed.board().meta.labels[0].id.clone();
    apply(&mut ed, &mut disk, Command::RenameLabel { label_id: a.clone(), name: "alpha".into() });
    apply(&mut ed, &mut disk, Command::SetLabelColor { label_id: a.clone(), color: LabelColor::Blue });
    apply(&mut ed, &mut disk, Command::ReorderLabels { from: 0, to: 1 });
    reload(&mut ed, &disk);
    // After reorder, "alpha" (the renamed/recolored one) is last.
    let labels = &ed.board().meta.labels;
    assert_eq!(labels.len(), 2);
    assert_eq!(labels[1].name, "alpha");
    assert_eq!(labels[1].color, LabelColor::Blue);
    assert_eq!(labels[0].name, "b");
}

#[test]
fn list_commands_persist_across_reload() {
    let (mut ed, mut disk, lid, _) = editor_with_cards(&["task"]);
    apply(&mut ed, &mut disk, Command::AddList { name: "Second".into() });
    apply(&mut ed, &mut disk, Command::RenameList { list_id: lid.clone(), name: "First".into() });
    reload(&mut ed, &disk);
    assert_eq!(ed.board().lists.len(), 2);
    assert_eq!(ed.board().lists[0].name, "First");
    assert_eq!(ed.board().lists[1].name, "Second");

    // Reorder: move "First" right (down the meta order).
    apply(&mut ed, &mut disk, Command::MoveList { list_id: lid.clone(), direction: MoveDir::Right });
    reload(&mut ed, &disk);
    assert_eq!(ed.board().lists[0].name, "Second");
    assert_eq!(ed.board().lists[1].name, "First");
}

#[test]
fn archive_then_restore_list_persists_across_reload() {
    let (mut ed, mut disk, lid, _) = editor_with_cards(&["task"]);
    apply(&mut ed, &mut disk, Command::AddList { name: "Keep".into() });
    apply(&mut ed, &mut disk, Command::ArchiveList { list_id: lid.clone() });
    reload(&mut ed, &disk);
    // Active view excludes the archived list.
    assert_eq!(ed.board().lists.len(), 1);
    assert_eq!(ed.board().lists[0].name, "Keep");

    apply(&mut ed, &mut disk, Command::RestoreList { list_id: lid.clone() });
    reload(&mut ed, &disk);
    assert_eq!(ed.board().lists.len(), 2);
    assert!(ed.board().lists.iter().any(|l| l.id == lid));
}

#[test]
fn board_commands_persist_across_reload() {
    let (mut ed, mut disk, _, _) = editor_with_cards(&["task"]);
    let bid = ed.board().meta.id.clone();
    apply(&mut ed, &mut disk, Command::RenameBoard { name: "Renamed Board".into() });
    apply(&mut ed, &mut disk, Command::SetAccentColor { color: LabelColor::Blue });
    reload(&mut ed, &disk);
    assert_eq!(ed.board().meta.name, "Renamed Board");
    assert_eq!(ed.board().meta.accent_color, LabelColor::Blue);

    apply(&mut ed, &mut disk, Command::ArchiveBoard { board_id: bid.clone() });
    reload(&mut ed, &disk);
    assert!(ed.board().meta.archived);
    apply(&mut ed, &mut disk, Command::RestoreBoard { board_id: bid.clone() });
    reload(&mut ed, &disk);
    assert!(!ed.board().meta.archived);
}

#[test]
fn move_card_between_lists_preserves_position() {
    let mut meta = BoardMeta::new("Board".into());
    meta.lists.push(ListMeta { id: "listaaaa".into(), name: "A".into(), archived: false });
    meta.lists.push(ListMeta { id: "listbbbb".into(), name: "B".into(), archived: false });
    let mut cards = Vec::new();
    for (i, (id, list)) in [("card0001", "listaaaa"), ("card0002", "listaaaa"), ("card0003", "listaaaa"), ("card0004", "listbbbb")]
        .iter()
        .enumerate()
    {
        let mut c = Card::new((*id).into());
        c.id = (*id).into();
        c.list_id = (*list).into();
        c.position = (i as u64 + 1) * 1000;
        cards.push(c);
    }
    let mut disk = Disk { meta: meta.clone(), cards: cards.clone() };
    let (mut ed, _) = BoardEditor::load(meta, cards, &vec![]);
    // Move card2 (shown slot 1) from A to B at the same slot.
    apply(&mut ed, &mut disk, Command::MoveCard { card_id: "card0002".into(), direction: MoveDir::Right });
    reload(&mut ed, &disk);
    assert_eq!(ed.board().lists[0].card_ids, vec!["card0001".to_string(), "card0003".to_string()]);
    assert_eq!(ed.board().lists[1].card_ids, vec!["card0004".to_string(), "card0002".to_string()]);
}
