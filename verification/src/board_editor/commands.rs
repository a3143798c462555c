//! Applying commands to the loaded board.

use vstd::prelude::*;

use super::{
    InvariantKind, PendingWrite,
    clamped, current_card_id_of, find_card, index_of, lemma_index_of, lemma_visible_frame, lists_in_order,
    names_list, no_orphans, ordinal_ok, ids_unique, same_order_fields, selection_ok, visible_of,
    well_formed, BoardEditor, BoardEditorError, EntityKind, LoadedBoard,
};
use crate::command::{Command, MoveDir};
use crate::model::card::{date_text, format_date, is_logged, is_touched, Card, ChecklistItem};
use crate::model::board::{BoardMeta, ListMeta};
use crate::model::ids::{ShortId, Timestamp};
use crate::model::label::Label;
use crate::model::list::{card_before, is_member, is_sorted_members, ordered_card_ids, ordered_ids_of, CardList};
use crate::text::{concat3, owned};

verus! {

/// Two card sequences agree on everything that decides list order.
pub open spec fn same_order(a: Seq<Card>, b: Seq<Card>) -> bool {
    &&& a.len() == b.len()
    &&& forall|k: int| 0 <= k < a.len() ==> same_order_fields(#[trigger] a[k], b[k])
}

/// List order, uniqueness of ids and card lookup depend only on the order
/// fields of the cards.
pub proof fn lemma_same_order(a: Seq<Card>, b: Seq<Card>)
    requires
        same_order(a, b),
    ensures
        forall|l: Seq<char>, ids: Seq<crate::model::ids::ShortId>| #[trigger] ordered_ids_of(a, l, ids) == ordered_ids_of(b, l, ids),
        ids_unique(a) == ids_unique(b),
        forall|id: Seq<char>| #[trigger] index_of(a, id) == index_of(b, id),
{
    assert forall|l: Seq<char>, ids: Seq<crate::model::ids::ShortId>| #[trigger] ordered_ids_of(a, l, ids) == ordered_ids_of(b, l, ids) by {
        assert forall|k: int| #[trigger] is_member(a, l, k) == is_member(b, l, k) by {
            if 0 <= k < a.len() {
                assert(same_order_fields(a[k], b[k]));
            }
        }
        if ordered_ids_of(a, l, ids) {
            let p = choose|p: Seq<int>| is_sorted_members(a, l, p) && ids.len() == p.len() && forall|x: int| 0 <= x < p.len() ==> #[trigger] ids[x]@ == a[p[x]].id@;
            lemma_sorted_transfer(a, b, l, p);
            assert(is_sorted_members(b, l, p) && ids.len() == p.len() && forall|x: int| 0 <= x < p.len() ==> #[trigger] ids[x]@ == b[p[x]].id@);
        }
        if ordered_ids_of(b, l, ids) {
            let p = choose|p: Seq<int>| is_sorted_members(b, l, p) && ids.len() == p.len() && forall|x: int| 0 <= x < p.len() ==> #[trigger] ids[x]@ == b[p[x]].id@;
            lemma_sorted_transfer(a, b, l, p);
            assert(is_sorted_members(a, l, p) && ids.len() == p.len() && forall|x: int| 0 <= x < p.len() ==> #[trigger] ids[x]@ == a[p[x]].id@);
        }
    }
    assert forall|id: Seq<char>| #[trigger] index_of(a, id) == index_of(b, id) by {
        lemma_index_of_same(a, b, id);
    }
    assert forall|i: int, j: int| 0 <= i < j < a.len() implies (a[i].id@ == a[j].id@) == (b[i].id@ == b[j].id@) by {
        assert(same_order_fields(a[i], b[i]));
        assert(same_order_fields(a[j], b[j]));
    }
}

proof fn lemma_sorted_transfer(a: Seq<Card>, b: Seq<Card>, l: Seq<char>, p: Seq<int>)
    requires
        same_order(a, b),
    ensures
        is_sorted_members(a, l, p) == is_sorted_members(b, l, p),
{
    assert forall|k: int| #[trigger] is_member(a, l, k) == is_member(b, l, k) by {
        if 0 <= k < a.len() {
            assert(same_order_fields(a[k], b[k]));
        }
    }
    assert forall|x: int, y: int| 0 <= x < a.len() && 0 <= y < a.len() implies #[trigger] card_before(a[x], a[y]) == card_before(b[x], b[y]) by {
        assert(same_order_fields(a[x], b[x]));
        assert(same_order_fields(a[y], b[y]));
    }
}

proof fn lemma_index_of_same(a: Seq<Card>, b: Seq<Card>, id: Seq<char>)
    requires
        same_order(a, b),
    ensures
        index_of(a, id) == index_of(b, id),
    decreases a.len(),
{
    if a.len() > 0 {
        assert(same_order(a.drop_last(), b.drop_last())) by {
            assert forall|k: int| 0 <= k < a.len() - 1 implies same_order_fields(#[trigger] a.drop_last()[k], b.drop_last()[k]) by {
                assert(same_order_fields(a[k], b[k]));
            }
        }
        lemma_index_of_same(a.drop_last(), b.drop_last(), id);
        assert(same_order_fields(a.last(), b.last()));
    }
}

/// After clamping, a board whose selection slots fit its lists has a
/// valid selection.
pub proof fn lemma_clamp_ok(b: LoadedBoard, c: LoadedBoard)
    requires
        b.selected_card@.len() == b.lists@.len(),
        b.scroll_offset@.len() == b.lists@.len(),
        b.lists@.len() > 0 ==> b.selected_list < b.lists@.len(),
        c == (LoadedBoard { selected_card: c.selected_card, ..b }),
        c.selected_card@.len() == b.selected_card@.len(),
        forall|i: int| 0 <= i < b.lists@.len() ==> c.selected_card@[i] == #[trigger] clamped(b, i),
    ensures
        selection_ok(c),
{
    assert forall|i: int| 0 <= i < c.lists@.len() implies #[trigger] ordinal_ok(c, i) by {
        lemma_visible_frame(b, c, i);
        assert(c.selected_card@[i] == clamped(b, i));
    }
}

/// The command edits one card's own fields (not its list or position).
pub open spec fn is_card_edit(cmd: Command) -> bool {
    match cmd {
        Command::ArchiveCard { .. } | Command::EditCardTitle { .. } | Command::EditCardDescription { .. }
        | Command::SetDueDate { .. } | Command::ClearDueDate { .. } | Command::AddChecklistItem { .. }
        | Command::EditChecklistItem { .. } | Command::ToggleChecklistItem { .. }
        | Command::RemoveChecklistItem { .. } | Command::ReorderChecklistItem { .. }
        | Command::ToggleLabel { .. } => true,
        _ => false,
    }
}

/// The card a card-editing command names.
pub open spec fn edited_card_id(cmd: Command) -> Seq<char> {
    match cmd {
        Command::ArchiveCard { card_id } => card_id@,
        Command::EditCardTitle { card_id, .. } => card_id@,
        Command::EditCardDescription { card_id, .. } => card_id@,
        Command::SetDueDate { card_id, .. } => card_id@,
        Command::ClearDueDate { card_id } => card_id@,
        Command::AddChecklistItem { card_id, .. } => card_id@,
        Command::EditChecklistItem { card_id, .. } => card_id@,
        Command::ToggleChecklistItem { card_id, .. } => card_id@,
        Command::RemoveChecklistItem { card_id, .. } => card_id@,
        Command::ReorderChecklistItem { card_id, .. } => card_id@,
        Command::ToggleLabel { card_id, .. } => card_id@,
        _ => seq![],
    }
}

/// Index of the first board label with id `id`, or -1.
pub open spec fn label_index(labels: Seq<crate::model::label::Label>, id: Seq<char>) -> int
    decreases labels.len(),
{
    if labels.len() == 0 {
        -1
    } else {
        let r = label_index(labels.drop_last(), id);
        if r >= 0 {
            r
        } else if labels.last().id@ == id {
            labels.len() - 1
        } else {
            -1
        }
    }
}

/// Index of the first id in `ids` equal to `id`, or -1.
pub open spec fn id_index(ids: Seq<ShortId>, id: Seq<char>) -> int
    decreases ids.len(),
{
    if ids.len() == 0 {
        -1
    } else {
        let r = id_index(ids.drop_last(), id);
        if r >= 0 {
            r
        } else if ids.last()@ == id {
            ids.len() - 1
        } else {
            -1
        }
    }
}

/// The checklist index a card-editing command uses is out of range.
pub open spec fn bad_item_index(c: Card, cmd: Command) -> bool {
    let len = c.checklist@.len();
    match cmd {
        Command::EditChecklistItem { item_idx, .. } => item_idx >= len,
        Command::ToggleChecklistItem { item_idx, .. } => item_idx >= len,
        Command::RemoveChecklistItem { item_idx, .. } => item_idx >= len,
        Command::ReorderChecklistItem { from, to, .. } => from >= len || to >= len,
        _ => false,
    }
}

/// The label `ToggleLabel` names is not defined on the board.
pub open spec fn missing_label(b: LoadedBoard, cmd: Command) -> bool {
    match cmd {
        Command::ToggleLabel { label_id, .. } => label_index(b.meta.labels@, label_id@) < 0,
        _ => false,
    }
}

/// A card-editing command is rejected on `b`.
pub open spec fn card_edit_fails(b: LoadedBoard, cmd: Command) -> bool {
    let k = index_of(b.cards@, edited_card_id(cmd));
    ||| missing_label(b, cmd)
    ||| k < 0
    ||| bad_item_index(b.cards@[k], cmd)
}

/// `e` is the error a rejected card-editing command reports: a missing
/// label first, then a missing card, then a checklist index out of range.
pub open spec fn card_edit_error(b: LoadedBoard, cmd: Command, e: BoardEditorError) -> bool {
    if missing_label(b, cmd) {
        e matches BoardEditorError::NotFound { kind: EntityKind::Label, id } && (cmd matches Command::ToggleLabel { label_id, .. } && id@ == label_id@)
    } else if index_of(b.cards@, edited_card_id(cmd)) < 0 {
        e matches BoardEditorError::NotFound { kind: EntityKind::Card, id } && id@ == edited_card_id(cmd)
    } else {
        e == BoardEditorError::Invariant(InvariantKind::ChecklistIndex)
    }
}

/// The checklist item text in single quotes after `prefix`.
pub open spec fn quoted(prefix: Seq<char>, text: Seq<char>) -> Seq<char> {
    prefix + "'"@ + text + "'"@
}

/// The card `c2` is what the card-editing command makes of `c` at `now`.
pub open spec fn card_edited(b: LoadedBoard, cmd: Command, c: Card, c2: Card, now: Timestamp) -> bool {
    match cmd {
        Command::ArchiveCard { .. } => is_logged(Card { archived: true, ..c }, c2, "Archived"@, now),
        Command::EditCardTitle { title, .. } => if c.title@ != title@ {
            is_logged(Card { title, ..c }, c2, "Edited title"@, now)
        } else {
            is_touched(Card { title, ..c }, c2, now)
        },
        Command::EditCardDescription { body, .. } => if c.description@ != body@ {
            is_logged(Card { description: body, ..c }, c2, "Edited description"@, now)
        } else {
            is_touched(Card { description: body, ..c }, c2, now)
        },
        Command::SetDueDate { date, .. } => if c.due_date != Some(date) {
            is_logged(Card { due_date: Some(date), ..c }, c2, "Set due date to "@ + date_text(date), now)
        } else {
            is_touched(c, c2, now)
        },
        Command::ClearDueDate { .. } => if c.due_date is Some {
            is_logged(Card { due_date: None, ..c }, c2, "Cleared due date"@, now)
        } else {
            is_touched(c, c2, now)
        },
        Command::AddChecklistItem { text, .. } => {
            &&& c2.checklist@ == c.checklist@.push(ChecklistItem { text, completed: false })
            &&& is_logged(Card { checklist: c2.checklist, ..c }, c2, quoted("Added checklist item "@, text@), now)
        },
        Command::EditChecklistItem { item_idx, text, .. } => {
            let old_item = c.checklist@[item_idx as int];
            &&& c2.checklist@ == c.checklist@.update(item_idx as int, ChecklistItem { text, ..old_item })
            &&& if old_item.text@ != text@ {
                is_logged(
                    Card { checklist: c2.checklist, ..c },
                    c2,
                    quoted("Renamed checklist item "@, old_item.text@) + " → "@ + quoted(""@, text@),
                    now,
                )
            } else {
                is_touched(Card { checklist: c2.checklist, ..c }, c2, now)
            }
        },
        Command::ToggleChecklistItem { item_idx, .. } => {
            let old_item = c.checklist@[item_idx as int];
            &&& c2.checklist@ == c.checklist@.update(item_idx as int, ChecklistItem { completed: !old_item.completed, ..old_item })
            &&& is_logged(
                Card { checklist: c2.checklist, ..c },
                c2,
                if !old_item.completed {
                    quoted("Completed checklist item "@, old_item.text@)
                } else {
                    quoted("Uncompleted checklist item "@, old_item.text@)
                },
                now,
            )
        },
        Command::RemoveChecklistItem { item_idx, .. } => {
            &&& c2.checklist@ == c.checklist@.remove(item_idx as int)
            &&& is_logged(
                Card { checklist: c2.checklist, ..c },
                c2,
                quoted("Removed checklist item "@, c.checklist@[item_idx as int].text@),
                now,
            )
        },
        Command::ReorderChecklistItem { from, to, .. } => if from != to {
            &&& c2.checklist@ == c.checklist@.remove(from as int).insert(to as int, c.checklist@[from as int])
            &&& is_logged(
                Card { checklist: c2.checklist, ..c },
                c2,
                quoted("Reordered checklist item "@, c.checklist@[from as int].text@),
                now,
            )
        } else {
            is_touched(c, c2, now)
        },
        Command::ToggleLabel { label_id, .. } => {
            let name = b.meta.labels@[label_index(b.meta.labels@, label_id@)].name@;
            let pos = id_index(c.label_ids@, label_id@);
            if pos >= 0 {
                &&& c2.label_ids@ == c.label_ids@.remove(pos)
                &&& is_logged(Card { label_ids: c2.label_ids, ..c }, c2, quoted("Removed label "@, name), now)
            } else {
                &&& c2.label_ids@ == c.label_ids@.push(label_id)
                &&& is_logged(Card { label_ids: c2.label_ids, ..c }, c2, quoted("Added label "@, name), now)
            }
        },
        _ => false,
    }
}

/// `b2` and `w` are what a successful card-editing command makes of `b`
/// at `now`: the named card edited, the detail cursor placed, the card's
/// file to be written.
pub open spec fn card_edit_done(b: LoadedBoard, cmd: Command, now: Timestamp, b2: LoadedBoard, w: Seq<PendingWrite>) -> bool {
    let k = index_of(b.cards@, edited_card_id(cmd));
    let c2 = b2.cards@[k];
    &&& 0 <= k < b.cards@.len()
    &&& b2.cards@ == b.cards@.update(k, c2)
    &&& card_edited(b, cmd, b.cards@[k], c2, now)
    &&& b2 == (LoadedBoard { cards: b2.cards, detail_item_idx: detail_after_edit(b, cmd, c2), ..b })
    &&& w.len() == 1
    &&& w[0] matches PendingWrite::Card(id) && id@ == edited_card_id(cmd)
}

/// Where the card-detail cursor goes after a card edit.
pub open spec fn detail_after_edit(b: LoadedBoard, cmd: Command, c2: Card) -> usize {
    match cmd {
        Command::AddChecklistItem { .. } => (c2.checklist@.len() - 1) as usize,
        Command::RemoveChecklistItem { .. } => {
            let len = c2.checklist@.len();
            if b.detail_item_idx >= len && len > 0 {
                (len - 1) as usize
            } else {
                b.detail_item_idx
            }
        },
        Command::ReorderChecklistItem { to, .. } => to,
        _ => b.detail_item_idx,
    }
}

/// Index of the first label with id `id`.
pub fn find_label(labels: &Vec<crate::model::label::Label>, id: &ShortId) -> (r: Option<usize>)
    ensures
        match r {
            Some(i) => label_index(labels@, id@) == i && i < labels@.len(),
            None => label_index(labels@, id@) < 0,
        },
{
    proof {
        lemma_label_index(labels@, id@);
    }
    let mut i: usize = 0;
    while i < labels.len()
        invariant
            i <= labels@.len(),
            forall|k: int| 0 <= k < i ==> labels@[k].id@ != id@,
        decreases labels.len() - i,
    {
        if labels[i].id == *id {
            proof {
                lemma_label_index_at(labels@, id@, i as int);
            }
            return Some(i);
        }
        i += 1;
    }
    None
}

proof fn lemma_label_index(labels: Seq<crate::model::label::Label>, id: Seq<char>)
    ensures
        -1 <= label_index(labels, id) < labels.len(),
        label_index(labels, id) >= 0 ==> labels[label_index(labels, id)].id@ == id,
        label_index(labels, id) >= 0 ==> forall|k: int| 0 <= k < label_index(labels, id) ==> labels[k].id@ != id,
        label_index(labels, id) < 0 ==> forall|k: int| 0 <= k < labels.len() ==> labels[k].id@ != id,
    decreases labels.len(),
{
    if labels.len() > 0 {
        let d = labels.drop_last();
        lemma_label_index(d, id);
        assert forall|k: int| 0 <= k < d.len() implies d[k] == labels[k] by {}
    }
}

proof fn lemma_label_index_at(labels: Seq<crate::model::label::Label>, id: Seq<char>, i: int)
    requires
        0 <= i < labels.len(),
        labels[i].id@ == id,
        forall|k: int| 0 <= k < i ==> labels[k].id@ != id,
    ensures
        label_index(labels, id) == i,
{
    lemma_label_index(labels, id);
}

/// Index of the first id equal to `id`.
pub fn find_id(ids: &Vec<ShortId>, id: &ShortId) -> (r: Option<usize>)
    ensures
        match r {
            Some(i) => id_index(ids@, id@) == i && i < ids@.len(),
            None => id_index(ids@, id@) < 0,
        },
{
    proof {
        lemma_id_index(ids@, id@);
    }
    let mut i: usize = 0;
    while i < ids.len()
        invariant
            i <= ids@.len(),
            forall|k: int| 0 <= k < i ==> ids@[k]@ != id@,
        decreases ids.len() - i,
    {
        if ids[i] == *id {
            proof {
                lemma_id_index_at(ids@, id@, i as int);
            }
            return Some(i);
        }
        i += 1;
    }
    None
}

pub proof fn lemma_id_index(ids: Seq<ShortId>, id: Seq<char>)
    ensures
        -1 <= id_index(ids, id) < ids.len(),
        id_index(ids, id) >= 0 ==> ids[id_index(ids, id)]@ == id,
        id_index(ids, id) >= 0 ==> forall|k: int| 0 <= k < id_index(ids, id) ==> ids[k]@ != id,
        id_index(ids, id) < 0 ==> forall|k: int| 0 <= k < ids.len() ==> ids[k]@ != id,
    decreases ids.len(),
{
    if ids.len() > 0 {
        let d = ids.drop_last();
        lemma_id_index(d, id);
        assert forall|k: int| 0 <= k < d.len() implies d[k] == ids[k] by {}
    }
}

proof fn lemma_id_index_at(ids: Seq<ShortId>, id: Seq<char>, i: int)
    requires
        0 <= i < ids.len(),
        ids[i]@ == id,
        forall|k: int| 0 <= k < i ==> ids[k]@ != id,
    ensures
        id_index(ids, id) == i,
{
    lemma_id_index(ids, id);
}

fn quote_text(prefix: &str, text: &str) -> (s: String)
    ensures
        s@ == quoted(prefix@, text@),
{
    let mut s = concat3(prefix, "'", text);
    crate::text::push_str(&mut s, "'");
    s
}

impl BoardEditor {
    /// Apply a command that edits one card's own fields.
    pub(crate) fn apply_card_edit(&mut self, cmd: &Command, now: Timestamp) -> (r: Result<Vec<PendingWrite>, BoardEditorError>)
        requires
            is_card_edit(*cmd),
            old(self).board.selected_card@.len() == old(self).board.lists@.len(),
            old(self).board.scroll_offset@.len() == old(self).board.lists@.len(),
        ensures
            final(self).board.selected_card@.len() == final(self).board.lists@.len(),
            final(self).board.scroll_offset@.len() == final(self).board.lists@.len(),
            final(self).last_added_card_id == old(self).last_added_card_id,
            final(self).diagnostics == old(self).diagnostics,
            match r {
                Ok(w) => !card_edit_fails(old(self).board, *cmd)
                    && card_edit_done(old(self).board, *cmd, now, final(self).board, w@),
                Err(e) => {
                    &&& card_edit_fails(old(self).board, *cmd)
                    &&& card_edit_error(old(self).board, *cmd, e)
                    &&& final(self).board == old(self).board
                },
            },
    {
        let card_id: &ShortId = match cmd {
            Command::ArchiveCard { card_id } => card_id,
            Command::EditCardTitle { card_id, .. } => card_id,
            Command::EditCardDescription { card_id, .. } => card_id,
            Command::SetDueDate { card_id, .. } => card_id,
            Command::ClearDueDate { card_id } => card_id,
            Command::AddChecklistItem { card_id, .. } => card_id,
            Command::EditChecklistItem { card_id, .. } => card_id,
            Command::ToggleChecklistItem { card_id, .. } => card_id,
            Command::RemoveChecklistItem { card_id, .. } => card_id,
            Command::ReorderChecklistItem { card_id, .. } => card_id,
            Command::ToggleLabel { card_id, .. } => card_id,
            _ => { return Err(BoardEditorError::Invariant(InvariantKind::MoveListDirection)); },
        };
        let mut label_name = String::new();
        if let Command::ToggleLabel { label_id, .. } = cmd {
            match find_label(&self.board.meta.labels, label_id) {
                Some(li) => {
                    label_name = self.board.meta.labels[li].name.clone();
                },
                None => {
                    return Err(BoardEditorError::NotFound { kind: EntityKind::Label, id: label_id.clone() });
                },
            }
        }
        let k = match find_card(&self.board.cards, card_id.as_str()) {
            Some(k) => k,
            None => {
                return Err(BoardEditorError::NotFound { kind: EntityKind::Card, id: card_id.clone() });
            },
        };
        let mut c = self.board.cards[k].duplicate();
        let ghost c0 = self.board.cards@[k as int];
        let mut detail = self.board.detail_item_idx;
        match cmd {
            Command::ArchiveCard { .. } => {
                c.archived = true;
                c.log_at(owned("Archived"), now);
            },
            Command::EditCardTitle { title, .. } => {
                let changed = c.title != *title;
                c.title = title.clone();
                if changed {
                    c.log_at(owned("Edited title"), now);
                } else {
                    c.touch_at(now);
                }
            },
            Command::EditCardDescription { body, .. } => {
                let changed = c.description != *body;
                c.description = body.clone();
                if changed {
                    c.log_at(owned("Edited description"), now);
                } else {
                    c.touch_at(now);
                }
            },
            Command::SetDueDate { date, .. } => {
                let unchanged = match c.due_date {
                    Some(d) => d == *date,
                    None => false,
                };
                c.due_date = Some(*date);
                if !unchanged {
                    let mut action = owned("Set due date to ");
                    let dt = format_date(*date);
                    crate::text::push_str(&mut action, dt.as_str());
                    c.log_at(action, now);
                } else {
                    c.touch_at(now);
                }
            },
            Command::ClearDueDate { .. } => {
                let was_set = c.due_date.is_some();
                c.due_date = None;
                if was_set {
                    c.log_at(owned("Cleared due date"), now);
                } else {
                    c.touch_at(now);
                }
            },
            Command::AddChecklistItem { text, .. } => {
                let action = quote_text("Added checklist item ", text.as_str());
                c.checklist.push(ChecklistItem { text: text.clone(), completed: false });
                c.log_at(action, now);
                detail = c.checklist.len() - 1;
            },
            Command::EditChecklistItem { item_idx, text, .. } => {
                if *item_idx >= c.checklist.len() {
                    return Err(BoardEditorError::Invariant(InvariantKind::ChecklistIndex));
                }
                let old_text = c.checklist[*item_idx].text.clone();
                let completed = c.checklist[*item_idx].completed;
                let changed = old_text != *text;
                c.checklist.set(*item_idx, ChecklistItem { text: text.clone(), completed });
                if changed {
                    let mut action = quote_text("Renamed checklist item ", old_text.as_str());
                    crate::text::push_str(&mut action, " → ");
                    let tail = quote_text("", text.as_str());
                    crate::text::push_str(&mut action, tail.as_str());
                    c.log_at(action, now);
                } else {
                    c.touch_at(now);
                }
            },
            Command::ToggleChecklistItem { item_idx, .. } => {
                if *item_idx >= c.checklist.len() {
                    return Err(BoardEditorError::Invariant(InvariantKind::ChecklistIndex));
                }
                let item_text = c.checklist[*item_idx].text.clone();
                let done = !c.checklist[*item_idx].completed;
                c.checklist.set(*item_idx, ChecklistItem { text: item_text.clone(), completed: done });
                let action = if done {
                    quote_text("Completed checklist item ", item_text.as_str())
                } else {
                    quote_text("Uncompleted checklist item ", item_text.as_str())
                };
                c.log_at(action, now);
            },
            Command::RemoveChecklistItem { item_idx, .. } => {
                if *item_idx >= c.checklist.len() {
                    return Err(BoardEditorError::Invariant(InvariantKind::ChecklistIndex));
                }
                let removed = c.checklist.remove(*item_idx);
                c.log_at(quote_text("Removed checklist item ", removed.text.as_str()), now);
                let len = c.checklist.len();
                if detail >= len && len > 0 {
                    detail = len - 1;
                }
            },
            Command::ReorderChecklistItem { from, to, .. } => {
                let len = c.checklist.len();
                if *from >= len || *to >= len {
                    return Err(BoardEditorError::Invariant(InvariantKind::ChecklistIndex));
                }
                if *from != *to {
                    let item = c.checklist.remove(*from);
                    let name = item.text.clone();
                    c.checklist.insert(*to, item);
                    c.log_at(quote_text("Reordered checklist item ", name.as_str()), now);
                } else {
                    c.touch_at(now);
                }
                detail = *to;
            },
            Command::ToggleLabel { label_id, .. } => {
                match find_id(&c.label_ids, label_id) {
                    Some(pos) => {
                        c.label_ids.remove(pos);
                        c.log_at(quote_text("Removed label ", label_name.as_str()), now);
                    },
                    None => {
                        c.label_ids.push(label_id.clone());
                        c.log_at(quote_text("Added label ", label_name.as_str()), now);
                    },
                }
            },
            _ => {},
        }
        self.board.cards.set(k, c);
        self.board.detail_item_idx = detail;
        let mut w: Vec<PendingWrite> = Vec::new();
        w.push(PendingWrite::Card(card_id.clone()));
        Ok(w)
    }
}

/// The command changes only the board's metadata (name, archive flag,
/// accent, labels).
pub open spec fn is_meta_edit(cmd: Command) -> bool {
    match cmd {
        Command::ArchiveBoard { .. } | Command::RestoreBoard { .. } | Command::RenameBoard { .. }
        | Command::SetAccentColor { .. } | Command::DefineLabel { .. } | Command::RenameLabel { .. }
        | Command::SetLabelColor { .. } | Command::DeleteLabel { .. } | Command::ReorderLabels { .. } => true,
        _ => false,
    }
}

/// The error a metadata command meets on `m`, described by `e`; `None`
/// when it succeeds.
pub open spec fn meta_edit_error(m: BoardMeta, cmd: Command, e: Option<BoardEditorError>) -> bool {
    match cmd {
        Command::ArchiveBoard { board_id } | Command::RestoreBoard { board_id } => if board_id@ != m.id@ {
            e matches Some(BoardEditorError::NotFound { kind: EntityKind::Board, id }) && id == board_id
        } else {
            e is None
        },
        Command::RenameLabel { label_id, .. } | Command::SetLabelColor { label_id, .. } | Command::DeleteLabel { label_id } =>
            if label_index(m.labels@, label_id@) < 0 {
                e matches Some(BoardEditorError::NotFound { kind: EntityKind::Label, id }) && id@ == label_id@
            } else {
                e is None
            },
        Command::ReorderLabels { from, to } => if from >= m.labels@.len() || to >= m.labels@.len() {
            e == Some(BoardEditorError::Invariant(InvariantKind::LabelIndex))
        } else {
            e is None
        },
        _ => e is None,
    }
}

/// `m2` is what a successful metadata command makes of `m`; a label it
/// defines gets id `fresh_id`.
pub open spec fn meta_edited(m: BoardMeta, cmd: Command, fresh_id: ShortId, m2: BoardMeta) -> bool {
    let same_but_labels = m2 == (BoardMeta { labels: m2.labels, ..m });
    match cmd {
        Command::ArchiveBoard { .. } => m2 == (BoardMeta { archived: true, ..m }),
        Command::RestoreBoard { .. } => m2 == (BoardMeta { archived: false, ..m }),
        Command::RenameBoard { name } => m2 == (BoardMeta { name, ..m }),
        Command::SetAccentColor { color } => m2 == (BoardMeta { accent_color: color, ..m }),
        Command::DefineLabel { name, color } => same_but_labels
            && m2.labels@ == m.labels@.push(Label { id: fresh_id, name, color }),
        Command::RenameLabel { label_id, name } => {
            let i = label_index(m.labels@, label_id@);
            same_but_labels && m2.labels@ == m.labels@.update(i, Label { name, ..m.labels@[i] })
        },
        Command::SetLabelColor { label_id, color } => {
            let i = label_index(m.labels@, label_id@);
            same_but_labels && m2.labels@ == m.labels@.update(i, Label { color, ..m.labels@[i] })
        },
        Command::DeleteLabel { label_id } => same_but_labels
            && m2.labels@ == m.labels@.remove(label_index(m.labels@, label_id@)),
        Command::ReorderLabels { from, to } => same_but_labels
            && m2.labels@ == m.labels@.update(from as int, m.labels@[to as int]).update(to as int, m.labels@[from as int]),
        _ => false,
    }
}

/// The writes a successful metadata command asks for: the board file,
/// except for a reorder that moves nothing.
pub open spec fn meta_writes(cmd: Command, w: Seq<PendingWrite>) -> bool {
    match cmd {
        Command::ReorderLabels { from, to } => if from == to {
            w.len() == 0
        } else {
            w == seq![PendingWrite::Board]
        },
        _ => w == seq![PendingWrite::Board],
    }
}

impl BoardEditor {
    /// Apply a command that changes only the board's metadata.
    pub(crate) fn apply_meta_edit(&mut self, cmd: Command, fresh_id: ShortId) -> (r: Result<Vec<PendingWrite>, BoardEditorError>)
        requires
            is_meta_edit(cmd),
            old(self).board.selected_card@.len() == old(self).board.lists@.len(),
            old(self).board.scroll_offset@.len() == old(self).board.lists@.len(),
        ensures
            final(self).board.selected_card@.len() == final(self).board.lists@.len(),
            final(self).board.scroll_offset@.len() == final(self).board.lists@.len(),
            final(self).last_added_card_id == old(self).last_added_card_id,
            final(self).diagnostics == old(self).diagnostics,
            final(self).board == (LoadedBoard { meta: final(self).board.meta, ..old(self).board }),
            match r {
                Ok(w) => meta_edit_error(old(self).board.meta, cmd, None)
                    && meta_edited(old(self).board.meta, cmd, fresh_id, final(self).board.meta)
                    && meta_writes(cmd, w@),
                Err(e) => meta_edit_error(old(self).board.meta, cmd, Some(e))
                    && final(self).board == old(self).board,
            },
    {
        let mut w: Vec<PendingWrite> = Vec::new();
        match cmd {
            Command::ArchiveBoard { board_id } => {
                if board_id != self.board.meta.id {
                    return Err(BoardEditorError::NotFound { kind: EntityKind::Board, id: board_id });
                }
                self.board.meta.archived = true;
            },
            Command::RestoreBoard { board_id } => {
                if board_id != self.board.meta.id {
                    return Err(BoardEditorError::NotFound { kind: EntityKind::Board, id: board_id });
                }
                self.board.meta.archived = false;
            },
            Command::RenameBoard { name } => {
                self.board.meta.name = name;
            },
            Command::SetAccentColor { color } => {
                self.board.meta.accent_color = color;
            },
            Command::DefineLabel { name, color } => {
                self.board.meta.labels.push(Label { id: fresh_id, name, color });
            },
            Command::RenameLabel { label_id, name } => {
                match find_label(&self.board.meta.labels, &label_id) {
                    Some(i) => {
                        let l = Label { id: self.board.meta.labels[i].id.clone(), name, color: self.board.meta.labels[i].color };
                        self.board.meta.labels.set(i, l);
                    },
                    None => {
                        return Err(BoardEditorError::NotFound { kind: EntityKind::Label, id: label_id });
                    },
                }
            },
            Command::SetLabelColor { label_id, color } => {
                match find_label(&self.board.meta.labels, &label_id) {
                    Some(i) => {
                        let l = Label { id: self.board.meta.labels[i].id.clone(), name: self.board.meta.labels[i].name.clone(), color };
                        self.board.meta.labels.set(i, l);
                    },
                    None => {
                        return Err(BoardEditorError::NotFound { kind: EntityKind::Label, id: label_id });
                    },
                }
            },
            Command::DeleteLabel { label_id } => {
                match find_label(&self.board.meta.labels, &label_id) {
                    Some(i) => {
                        self.board.meta.labels.remove(i);
                    },
                    None => {
                        return Err(BoardEditorError::NotFound { kind: EntityKind::Label, id: label_id });
                    },
                }
            },
            Command::ReorderLabels { from, to } => {
                let len = self.board.meta.labels.len();
                if from >= len || to >= len {
                    return Err(BoardEditorError::Invariant(InvariantKind::LabelIndex));
                }
                let ghost l0 = self.board.meta.labels@;
                if from != to {
                    let a = self.board.meta.labels[from].duplicate();
                    let b = self.board.meta.labels[to].duplicate();
                    self.board.meta.labels.set(from, b);
                    self.board.meta.labels.set(to, a);
                    w.push(PendingWrite::Board);
                }
                assert(self.board.meta.labels@ =~= l0.update(from as int, l0[to as int]).update(to as int, l0[from as int]));
                return Ok(w);
            },
            _ => {
                return Ok(w);
            },
        }
        w.push(PendingWrite::Board);
        Ok(w)
    }
}

/// Index of the first active list with id `id`, or -1.
pub open spec fn list_pos(lists: Seq<CardList>, id: Seq<char>) -> int
    decreases lists.len(),
{
    if lists.len() == 0 {
        -1
    } else {
        let r = list_pos(lists.drop_last(), id);
        if r >= 0 {
            r
        } else if lists.last().id@ == id {
            lists.len() - 1
        } else {
            -1
        }
    }
}

/// Index of the first list definition with id `id`, or -1.
pub open spec fn meta_pos(lists: Seq<ListMeta>, id: Seq<char>) -> int
    decreases lists.len(),
{
    if lists.len() == 0 {
        -1
    } else {
        let r = meta_pos(lists.drop_last(), id);
        if r >= 0 {
            r
        } else if lists.last().id@ == id {
            lists.len() - 1
        } else {
            -1
        }
    }
}

pub proof fn lemma_list_pos(lists: Seq<CardList>, id: Seq<char>)
    ensures
        -1 <= list_pos(lists, id) < lists.len(),
        list_pos(lists, id) >= 0 ==> lists[list_pos(lists, id)].id@ == id,
        list_pos(lists, id) >= 0 ==> forall|k: int| 0 <= k < list_pos(lists, id) ==> lists[k].id@ != id,
        list_pos(lists, id) < 0 ==> forall|k: int| 0 <= k < lists.len() ==> lists[k].id@ != id,
    decreases lists.len(),
{
    if lists.len() > 0 {
        let d = lists.drop_last();
        lemma_list_pos(d, id);
        assert forall|k: int| 0 <= k < d.len() implies d[k] == lists[k] by {}
    }
}

pub proof fn lemma_meta_pos(lists: Seq<ListMeta>, id: Seq<char>)
    ensures
        -1 <= meta_pos(lists, id) < lists.len(),
        meta_pos(lists, id) >= 0 ==> lists[meta_pos(lists, id)].id@ == id,
        meta_pos(lists, id) >= 0 ==> forall|k: int| 0 <= k < meta_pos(lists, id) ==> lists[k].id@ != id,
        meta_pos(lists, id) < 0 ==> forall|k: int| 0 <= k < lists.len() ==> lists[k].id@ != id,
    decreases lists.len(),
{
    if lists.len() > 0 {
        let d = lists.drop_last();
        lemma_meta_pos(d, id);
        assert forall|k: int| 0 <= k < d.len() implies d[k] == lists[k] by {}
    }
}

/// Index of the first active list with id `id`.
pub fn find_list(lists: &Vec<CardList>, id: &str) -> (r: Option<usize>)
    ensures
        match r {
            Some(i) => list_pos(lists@, id@) == i && i < lists@.len(),
            None => list_pos(lists@, id@) < 0,
        },
{
    proof {
        lemma_list_pos(lists@, id@);
    }
    let key = owned(id);
    let mut i: usize = 0;
    while i < lists.len()
        invariant
            key@ == id@,
            i <= lists@.len(),
            forall|k: int| 0 <= k < i ==> lists@[k].id@ != id@,
        decreases lists.len() - i,
    {
        if lists[i].id == key {
            proof {
                lemma_list_pos(lists@, id@);
                assert(list_pos(lists@, id@) == i) by {
                    if list_pos(lists@, id@) != i {
                        if list_pos(lists@, id@) >= 0 && list_pos(lists@, id@) < i {
                        }
                    }
                }
            }
            return Some(i);
        }
        i += 1;
    }
    None
}

/// Index of the first list definition with id `id`.
pub fn find_meta_list(lists: &Vec<ListMeta>, id: &str) -> (r: Option<usize>)
    ensures
        match r {
            Some(i) => meta_pos(lists@, id@) == i && i < lists@.len(),
            None => meta_pos(lists@, id@) < 0,
        },
{
    proof {
        lemma_meta_pos(lists@, id@);
    }
    let key = owned(id);
    let mut i: usize = 0;
    while i < lists.len()
        invariant
            key@ == id@,
            i <= lists@.len(),
            forall|k: int| 0 <= k < i ==> lists@[k].id@ != id@,
        decreases lists.len() - i,
    {
        if lists[i].id == key {
            proof {
                lemma_meta_pos(lists@, id@);
                assert(meta_pos(lists@, id@) == i) by {
                    if meta_pos(lists@, id@) != i {
                        if meta_pos(lists@, id@) >= 0 && meta_pos(lists@, id@) < i {
                        }
                    }
                }
            }
            return Some(i);
        }
        i += 1;
    }
    None
}

/// `s` with entries `i` and `j` exchanged.
pub open spec fn swapped<T>(s: Seq<T>, i: int, j: int) -> Seq<T> {
    s.update(i, s[j]).update(j, s[i])
}

/// Exchange entries `i < j` of a vector.
fn swap_entries<T>(v: &mut Vec<T>, i: usize, j: usize)
    requires
        i < j < old(v)@.len(),
    ensures
        final(v)@ == swapped(old(v)@, i as int, j as int),
{
    let ghost s = v@;
    let b = v.remove(j);
    let a = v.remove(i);
    v.insert(i, b);
    v.insert(j, a);
    assert(v@ =~= swapped(s, i as int, j as int));
}

/// The command adds, archives, restores, renames or moves a list.
pub open spec fn is_list_edit(cmd: Command) -> bool {
    match cmd {
        Command::AddList { .. } | Command::ArchiveList { .. } | Command::RestoreList { .. }
        | Command::RenameList { .. } | Command::MoveList { .. } => true,
        _ => false,
    }
}

/// `e` is the error a list command meets on `b` (`None`: it succeeds).
pub open spec fn list_edit_error(b: LoadedBoard, cmd: Command, e: Option<BoardEditorError>) -> bool {
    match cmd {
        Command::ArchiveList { list_id } => if list_pos(b.lists@, list_id@) < 0 {
            e matches Some(BoardEditorError::NotFound { kind: EntityKind::List, id }) && id@ == list_id@
        } else {
            e is None
        },
        Command::RestoreList { list_id } | Command::RenameList { list_id, .. } => if meta_pos(b.meta.lists@, list_id@) < 0 {
            e matches Some(BoardEditorError::NotFound { kind: EntityKind::List, id }) && id@ == list_id@
        } else {
            e is None
        },
        Command::MoveList { list_id, direction } => if list_pos(b.lists@, list_id@) < 0 {
            e matches Some(BoardEditorError::NotFound { kind: EntityKind::List, id }) && id@ == list_id@
        } else if direction == MoveDir::Up || direction == MoveDir::Down {
            e == Some(BoardEditorError::Invariant(InvariantKind::MoveListDirection))
        } else {
            e is None
        },
        _ => e is None,
    }
}

/// Where `MoveList` moves list `i` to, if anywhere.
pub open spec fn list_move_target(n: int, i: int, direction: MoveDir) -> Option<int> {
    match direction {
        MoveDir::Left => if i > 0 { Some(i - 1) } else { None },
        MoveDir::Right => if i + 1 < n { Some(i + 1) } else { None },
        _ => None,
    }
}

/// `b2` is what a successful list command makes of `b`; `w` are its writes.
pub open spec fn list_edited(b: LoadedBoard, cmd: Command, fresh_id: ShortId, b2: LoadedBoard, w: Seq<PendingWrite>) -> bool {
    let meta_same = b2.meta == (BoardMeta { lists: b2.meta.lists, ..b.meta });
    match cmd {
        Command::AddList { name } => {
            let n = b.lists@.len();
            &&& meta_same
            &&& b2.meta.lists@ == b.meta.lists@.push(ListMeta { id: fresh_id, name, archived: false })
            &&& b2.lists@.len() == n + 1
            &&& b2.lists@.drop_last() == b.lists@
            &&& b2.lists@[n as int].id == fresh_id
            &&& b2.lists@[n as int].name == name
            &&& b2.lists@[n as int].card_ids@.len() == 0
            &&& !b2.lists@[n as int].archived
            &&& b2.selected_card@ == b.selected_card@.push(0)
            &&& b2.scroll_offset@ == b.scroll_offset@.push(0)
            &&& b2.selected_list == n
            &&& b2 == (LoadedBoard {
                meta: b2.meta,
                lists: b2.lists,
                selected_card: b2.selected_card,
                scroll_offset: b2.scroll_offset,
                selected_list: b2.selected_list,
                ..b
            })
            &&& w == seq![PendingWrite::Board]
        },
        Command::ArchiveList { list_id } => {
            let pos = list_pos(b.lists@, list_id@);
            let m = meta_pos(b.meta.lists@, list_id@);
            let n2 = b.lists@.len() - 1;
            &&& meta_same
            &&& b2.meta.lists@ == if m >= 0 {
                b.meta.lists@.update(m, ListMeta { archived: true, ..b.meta.lists@[m] })
            } else {
                b.meta.lists@
            }
            &&& b2.lists@ == b.lists@.remove(pos)
            &&& b2.selected_card@ == b.selected_card@.remove(pos)
            &&& b2.scroll_offset@ == b.scroll_offset@.remove(pos)
            &&& b2 == (LoadedBoard {
                meta: b2.meta,
                lists: b2.lists,
                selected_card: b2.selected_card,
                scroll_offset: b2.scroll_offset,
                selected_list: if b.selected_list > 0 && b.selected_list >= n2 {
                    if n2 > 0 { (n2 - 1) as usize } else { 0 }
                } else {
                    b.selected_list
                },
                ..b
            })
            &&& w == seq![PendingWrite::Board]
        },
        Command::RestoreList { list_id } => {
            let m = meta_pos(b.meta.lists@, list_id@);
            let n = b.lists@.len();
            let new_list = b2.lists@[n as int];
            &&& meta_same
            &&& b2.meta.lists@ == b.meta.lists@.update(m, ListMeta { archived: false, ..b.meta.lists@[m] })
            &&& b2.lists@.len() == n + 1
            &&& b2.lists@.drop_last() == b.lists@
            &&& new_list.id == list_id
            &&& new_list.name == b.meta.lists@[m].name
            &&& ordered_ids_of(b.cards@, list_id@, new_list.card_ids@)
            &&& !new_list.archived
            &&& b2.selected_card@ == b.selected_card@.push(0)
            &&& b2.scroll_offset@ == b.scroll_offset@.push(0)
            &&& b2 == (LoadedBoard {
                meta: b2.meta,
                lists: b2.lists,
                selected_card: b2.selected_card,
                scroll_offset: b2.scroll_offset,
                ..b
            })
            &&& w == seq![PendingWrite::Board]
        },
        Command::RenameList { list_id, name } => {
            let m = meta_pos(b.meta.lists@, list_id@);
            let p = list_pos(b.lists@, list_id@);
            &&& meta_same
            &&& b2.meta.lists@ == b.meta.lists@.update(m, ListMeta { name, ..b.meta.lists@[m] })
            &&& b2.lists@ == if p >= 0 {
                b.lists@.update(p, CardList { name, ..b.lists@[p] })
            } else {
                b.lists@
            }
            &&& b2 == (LoadedBoard { meta: b2.meta, lists: b2.lists, ..b })
            &&& w == seq![PendingWrite::Board]
        },
        Command::MoveList { list_id, direction } => {
            let i = list_pos(b.lists@, list_id@);
            match list_move_target(b.lists@.len() as int, i, direction) {
                None => b2 == b && w.len() == 0,
                Some(t) => {
                    let mi = meta_pos(b.meta.lists@, b.lists@[i].id@);
                    let mt = meta_pos(b.meta.lists@, b.lists@[t].id@);
                    let lo = if i < t { i } else { t };
                    let hi = if i < t { t } else { i };
                    &&& meta_same
                    &&& b2.meta.lists@ == if mi >= 0 && mt >= 0 {
                        swapped(b.meta.lists@, mi, mt)
                    } else {
                        b.meta.lists@
                    }
                    &&& b2.lists@ == swapped(b.lists@, lo, hi)
                    &&& b2.selected_card@ == swapped(b.selected_card@, lo, hi)
                    &&& b2.scroll_offset@ == swapped(b.scroll_offset@, lo, hi)
                    &&& b2 == (LoadedBoard {
                        meta: b2.meta,
                        lists: b2.lists,
                        selected_card: b2.selected_card,
                        scroll_offset: b2.scroll_offset,
                        selected_list: if b.selected_list == i {
                            t as usize
                        } else if b.selected_list == t {
                            i as usize
                        } else {
                            b.selected_list
                        },
                        ..b
                    })
                    &&& w == seq![PendingWrite::Board]
                },
            }
        },
        _ => false,
    }
}

impl BoardEditor {
    /// Apply a command that adds, archives, restores, renames or moves a list.
    pub(crate) fn apply_list_edit(&mut self, cmd: Command, fresh_id: ShortId) -> (r: Result<Vec<PendingWrite>, BoardEditorError>)
        requires
            is_list_edit(cmd),
            old(self).board.selected_card@.len() == old(self).board.lists@.len(),
            old(self).board.scroll_offset@.len() == old(self).board.lists@.len(),
        ensures
            final(self).board.selected_card@.len() == final(self).board.lists@.len(),
            final(self).board.scroll_offset@.len() == final(self).board.lists@.len(),
            final(self).last_added_card_id == old(self).last_added_card_id,
            final(self).diagnostics == old(self).diagnostics,
            match r {
                Ok(w) => list_edit_error(old(self).board, cmd, None)
                    && list_edited(old(self).board, cmd, fresh_id, final(self).board, w@),
                Err(e) => list_edit_error(old(self).board, cmd, Some(e))
                    && final(self).board == old(self).board,
            },
    {
        let mut w: Vec<PendingWrite> = Vec::new();
        match cmd {
            Command::AddList { name } => {
                self.board.meta.lists.push(ListMeta { id: fresh_id.clone(), name: name.clone(), archived: false });
                self.board.lists.push(CardList { id: fresh_id, name, card_ids: Vec::new(), archived: false });
                self.board.selected_card.push(0);
                self.board.scroll_offset.push(0);
                self.board.selected_list = self.board.lists.len() - 1;
                proof {
                    assert(self.board.lists@.drop_last() =~= old(self).board.lists@);
                }
            },
            Command::ArchiveList { list_id } => {
                let pos = match find_list(&self.board.lists, list_id.as_str()) {
                    Some(p) => p,
                    None => {
                        return Err(BoardEditorError::NotFound { kind: EntityKind::List, id: list_id });
                    },
                };
                match find_meta_list(&self.board.meta.lists, list_id.as_str()) {
                    Some(m) => {
                        let ghost before = self.board.meta.lists@;
                        let mut lm = self.board.meta.lists.remove(m);
                        lm.archived = true;
                        self.board.meta.lists.insert(m, lm);
                        proof {
                            assert(self.board.meta.lists@ =~= before.update(m as int, ListMeta { archived: true, ..before[m as int] }));
                        }
                    },
                    None => {},
                }
                self.board.lists.remove(pos);
                self.board.selected_card.remove(pos);
                self.board.scroll_offset.remove(pos);
                let n2 = self.board.lists.len();
                if self.board.selected_list > 0 && self.board.selected_list >= n2 {
                    self.board.selected_list = if n2 > 0 { n2 - 1 } else { 0 };
                }
            },
            Command::RestoreList { list_id } => {
                let m = match find_meta_list(&self.board.meta.lists, list_id.as_str()) {
                    Some(m) => m,
                    None => {
                        return Err(BoardEditorError::NotFound { kind: EntityKind::List, id: list_id });
                    },
                };
                let ghost before = self.board.meta.lists@;
                let mut lm = self.board.meta.lists.remove(m);
                lm.archived = false;
                let name = lm.name.clone();
                self.board.meta.lists.insert(m, lm);
                proof {
                    assert(self.board.meta.lists@ =~= before.update(m as int, ListMeta { archived: false, ..before[m as int] }));
                }
                let card_ids = ordered_card_ids(list_id.as_str(), self.board.cards.as_slice());
                self.board.lists.push(CardList { id: list_id, name, card_ids, archived: false });
                self.board.selected_card.push(0);
                self.board.scroll_offset.push(0);
                proof {
                    assert(self.board.lists@.drop_last() =~= old(self).board.lists@);
                }
            },
            Command::RenameList { list_id, name } => {
                let m = match find_meta_list(&self.board.meta.lists, list_id.as_str()) {
                    Some(m) => m,
                    None => {
                        return Err(BoardEditorError::NotFound { kind: EntityKind::List, id: list_id });
                    },
                };
                let ghost before = self.board.meta.lists@;
                let mut lm = self.board.meta.lists.remove(m);
                lm.name = name.clone();
                self.board.meta.lists.insert(m, lm);
                proof {
                    assert(self.board.meta.lists@ =~= before.update(m as int, ListMeta { name, ..before[m as int] }));
                }
                match find_list(&self.board.lists, list_id.as_str()) {
                    Some(p) => {
                        let ghost lbefore = self.board.lists@;
                        let mut l = self.board.lists.remove(p);
                        l.name = name;
                        self.board.lists.insert(p, l);
                        proof {
                            assert(self.board.lists@ =~= lbefore.update(p as int, CardList { name, ..lbefore[p as int] }));
                        }
                    },
                    None => {},
                }
            },
            Command::MoveList { list_id, direction } => {
                let i = match find_list(&self.board.lists, list_id.as_str()) {
                    Some(i) => i,
                    None => {
                        return Err(BoardEditorError::NotFound { kind: EntityKind::List, id: list_id });
                    },
                };
                let t = match direction {
                    MoveDir::Left => {
                        if i == 0 {
                            return Ok(w);
                        }
                        i - 1
                    },
                    MoveDir::Right => {
                        if i >= self.board.lists.len() - 1 {
                            return Ok(w);
                        }
                        i + 1
                    },
                    _ => {
                        return Err(BoardEditorError::Invariant(InvariantKind::MoveListDirection));
                    },
                };
                let mi = find_meta_list(&self.board.meta.lists, self.board.lists[i].id.as_str());
                let mt = find_meta_list(&self.board.meta.lists, self.board.lists[t].id.as_str());
                match (mi, mt) {
                    (Some(a), Some(c)) => {
                        if a < c {
                            swap_entries(&mut self.board.meta.lists, a, c);
                        } else if c < a {
                            let ghost before = self.board.meta.lists@;
                            swap_entries(&mut self.board.meta.lists, c, a);
                            proof {
                                assert(swapped(before, c as int, a as int) =~= swapped(before, a as int, c as int));
                            }
                        } else {
                            proof {
                                assert(self.board.meta.lists@ =~= swapped(self.board.meta.lists@, a as int, c as int));
                            }
                        }
                    },
                    _ => {},
                }
                let (lo, hi) = if i < t { (i, t) } else { (t, i) };
                swap_entries(&mut self.board.lists, lo, hi);
                swap_entries(&mut self.board.selected_card, lo, hi);
                swap_entries(&mut self.board.scroll_offset, lo, hi);
                if self.board.selected_list == i {
                    self.board.selected_list = t;
                } else if self.board.selected_list == t {
                    self.board.selected_list = i;
                }
            },
            _ => {
                return Ok(w);
            },
        }
        w.push(PendingWrite::Board);
        Ok(w)
    }
}

} // verus!
