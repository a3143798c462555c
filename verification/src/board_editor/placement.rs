//! Commands that place a card in a list: adding a card, restoring an
//! archived one and moving one. Each needs an order key from outside; the
//! editor says between which keys it must fall.

use vstd::prelude::*;

use super::commands::{find_id, find_list, id_index, lemma_id_index, lemma_list_pos, list_pos};
use super::{
    find_card, find_pos, first_pos, index_of, lemma_first_pos, lemma_index_of, visible_of, ApplyContext,
    BoardEditor, BoardEditorError, EntityKind, LoadedBoard, PendingWrite, PositionRequest,
};
use crate::command::{Command, MoveDir};
use crate::model::card::{is_logged, Card};
use crate::model::ids::ShortId;
use crate::model::list::{ordered_card_ids, ordered_ids_of, CardList};
use crate::text::owned;

verus! {

/// Index of the first active list whose card ids hold `id`, or -1.
pub open spec fn home_list(lists: Seq<CardList>, id: Seq<char>) -> int
    decreases lists.len(),
{
    if lists.len() == 0 {
        -1
    } else {
        let r = home_list(lists.drop_last(), id);
        if r >= 0 {
            r
        } else if id_index(lists.last().card_ids@, id) >= 0 {
            lists.len() - 1
        } else {
            -1
        }
    }
}

pub proof fn lemma_home_list(lists: Seq<CardList>, id: Seq<char>)
    ensures
        -1 <= home_list(lists, id) < lists.len(),
        home_list(lists, id) >= 0 ==> id_index(lists[home_list(lists, id)].card_ids@, id) >= 0,
        home_list(lists, id) >= 0 ==> forall|k: int|
            0 <= k < home_list(lists, id) ==> id_index(#[trigger] lists[k].card_ids@, id) < 0,
        home_list(lists, id) < 0 ==> forall|k: int| 0 <= k < lists.len() ==> id_index(#[trigger] lists[k].card_ids@, id) < 0,
    decreases lists.len(),
{
    if lists.len() > 0 {
        let d = lists.drop_last();
        lemma_home_list(d, id);
        assert forall|k: int| 0 <= k < d.len() implies d[k] == lists[k] by {}
    }
}

/// The first active list holding `id` among its card ids, and the index
/// of the id there.
pub fn find_home(lists: &Vec<CardList>, id: &ShortId) -> (r: Option<(usize, usize)>)
    ensures
        match r {
            Some((li, ci)) => {
                &&& li == home_list(lists@, id@)
                &&& li < lists@.len()
                &&& ci == id_index(lists@[li as int].card_ids@, id@)
                &&& ci < lists@[li as int].card_ids@.len()
            },
            None => home_list(lists@, id@) < 0,
        },
{
    proof {
        lemma_home_list(lists@, id@);
    }
    let mut i: usize = 0;
    while i < lists.len()
        invariant
            i <= lists@.len(),
            forall|k: int| 0 <= k < i ==> id_index(#[trigger] lists@[k].card_ids@, id@) < 0,
        decreases lists.len() - i,
    {
        match find_id(&lists[i].card_ids, id) {
            Some(ci) => {
                proof {
                    lemma_home_list(lists@, id@);
                }
                return Some((i, ci));
            },
            None => {},
        }
        i += 1;
    }
    proof {
        lemma_home_list(lists@, id@);
    }
    None
}

/// The order key of the card at index `raw` of list `li`'s card ids, if
/// that card exists.
pub open spec fn key_at(b: LoadedBoard, li: int, raw: int) -> Option<u64> {
    let ids = b.lists@[li].card_ids@;
    let k = index_of(b.cards@, ids[raw]@);
    if 0 <= raw < ids.len() && k >= 0 {
        Some(b.cards@[k].position)
    } else {
        None
    }
}

/// The largest order key among the cards of list `l`, if it has any.
pub open spec fn max_key(cards: Seq<Card>, l: Seq<char>) -> Option<u64>
    decreases cards.len(),
{
    if cards.len() == 0 {
        None
    } else {
        let r = max_key(cards.drop_last(), l);
        let c = cards.last();
        if c.list_id@ == l {
            match r {
                Some(m) => if m >= c.position { Some(m) } else { Some(c.position) },
                None => Some(c.position),
            }
        } else {
            r
        }
    }
}

/// Where a move of the card at index `ci` of list `src` takes it, and
/// between which order keys it lands; `None` when the move does nothing.
/// Moves go over the shown (non-archived) cards: up and down swap places
/// with the shown neighbour; left and right land at the same shown slot
/// of the next list, clamped to its length.
pub open spec fn move_plan(b: LoadedBoard, src: int, ci: int, dir: MoveDir) -> Option<(int, PositionRequest)> {
    let vis = visible_of(b, src, None);
    let vp = first_pos(vis, ci as usize);
    match dir {
        MoveDir::Up => if vp <= 0 {
            None
        } else {
            let prev = if vp >= 2 { key_at(b, src, vis[vp - 2] as int) } else { None };
            Some((src, PositionRequest::Between(prev, key_at(b, src, vis[vp - 1] as int))))
        },
        MoveDir::Down => if vp < 0 || vp + 1 >= vis.len() {
            None
        } else {
            let next = if vp + 2 < vis.len() { key_at(b, src, vis[vp + 2] as int) } else { None };
            Some((src, PositionRequest::Between(key_at(b, src, vis[vp + 1] as int), next)))
        },
        _ => {
            let dst = if dir == MoveDir::Left { src - 1 } else { src + 1 };
            if dst < 0 || dst >= b.lists@.len() {
                None
            } else {
                let from = if vp >= 0 { vp } else { 0 };
                let vd = visible_of(b, dst, None);
                let ins = if from < vd.len() { from } else { vd.len() as int };
                let prev = if ins > 0 { key_at(b, dst, vd[ins - 1] as int) } else { None };
                let next = if ins < vd.len() { key_at(b, dst, vd[ins] as int) } else { None };
                Some((dst, PositionRequest::Between(prev, next)))
            }
        },
    }
}

/// Between which order keys the position a command gives a card must
/// fall: one past the last card of the target list for `AddCard` and for
/// a `RestoreCard` that moves the card to the first list, between the new
/// neighbours for a `MoveCard` that moves.
pub open spec fn position_request_of(b: LoadedBoard, cmd: Command) -> PositionRequest {
    match cmd {
        Command::AddCard { list_id, .. } => if list_pos(b.lists@, list_id@) >= 0 {
            PositionRequest::After(max_key(b.cards@, list_id@))
        } else {
            PositionRequest::Unneeded
        },
        Command::RestoreCard { card_id } => {
            let k = index_of(b.cards@, card_id@);
            if k >= 0 && list_pos(b.lists@, b.cards@[k].list_id@) < 0 && b.lists@.len() > 0 {
                PositionRequest::After(max_key(b.cards@, b.lists@[0].id@))
            } else {
                PositionRequest::Unneeded
            }
        },
        Command::MoveCard { card_id, direction } => {
            let src = home_list(b.lists@, card_id@);
            if src >= 0 {
                match move_plan(b, src, id_index(b.lists@[src].card_ids@, card_id@), direction) {
                    Some((_, q)) => q,
                    None => PositionRequest::Unneeded,
                }
            } else {
                PositionRequest::Unneeded
            }
        },
        _ => PositionRequest::Unneeded,
    }
}

/// `key` lies where the request asks.
pub open spec fn key_fits(q: PositionRequest, key: u64) -> bool {
    match q {
        PositionRequest::Unneeded => true,
        PositionRequest::After(m) => m is Some ==> m->0 < key,
        PositionRequest::Between(a, c) => (a is Some ==> a->0 < key) && (c is Some ==> key < c->0),
    }
}

/// Every id in the active lists names a card of the board.
pub open spec fn ids_known(b: LoadedBoard) -> bool {
    forall|li: int, a: int|
        0 <= li < b.lists@.len() && 0 <= a < b.lists@[li].card_ids@.len() ==> index_of(
            b.cards@,
            (#[trigger] b.lists@[li].card_ids@[a])@,
        ) >= 0
}

/// The command adds, restores or moves a card.
pub open spec fn is_placement(cmd: Command) -> bool {
    match cmd {
        Command::AddCard { .. } | Command::RestoreCard { .. } | Command::MoveCard { .. } => true,
        _ => false,
    }
}

/// `e` is the error a placing command meets on `b` (`None`: it succeeds).
pub open spec fn placement_error(b: LoadedBoard, cmd: Command, e: Option<BoardEditorError>) -> bool {
    match cmd {
        Command::AddCard { list_id, .. } => if list_pos(b.lists@, list_id@) < 0 {
            e matches Some(BoardEditorError::NotFound { kind: EntityKind::List, id }) && id == list_id
        } else {
            e is None
        },
        Command::RestoreCard { card_id } => if index_of(b.cards@, card_id@) < 0 {
            e matches Some(BoardEditorError::NotFound { kind: EntityKind::Card, id }) && id == card_id
        } else {
            e is None
        },
        Command::MoveCard { card_id, .. } => if home_list(b.lists@, card_id@) < 0 {
            e matches Some(BoardEditorError::NotFound { kind: EntityKind::Card, id }) && id == card_id
        } else {
            e is None
        },
        _ => e is None,
    }
}

/// `c` is the card `AddCard` creates in list `list_id`: fresh id, the
/// title, nothing else set, created and logged "Created" at `ctx.now`,
/// at order key `ctx.new_position`.
pub open spec fn created_card(c: Card, list_id: ShortId, title: String, ctx: ApplyContext) -> bool {
    &&& c.id == ctx.fresh_id
    &&& c.title == title
    &&& c.description@.len() == 0
    &&& c.label_ids@.len() == 0
    &&& c.due_date is None
    &&& c.checklist@.len() == 0
    &&& !c.archived
    &&& c.created_at == ctx.now
    &&& c.updated_at == ctx.now
    &&& c.history@.len() == 1
    &&& c.history@[0].at == ctx.now
    &&& c.history@[0].action@ == "Created"@
    &&& c.list_id == list_id
    &&& c.position == ctx.new_position
}

/// One less than `n`, but not below zero.
pub open spec fn last_slot(n: nat) -> usize {
    if n > 0 { (n - 1) as usize } else { 0 }
}

/// The board's lists after the lists at `src` and `dst` were rebuilt
/// from the cards `cards`: those two keep everything but their card ids,
/// which are their members in order; the others are unchanged.
pub open spec fn rebuilt(before: Seq<CardList>, after: Seq<CardList>, cards: Seq<Card>, src: int, dst: int) -> bool {
    &&& after.len() == before.len()
    &&& forall|x: int| 0 <= x < before.len() && x != src && x != dst ==> #[trigger] after[x] == before[x]
    &&& forall|x: int|
        0 <= x < before.len() && (x == src || x == dst) ==> {
            &&& #[trigger] after[x] == CardList { card_ids: after[x].card_ids, ..before[x] }
            &&& ordered_ids_of(cards, before[x].id@, after[x].card_ids@)
        }
}

/// `b2` is what a successful placing command makes of `b`, with `ctx`
/// giving the time, fresh id and order key; `w` are its writes.
pub open spec fn placed(b: LoadedBoard, cmd: Command, ctx: ApplyContext, b2: LoadedBoard, w: Seq<PendingWrite>) -> bool {
    match cmd {
        Command::AddCard { list_id, title } => {
            let li = list_pos(b.lists@, list_id@);
            let n = b.cards@.len();
            &&& b2.cards@.len() == n + 1
            &&& b2.cards@.drop_last() == b.cards@
            &&& created_card(b2.cards@[n as int], list_id, title, ctx)
            &&& b2.lists@ == b.lists@.update(li, CardList { card_ids: b2.lists@[li].card_ids, ..b.lists@[li] })
            &&& b2.lists@[li].card_ids@ == b.lists@[li].card_ids@.push(ctx.fresh_id)
            &&& b2.selected_card@ == b.selected_card@.update(li, last_slot(visible_of(b2, li, None).len()))
            &&& b2 == (LoadedBoard {
                cards: b2.cards,
                lists: b2.lists,
                selected_card: b2.selected_card,
                selected_list: li as usize,
                ..b
            })
            &&& w == seq![PendingWrite::Card(ctx.fresh_id)]
        },
        Command::RestoreCard { card_id } => {
            let k = index_of(b.cards@, card_id@);
            let c = b.cards@[k];
            let c1 = if list_pos(b.lists@, c.list_id@) < 0 && b.lists@.len() > 0 {
                Card { archived: false, list_id: b.lists@[0].id, position: ctx.new_position, ..c }
            } else {
                Card { archived: false, ..c }
            };
            let c2 = b2.cards@[k];
            let j = list_pos(b.lists@, c2.list_id@);
            let grows = j >= 0 && id_index(b.lists@[j].card_ids@, card_id@) < 0;
            &&& b2.cards@ == b.cards@.update(k, c2)
            &&& is_logged(c1, c2, "Restored from archive"@, ctx.now)
            &&& b2.lists@ == if grows {
                b.lists@.update(j, CardList { card_ids: b2.lists@[j].card_ids, ..b.lists@[j] })
            } else {
                b.lists@
            }
            &&& grows ==> b2.lists@[j].card_ids@ == b.lists@[j].card_ids@.push(card_id)
            &&& b2 == (LoadedBoard { cards: b2.cards, lists: b2.lists, ..b })
            &&& w == seq![PendingWrite::Card(card_id)]
        },
        Command::MoveCard { card_id, direction } => {
            let src = home_list(b.lists@, card_id@);
            let ci = id_index(b.lists@[src].card_ids@, card_id@);
            match move_plan(b, src, ci, direction) {
                None => b2 == b && w.len() == 0,
                Some((dst, _)) => {
                    let k = index_of(b.cards@, card_id@);
                    let c = b.cards@[k];
                    let sideways = direction == MoveDir::Left || direction == MoveDir::Right;
                    let c2 = if sideways {
                        Card { list_id: b.lists@[dst].id, position: ctx.new_position, ..c }
                    } else {
                        Card { position: ctx.new_position, ..c }
                    };
                    let raw = id_index(b2.lists@[dst].card_ids@, card_id@);
                    let o = if raw >= 0 { first_pos(visible_of(b2, dst, None), raw as usize) } else { -1 };
                    &&& k >= 0
                    &&& b2.cards@ == b.cards@.update(k, c2)
                    &&& rebuilt(b.lists@, b2.lists@, b2.cards@, src, dst)
                    &&& b2.selected_card@ == if o >= 0 {
                        b.selected_card@.update(dst, o as usize)
                    } else {
                        b.selected_card@
                    }
                    &&& b2 == (LoadedBoard {
                        cards: b2.cards,
                        lists: b2.lists,
                        selected_card: b2.selected_card,
                        selected_list: if sideways { dst as usize } else { b.selected_list },
                        ..b
                    })
                    &&& w == seq![PendingWrite::Card(card_id)]
                },
            }
        },
        _ => false,
    }
}

impl LoadedBoard {
    /// The order key of the card at index `raw` of list `li`.
    fn key_at_raw(&self, li: usize, raw: usize) -> (r: Option<u64>)
        requires
            li < self.lists@.len(),
        ensures
            r == key_at(*self, li as int, raw as int),
    {
        if raw >= self.lists[li].card_ids.len() {
            return None;
        }
        match find_card(&self.cards, self.lists[li].card_ids[raw].as_str()) {
            Some(k) => Some(self.cards[k].position),
            None => None,
        }
    }

    /// Where a move of the card at index `ci` of list `src` goes.
    fn plan_move(&self, src: usize, ci: usize, dir: MoveDir) -> (r: Option<(usize, PositionRequest)>)
        requires
            src < self.lists@.len(),
        ensures
            match r {
                Some((d, q)) => move_plan(*self, src as int, ci as int, dir) == Some((d as int, q))
                    && d < self.lists@.len(),
                None => move_plan(*self, src as int, ci as int, dir) is None,
            },
    {
        let vis = self.visible_cards(src, None);
        let vp = find_pos(&vis, ci);
        proof {
            lemma_first_pos(vis@, ci);
        }
        match dir {
            MoveDir::Up => {
                let v = match vp {
                    Some(v) => v,
                    None => {
                        return None;
                    },
                };
                if v == 0 {
                    return None;
                }
                let prev = if v >= 2 { self.key_at_raw(src, vis[v - 2]) } else { None };
                let next = self.key_at_raw(src, vis[v - 1]);
                Some((src, PositionRequest::Between(prev, next)))
            },
            MoveDir::Down => {
                let v = match vp {
                    Some(v) => v,
                    None => {
                        return None;
                    },
                };
                if v >= vis.len() - 1 {
                    return None;
                }
                let prev = self.key_at_raw(src, vis[v + 1]);
                let next = if v + 2 < vis.len() { self.key_at_raw(src, vis[v + 2]) } else { None };
                Some((src, PositionRequest::Between(prev, next)))
            },
            _ => {
                let dst = if dir == MoveDir::Left {
                    if src == 0 {
                        return None;
                    }
                    src - 1
                } else {
                    if src >= self.lists.len() - 1 {
                        return None;
                    }
                    src + 1
                };
                let from = match vp {
                    Some(v) => v,
                    None => 0,
                };
                let vd = self.visible_cards(dst, None);
                let ins = if from < vd.len() { from } else { vd.len() };
                let prev = if ins > 0 { self.key_at_raw(dst, vd[ins - 1]) } else { None };
                let next = if ins < vd.len() { self.key_at_raw(dst, vd[ins]) } else { None };
                Some((dst, PositionRequest::Between(prev, next)))
            },
        }
    }

    /// Re-derive list `li`'s card ids from the cards' positions.
    fn rebuild_list(&mut self, li: usize)
        requires
            li < old(self).lists@.len(),
        ensures
            *final(self) == (LoadedBoard { lists: final(self).lists, ..*old(self) }),
            final(self).lists@ == old(self).lists@.update(
                li as int,
                CardList { card_ids: final(self).lists@[li as int].card_ids, ..old(self).lists@[li as int] },
            ),
            ordered_ids_of(old(self).cards@, old(self).lists@[li as int].id@, final(self).lists@[li as int].card_ids@),
    {
        let ids = ordered_card_ids(self.lists[li].id.as_str(), self.cards.as_slice());
        let ghost before = self.lists@;
        let l = self.lists.remove(li);
        self.lists.insert(li, CardList { id: l.id, name: l.name, card_ids: ids, archived: l.archived });
        assert(self.lists@ =~= before.update(li as int, CardList { card_ids: ids, ..before[li as int] }));
    }
}

/// The largest order key among the cards of list `l`.
pub(crate) fn list_max_key(cards: &Vec<Card>, l: &str) -> (r: Option<u64>)
    ensures
        r == max_key(cards@, l@),
{
    let key = owned(l);
    let mut r: Option<u64> = None;
    for i in 0..cards.len()
        invariant
            key@ == l@,
            r == max_key(cards@.take(i as int), l@),
    {
        assert(cards@.take(i + 1).drop_last() =~= cards@.take(i as int));
        if cards[i].list_id == key {
            let p = cards[i].position;
            r = match r {
                Some(m) => if m >= p { Some(m) } else { Some(p) },
                None => Some(p),
            };
        }
    }
    assert(cards@.take(cards.len() as int) =~= cards@);
    r
}

impl BoardEditor {
    /// Between which order keys the position a command gives a card must
    /// fall (see [`position_request_of`]); `Unneeded` for a command that
    /// places no card, or one that will fail or do nothing.
    pub fn position_request(&self, cmd: &Command) -> (q: PositionRequest)
        ensures
            q == position_request_of(self.board, *cmd),
    {
        match cmd {
            Command::AddCard { list_id, .. } => match find_list(&self.board.lists, list_id.as_str()) {
                Some(_) => PositionRequest::After(list_max_key(&self.board.cards, list_id.as_str())),
                None => PositionRequest::Unneeded,
            },
            Command::RestoreCard { card_id } => match find_card(&self.board.cards, card_id.as_str()) {
                Some(k) => {
                    if find_list(&self.board.lists, self.board.cards[k].list_id.as_str()).is_none()
                        && self.board.lists.len() > 0 {
                        PositionRequest::After(list_max_key(&self.board.cards, self.board.lists[0].id.as_str()))
                    } else {
                        PositionRequest::Unneeded
                    }
                },
                None => PositionRequest::Unneeded,
            },
            Command::MoveCard { card_id, direction } => match find_home(&self.board.lists, card_id) {
                Some((src, ci)) => match self.board.plan_move(src, ci, *direction) {
                    Some((_, q)) => q,
                    None => PositionRequest::Unneeded,
                },
                None => PositionRequest::Unneeded,
            },
            _ => PositionRequest::Unneeded,
        }
    }
}

/// Whether `key` lies where `q` asks.
pub fn fits_request(q: &PositionRequest, key: u64) -> (b: bool)
    ensures
        b == key_fits(*q, key),
{
    match q {
        PositionRequest::Unneeded => true,
        PositionRequest::After(m) => match m {
            Some(x) => *x < key,
            None => true,
        },
        PositionRequest::Between(a, c) => {
            let above = match a {
                Some(x) => *x < key,
                None => true,
            };
            let below = match c {
                Some(y) => key < *y,
                None => true,
            };
            above && below
        },
    }
}

/// A key where `q` asks for one: the key after the largest, or the middle
/// of the gap between two neighbours (0 where anything fits); `None`
/// exactly when no `u64` fits.
pub fn key_in_request(q: &PositionRequest) -> (r: Option<u64>)
    ensures
        match r {
            Some(k) => key_fits(*q, k),
            None => forall|k: u64| !#[trigger] key_fits(*q, k),
        },
{
    match q {
        PositionRequest::Unneeded => Some(0),
        PositionRequest::After(m) => match m {
            Some(x) => if *x < u64::MAX {
                Some(*x + 1)
            } else {
                None
            },
            None => Some(0),
        },
        PositionRequest::Between(a, c) => {
            let lo: u64 = match a {
                Some(x) => {
                    if *x == u64::MAX {
                        return None;
                    }
                    *x + 1
                },
                None => 0,
            };
            match c {
                Some(y) => if lo < *y {
                    Some(lo + (*y - lo) / 2)
                } else {
                    None
                },
                None => Some(lo),
            }
        },
    }
}

impl BoardEditor {
    /// Apply a command that adds, restores or moves a card.
    pub(crate) fn apply_placement(&mut self, cmd: Command, ctx: &ApplyContext) -> (r: Result<Vec<PendingWrite>, BoardEditorError>)
        requires
            is_placement(cmd),
            old(self).board.selected_card@.len() == old(self).board.lists@.len(),
            ids_known(old(self).board),
            old(self).board.scroll_offset@.len() == old(self).board.lists@.len(),
        ensures
            final(self).board.selected_card@.len() == final(self).board.lists@.len(),
            final(self).board.scroll_offset@.len() == final(self).board.lists@.len(),
            final(self).diagnostics == old(self).diagnostics,
            final(self).last_added_card_id == if r is Ok && cmd is AddCard {
                Some(ctx.fresh_id)
            } else {
                old(self).last_added_card_id
            },
            match r {
                Ok(w) => placement_error(old(self).board, cmd, None)
                    && placed(old(self).board, cmd, *ctx, final(self).board, w@),
                Err(e) => placement_error(old(self).board, cmd, Some(e))
                    && final(self).board == old(self).board,
            },
    {
        let mut w: Vec<PendingWrite> = Vec::new();
        match cmd {
            Command::AddCard { list_id, title } => {
                let li = match find_list(&self.board.lists, list_id.as_str()) {
                    Some(i) => i,
                    None => {
                        return Err(BoardEditorError::NotFound { kind: EntityKind::List, id: list_id });
                    },
                };
                let mut c = Card::new_at(ctx.fresh_id.clone(), title, ctx.now);
                c.list_id = list_id;
                c.position = ctx.new_position;
                c.log_at(owned("Created"), ctx.now);
                let ghost lists0 = self.board.lists@;
                let mut l = self.board.lists.remove(li);
                l.card_ids.push(ctx.fresh_id.clone());
                self.board.lists.insert(li, l);
                assert(self.board.lists@ =~= lists0.update(
                    li as int,
                    CardList { card_ids: self.board.lists@[li as int].card_ids, ..lists0[li as int] },
                ));
                self.board.cards.push(c);
                self.last_added_card_id = Some(ctx.fresh_id.clone());
                self.board.selected_list = li;
                let count = self.board.visible_card_count(li);
                let ord = if count > 0 { count - 1 } else { 0 };
                self.board.selected_card.set(li, ord);
                proof {
                    super::lemma_visible_frame(
                        self.board,
                        LoadedBoard { selected_card: old(self).board.selected_card, ..self.board },
                        li as int,
                    );
                    assert(self.board.cards@.drop_last() =~= old(self).board.cards@);
                }
                w.push(PendingWrite::Card(ctx.fresh_id.clone()));
            },
            Command::RestoreCard { card_id } => {
                let k = match find_card(&self.board.cards, card_id.as_str()) {
                    Some(k) => k,
                    None => {
                        return Err(BoardEditorError::NotFound { kind: EntityKind::Card, id: card_id });
                    },
                };
                let ghost cards0 = self.board.cards@;
                let mut c = self.board.cards.remove(k);
                let home = find_list(&self.board.lists, c.list_id.as_str());
                c.archived = false;
                if home.is_none() && self.board.lists.len() > 0 {
                    c.list_id = self.board.lists[0].id.clone();
                    c.position = ctx.new_position;
                }
                c.log_at(owned("Restored from archive"), ctx.now);
                let restored = c.list_id.clone();
                self.board.cards.insert(k, c);
                assert(self.board.cards@ =~= cards0.update(k as int, self.board.cards@[k as int]));
                match find_list(&self.board.lists, restored.as_str()) {
                    Some(j) => {
                        if find_id(&self.board.lists[j].card_ids, &card_id).is_none() {
                            let ghost lists0 = self.board.lists@;
                            let mut l = self.board.lists.remove(j);
                            l.card_ids.push(card_id.clone());
                            self.board.lists.insert(j, l);
                            assert(self.board.lists@ =~= lists0.update(
                                j as int,
                                CardList { card_ids: self.board.lists@[j as int].card_ids, ..lists0[j as int] },
                            ));
                        }
                    },
                    None => {},
                }
                w.push(PendingWrite::Card(card_id));
            },
            Command::MoveCard { card_id, direction } => {
                let (src, ci) = match find_home(&self.board.lists, &card_id) {
                    Some(x) => x,
                    None => {
                        return Err(BoardEditorError::NotFound { kind: EntityKind::Card, id: card_id });
                    },
                };
                let dst = match self.board.plan_move(src, ci, direction) {
                    Some((d, _)) => d,
                    None => {
                        return Ok(w);
                    },
                };
                let k = match find_card(&self.board.cards, card_id.as_str()) {
                    Some(k) => k,
                    None => {
                        proof {
                            lemma_id_index(old(self).board.lists@[src as int].card_ids@, card_id@);
                            assert(index_of(old(self).board.cards@, old(self).board.lists@[src as int].card_ids@[ci as int]@) >= 0);
                        }
                        return Ok(w);
                    },
                };
                let sideways = direction == MoveDir::Left || direction == MoveDir::Right;
                let ghost cards0 = self.board.cards@;
                let mut c = self.board.cards.remove(k);
                if sideways {
                    c.list_id = self.board.lists[dst].id.clone();
                }
                c.position = ctx.new_position;
                self.board.cards.insert(k, c);
                assert(self.board.cards@ =~= cards0.update(k as int, self.board.cards@[k as int]));
                let ghost lists0 = self.board.lists@;
                self.board.rebuild_list(src);
                if dst != src {
                    self.board.rebuild_list(dst);
                }
                if sideways {
                    self.board.selected_list = dst;
                }
                let ghost mid = self.board;
                match find_id(&self.board.lists[dst].card_ids, &card_id) {
                    Some(raw) => {
                        let vis = self.board.visible_cards(dst, None);
                        match find_pos(&vis, raw) {
                            Some(o) => {
                                self.board.selected_card.set(dst, o);
                            },
                            None => {},
                        }
                    },
                    None => {},
                }
                proof {
                    super::lemma_visible_frame(self.board, mid, dst as int);
                }
                w.push(PendingWrite::Card(card_id));
            },
            _ => {},
        }
        Ok(w)
    }
}

} // verus!
