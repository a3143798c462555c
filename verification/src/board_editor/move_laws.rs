//! Where a moved card lands among the shown cards of its new list.

use vstd::prelude::*;

use super::apply::{applied_with, command_applied, settled};
use super::commands::{id_index, lemma_id_index};
use super::placement::{home_list, key_fits, lemma_home_list, move_plan, placed, placement_error, position_request_of};
use super::{
    first_pos, ids_unique, index_of, lemma_first_pos, lemma_index_of, lemma_visible_upto, lists_in_order, visible_of,
    well_formed, ApplyContext, BoardEditor, BoardEditorError, LoadedBoard, PendingWrite,
};
use crate::command::{Command, MoveDir};
use crate::model::card::Card;
use crate::model::ids::ShortId;
use crate::model::list::{card_before, is_member, is_sorted_members, ordered_ids_of};

verus! {

/// The ids of the shown cards a move of the card at index `ci` of list
/// `src` lands between: the one before its new slot and the one after
/// (`None` at an end of the list). They are the cards whose keys
/// [`move_plan`] asks the new position to fall between.
pub open spec fn move_neighbours(b: LoadedBoard, src: int, ci: int, dir: MoveDir) -> (Option<Seq<char>>, Option<Seq<char>>) {
    let vis = visible_of(b, src, None);
    let vp = first_pos(vis, ci as usize);
    let at = |li: int, raw: usize| b.lists@[li].card_ids@[raw as int]@;
    match dir {
        MoveDir::Up => (if vp >= 2 { Some(at(src, vis[vp - 2])) } else { None }, Some(at(src, vis[vp - 1]))),
        MoveDir::Down => (Some(at(src, vis[vp + 1])), if vp + 2 < vis.len() { Some(at(src, vis[vp + 2])) } else { None }),
        _ => {
            let dst = if dir == MoveDir::Left { src - 1 } else { src + 1 };
            let from = if vp >= 0 { vp } else { 0 };
            let vd = visible_of(b, dst, None);
            let ins = if from < vd.len() { from } else { vd.len() as int };
            (if ins > 0 { Some(at(dst, vd[ins - 1])) } else { None }, if ins < vd.len() { Some(at(dst, vd[ins])) } else { None })
        },
    }
}

/// In a well-formed board, the id at index `raw` of list `li` names a
/// card of that list, and no other index of the list names the same card.
proof fn lemma_listed_member(b: LoadedBoard, li: int, raw: int)
    requires
        ids_unique(b.cards@),
        lists_in_order(b),
        0 <= li < b.lists@.len(),
        0 <= raw < b.lists@[li].card_ids@.len(),
    ensures
        ({
            let ids = b.lists@[li].card_ids@;
            let k = index_of(b.cards@, ids[raw]@);
            &&& 0 <= k < b.cards@.len()
            &&& is_member(b.cards@, b.lists@[li].id@, k)
            &&& forall|r2: int| 0 <= r2 < ids.len() && r2 != raw ==> index_of(b.cards@, (#[trigger] ids[r2])@) != k
        }),
{
    let ids = b.lists@[li].card_ids@;
    assert(ordered_ids_of(b.cards@, b.lists@[li].id@, ids));
    let p = choose|p: Seq<int>|
        is_sorted_members(b.cards@, b.lists@[li].id@, p) && ids.len() == p.len() && forall|a: int|
            0 <= a < p.len() ==> #[trigger] ids[a]@ == b.cards@[p[a]].id@;
    assert forall|a: int| 0 <= a < p.len() implies index_of(b.cards@, (#[trigger] ids[a])@) == p[a] by {
        assert(is_member(b.cards@, b.lists@[li].id@, p[a]));
        lemma_index_of(b.cards@, ids[a]@);
        let k = index_of(b.cards@, ids[a]@);
        if k < 0 {
            assert(b.cards@[p[a]].id@ == ids[a]@);
        } else if k < p[a] {
            assert(b.cards@[k].id@ == b.cards@[p[a]].id@);
        } else if k > p[a] {
            assert(b.cards@[p[a]].id@ == b.cards@[k].id@);
        }
    }
    assert(ids[raw]@ == b.cards@[p[raw]].id@);
    assert(is_member(b.cards@, b.lists@[li].id@, p[raw]));
}

/// In a list ordered by `card_before`, a card with a smaller position
/// than another comes first.
proof fn lemma_sorted_before(cards: Seq<Card>, lid: Seq<char>, ids: Seq<ShortId>, j: int, k: int)
    requires
        ordered_ids_of(cards, lid, ids),
        ids_unique(cards),
        is_member(cards, lid, j),
        is_member(cards, lid, k),
        cards[j].position < cards[k].position,
    ensures
        0 <= id_index(ids, cards[j].id@) < id_index(ids, cards[k].id@),
{
    let p = choose|p: Seq<int>|
        is_sorted_members(cards, lid, p) && ids.len() == p.len() && forall|a: int|
            0 <= a < p.len() ==> #[trigger] ids[a]@ == cards[p[a]].id@;
    let a = choose|a: int| 0 <= a < p.len() && p[a] == j;
    let c = choose|c: int| 0 <= c < p.len() && p[c] == k;
    assert(p.contains(j));
    assert(p.contains(k));
    assert forall|x: int, y: int| 0 <= x < p.len() && 0 <= y < p.len() && x != y implies (#[trigger] ids[x])@ != (#[trigger] ids[y])@ by {
        assert(p[x] != p[y]);
        assert(ids[x]@ == cards[p[x]].id@);
        assert(ids[y]@ == cards[p[y]].id@);
        assert(is_member(cards, lid, p[x]));
        assert(is_member(cards, lid, p[y]));
        if p[x] < p[y] {
            assert(cards[p[x]].id@ != cards[p[y]].id@);
        } else {
            assert(cards[p[y]].id@ != cards[p[x]].id@);
        }
    }
    lemma_id_index(ids, cards[j].id@);
    lemma_id_index(ids, cards[k].id@);
    assert(ids[a]@ == cards[j].id@);
    assert(ids[c]@ == cards[k].id@);
    let ia = id_index(ids, cards[j].id@);
    let ic = id_index(ids, cards[k].id@);
    if ia != a {
        assert(ids[ia]@ == ids[a]@);
    }
    if ic != c {
        assert(ids[ic]@ == ids[c]@);
    }
    if c < a {
        assert(!card_before(cards[p[a]], cards[p[c]]));
    }
    assert(a != c);
}

/// A card is listed in an ordered list of its own list.
proof fn lemma_member_listed(cards: Seq<Card>, lid: Seq<char>, ids: Seq<ShortId>, k: int)
    requires
        ordered_ids_of(cards, lid, ids),
        is_member(cards, lid, k),
    ensures
        id_index(ids, cards[k].id@) >= 0,
{
    let p = choose|p: Seq<int>|
        is_sorted_members(cards, lid, p) && ids.len() == p.len() && forall|a: int|
            0 <= a < p.len() ==> #[trigger] ids[a]@ == cards[p[a]].id@;
    assert(p.contains(k));
    let a = choose|a: int| 0 <= a < p.len() && p[a] == k;
    assert(ids[a]@ == cards[k].id@);
    lemma_id_index(ids, cards[k].id@);
}

/// The shown neighbour at index `raw` of list `dst` keeps its place
/// relative to the moved card `k`, whose key was set on the other side of
/// the neighbour's key.
proof fn lemma_neighbour_order(
    b: LoadedBoard,
    cards2: Seq<Card>,
    ids2: Seq<ShortId>,
    k: int,
    dst: int,
    raw: int,
    neighbour_first: bool,
)
    requires
        well_formed(b),
        0 <= k < b.cards@.len(),
        0 <= dst < b.lists@.len(),
        0 <= raw < b.lists@[dst].card_ids@.len(),
        index_of(b.cards@, b.lists@[dst].card_ids@[raw]@) != k,
        cards2.len() == b.cards@.len(),
        forall|j: int| 0 <= j < cards2.len() && j != k ==> cards2[j] == b.cards@[j],
        cards2[k].id@ == b.cards@[k].id@,
        ids_unique(cards2),
        is_member(cards2, b.lists@[dst].id@, k),
        ordered_ids_of(cards2, b.lists@[dst].id@, ids2),
        neighbour_first ==> b.cards@[index_of(b.cards@, b.lists@[dst].card_ids@[raw]@)].position < cards2[k].position,
        !neighbour_first ==> cards2[k].position < b.cards@[index_of(b.cards@, b.lists@[dst].card_ids@[raw]@)].position,
    ensures
        neighbour_first ==> 0 <= id_index(ids2, b.lists@[dst].card_ids@[raw]@) < id_index(ids2, b.cards@[k].id@),
        !neighbour_first ==> 0 <= id_index(ids2, b.cards@[k].id@) < id_index(ids2, b.lists@[dst].card_ids@[raw]@),
{
    let nid = b.lists@[dst].card_ids@[raw]@;
    lemma_listed_member(b, dst, raw);
    let kp = index_of(b.cards@, nid);
    lemma_index_of(b.cards@, nid);
    assert(cards2[kp] == b.cards@[kp]);
    assert(is_member(cards2, b.lists@[dst].id@, kp));
    if neighbour_first {
        lemma_sorted_before(cards2, b.lists@[dst].id@, ids2, kp, k);
    } else {
        lemma_sorted_before(cards2, b.lists@[dst].id@, ids2, k, kp);
    }
}

/// A move lands where it was planned among the shown cards: after a
/// successful move on a well-formed board, with an order key where
/// `position_request` asks, the card is in its new list after the shown
/// card before its new slot and before the shown card after it (see
/// [`move_neighbours`]). Up and down thus trade places with the shown
/// neighbour, past any hidden cards between them.
pub proof fn lemma_move_lands_between(
    before: BoardEditor,
    after: BoardEditor,
    card_id: ShortId,
    direction: MoveDir,
    ctx: ApplyContext,
    r: Result<Vec<PendingWrite>, BoardEditorError>,
)
    requires
        well_formed(before.board),
        forall|li: int| 0 <= li < before.board.lists@.len() ==> (#[trigger] before.board.lists@[li]).card_ids@.len() <= usize::MAX,
        key_fits(position_request_of(before.board, Command::MoveCard { card_id, direction }), ctx.new_position),
        applied_with(before, after, Command::MoveCard { card_id, direction }, ctx, r),
        r is Ok,
    ensures
        ({
            let b = before.board;
            let src = home_list(b.lists@, card_id@);
            let ci = id_index(b.lists@[src].card_ids@, card_id@);
            match move_plan(b, src, ci, direction) {
                None => after.board.lists == b.lists && after.board.cards == b.cards,
                Some((dst, _)) => {
                    let ids2 = after.board.lists@[dst].card_ids@;
                    let m = id_index(ids2, card_id@);
                    let nb = move_neighbours(b, src, ci, direction);
                    &&& 0 <= m
                    &&& (nb.0 matches Some(pid) ==> 0 <= id_index(ids2, pid) < m)
                    &&& (nb.1 matches Some(nid) ==> m < id_index(ids2, nid))
                },
            }
        }),
{
    let cmd = Command::MoveCard { card_id, direction };
    let b = before.board;
    let w = r->Ok_0;
    let mid = choose|mid: LoadedBoard| command_applied(b, cmd, ctx, mid, w@) && #[trigger] settled(mid, after.board);
    assert(placed(b, cmd, ctx, mid, w@));
    assert(placement_error(b, cmd, None));
    let src = home_list(b.lists@, card_id@);
    lemma_home_list(b.lists@, card_id@);
    let ids = b.lists@[src].card_ids@;
    let ci = id_index(ids, card_id@);
    lemma_id_index(ids, card_id@);
    match move_plan(b, src, ci, direction) {
        None => {},
        Some((dst, q)) => {
            let k = index_of(b.cards@, card_id@);
            lemma_listed_member(b, src, ci);
            lemma_index_of(b.cards@, card_id@);
            let cards2 = mid.cards@;
            let c2 = cards2[k];
            assert(cards2 == b.cards@.update(k, c2));
            assert forall|i: int, j: int| 0 <= i < j < cards2.len() implies (#[trigger] cards2[i]).id@ != (#[trigger] cards2[j]).id@ by {
                assert(b.cards@[i].id@ != b.cards@[j].id@);
            }
            let lid = b.lists@[dst].id@;
            let sideways = direction == MoveDir::Left || direction == MoveDir::Right;
            if !sideways {
                assert(dst == src);
            }
            assert(is_member(cards2, lid, k));
            assert(after.board.lists == mid.lists);
            assert(ordered_ids_of(cards2, lid, mid.lists@[dst].card_ids@));
            let ids2 = mid.lists@[dst].card_ids@;
            lemma_member_listed(cards2, lid, ids2, k);
            let vis = visible_of(b, src, None);
            let vp = first_pos(vis, ci as usize);
            lemma_first_pos(vis, ci as usize);
            lemma_visible_upto(b, src, None, ids.len() as int);
            assert(b.lists@[src].card_ids@.len() <= usize::MAX);
            assert(b.lists@[dst].card_ids@.len() <= usize::MAX);
            lemma_visible_upto(b, dst, None, b.lists@[dst].card_ids@.len() as int);
            let nb = move_neighbours(b, src, ci, direction);
            match direction {
                MoveDir::Up => {
                    assert(vis[vp - 1] < vis[vp]);
                    lemma_neighbour_order(b, cards2, ids2, k, dst, vis[vp - 1] as int, false);
                    if vp >= 2 {
                        assert(vis[vp - 2] < vis[vp]);
                        lemma_neighbour_order(b, cards2, ids2, k, dst, vis[vp - 2] as int, true);
                    }
                },
                MoveDir::Down => {
                    assert(vis[vp] < vis[vp + 1]);
                    lemma_neighbour_order(b, cards2, ids2, k, dst, vis[vp + 1] as int, true);
                    if vp + 2 < vis.len() {
                        assert(vis[vp] < vis[vp + 2]);
                        lemma_neighbour_order(b, cards2, ids2, k, dst, vis[vp + 2] as int, false);
                    }
                },
                _ => {
                    assert(b.lists@[src].id@ != lid) by {
                        if src < dst {
                            assert(b.lists@[src].id@ != b.lists@[dst].id@);
                        } else {
                            assert(b.lists@[dst].id@ != b.lists@[src].id@);
                        }
                    }
                    let from = if vp >= 0 { vp } else { 0 };
                    let vd = visible_of(b, dst, None);
                    let ins = if from < vd.len() { from } else { vd.len() as int };
                    if ins > 0 {
                        let raw = vd[ins - 1] as int;
                        lemma_listed_member(b, dst, raw);
                        lemma_neighbour_order(b, cards2, ids2, k, dst, raw, true);
                    }
                    if ins < vd.len() {
                        let raw = vd[ins] as int;
                        lemma_listed_member(b, dst, raw);
                        lemma_neighbour_order(b, cards2, ids2, k, dst, raw, false);
                    }
                },
            }
        },
    }
}

} // verus!
