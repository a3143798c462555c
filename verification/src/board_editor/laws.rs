//! What every command keeps: a well-formed board stays well formed.

use vstd::prelude::*;

use super::apply::{applied_with, command_applied, command_error, settled};
use super::commands::{
    card_edit_done, card_edited, edited_card_id, is_card_edit, is_list_edit, is_meta_edit, lemma_clamp_ok,
    id_index, lemma_id_index, lemma_list_pos, lemma_meta_pos, lemma_same_order, list_edit_error, list_edited, list_move_target, list_pos, meta_edited, meta_pos,
    same_order, swapped,
};
use super::placement::{
    home_list, ids_known, is_placement, key_fits, lemma_home_list, max_key, move_plan, placed, placement_error,
    position_request_of,
};
use super::{
    ids_unique, index_of, lemma_index_of, lists_defined, lists_distinct, lists_in_order, no_orphans, same_order_fields,
    names_list, selection_ok, well_formed, ApplyContext, BoardEditor, BoardEditorError, LoadedBoard, PendingWrite,
};
use crate::command::{Command, MoveDir};
use crate::model::card::Card;
use crate::model::board::{BoardMeta, ListMeta};
use crate::model::list::CardList;
use crate::model::ids::ShortId;
use crate::model::list::{card_before, is_member, is_sorted_members, ordered_ids_of};

verus! {

/// List order survives a change of cards that keeps the members of the
/// list and their order fields.
pub proof fn lemma_order_frame(a: Seq<Card>, b: Seq<Card>, l: Seq<char>, ids: Seq<ShortId>)
    requires
        ordered_ids_of(a, l, ids),
        forall|k: int| #[trigger] is_member(a, l, k) <==> is_member(b, l, k),
        forall|k: int| is_member(a, l, k) ==> same_order_fields(#[trigger] a[k], b[k]),
    ensures
        ordered_ids_of(b, l, ids),
{
    let p = choose|p: Seq<int>|
        is_sorted_members(a, l, p) && ids.len() == p.len() && forall|x: int| 0 <= x < p.len() ==> #[trigger] ids[x]@ == a[p[x]].id@;
    assert forall|x: int, y: int| 0 <= x < y < p.len() implies !card_before(b[#[trigger] p[y]], b[#[trigger] p[x]]) by {
        assert(is_member(a, l, p[x]) && is_member(a, l, p[y]));
        assert(same_order_fields(a[p[x]], b[p[x]]));
        assert(same_order_fields(a[p[y]], b[p[y]]));
    }
    assert forall|x: int| 0 <= x < p.len() implies #[trigger] ids[x]@ == b[p[x]].id@ by {
        assert(is_member(a, l, p[x]));
        assert(same_order_fields(a[p[x]], b[p[x]]));
    }
    assert(is_sorted_members(b, l, p));
}

/// A list whose order is kept gains card `k` at its end when `k` becomes
/// a member that sorts after every other member.
pub proof fn lemma_order_extend(a: Seq<Card>, b: Seq<Card>, l: Seq<char>, ids: Seq<ShortId>, k: int, x: ShortId)
    requires
        x@ == b[k].id@,
        ordered_ids_of(a, l, ids),
        is_member(b, l, k),
        !is_member(a, l, k),
        forall|j: int| j != k ==> (#[trigger] is_member(a, l, j) <==> is_member(b, l, j)),
        forall|j: int| is_member(a, l, j) ==> same_order_fields(#[trigger] a[j], b[j]),
        forall|j: int| is_member(a, l, j) ==> !card_before(b[k], #[trigger] b[j]),
    ensures
        ordered_ids_of(b, l, ids.push(x)),
{
    let p = choose|p: Seq<int>|
        is_sorted_members(a, l, p) && ids.len() == p.len() && forall|x: int| 0 <= x < p.len() ==> #[trigger] ids[x]@ == a[p[x]].id@;
    let q = p.push(k);
    let ids2 = ids.push(x);
    assert forall|x: int| 0 <= x < q.len() implies is_member(b, l, #[trigger] q[x]) by {
        if x < p.len() {
            assert(is_member(a, l, p[x]));
            assert(p[x] != k);
        }
    }
    assert forall|j: int| is_member(b, l, j) implies q.contains(j) by {
        if j == k {
            assert(q[p.len() as int] == k);
        } else {
            assert(is_member(a, l, j));
            assert(p.contains(j));
            let w = choose|w: int| 0 <= w < p.len() && p[w] == j;
            assert(q[w] == j);
        }
    }
    assert forall|x: int, y: int| 0 <= x < y < q.len() implies q[x] != q[y] by {
        if y == p.len() {
            assert(is_member(a, l, p[x]));
        } else {
            assert(q[x] == p[x] && q[y] == p[y]);
        }
    }
    assert forall|x: int, y: int| 0 <= x < y < q.len() implies !card_before(b[#[trigger] q[y]], b[#[trigger] q[x]]) by {
        assert(q[x] == p[x]);
        assert(is_member(a, l, p[x]));
        assert(same_order_fields(a[p[x]], b[p[x]]));
        if y < p.len() {
            assert(q[y] == p[y]);
            assert(is_member(a, l, p[y]));
            assert(same_order_fields(a[p[y]], b[p[y]]));
            assert(!card_before(a[p[y]], a[p[x]]));
        }
    }
    assert forall|x: int| 0 <= x < q.len() implies #[trigger] ids2[x]@ == b[q[x]].id@ by {
        if x < p.len() {
            assert(ids2[x] == ids[x]);
            assert(is_member(a, l, p[x]));
            assert(same_order_fields(a[p[x]], b[p[x]]));
        }
    }
    assert(is_sorted_members(b, l, q) && ids2.len() == q.len() && forall|x: int| 0 <= x < q.len() ==> #[trigger] ids2[x]@ == b[q[x]].id@);
}

/// The largest key of a list bounds the key of each of its cards; a list
/// without cards has none.
pub proof fn lemma_max_key(cards: Seq<Card>, l: Seq<char>)
    ensures
        max_key(cards, l) is None ==> forall|k: int| !#[trigger] is_member(cards, l, k),
        max_key(cards, l) is Some ==> forall|k: int| #[trigger] is_member(cards, l, k) ==> cards[k].position <= max_key(cards, l)->0,
    decreases cards.len(),
{
    if cards.len() > 0 {
        let d = cards.drop_last();
        lemma_max_key(d, l);
        assert forall|k: int| 0 <= k < d.len() implies #[trigger] is_member(d, l, k) == is_member(cards, l, k) by {
            assert(d[k] == cards[k]);
        }
        let n = cards.len() - 1;
        if max_key(cards, l) is None {
            assert forall|k: int| !#[trigger] is_member(cards, l, k) by {
                if 0 <= k < n {
                    assert(is_member(d, l, k) == is_member(cards, l, k));
                }
            }
        } else {
            assert forall|k: int| #[trigger] is_member(cards, l, k) implies cards[k].position <= max_key(cards, l)->0 by {
                if k < n {
                    assert(is_member(d, l, k));
                }
            }
        }
    }
}

/// In a board whose lists are in order, every listed id names a card.
pub proof fn lemma_ordered_ids_known(b: LoadedBoard)
    requires
        lists_in_order(b),
    ensures
        ids_known(b),
{
    assert forall|li: int, a: int|
        0 <= li < b.lists@.len() && 0 <= a < b.lists@[li].card_ids@.len() implies index_of(
            b.cards@,
            (#[trigger] b.lists@[li].card_ids@[a])@,
        ) >= 0 by {
        let l = b.lists@[li];
        assert(ordered_ids_of(b.cards@, l.id@, l.card_ids@));
        let p = choose|p: Seq<int>|
            is_sorted_members(b.cards@, l.id@, p) && l.card_ids@.len() == p.len() && forall|x: int|
                0 <= x < p.len() ==> #[trigger] l.card_ids@[x]@ == b.cards@[p[x]].id@;
        assert(l.card_ids@[a]@ == b.cards@[p[a]].id@);
        assert(is_member(b.cards@, l.id@, p[a]));
        lemma_index_of(b.cards@, l.card_ids@[a]@);
    }
}

/// A well-formed board meets what `apply` requires.
pub proof fn lemma_well_formed_applicable(b: LoadedBoard)
    requires
        well_formed(b),
    ensures
        ids_known(b),
        b.selected_card@.len() == b.lists@.len(),
        b.scroll_offset@.len() == b.lists@.len(),
{
    lemma_ordered_ids_known(b);
}

/// One selection slot per active list, and the selected list in range.
pub open spec fn slots_ok(b: LoadedBoard) -> bool {
    &&& b.selected_card@.len() == b.lists@.len()
    &&& b.scroll_offset@.len() == b.lists@.len()
    &&& b.lists@.len() > 0 ==> b.selected_list < b.lists@.len()
}

/// The invariants of a well-formed board other than the selected
/// ordinals, which clamping restores.
pub open spec fn shape_ok(b: LoadedBoard) -> bool {
    &&& ids_unique(b.cards@)
    &&& no_orphans(b)
    &&& lists_defined(b)
    &&& lists_distinct(b)
    &&& lists_in_order(b)
    &&& slots_ok(b)
}

proof fn lemma_settled_well_formed(mid: LoadedBoard, fin: LoadedBoard)
    requires
        shape_ok(mid),
        settled(mid, fin),
    ensures
        well_formed(fin),
{
    lemma_clamp_ok(mid, fin);
}

proof fn lemma_card_edited_order(b: LoadedBoard, cmd: Command, c: Card, c2: Card, now: crate::model::ids::Timestamp)
    requires
        card_edited(b, cmd, c, c2, now),
    ensures
        same_order_fields(c, c2),
{
}

proof fn lemma_card_edit_shape(b: LoadedBoard, cmd: Command, ctx: ApplyContext, mid: LoadedBoard, w: Seq<PendingWrite>)
    requires
        well_formed(b),
        is_card_edit(cmd),
        card_edit_done(b, cmd, ctx.now, mid, w),
    ensures
        shape_ok(mid),
{
    let k = index_of(b.cards@, edited_card_id(cmd));
    lemma_card_edited_order(b, cmd, b.cards@[k], mid.cards@[k], ctx.now);
    assert(same_order(b.cards@, mid.cards@)) by {
        assert forall|j: int| 0 <= j < b.cards@.len() implies same_order_fields(#[trigger] b.cards@[j], mid.cards@[j]) by {
            if j != k {
                assert(mid.cards@[j] == b.cards@[j]);
            }
        }
    }
    lemma_same_order(b.cards@, mid.cards@);
    assert forall|j: int| 0 <= j < mid.cards@.len() implies super::names_list(mid.meta.lists@, (#[trigger] mid.cards@[j]).list_id@) by {
        assert(same_order_fields(b.cards@[j], mid.cards@[j]));
    }
    assert forall|li: int| 0 <= li < mid.lists@.len() implies ordered_ids_of(mid.cards@, (#[trigger] mid.lists@[li]).id@, mid.lists@[li].card_ids@) by {
        assert(ordered_ids_of(b.cards@, b.lists@[li].id@, b.lists@[li].card_ids@));
    }
}

proof fn lemma_meta_edit_shape(b: LoadedBoard, cmd: Command, ctx: ApplyContext, mid: LoadedBoard)
    requires
        well_formed(b),
        is_meta_edit(cmd),
        mid == (LoadedBoard { meta: mid.meta, ..b }),
        meta_edited(b.meta, cmd, ctx.fresh_id, mid.meta),
    ensures
        shape_ok(mid),
{
    assert(mid.meta.lists == b.meta.lists);
}

/// `id` is new to the board: no card and no list definition has it.
pub open spec fn fresh_for(b: LoadedBoard, id: ShortId) -> bool {
    &&& forall|k: int| 0 <= k < b.cards@.len() ==> (#[trigger] b.cards@[k]).id@ != id@
    &&& forall|m: int| 0 <= m < b.meta.lists@.len() ==> (#[trigger] b.meta.lists@[m]).id@ != id@
}

/// `RestoreList` of a list that is already active (two active lists
/// would share an id), or on a board without active lists whose selected
/// list index is not 0 (restoring does not move the selection, which would
/// then point past the only list).
pub open spec fn restore_breaks(b: LoadedBoard, cmd: Command) -> bool {
    cmd matches Command::RestoreList { list_id } && (list_pos(b.lists@, list_id@) >= 0 || (b.lists@.len() == 0
        && b.selected_list > 0))
}

/// Every id `m1` defines, `m2` defines too.
pub open spec fn ids_cover(m1: Seq<ListMeta>, m2: Seq<ListMeta>) -> bool {
    forall|i: int| 0 <= i < m1.len() ==> names_list(m2, (#[trigger] m1[i]).id@)
}

proof fn lemma_names_cover(m1: Seq<ListMeta>, m2: Seq<ListMeta>, x: Seq<char>)
    requires
        ids_cover(m1, m2),
        names_list(m1, x),
    ensures
        names_list(m2, x),
{
    let i = choose|i: int| 0 <= i < m1.len() && (#[trigger] m1[i]).id@ == x;
    assert(names_list(m2, m1[i].id@));
}

proof fn lemma_same_ids_cover(m1: Seq<ListMeta>, m2: Seq<ListMeta>)
    requires
        m1.len() <= m2.len(),
        forall|i: int| 0 <= i < m1.len() ==> (#[trigger] m2[i]).id == m1[i].id,
    ensures
        ids_cover(m1, m2),
{
    assert forall|i: int| 0 <= i < m1.len() implies names_list(m2, (#[trigger] m1[i]).id@) by {
        assert(m2[i].id@ == m1[i].id@);
    }
}

proof fn lemma_swapped_cover(m1: Seq<ListMeta>, a: int, c: int)
    requires
        0 <= a < m1.len(),
        0 <= c < m1.len(),
    ensures
        ids_cover(m1, swapped(m1, a, c)),
{
    let m2 = swapped(m1, a, c);
    assert forall|i: int| 0 <= i < m1.len() implies names_list(m2, (#[trigger] m1[i]).id@) by {
        if i == a {
            assert(m2[c] == m1[a]);
        } else if i == c {
            assert(m2[a] == m1[c]);
        } else {
            assert(m2[i] == m1[i]);
        }
    }
}

/// A board keeps its orphan-free cards and defined lists when its list
/// definitions keep every id.
proof fn lemma_defined_kept(b: LoadedBoard, mid: LoadedBoard)
    requires
        no_orphans(b),
        lists_defined(b),
        ids_cover(b.meta.lists@, mid.meta.lists@),
        mid.cards == b.cards,
    ensures
        no_orphans(mid),
        forall|li: int| 0 <= li < b.lists@.len() ==> names_list(mid.meta.lists@, (#[trigger] b.lists@[li]).id@),
{
    assert forall|k: int| 0 <= k < mid.cards@.len() implies names_list(mid.meta.lists@, (#[trigger] mid.cards@[k]).list_id@) by {
        lemma_names_cover(b.meta.lists@, mid.meta.lists@, b.cards@[k].list_id@);
    }
    assert forall|li: int| 0 <= li < b.lists@.len() implies names_list(mid.meta.lists@, (#[trigger] b.lists@[li]).id@) by {
        lemma_names_cover(b.meta.lists@, mid.meta.lists@, b.lists@[li].id@);
    }
}

proof fn lemma_list_edit_shape(b: LoadedBoard, cmd: Command, ctx: ApplyContext, mid: LoadedBoard, w: Seq<PendingWrite>)
    requires
        well_formed(b),
        is_list_edit(cmd),
        fresh_for(b, ctx.fresh_id),
        !restore_breaks(b, cmd),
        list_edit_error(b, cmd, None),
        list_edited(b, cmd, ctx.fresh_id, mid, w),
    ensures
        shape_ok(mid),
{
    let n = b.lists@.len();
    match cmd {
        Command::AddList { name } => {
            let m = b.meta.lists@.len();
            assert(mid.lists@.len() == n + 1);
            assert(mid.selected_list == n);
            assert(mid.selected_card@.len() == n + 1);
            assert(mid.scroll_offset@.len() == n + 1);
            lemma_same_ids_cover(b.meta.lists@, mid.meta.lists@);
            lemma_defined_kept(b, mid);
            assert(mid.meta.lists@[m as int].id == ctx.fresh_id);
            assert forall|li: int| 0 <= li < mid.lists@.len() implies names_list(mid.meta.lists@, (#[trigger] mid.lists@[li]).id@) by {
                if li < n {
                    assert(mid.lists@[li] == b.lists@[li]);
                }
            }
            assert forall|i: int, j: int| 0 <= i < j < mid.lists@.len() implies (#[trigger] mid.lists@[i]).id@ != (#[trigger] mid.lists@[j]).id@ by {
                assert(mid.lists@[i] == b.lists@[i]);
                if j == n {
                    let w = choose|w: int| 0 <= w < b.meta.lists@.len() && (#[trigger] b.meta.lists@[w]).id@ == b.lists@[i].id@;
                } else {
                    assert(mid.lists@[j] == b.lists@[j]);
                }
            }
            assert forall|li: int| 0 <= li < mid.lists@.len() implies ordered_ids_of(mid.cards@, (#[trigger] mid.lists@[li]).id@, mid.lists@[li].card_ids@) by {
                if li < n {
                    assert(mid.lists@[li] == b.lists@[li]);
                } else {
                    let p: Seq<int> = seq![];
                    assert forall|k: int| !is_member(mid.cards@, ctx.fresh_id@, k) by {
                        if 0 <= k < mid.cards@.len() {
                            let w = choose|w: int| 0 <= w < b.meta.lists@.len() && (#[trigger] b.meta.lists@[w]).id@ == b.cards@[k].list_id@;
                        }
                    }
                    assert(mid.lists@[li].card_ids@ =~= seq![]);
                    assert(is_sorted_members(mid.cards@, mid.lists@[li].id@, p) && mid.lists@[li].card_ids@.len() == p.len()
                        && forall|a: int| 0 <= a < p.len() ==> #[trigger] mid.lists@[li].card_ids@[a]@ == mid.cards@[p[a]].id@);
                }
            }
            assert(slots_ok(mid));
        },
        Command::ArchiveList { list_id } => {
            let pos = list_pos(b.lists@, list_id@);
            lemma_list_pos(b.lists@, list_id@);
            lemma_meta_pos(b.meta.lists@, list_id@);
            lemma_same_ids_cover(b.meta.lists@, mid.meta.lists@);
            lemma_defined_kept(b, mid);
            assert(mid.lists@ == b.lists@.remove(pos));
            let n2 = n - 1;
            if b.selected_list > 0 && b.selected_list >= n2 && n2 > 0 {
                assert(((n2 - 1) as usize) as int == n2 - 1);
            }
            assert forall|li: int| 0 <= li < mid.lists@.len() implies #[trigger] mid.lists@[li] == b.lists@[if li < pos { li } else { li + 1 }] by {
                assert(b.lists@.remove(pos)[li] == b.lists@[if li < pos { li } else { li + 1 }]);
            }
            assert forall|i: int, j: int| 0 <= i < j < mid.lists@.len() implies (#[trigger] mid.lists@[i]).id@ != (#[trigger] mid.lists@[j]).id@ by {
                let i2 = if i < pos { i } else { i + 1 };
                let j2 = if j < pos { j } else { j + 1 };
                assert(b.lists@[i2].id@ != b.lists@[j2].id@);
            }
            assert forall|li: int| 0 <= li < mid.lists@.len() implies names_list(mid.meta.lists@, (#[trigger] mid.lists@[li]).id@) by {
                let l2 = if li < pos { li } else { li + 1 };
                assert(names_list(mid.meta.lists@, b.lists@[l2].id@));
            }
            assert forall|li: int| 0 <= li < mid.lists@.len() implies ordered_ids_of(mid.cards@, (#[trigger] mid.lists@[li]).id@, mid.lists@[li].card_ids@) by {
                let l2 = if li < pos { li } else { li + 1 };
                assert(ordered_ids_of(b.cards@, b.lists@[l2].id@, b.lists@[l2].card_ids@));
            }
            assert(slots_ok(mid));
        },
        Command::RestoreList { list_id } => {
            let m = meta_pos(b.meta.lists@, list_id@);
            lemma_meta_pos(b.meta.lists@, list_id@);
            lemma_list_pos(b.lists@, list_id@);
            lemma_same_ids_cover(b.meta.lists@, mid.meta.lists@);
            lemma_defined_kept(b, mid);
            assert forall|li: int| 0 <= li < mid.lists@.len() implies names_list(mid.meta.lists@, (#[trigger] mid.lists@[li]).id@) by {
                if li < n {
                    assert(mid.lists@[li] == b.lists@[li]);
                } else {
                    assert(mid.meta.lists@[m].id@ == list_id@);
                }
            }
            assert forall|i: int, j: int| 0 <= i < j < mid.lists@.len() implies (#[trigger] mid.lists@[i]).id@ != (#[trigger] mid.lists@[j]).id@ by {
                assert(mid.lists@[i] == b.lists@[i]);
                if j < n {
                    assert(mid.lists@[j] == b.lists@[j]);
                }
            }
            assert forall|li: int| 0 <= li < mid.lists@.len() implies ordered_ids_of(mid.cards@, (#[trigger] mid.lists@[li]).id@, mid.lists@[li].card_ids@) by {
                if li < n {
                    assert(mid.lists@[li] == b.lists@[li]);
                }
            }
            assert(slots_ok(mid));
        },
        Command::RenameList { list_id, name } => {
            let p = list_pos(b.lists@, list_id@);
            lemma_meta_pos(b.meta.lists@, list_id@);
            lemma_list_pos(b.lists@, list_id@);
            lemma_same_ids_cover(b.meta.lists@, mid.meta.lists@);
            lemma_defined_kept(b, mid);
            assert forall|li: int| 0 <= li < mid.lists@.len() implies (#[trigger] mid.lists@[li]).id == b.lists@[li].id
                && mid.lists@[li].card_ids == b.lists@[li].card_ids by {}
            assert(slots_ok(mid));
        },
        Command::MoveList { list_id, direction } => {
            let i = list_pos(b.lists@, list_id@);
            lemma_list_pos(b.lists@, list_id@);
            match list_move_target(n as int, i, direction) {
                None => {},
                Some(t) => {
                    let mi = meta_pos(b.meta.lists@, b.lists@[i].id@);
                    let mt = meta_pos(b.meta.lists@, b.lists@[t].id@);
                    lemma_meta_pos(b.meta.lists@, b.lists@[i].id@);
                    lemma_meta_pos(b.meta.lists@, b.lists@[t].id@);
                    if mi >= 0 && mt >= 0 {
                        lemma_swapped_cover(b.meta.lists@, mi, mt);
                    } else {
                        lemma_same_ids_cover(b.meta.lists@, mid.meta.lists@);
                    }
                    lemma_defined_kept(b, mid);
                    let lo = if i < t { i } else { t };
                    let hi = if i < t { t } else { i };
                    let perm = |x: int| if x == lo { hi } else if x == hi { lo } else { x };
                    assert forall|x: int| 0 <= x < n implies #[trigger] mid.lists@[x] == b.lists@[perm(x)] by {}
                    assert forall|x: int, y: int| 0 <= x < y < mid.lists@.len() implies (#[trigger] mid.lists@[x]).id@ != (#[trigger] mid.lists@[y]).id@ by {
                        assert(mid.lists@[x] == b.lists@[perm(x)]);
                        assert(mid.lists@[y] == b.lists@[perm(y)]);
                        if perm(x) < perm(y) {
                            assert(b.lists@[perm(x)].id@ != b.lists@[perm(y)].id@);
                        } else {
                            assert(b.lists@[perm(y)].id@ != b.lists@[perm(x)].id@);
                        }
                    }
                    assert forall|li: int| 0 <= li < mid.lists@.len() implies names_list(mid.meta.lists@, (#[trigger] mid.lists@[li]).id@) by {
                        assert(mid.lists@[li] == b.lists@[perm(li)]);
                        assert(names_list(mid.meta.lists@, b.lists@[perm(li)].id@));
                    }
                    assert forall|li: int| 0 <= li < mid.lists@.len() implies ordered_ids_of(mid.cards@, (#[trigger] mid.lists@[li]).id@, mid.lists@[li].card_ids@) by {
                        assert(mid.lists@[li] == b.lists@[perm(li)]);
                        assert(ordered_ids_of(b.cards@, b.lists@[perm(li)].id@, b.lists@[perm(li)].card_ids@));
                    }
                    assert(slots_ok(mid));
                },
            }
        },
        _ => {},
    }
}

/// A member of a list whose order is kept has its id among the list's ids.
proof fn lemma_member_listed(cards: Seq<Card>, l: Seq<char>, ids: Seq<ShortId>, k: int)
    requires
        ordered_ids_of(cards, l, ids),
        is_member(cards, l, k),
    ensures
        id_index(ids, cards[k].id@) >= 0,
{
    let p = choose|p: Seq<int>|
        is_sorted_members(cards, l, p) && ids.len() == p.len() && forall|x: int| 0 <= x < p.len() ==> #[trigger] ids[x]@ == cards[p[x]].id@;
    assert(p.contains(k));
    let w = choose|w: int| 0 <= w < p.len() && p[w] == k;
    assert(ids[w]@ == cards[p[w]].id@);
    lemma_id_index(ids, cards[k].id@);
}

/// With unique card ids, an id listed in a list whose order is kept is
/// the id of a member of that list.
proof fn lemma_listed_member(cards: Seq<Card>, l: Seq<char>, ids: Seq<ShortId>, id: Seq<char>)
    requires
        ordered_ids_of(cards, l, ids),
        ids_unique(cards),
        id_index(ids, id) >= 0,
    ensures
        index_of(cards, id) >= 0,
        is_member(cards, l, index_of(cards, id)),
{
    let p = choose|p: Seq<int>|
        is_sorted_members(cards, l, p) && ids.len() == p.len() && forall|x: int| 0 <= x < p.len() ==> #[trigger] ids[x]@ == cards[p[x]].id@;
    lemma_id_index(ids, id);
    let a = id_index(ids, id);
    assert(ids[a]@ == cards[p[a]].id@);
    assert(is_member(cards, l, p[a]));
    lemma_index_of(cards, id);
    let k = index_of(cards, id);
    if k != p[a] {
        if k < p[a] {
            assert(cards[k].id@ != cards[p[a]].id@);
        } else {
            assert(cards[p[a]].id@ != cards[k].id@);
        }
    }
}

/// Cards `a` and `b` differ at most at `k`, and neither version of card
/// `k` belongs to `l`: the order of `l` carries over.
proof fn lemma_order_frame_at(a: Seq<Card>, b: Seq<Card>, l: Seq<char>, ids: Seq<ShortId>, k: int)
    requires
        ordered_ids_of(a, l, ids),
        b.len() >= a.len(),
        forall|j: int| 0 <= j < b.len() && j != k ==> j < a.len() && b[j] == a[j],
        !is_member(a, l, k),
        !is_member(b, l, k),
    ensures
        ordered_ids_of(b, l, ids),
{
    assert forall|j: int| #[trigger] is_member(a, l, j) <==> is_member(b, l, j) by {
        if j != k && 0 <= j < b.len() {
            assert(b[j] == a[j]);
        }
    }
    lemma_order_frame(a, b, l, ids);
}

proof fn lemma_placement_shape(b: LoadedBoard, cmd: Command, ctx: ApplyContext, mid: LoadedBoard, w: Seq<PendingWrite>)
    requires
        well_formed(b),
        is_placement(cmd),
        fresh_for(b, ctx.fresh_id),
        key_fits(position_request_of(b, cmd), ctx.new_position),
        placement_error(b, cmd, None),
        placed(b, cmd, ctx, mid, w),
    ensures
        shape_ok(mid),
{
    let n = b.lists@.len();
    match cmd {
        Command::AddCard { list_id, title } => {
            let li = list_pos(b.lists@, list_id@);
            lemma_list_pos(b.lists@, list_id@);
            let nc = b.cards@.len();
            let c = mid.cards@[nc as int];
            assert forall|j: int| 0 <= j < nc implies #[trigger] mid.cards@[j] == b.cards@[j] by {
                assert(mid.cards@.drop_last()[j] == mid.cards@[j]);
            }
            assert forall|i: int, j: int| 0 <= i < j < mid.cards@.len() implies (#[trigger] mid.cards@[i]).id@ != (#[trigger] mid.cards@[j]).id@ by {
                if j == nc {
                    assert(b.cards@[i].id@ != ctx.fresh_id@);
                }
            }
            assert forall|k: int| 0 <= k < mid.cards@.len() implies names_list(mid.meta.lists@, (#[trigger] mid.cards@[k]).list_id@) by {
                if k == nc {
                    assert(names_list(b.meta.lists@, b.lists@[li].id@));
                }
            }
            lemma_max_key(b.cards@, list_id@);
            assert forall|x: int| 0 <= x < mid.lists@.len() implies ordered_ids_of(mid.cards@, (#[trigger] mid.lists@[x]).id@, mid.lists@[x].card_ids@) by {
                let l = b.lists@[x];
                assert(ordered_ids_of(b.cards@, l.id@, l.card_ids@));
                if x == li {
                    assert forall|j: int| is_member(b.cards@, l.id@, j) implies !card_before(mid.cards@[nc as int], #[trigger] mid.cards@[j]) by {}
                    assert forall|j: int| j != nc implies (#[trigger] is_member(b.cards@, l.id@, j) <==> is_member(mid.cards@, l.id@, j)) by {}
                    lemma_order_extend(b.cards@, mid.cards@, l.id@, l.card_ids@, nc as int, ctx.fresh_id);
                } else {
                    if x < li {
                        assert(b.lists@[x].id@ != b.lists@[li].id@);
                    } else {
                        assert(b.lists@[li].id@ != b.lists@[x].id@);
                    }
                    lemma_order_frame_at(b.cards@, mid.cards@, l.id@, l.card_ids@, nc as int);
                }
            }
            assert forall|x: int| 0 <= x < mid.lists@.len() implies (#[trigger] mid.lists@[x]).id == b.lists@[x].id by {}
        },
        Command::RestoreCard { card_id } => {
            let k = index_of(b.cards@, card_id@);
            lemma_index_of(b.cards@, card_id@);
            let c = b.cards@[k];
            let c2 = mid.cards@[k];
            let home = list_pos(b.lists@, c.list_id@);
            lemma_list_pos(b.lists@, c.list_id@);
            assert forall|j: int| 0 <= j < mid.cards@.len() && j != k implies #[trigger] mid.cards@[j] == b.cards@[j] by {}
            assert forall|i: int, j: int| 0 <= i < j < mid.cards@.len() implies (#[trigger] mid.cards@[i]).id@ != (#[trigger] mid.cards@[j]).id@ by {
                assert(b.cards@[i].id@ != b.cards@[j].id@);
            }
            if home >= 0 || n == 0 {
                assert(same_order(b.cards@, mid.cards@)) by {
                    assert forall|j: int| 0 <= j < b.cards@.len() implies same_order_fields(#[trigger] b.cards@[j], mid.cards@[j]) by {}
                }
                lemma_same_order(b.cards@, mid.cards@);
                if home >= 0 {
                    assert(ordered_ids_of(b.cards@, b.lists@[home].id@, b.lists@[home].card_ids@));
                    lemma_member_listed(b.cards@, b.lists@[home].id@, b.lists@[home].card_ids@, k);
                }
                assert(mid.lists@ == b.lists@);
                assert forall|j: int| 0 <= j < mid.cards@.len() implies names_list(mid.meta.lists@, (#[trigger] mid.cards@[j]).list_id@) by {
                    assert(same_order_fields(b.cards@[j], mid.cards@[j]));
                }
                assert forall|li: int| 0 <= li < mid.lists@.len() implies ordered_ids_of(mid.cards@, (#[trigger] mid.lists@[li]).id@, mid.lists@[li].card_ids@) by {
                    assert(ordered_ids_of(b.cards@, b.lists@[li].id@, b.lists@[li].card_ids@));
                }
            } else {
                let l0 = b.lists@[0];
                lemma_list_pos(b.lists@, l0.id@);
                assert(list_pos(b.lists@, l0.id@) == 0);
                assert(ordered_ids_of(b.cards@, l0.id@, l0.card_ids@));
                if id_index(l0.card_ids@, card_id@) >= 0 {
                    lemma_listed_member(b.cards@, l0.id@, l0.card_ids@, card_id@);
                    assert(false);
                }
                lemma_max_key(b.cards@, l0.id@);
                assert forall|x: int| 0 <= x < mid.lists@.len() implies ordered_ids_of(mid.cards@, (#[trigger] mid.lists@[x]).id@, mid.lists@[x].card_ids@) by {
                    let l = b.lists@[x];
                    assert(ordered_ids_of(b.cards@, l.id@, l.card_ids@));
                    if x == 0 {
                        assert forall|j: int| is_member(b.cards@, l.id@, j) implies !card_before(mid.cards@[k], #[trigger] mid.cards@[j]) by {
                            assert(j != k);
                        }
                        assert forall|j: int| j != k implies (#[trigger] is_member(b.cards@, l.id@, j) <==> is_member(mid.cards@, l.id@, j)) by {}
                        assert forall|j: int| is_member(b.cards@, l.id@, j) implies same_order_fields(#[trigger] b.cards@[j], mid.cards@[j]) by {
                            assert(j != k);
                        }
                        lemma_order_extend(b.cards@, mid.cards@, l.id@, l.card_ids@, k, card_id);
                    } else {
                        assert(b.lists@[0].id@ != b.lists@[x].id@);
                        lemma_order_frame_at(b.cards@, mid.cards@, l.id@, l.card_ids@, k);
                    }
                }
                assert forall|j: int| 0 <= j < mid.cards@.len() implies names_list(mid.meta.lists@, (#[trigger] mid.cards@[j]).list_id@) by {
                    if j == k {
                        assert(names_list(b.meta.lists@, b.lists@[0].id@));
                    }
                }
                assert forall|x: int| 0 <= x < mid.lists@.len() implies (#[trigger] mid.lists@[x]).id == b.lists@[x].id by {}
            }
        },
        Command::MoveCard { card_id, direction } => {
            let src = home_list(b.lists@, card_id@);
            lemma_home_list(b.lists@, card_id@);
            let ci = id_index(b.lists@[src].card_ids@, card_id@);
            match move_plan(b, src, ci, direction) {
                None => {},
                Some((dst, _)) => {
                    let ls = b.lists@[src];
                    assert(ordered_ids_of(b.cards@, ls.id@, ls.card_ids@));
                    lemma_listed_member(b.cards@, ls.id@, ls.card_ids@, card_id@);
                    let k = index_of(b.cards@, card_id@);
                    lemma_index_of(b.cards@, card_id@);
                    assert forall|j: int| 0 <= j < mid.cards@.len() && j != k implies #[trigger] mid.cards@[j] == b.cards@[j] by {}
                    assert forall|i: int, j: int| 0 <= i < j < mid.cards@.len() implies (#[trigger] mid.cards@[i]).id@ != (#[trigger] mid.cards@[j]).id@ by {
                        assert(b.cards@[i].id@ != b.cards@[j].id@);
                    }
                    assert forall|x: int| 0 <= x < mid.lists@.len() implies (#[trigger] mid.lists@[x]).id == b.lists@[x].id by {}
                    assert forall|j: int| 0 <= j < mid.cards@.len() implies names_list(mid.meta.lists@, (#[trigger] mid.cards@[j]).list_id@) by {
                        if j == k && (direction == MoveDir::Left || direction == MoveDir::Right) {
                            assert(names_list(b.meta.lists@, b.lists@[dst].id@));
                        }
                    }
                    assert forall|x: int| 0 <= x < mid.lists@.len() implies ordered_ids_of(mid.cards@, (#[trigger] mid.lists@[x]).id@, mid.lists@[x].card_ids@) by {
                        if x != src && x != dst {
                            let l = b.lists@[x];
                            assert(ordered_ids_of(b.cards@, l.id@, l.card_ids@));
                            if x < src {
                                assert(b.lists@[x].id@ != b.lists@[src].id@);
                            } else {
                                assert(b.lists@[src].id@ != b.lists@[x].id@);
                            }
                            if x < dst {
                                assert(b.lists@[x].id@ != b.lists@[dst].id@);
                            } else {
                                assert(b.lists@[dst].id@ != b.lists@[x].id@);
                            }
                            lemma_order_frame_at(b.cards@, mid.cards@, l.id@, l.card_ids@, k);
                        }
                    }
                },
            }
        },
        _ => {},
    }
}

/// Applying a command to a well-formed board leaves it well formed:
/// card ids stay unique, every card keeps a defined list, active lists
/// stay defined and distinct, each list's card ids stay its members in
/// order, and the selection fits. This holds when the fresh id is new to
/// the board, the order key lies where `position_request` asks, and the
/// command is not a `RestoreList` that `restore_breaks` names.
pub proof fn lemma_apply_keeps_well_formed(
    before: BoardEditor,
    after: BoardEditor,
    cmd: Command,
    ctx: ApplyContext,
    r: Result<Vec<PendingWrite>, BoardEditorError>,
)
    requires
        well_formed(before.board),
        fresh_for(before.board, ctx.fresh_id),
        key_fits(position_request_of(before.board, cmd), ctx.new_position),
        !restore_breaks(before.board, cmd),
        applied_with(before, after, cmd, ctx, r),
    ensures
        well_formed(after.board),
{
    let b = before.board;
    match r {
        Ok(w) => {
            let mid = choose|mid: LoadedBoard| command_applied(b, cmd, ctx, mid, w@) && #[trigger] settled(mid, after.board);
            if is_card_edit(cmd) {
                lemma_card_edit_shape(b, cmd, ctx, mid, w@);
            } else if is_meta_edit(cmd) {
                lemma_meta_edit_shape(b, cmd, ctx, mid);
            } else if is_list_edit(cmd) {
                lemma_list_edit_shape(b, cmd, ctx, mid, w@);
            } else {
                lemma_placement_shape(b, cmd, ctx, mid, w@);
            }
            lemma_settled_well_formed(mid, after.board);
        },
        Err(_) => {},
    }
}

/// Replacing a card by one with the same id leaves every id lookup as it
/// was.
proof fn lemma_index_of_same_ids(cards: Seq<Card>, k: int, c: Card, id: Seq<char>)
    requires
        0 <= k < cards.len(),
        c.id@ == cards[k].id@,
    ensures
        index_of(cards.update(k, c), id) == index_of(cards, id),
{
    let u = cards.update(k, c);
    lemma_index_of(cards, id);
    lemma_index_of(u, id);
    assert forall|j: int| 0 <= j < cards.len() implies #[trigger] u[j].id@ == cards[j].id@ by {}
    let i0 = index_of(cards, id);
    let i1 = index_of(u, id);
    if i0 >= 0 && i1 >= 0 {
        if i0 < i1 {
            assert(u[i0].id@ == id);
        } else if i1 < i0 {
            assert(cards[i1].id@ == id);
        }
    } else if i0 >= 0 {
        assert(u[i0].id@ == id);
    } else if i1 >= 0 {
        assert(cards[i1].id@ == id);
    }
}

/// Toggling a label twice on a card that lacks it gives the card back
/// the label ids it had: the first toggle adds the label at the end, the
/// second removes it again.
pub proof fn lemma_toggle_label_twice(
    e0: BoardEditor,
    e1: BoardEditor,
    e2: BoardEditor,
    card_id: ShortId,
    label_id: ShortId,
    ctx1: ApplyContext,
    ctx2: ApplyContext,
    r1: Result<Vec<PendingWrite>, BoardEditorError>,
    r2: Result<Vec<PendingWrite>, BoardEditorError>,
)
    requires
        applied_with(e0, e1, Command::ToggleLabel { card_id, label_id }, ctx1, r1),
        applied_with(e1, e2, Command::ToggleLabel { card_id, label_id }, ctx2, r2),
        r1 is Ok,
        id_index(e0.board.cards@[index_of(e0.board.cards@, card_id@)].label_ids@, label_id@) < 0,
    ensures
        r2 is Ok,
        e2.board.cards@.len() == e0.board.cards@.len(),
        e2.board.cards@[index_of(e0.board.cards@, card_id@)].label_ids@
            == e0.board.cards@[index_of(e0.board.cards@, card_id@)].label_ids@,
{
    let cmd = Command::ToggleLabel { card_id, label_id };
    let b0 = e0.board;
    let b1 = e1.board;
    let k = index_of(b0.cards@, card_id@);
    let w1 = r1->Ok_0;
    let mid1 = choose|mid: LoadedBoard| command_applied(b0, cmd, ctx1, mid, w1@) && #[trigger] settled(mid, b1);
    assert(card_edit_done(b0, cmd, ctx1.now, mid1, w1@));
    let c1 = mid1.cards@[k];
    let ids0 = b0.cards@[k].label_ids@;
    assert(c1.label_ids@ == ids0.push(label_id));
    assert(b1.cards@ == b0.cards@.update(k, c1));
    assert(b1.meta == b0.meta);
    lemma_index_of_same_ids(b0.cards@, k, c1, card_id@);
    assert(index_of(b1.cards@, card_id@) == k);
    if r2 is Err {
        assert(command_error(b1, cmd, Some(r2->Err_0)));
        assert(false);
    }
    let w2 = r2->Ok_0;
    let mid2 = choose|mid: LoadedBoard| command_applied(b1, cmd, ctx2, mid, w2@) && #[trigger] settled(mid, e2.board);
    assert(card_edit_done(b1, cmd, ctx2.now, mid2, w2@));
    let ids1 = c1.label_ids@;
    assert(ids1.drop_last() =~= ids0);
    assert(id_index(ids1, label_id@) == ids0.len());
    assert(ids1.remove(ids0.len() as int) =~= ids0);
}

/// A move changes one card and nothing else of the board's contents: the
/// card the command names keeps every field but its position and list,
/// every other card stays as it was, the board's metadata stays, and at
/// most one write is asked for, that card's file.
pub proof fn lemma_move_card_frame(
    before: BoardEditor,
    after: BoardEditor,
    card_id: ShortId,
    direction: MoveDir,
    ctx: ApplyContext,
    r: Result<Vec<PendingWrite>, BoardEditorError>,
)
    requires
        applied_with(before, after, Command::MoveCard { card_id, direction }, ctx, r),
        r is Ok,
    ensures
        after.board.meta == before.board.meta,
        after.board.cards@.len() == before.board.cards@.len(),
        forall|d: int|
            0 <= d < before.board.cards@.len() && (#[trigger] before.board.cards@[d]).id@ != card_id@
                ==> after.board.cards@[d] == before.board.cards@[d],
        forall|d: int|
            0 <= d < before.board.cards@.len() ==> (#[trigger] after.board.cards@[d]) == (Card {
                list_id: after.board.cards@[d].list_id,
                position: after.board.cards@[d].position,
                ..before.board.cards@[d]
            }),
        r->Ok_0@.len() <= 1,
        forall|i: int| 0 <= i < r->Ok_0@.len() ==> #[trigger] r->Ok_0@[i] == PendingWrite::Card(card_id),
{
    let cmd = Command::MoveCard { card_id, direction };
    let b = before.board;
    let w = r->Ok_0;
    let mid = choose|mid: LoadedBoard| command_applied(b, cmd, ctx, mid, w@) && #[trigger] settled(mid, after.board);
    assert(placed(b, cmd, ctx, mid, w@));
    let src = home_list(b.lists@, card_id@);
    let ci = id_index(b.lists@[src].card_ids@, card_id@);
    match move_plan(b, src, ci, direction) {
        None => {},
        Some((dst, _)) => {
            let k = index_of(b.cards@, card_id@);
            lemma_index_of(b.cards@, card_id@);
            assert forall|d: int|
                0 <= d < b.cards@.len() && (#[trigger] b.cards@[d]).id@ != card_id@ implies after.board.cards@[d] == b.cards@[d] by {
                assert(d != k);
            }
        },
    }
}

} // verus!
