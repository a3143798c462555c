//! Bringing a board stored in the list-file format (each list in a file of
//! its own with the ids of its cards, the board naming its lists'
//! order) to the card-owned format: the board's list definitions, and each
//! card's list and position. Finding, reading, rewriting and removing the
//! files is the caller's part.

use vstd::prelude::*;

use crate::model::board::ListMeta;
use crate::model::ids::ShortId;
use crate::model::list::CardList;
use crate::text::same_text;

verus! {

/// Position of the first active list in `lists` with id `id`, or -1.
pub open spec fn active_with_id(lists: Seq<CardList>, id: Seq<char>) -> int
    decreases lists.len(),
{
    if lists.len() == 0 {
        -1
    } else {
        let r = active_with_id(lists.drop_last(), id);
        if r >= 0 {
            r
        } else if lists.last().id@ == id && !lists.last().archived {
            lists.len() - 1
        } else {
            -1
        }
    }
}

/// The active lists `order` names, in its order (an id naming none is
/// skipped).
pub open spec fn named_active(order: Seq<ShortId>, lists: Seq<CardList>) -> Seq<CardList>
    decreases order.len(),
{
    if order.len() == 0 {
        seq![]
    } else {
        let rest = named_active(order.drop_last(), lists);
        let k = active_with_id(lists, order.last()@);
        if k >= 0 {
            rest.push(lists[k])
        } else {
            rest
        }
    }
}

/// The lists in the order their definitions are considered: those
/// `order` names, then every active list, then every archived list.
pub open spec fn candidates(order: Seq<ShortId>, lists: Seq<CardList>) -> Seq<CardList> {
    named_active(order, lists) + lists.filter(|l: CardList| !l.archived) + lists.filter(|l: CardList| l.archived)
}

/// The definition of a list.
pub open spec fn meta_of(l: CardList) -> ListMeta {
    ListMeta { id: l.id, name: l.name, archived: l.archived }
}

/// `defs` has a definition with id `id`.
pub open spec fn defines(defs: Seq<ListMeta>, id: Seq<char>) -> bool {
    exists|i: int| 0 <= i < defs.len() && (#[trigger] defs[i]).id@ == id
}

/// The definitions of `s` in order, each id once (its first list).
pub open spec fn first_defs(s: Seq<CardList>) -> Seq<ListMeta>
    decreases s.len(),
{
    if s.len() == 0 {
        seq![]
    } else {
        let d = first_defs(s.drop_last());
        if defines(d, s.last().id@) {
            d
        } else {
            d.push(meta_of(s.last()))
        }
    }
}

/// The list definitions a board in the list-file format gets: the lists
/// its order names (active ones), then its other active lists, then its
/// archived lists, each id once.
pub open spec fn migrated_lists_of(order: Seq<ShortId>, lists: Seq<CardList>) -> Seq<ListMeta> {
    first_defs(candidates(order, lists))
}

/// Index of the first active list with id `id` (see [`active_with_id`]).
fn find_active(lists: &Vec<CardList>, id: &str) -> (r: Option<usize>)
    ensures
        match r {
            Some(k) => k as int == active_with_id(lists@, id@),
            None => active_with_id(lists@, id@) < 0,
        },
{
    let mut k: usize = 0;
    while k < lists.len()
        invariant
            k <= lists@.len(),
            active_with_id(lists@.take(k as int), id@) < 0,
        decreases lists.len() - k,
    {
        proof {
            assert(lists@.take(k + 1).drop_last() =~= lists@.take(k as int));
        }
        if !lists[k].archived && same_text(lists[k].id.as_str(), id) {
            proof {
                lemma_active_prefix(lists@, id@, k + 1);
            }
            return Some(k);
        }
        k += 1;
    }
    assert(lists@.take(k as int) =~= lists@);
    None
}

proof fn lemma_active_prefix(lists: Seq<CardList>, id: Seq<char>, n: int)
    requires
        0 <= n <= lists.len(),
        active_with_id(lists.take(n), id) >= 0,
    ensures
        active_with_id(lists, id) == active_with_id(lists.take(n), id),
    decreases lists.len() - n,
{
    if n < lists.len() {
        assert(lists.take(n + 1).drop_last() =~= lists.take(n));
        lemma_active_prefix(lists, id, n + 1);
    } else {
        assert(lists.take(n) =~= lists);
    }
}

proof fn lemma_active_in_range(lists: Seq<CardList>, id: Seq<char>)
    ensures
        active_with_id(lists, id) < lists.len(),
        active_with_id(lists, id) >= 0 ==> lists[active_with_id(lists, id)].id@ == id,
    decreases lists.len(),
{
    if lists.len() > 0 {
        lemma_active_in_range(lists.drop_last(), id);
    }
}

/// Whether some definition in `defs` has id `id`.
fn has_def(defs: &Vec<ListMeta>, id: &str) -> (b: bool)
    ensures
        b == defines(defs@, id@),
{
    let mut i: usize = 0;
    while i < defs.len()
        invariant
            i <= defs@.len(),
            forall|k: int| 0 <= k < i ==> (#[trigger] defs@[k]).id@ != id@,
        decreases defs.len() - i,
    {
        if same_text(defs[i].id.as_str(), id) {
            return true;
        }
        i += 1;
    }
    false
}

/// Appends the definition of `l` unless one with its id is there.
fn push_def(defs: &mut Vec<ListMeta>, l: &CardList)
    ensures
        final(defs)@ == if defines(old(defs)@, l.id@) {
            old(defs)@
        } else {
            old(defs)@.push(meta_of(*l))
        },
{
    if !has_def(defs, l.id.as_str()) {
        defs.push(ListMeta { id: l.id.clone(), name: l.name.clone(), archived: l.archived });
    }
}

/// The list definitions of a board in the list-file format whose order
/// names `order` and whose list files hold `lists` (see
/// [`migrated_lists_of`]).
pub fn migrated_lists(order: &Vec<ShortId>, lists: &Vec<CardList>) -> (defs: Vec<ListMeta>)
    ensures
        defs@ == migrated_lists_of(order@, lists@),
{
    let ghost cand = candidates(order@, lists@);
    let ghost mut seen: Seq<CardList> = seq![];
    let mut defs: Vec<ListMeta> = Vec::new();
    let mut i: usize = 0;
    while i < order.len()
        invariant
            i <= order@.len(),
            seen == named_active(order@.take(i as int), lists@),
            defs@ == first_defs(seen),
        decreases order.len() - i,
    {
        proof {
            assert(order@.take(i + 1).drop_last() =~= order@.take(i as int));
        }
        match find_active(lists, order[i].as_str()) {
            Some(k) => {
                proof {
                    lemma_active_in_range(lists@, order@[i as int]@);
                    let s2 = seen.push(lists@[k as int]);
                    assert(s2.drop_last() =~= seen);
                    seen = s2;
                }
                push_def(&mut defs, &lists[k]);
            },
            None => {},
        }
        i += 1;
    }
    assert(order@.take(order.len() as int) =~= order@);
    let ghost first = seen;
    let mut j: usize = 0;
    while j < lists.len()
        invariant
            j <= lists@.len(),
            first == named_active(order@, lists@),
            seen == first + lists@.take(j as int).filter(|l: CardList| !l.archived),
            defs@ == first_defs(seen),
        decreases lists.len() - j,
    {
        proof {
            assert(lists@.take(j + 1).drop_last() =~= lists@.take(j as int));
            reveal_with_fuel(Seq::<CardList>::filter, 1);
        }
        if !lists[j].archived {
            proof {
                let s2 = seen.push(lists@[j as int]);
                assert(s2.drop_last() =~= seen);
                assert(s2 =~= first + lists@.take(j + 1).filter(|l: CardList| !l.archived));
                seen = s2;
            }
            push_def(&mut defs, &lists[j]);
        } else {
            assert(seen =~= first + lists@.take(j + 1).filter(|l: CardList| !l.archived));
        }
        j += 1;
    }
    assert(lists@.take(lists.len() as int) =~= lists@);
    let ghost second = seen;
    let mut m: usize = 0;
    while m < lists.len()
        invariant
            m <= lists@.len(),
            second == named_active(order@, lists@) + lists@.filter(|l: CardList| !l.archived),
            seen == second + lists@.take(m as int).filter(|l: CardList| l.archived),
            defs@ == first_defs(seen),
        decreases lists.len() - m,
    {
        proof {
            assert(lists@.take(m + 1).drop_last() =~= lists@.take(m as int));
            reveal_with_fuel(Seq::<CardList>::filter, 1);
        }
        if lists[m].archived {
            proof {
                let s2 = seen.push(lists@[m as int]);
                assert(s2.drop_last() =~= seen);
                assert(s2 =~= second + lists@.take(m + 1).filter(|l: CardList| l.archived));
                seen = s2;
            }
            push_def(&mut defs, &lists[m]);
        } else {
            assert(seen =~= second + lists@.take(m + 1).filter(|l: CardList| l.archived));
        }
        m += 1;
    }
    assert(lists@.take(lists.len() as int) =~= lists@);
    assert(seen =~= cand);
    defs
}

/// Where each card of a list file goes: its id, its list, and its
/// 1-based place in that list, list by list.
pub open spec fn placements_of(lists: Seq<CardList>) -> Seq<(ShortId, ShortId, nat)>
    decreases lists.len(),
{
    if lists.len() == 0 {
        seq![]
    } else {
        let l = lists.last();
        placements_of(lists.drop_last()) + Seq::new(
            l.card_ids@.len(),
            |i: int| (l.card_ids@[i], l.id, (i + 1) as nat),
        )
    }
}

/// The placements of the cards of the list files `lists` (see
/// [`placements_of`]).
pub fn placements(lists: &Vec<CardList>) -> (r: Vec<(ShortId, ShortId, u64)>)
    ensures
        r@.map_values(|p: (ShortId, ShortId, u64)| (p.0, p.1, p.2 as nat)) == placements_of(lists@),
{
    let mut r: Vec<(ShortId, ShortId, u64)> = Vec::new();
    let mut i: usize = 0;
    while i < lists.len()
        invariant
            i <= lists@.len(),
            r@.map_values(|p: (ShortId, ShortId, u64)| (p.0, p.1, p.2 as nat)) == placements_of(lists@.take(i as int)),
        decreases lists.len() - i,
    {
        let l = &lists[i];
        let ghost base = r@.map_values(|p: (ShortId, ShortId, u64)| (p.0, p.1, p.2 as nat));
        let ghost f = |k: int| (l.card_ids@[k], l.id, (k + 1) as nat);
        let mut k: usize = 0;
        while k < l.card_ids.len()
            invariant
                k <= l.card_ids@.len(),
                f == (|k: int| (l.card_ids@[k], l.id, (k + 1) as nat)),
                r@.map_values(|p: (ShortId, ShortId, u64)| (p.0, p.1, p.2 as nat)) == base + Seq::new(k as nat, f),
            decreases l.card_ids.len() - k,
        {
            let ghost before = r@;
            r.push((l.card_ids[k].clone(), l.id.clone(), (k + 1) as u64));
            proof {
                assert(r@.map_values(|p: (ShortId, ShortId, u64)| (p.0, p.1, p.2 as nat)) =~= before.map_values(
                    |p: (ShortId, ShortId, u64)| (p.0, p.1, p.2 as nat),
                ).push(f(k as int)));
                assert(Seq::new((k + 1) as nat, f) =~= Seq::new(k as nat, f).push(f(k as int)));
            }
            k += 1;
        }
        proof {
            assert(lists@.take(i + 1).drop_last() =~= lists@.take(i as int));
            assert(lists@.take(i + 1).last() == *l);
        }
        i += 1;
    }
    assert(lists@.take(lists.len() as int) =~= lists@);
    r
}

} // verus!
