//! Lists as the board shows them, and the card order within a list.

use vstd::prelude::*;

use crate::model::board::{BoardMeta, ListMeta};
use crate::model::card::Card;
use crate::model::ids::{new_id, ShortId};

verus! {

/// In-memory view of a list: its metadata plus the ordered ids of the
/// cards that belong to it (archived cards included).
#[derive(Debug, Clone)]
pub struct CardList {
    pub id: ShortId,
    pub name: String,
    pub card_ids: Vec<ShortId>,
    pub archived: bool,
}

impl CardList {
    /// An empty, active list with a random id.
    pub fn new(name: String) -> (l: Self)
        ensures
            l.name == name,
            l.id@.len() == 8,
            l.card_ids@.len() == 0,
            !l.archived,
    {
        CardList { id: new_id(), name, card_ids: Vec::new(), archived: false }
    }
}

/// Lexicographic order on character sequences by code point (the order
/// `String`'s `Ord` gives for UTF-8 text).
pub open spec fn seq_lt(a: Seq<char>, b: Seq<char>) -> bool
    decreases a.len(),
{
    if a.len() == 0 {
        b.len() > 0
    } else if b.len() == 0 {
        false
    } else if (a[0] as u32) < (b[0] as u32) {
        true
    } else if (a[0] as u32) > (b[0] as u32) {
        false
    } else {
        seq_lt(a.drop_first(), b.drop_first())
    }
}

/// `a` sorts before `b` within a list: by position, then creation time,
/// then id.
pub open spec fn card_before(a: Card, b: Card) -> bool {
    ||| a.position < b.position
    ||| (a.position == b.position && a.created_at < b.created_at)
    ||| (a.position == b.position && a.created_at == b.created_at && seq_lt(a.id@, b.id@))
}

/// `seq_lt` is transitive and irreflexive-asymmetric.
pub proof fn lemma_seq_lt_order(a: Seq<char>, b: Seq<char>, c: Seq<char>)
    ensures
        seq_lt(a, b) && seq_lt(b, c) ==> seq_lt(a, c),
        seq_lt(a, b) ==> !seq_lt(b, a),
    decreases a.len(),
{
    if a.len() > 0 && b.len() > 0 && c.len() > 0 {
        lemma_seq_lt_order(a.drop_first(), b.drop_first(), c.drop_first());
    }
    if a.len() > 0 && b.len() > 0 {
        lemma_seq_lt_order(a.drop_first(), b.drop_first(), a.drop_first());
    }
}

/// `card_before` is transitive and asymmetric.
pub proof fn lemma_card_before_order(a: Card, b: Card, c: Card)
    ensures
        card_before(a, b) && card_before(b, c) ==> card_before(a, c),
        card_before(a, b) ==> !card_before(b, a),
{
    lemma_seq_lt_order(a.id@, b.id@, c.id@);
    lemma_seq_lt_order(a.id@, b.id@, a.id@);
}

/// Two different sequences are ordered one way or the other by `seq_lt`.
pub proof fn lemma_seq_lt_total(a: Seq<char>, b: Seq<char>)
    ensures
        a != b ==> seq_lt(a, b) || seq_lt(b, a),
    decreases a.len(),
{
    if a.len() > 0 && b.len() > 0 {
        lemma_seq_lt_total(a.drop_first(), b.drop_first());
        if (a[0] as u32) == (b[0] as u32) {
            vstd::utf8::char_u32_cast(a[0], a[0] as u32);
            vstd::utf8::char_u32_cast(b[0], b[0] as u32);
            assert(a[0] == b[0]);
            if a.drop_first() == b.drop_first() {
                assert(a.drop_first().len() == a.len() - 1);
                assert(b.drop_first().len() == b.len() - 1);
                assert(a.len() == b.len());
                assert(a =~= b) by {
                    assert forall|i: int| 0 <= i < a.len() implies a[i] == b[i] by {
                        if i > 0 {
                            assert(a[i] == a.drop_first()[i - 1]);
                            assert(b[i] == b.drop_first()[i - 1]);
                        }
                    }
                }
            }
        }
    } else if a.len() == 0 && b.len() == 0 {
        assert(a =~= b);
    }
}

/// Neither of two cards sorts before the other only when they agree on
/// position, creation time and id.
pub proof fn lemma_card_tie(a: Card, b: Card)
    ensures
        !card_before(a, b) && !card_before(b, a) ==> {
            &&& a.position == b.position
            &&& a.created_at == b.created_at
            &&& a.id@ == b.id@
        },
{
    lemma_seq_lt_total(a.id@, b.id@);
}

/// The indices of the members of `list_id`.
pub open spec fn members(cards: Seq<Card>, list_id: Seq<char>) -> Set<int> {
    Set::new(|k: int| is_member(cards, list_id, k))
}

/// Members of `list_id` that sort strictly before `x`.
pub open spec fn members_before(cards: Seq<Card>, list_id: Seq<char>, x: Card) -> Set<int> {
    members(cards, list_id).filter(|m: int| card_before(cards[m], x))
}

/// Members of `list_id` that `x` does not sort before.
pub open spec fn members_not_after(cards: Seq<Card>, list_id: Seq<char>, x: Card) -> Set<int> {
    members(cards, list_id).filter(|m: int| !card_before(x, cards[m]))
}

proof fn lemma_members_finite(cards: Seq<Card>, list_id: Seq<char>)
    ensures
        members(cards, list_id).finite(),
        members_before(cards, list_id, cards[0]).finite(),
{
    let mm = members(cards, list_id);
    vstd::set_lib::lemma_int_range(0, cards.len() as int);
    assert(mm.subset_of(vstd::set_lib::set_int_range(0, cards.len() as int)));
    vstd::set_lib::lemma_len_subset(mm, vstd::set_lib::set_int_range(0, cards.len() as int));
    mm.lemma_len_filter(|m: int| card_before(cards[m], cards[0]));
}

/// In a sorted member sequence, the card at slot `a` has at most `a`
/// members before it and at least `a + 1` members not after it.
proof fn lemma_sorted_rank(cards: Seq<Card>, list_id: Seq<char>, p: Seq<int>, a: int)
    requires
        is_sorted_members(cards, list_id, p),
        0 <= a < p.len(),
    ensures
        members(cards, list_id).finite(),
        p.len() == members(cards, list_id).len(),
        members_before(cards, list_id, cards[p[a]]).finite(),
        members_before(cards, list_id, cards[p[a]]).len() <= a,
        members_not_after(cards, list_id, cards[p[a]]).finite(),
        members_not_after(cards, list_id, cards[p[a]]).len() >= a + 1,
{
    let mm = members(cards, list_id);
    lemma_members_finite(cards, list_id);
    let x = cards[p[a]];
    let less = members_before(cards, list_id, x);
    let leq = members_not_after(cards, list_id, x);
    mm.lemma_len_filter(|m: int| card_before(cards[m], x));
    mm.lemma_len_filter(|m: int| !card_before(x, cards[m]));
    let pre = p.subrange(0, a);
    let pre1 = p.subrange(0, a + 1);
    assert forall|m: int| less.contains(m) implies pre.to_set().contains(m) by {
        assert(is_member(cards, list_id, m));
        assert(p.contains(m));
        let b = choose|b: int| 0 <= b < p.len() && p[b] == m;
        lemma_card_before_order(x, x, x);
        if b >= a {
            if b > a {
                assert(!card_before(cards[p[b]], cards[p[a]]));
            }
            assert(false);
        }
        assert(pre[b] == m);
    }
    pre.lemma_cardinality_of_set();
    vstd::set_lib::lemma_len_subset(less, pre.to_set());
    assert forall|m: int| pre1.to_set().contains(m) implies leq.contains(m) by {
        let b = choose|b: int| 0 <= b < pre1.len() && pre1[b] == m;
        assert(p[b] == m);
        assert(is_member(cards, list_id, p[b]));
        lemma_card_before_order(x, x, x);
        if b < a {
            assert(!card_before(cards[p[a]], cards[p[b]]));
        }
    }
    assert(pre1.no_duplicates()) by {
        assert forall|i: int, j: int| 0 <= i < pre1.len() && 0 <= j < pre1.len() && i != j implies pre1[i] != pre1[j] by {
            if i < j {
                assert(p[i] != p[j]);
            } else {
                assert(p[j] != p[i]);
            }
        }
    }
    pre1.unique_seq_to_set();
    vstd::set_lib::lemma_len_subset(pre1.to_set(), leq);
    assert(p.to_set() =~= mm) by {
        assert forall|m: int| mm.contains(m) implies p.to_set().contains(m) by {
            assert(p.contains(m));
        }
    }
    assert(p.no_duplicates()) by {
        assert forall|i: int, j: int| 0 <= i < p.len() && 0 <= j < p.len() && i != j implies p[i] != p[j] by {
            if i < j {
                assert(p[i] != p[j]);
            } else {
                assert(p[j] != p[i]);
            }
        }
    }
    p.unique_seq_to_set();
}

/// Two sorted member sequences of a list name the same ids in the same
/// order.
proof fn lemma_sorted_unique(cards: Seq<Card>, list_id: Seq<char>, p: Seq<int>, q: Seq<int>)
    requires
        is_sorted_members(cards, list_id, p),
        is_sorted_members(cards, list_id, q),
    ensures
        p.len() == q.len(),
        forall|a: int| 0 <= a < p.len() ==> (#[trigger] cards[p[a]]).id@ == cards[q[a]].id@,
{
    lemma_members_finite(cards, list_id);
    if p.len() > 0 {
        lemma_sorted_rank(cards, list_id, p, 0);
    }
    if q.len() > 0 {
        lemma_sorted_rank(cards, list_id, q, 0);
    }
    if p.len() == 0 || q.len() == 0 {
        let mm = members(cards, list_id);
        assert forall|m: int| mm.contains(m) implies false by {
            assert(p.contains(m));
            assert(q.contains(m));
        }
        assert(mm =~= Set::empty());
    }
    assert forall|a: int| 0 <= a < p.len() implies (#[trigger] cards[p[a]]).id@ == cards[q[a]].id@ by {
        lemma_sorted_rank(cards, list_id, p, a);
        lemma_sorted_rank(cards, list_id, q, a);
        let x = cards[p[a]];
        let y = cards[q[a]];
        if card_before(x, y) {
            assert forall|m: int| members_not_after(cards, list_id, x).contains(m) implies members_before(cards, list_id, y).contains(m) by {
                lemma_card_before_order(cards[m], x, y);
                lemma_card_tie(cards[m], x);
                lemma_seq_lt_order(cards[m].id@, x.id@, y.id@);
            }
            vstd::set_lib::lemma_len_subset(members_not_after(cards, list_id, x), members_before(cards, list_id, y));
        } else if card_before(y, x) {
            assert forall|m: int| members_not_after(cards, list_id, y).contains(m) implies members_before(cards, list_id, x).contains(m) by {
                lemma_card_before_order(cards[m], y, x);
                lemma_card_tie(cards[m], y);
            }
            vstd::set_lib::lemma_len_subset(members_not_after(cards, list_id, y), members_before(cards, list_id, x));
        }
        lemma_card_tie(x, y);
    }
}

/// A list's member ids have one order only: two id sequences that both
/// list the members of `list_id` in position order are equal, id by id.
pub proof fn lemma_order_unique(cards: Seq<Card>, list_id: Seq<char>, x: Seq<ShortId>, y: Seq<ShortId>)
    requires
        ordered_ids_of(cards, list_id, x),
        ordered_ids_of(cards, list_id, y),
    ensures
        x.len() == y.len(),
        forall|a: int| 0 <= a < x.len() ==> (#[trigger] x[a])@ == y[a]@,
{
    let p = choose|p: Seq<int>|
        is_sorted_members(cards, list_id, p) && x.len() == p.len() && forall|a: int|
            0 <= a < p.len() ==> #[trigger] x[a]@ == cards[p[a]].id@;
    let q = choose|q: Seq<int>|
        is_sorted_members(cards, list_id, q) && y.len() == q.len() && forall|a: int|
            0 <= a < q.len() ==> #[trigger] y[a]@ == cards[q[a]].id@;
    lemma_sorted_unique(cards, list_id, p, q);
    assert forall|a: int| 0 <= a < x.len() implies (#[trigger] x[a])@ == y[a]@ by {
        assert(x[a]@ == cards[p[a]].id@);
        assert(y[a]@ == cards[q[a]].id@);
    }
}

/// Compares two strings in code-point order.
pub fn str_lt(a: &str, b: &str) -> (lt: bool)
    ensures
        lt == seq_lt(a@, b@),
{
    let x = crate::text::chars_of(a);
    let y = crate::text::chars_of(b);
    let mut i: usize = 0;
    assert(x@.skip(0) =~= x@ && y@.skip(0) =~= y@);
    while i < x.len() && i < y.len()
        invariant
            x@ == a@,
            y@ == b@,
            i <= x@.len(),
            i <= y@.len(),
            x@.take(i as int) == y@.take(i as int),
            seq_lt(x@, y@) == seq_lt(x@.skip(i as int), y@.skip(i as int)),
        decreases x.len() - i,
    {
        let (p, q) = (x[i], y[i]);
        let ghost xs = x@.skip(i as int);
        let ghost ys = y@.skip(i as int);
        assert(xs[0] == p && ys[0] == q);
        assert(seq_lt(xs, ys) == (if (p as u32) < (q as u32) {
            true
        } else if (p as u32) > (q as u32) {
            false
        } else {
            seq_lt(xs.drop_first(), ys.drop_first())
        }));
        assert(x@.skip(i as int).drop_first() =~= x@.skip(i + 1));
        assert(y@.skip(i as int).drop_first() =~= y@.skip(i + 1));
        if (p as u32) < (q as u32) {
            return true;
        }
        if (p as u32) > (q as u32) {
            return false;
        }
        assert(p == q) by {
            vstd::utf8::char_u32_cast(p, p as u32);
            vstd::utf8::char_u32_cast(q, q as u32);
        }
        assert(x@.take(i + 1) =~= x@.take(i as int).push(p));
        assert(y@.take(i + 1) =~= y@.take(i as int).push(q));
        i += 1;
    }
    assert(x@.skip(i as int).len() == 0 || y@.skip(i as int).len() == 0);
    i < y.len()
}

/// Whether `a` sorts before `b` (see [`card_before`]).
pub fn card_sorts_before(a: &Card, b: &Card) -> (r: bool)
    ensures
        r == card_before(*a, *b),
{
    if a.position != b.position {
        return a.position < b.position;
    }
    if a.created_at != b.created_at {
        return a.created_at < b.created_at;
    }
    str_lt(a.id.as_str(), b.id.as_str())
}

/// Indices of the cards of `cards` that belong to `list_id`.
pub open spec fn is_member(cards: Seq<Card>, list_id: Seq<char>, k: int) -> bool {
    0 <= k < cards.len() && cards[k].list_id@ == list_id
}

/// `p` lists every member index of `list_id` exactly once, in sorted
/// (`card_before`-respecting) order.
pub open spec fn is_sorted_members(cards: Seq<Card>, list_id: Seq<char>, p: Seq<int>) -> bool {
    &&& forall|a: int| 0 <= a < p.len() ==> is_member(cards, list_id, #[trigger] p[a])
    &&& forall|k: int| is_member(cards, list_id, k) ==> p.contains(k)
    &&& forall|a: int, b: int| 0 <= a < b < p.len() ==> p[a] != p[b]
    &&& forall|a: int, b: int|
        0 <= a < b < p.len() ==> !card_before(cards[#[trigger] p[b]], cards[#[trigger] p[a]])
}

/// `ids` are the ids of the members of `list_id`, each once, in list order.
pub open spec fn ordered_ids_of(cards: Seq<Card>, list_id: Seq<char>, ids: Seq<ShortId>) -> bool {
    exists|p: Seq<int>|
        is_sorted_members(cards, list_id, p) && ids.len() == p.len() && forall|a: int|
            0 <= a < p.len() ==> #[trigger] ids[a]@ == cards[p[a]].id@
}

/// The ids of the cards belonging to `list_id`, sorted by position (ties
/// broken by creation time, then id).
pub fn ordered_card_ids(list_id: &str, cards: &[Card]) -> (ids: Vec<ShortId>)
    ensures
        ordered_ids_of(cards@, list_id@, ids@),
{
    let lid = crate::text::owned(list_id);
    let mut idx: Vec<usize> = Vec::new();
    let ghost mut p: Seq<int> = seq![];
    for i in 0..cards.len()
        invariant
            lid@ == list_id@,
            p.len() == idx@.len(),
            forall|a: int| 0 <= a < idx@.len() ==> (#[trigger] idx@[a] as int) < cards@.len(),
            forall|a: int| 0 <= a < p.len() ==> p[a] == idx@[a] as int,
            forall|a: int| 0 <= a < p.len() ==> is_member(cards@, list_id@, #[trigger] p[a]) && p[a] < i,
            forall|k: int| 0 <= k < i && is_member(cards@, list_id@, k) ==> p.contains(k),
            forall|a: int, b: int| 0 <= a < b < p.len() ==> p[a] != p[b],
            forall|a: int, b: int|
                0 <= a < b < p.len() ==> !card_before(cards@[#[trigger] p[b]], cards@[#[trigger] p[a]]),
    {
        if cards[i].list_id == lid {
            let mut j: usize = 0;
            while j < idx.len() && !card_sorts_before(&cards[i], &cards[idx[j]])
                invariant
                    p.len() == idx@.len(),
                    j <= idx@.len(),
                    i < cards@.len(),
                    forall|a: int| 0 <= a < p.len() ==> p[a] == idx@[a] as int,
                    forall|a: int| 0 <= a < p.len() ==> 0 <= #[trigger] p[a] < cards@.len(),
                    forall|a: int| 0 <= a < idx@.len() ==> (#[trigger] idx@[a] as int) < cards@.len(),
                    forall|a: int| 0 <= a < j ==> !card_before(cards@[i as int], cards@[#[trigger] p[a]]),
                decreases idx.len() - j,
            {
                j += 1;
            }
            let ghost old_p = p;
            idx.insert(j, i);
            proof {
                p = old_p.insert(j as int, i as int);
                assert(is_member(cards@, list_id@, i as int));
                assert forall|a: int| 0 <= a < p.len() implies is_member(cards@, list_id@, #[trigger] p[a]) && p[a] < i + 1 by {
                    if a < j {
                        assert(p[a] == old_p[a]);
                    } else if a > j {
                        assert(p[a] == old_p[a - 1]);
                    }
                }
                assert forall|a: int, b: int| 0 <= a < b < p.len() implies p[a] != p[b] by {
                    if a < j && b > j {
                        assert(p[a] == old_p[a] && p[b] == old_p[b - 1]);
                    } else if a > j {
                        assert(p[a] == old_p[a - 1] && p[b] == old_p[b - 1]);
                    } else if b < j {
                        assert(p[a] == old_p[a] && p[b] == old_p[b]);
                    } else if a == j {
                        assert(p[b] == old_p[b - 1]);
                    } else {
                        assert(p[a] == old_p[a]);
                    }
                }
                assert forall|a: int, b: int|
                    0 <= a < b < p.len() implies !card_before(cards@[#[trigger] p[b]], cards@[#[trigger] p[a]]) by {
                    if a < j && b == j {
                    } else if a == j && b > j {
                        let y = cards@[p[b]];
                        let z = cards@[old_p[j as int]];
                        lemma_card_before_order(y, cards@[i as int], z);
                        if b > j + 1 {
                            assert(!card_before(y, z));
                        }
                    } else if a < j && b > j {
                        assert(p[a] == old_p[a] && p[b] == old_p[b - 1]);
                    } else if a > j {
                        assert(p[a] == old_p[a - 1] && p[b] == old_p[b - 1]);
                    } else {
                        assert(p[a] == old_p[a] && p[b] == old_p[b]);
                    }
                }
                assert forall|k: int| 0 <= k < i + 1 && is_member(cards@, list_id@, k) implies p.contains(k) by {
                    if k == i {
                        assert(p[j as int] == k);
                    } else {
                        assert(old_p.contains(k));
                        let w = choose|w: int| 0 <= w < old_p.len() && old_p[w] == k;
                        if w < j {
                            assert(p[w] == k);
                        } else {
                            assert(p[w + 1] == k);
                        }
                    }
                }
            }
        }
    }
    let mut ids: Vec<ShortId> = Vec::new();
    for a in 0..idx.len()
        invariant
            p.len() == idx@.len(),
            forall|b: int| 0 <= b < p.len() ==> p[b] == idx@[b] as int,
            forall|b: int| 0 <= b < p.len() ==> 0 <= #[trigger] p[b] < cards@.len(),
            forall|b: int| 0 <= b < idx@.len() ==> (#[trigger] idx@[b] as int) < cards@.len(),
            ids@.len() == a,
            forall|b: int| 0 <= b < a ==> #[trigger] ids@[b]@ == cards@[p[b]].id@,
    {
        ids.push(cards[idx[a]].id.clone());
    }
    assert(is_sorted_members(cards@, list_id@, p));
    ids
}

/// The lists of `meta` whose archived flag equals `archived`, in board
/// order, each with its cards ordered.
pub open spec fn built_lists(meta_lists: Seq<ListMeta>, cards: Seq<Card>, archived: bool, lists: Seq<CardList>) -> bool {
    let chosen = meta_lists.filter(|lm: ListMeta| lm.archived == archived);
    &&& lists.len() == chosen.len()
    &&& forall|k: int|
        0 <= k < lists.len() ==> {
            &&& (#[trigger] lists[k]).id == chosen[k].id
            &&& lists[k].name == chosen[k].name
            &&& lists[k].archived == chosen[k].archived
            &&& ordered_ids_of(cards, lists[k].id@, lists[k].card_ids@)
        }
}

/// Build the in-memory lists of a board: the active lists in board order
/// when `archived` is false, the archived lists otherwise.
pub fn build_lists(meta: &BoardMeta, cards: &[Card], archived: bool) -> (lists: Vec<CardList>)
    ensures
        built_lists(meta.lists@, cards@, archived, lists@),
{
    let mut lists: Vec<CardList> = Vec::new();
    let ghost pred = |lm: ListMeta| lm.archived == archived;
    for i in 0..meta.lists.len()
        invariant
            pred == (|lm: ListMeta| lm.archived == archived),
            built_lists(meta.lists@.take(i as int), cards@, archived, lists@),
    {
        let lm = &meta.lists[i];
        proof {
            reveal_with_fuel(Seq::<ListMeta>::filter, 1);
            assert(meta.lists@.take(i + 1).drop_last() =~= meta.lists@.take(i as int));
        }
        if lm.archived == archived {
            let ids = ordered_card_ids(lm.id.as_str(), cards);
            lists.push(CardList { id: lm.id.clone(), name: lm.name.clone(), card_ids: ids, archived: lm.archived });
        }
    }
    assert(meta.lists@.take(meta.lists.len() as int) =~= meta.lists@);
    lists
}

} // verus!
