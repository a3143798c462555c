//! The board editor: one loaded board, the commands that change it and
//! the selection that moves over it. Reading and writing files is the
//! caller's part: the editor reports which cards and whether the board
//! metadata need to be written.

use vstd::prelude::*;

use crate::model::board::{BoardMeta, ListMeta};
use crate::model::card::{matches_query, Card};
use crate::model::ids::{ShortId, Timestamp};
use crate::model::label::Label;
use crate::model::list::{card_before, is_member, is_sorted_members, ordered_ids_of, CardList};

pub mod apply;
pub mod checks;
pub mod commands;
pub mod laws;
pub mod loading;
pub mod move_laws;
pub mod placement;

verus! {

/// A loaded board: its metadata, the active lists with their ordered card
/// ids, every card of the board, and the selection state.
#[derive(Debug)]
pub struct LoadedBoard {
    pub meta: BoardMeta,
    pub lists: Vec<CardList>,
    pub cards: Vec<Card>,
    pub selected_list: usize,
    pub selected_card: Vec<usize>,
    pub scroll_offset: Vec<usize>,
    pub detail_item_idx: usize,
    pub detail_scroll: usize,
}

/// Index of the first card whose id is `id`, or -1.
pub open spec fn index_of(cards: Seq<Card>, id: Seq<char>) -> int
    decreases cards.len(),
{
    if cards.len() == 0 {
        -1
    } else {
        let r = index_of(cards.drop_last(), id);
        if r >= 0 {
            r
        } else if cards.last().id@ == id {
            cards.len() - 1
        } else {
            -1
        }
    }
}

pub proof fn lemma_index_of(cards: Seq<Card>, id: Seq<char>)
    ensures
        -1 <= index_of(cards, id) < cards.len(),
        index_of(cards, id) >= 0 ==> cards[index_of(cards, id)].id@ == id,
        index_of(cards, id) >= 0 ==> forall|k: int| 0 <= k < index_of(cards, id) ==> cards[k].id@ != id,
        index_of(cards, id) < 0 ==> forall|k: int| 0 <= k < cards.len() ==> cards[k].id@ != id,
    decreases cards.len(),
{
    if cards.len() > 0 {
        let d = cards.drop_last();
        lemma_index_of(d, id);
        assert forall|k: int| 0 <= k < d.len() implies d[k] == cards[k] by {}
    }
}

/// Position of the first card with id `id`.
pub fn find_card(cards: &Vec<Card>, id: &str) -> (r: Option<usize>)
    ensures
        r is Some <==> index_of(cards@, id@) >= 0,
        r is Some ==> r->0 == index_of(cards@, id@) && r->0 < cards@.len(),
{
    proof {
        lemma_index_of(cards@, id@);
    }
    let key = crate::text::owned(id);
    let mut i: usize = 0;
    while i < cards.len()
        invariant
            key@ == id@,
            i <= cards@.len(),
            forall|k: int| 0 <= k < i ==> cards@[k].id@ != id@,
        decreases cards.len() - i,
    {
        if cards[i].id == key {
            proof {
                lemma_first_match(cards@, id@, i as int);
            }
            return Some(i);
        }
        i += 1;
    }
    None
}

proof fn lemma_first_match(cards: Seq<Card>, id: Seq<char>, i: int)
    requires
        0 <= i < cards.len(),
        cards[i].id@ == id,
        forall|k: int| 0 <= k < i ==> cards[k].id@ != id,
    ensures
        index_of(cards, id) == i,
{
    lemma_index_of(cards, id);
}

/// Card `i` of list `li` is shown: it exists, is not archived, and matches
/// the search when one is active.
pub open spec fn is_visible(b: LoadedBoard, li: int, i: int, search: Option<Seq<char>>) -> bool {
    let ids = b.lists@[li].card_ids@;
    let k = index_of(b.cards@, ids[i]@);
    &&& 0 <= i < ids.len()
    &&& k >= 0
    &&& !b.cards@[k].archived
    &&& match search {
        Some(q) => matches_query(b.cards@[k], q, b.meta.labels@),
        None => true,
    }
}

/// The shown indices among the first `n` entries of list `li`, ascending.
pub open spec fn visible_upto(b: LoadedBoard, li: int, search: Option<Seq<char>>, n: int) -> Seq<usize>
    decreases n,
{
    if n <= 0 {
        seq![]
    } else {
        let rest = visible_upto(b, li, search, n - 1);
        if is_visible(b, li, n - 1, search) {
            rest.push((n - 1) as usize)
        } else {
            rest
        }
    }
}

/// The shown indices (into `card_ids`) of list `li`, ascending; empty for
/// a list index out of range.
pub open spec fn visible_of(b: LoadedBoard, li: int, search: Option<Seq<char>>) -> Seq<usize> {
    if 0 <= li < b.lists@.len() {
        visible_upto(b, li, search, b.lists@[li].card_ids@.len() as int)
    } else {
        seq![]
    }
}

/// Shown cards depend only on lists, cards and labels.
pub proof fn lemma_visible_frame(a: LoadedBoard, b: LoadedBoard, li: int)
    requires
        a.lists == b.lists,
        a.cards == b.cards,
        a.meta.labels == b.meta.labels,
    ensures
        forall|s: Option<Seq<char>>| #[trigger] visible_of(a, li, s) == visible_of(b, li, s),
{
    assert forall|s: Option<Seq<char>>| #[trigger] visible_of(a, li, s) == visible_of(b, li, s) by {
        if 0 <= li < a.lists@.len() {
            lemma_visible_upto_frame(a, b, li, s, a.lists@[li].card_ids@.len() as int);
        }
    }
}

proof fn lemma_visible_upto_frame(a: LoadedBoard, b: LoadedBoard, li: int, s: Option<Seq<char>>, n: int)
    requires
        a.lists == b.lists,
        a.cards == b.cards,
        a.meta.labels == b.meta.labels,
    ensures
        visible_upto(a, li, s, n) == visible_upto(b, li, s, n),
    decreases n,
{
    if n > 0 {
        lemma_visible_upto_frame(a, b, li, s, n - 1);
        assert(is_visible(a, li, n - 1, s) == is_visible(b, li, n - 1, s));
    }
}

/// The view of an optional search string.
pub open spec fn search_view(s: Option<&str>) -> Option<Seq<char>> {
    match s {
        Some(q) => Some(q@),
        None => None,
    }
}

pub proof fn lemma_visible_upto(b: LoadedBoard, li: int, search: Option<Seq<char>>, n: int)
    requires
        0 <= li < b.lists@.len(),
        0 <= n <= b.lists@[li].card_ids@.len(),
        n <= usize::MAX,
    ensures
        visible_upto(b, li, search, n).len() <= n,
        forall|a: int| 0 <= a < visible_upto(b, li, search, n).len() ==> {
            let v = #[trigger] visible_upto(b, li, search, n)[a];
            &&& 0 <= v < n
            &&& is_visible(b, li, v as int, search)
        },
        forall|a: int, c: int|
            0 <= a < c < visible_upto(b, li, search, n).len() ==> visible_upto(b, li, search, n)[a]
                < visible_upto(b, li, search, n)[c],
        forall|i: int| 0 <= i < n && is_visible(b, li, i, search) ==> visible_upto(b, li, search, n).contains(i as usize),
    decreases n,
{
    if n > 0 {
        lemma_visible_upto(b, li, search, n - 1);
        let rest = visible_upto(b, li, search, n - 1);
        let cur = visible_upto(b, li, search, n);
        if is_visible(b, li, n - 1, search) {
            assert(cur == rest.push((n - 1) as usize));
            assert forall|a: int| 0 <= a < rest.len() implies cur[a] == rest[a] by {}
            assert(cur[rest.len() as int] == (n - 1) as usize);
        } else {
            assert(cur == rest);
        }
        assert forall|i: int| 0 <= i < n && is_visible(b, li, i, search) implies visible_upto(b, li, search, n).contains(i as usize) by {
            if i < n - 1 {
                let w = choose|w: int| 0 <= w < rest.len() && rest[w] == i as usize;
                assert(visible_upto(b, li, search, n)[w] == i as usize);
            } else {
                assert(visible_upto(b, li, search, n)[rest.len() as int] == i as usize);
            }
        }
    }
}


/// Every shown index of a list indexes its `card_ids`.
pub proof fn lemma_visible_of_in_range(b: LoadedBoard, li: int, search: Option<Seq<char>>)
    requires
        0 <= li < b.lists@.len(),
        b.lists@[li].card_ids@.len() <= usize::MAX,
    ensures
        forall|a: int| 0 <= a < visible_of(b, li, search).len() ==> (#[trigger] visible_of(b, li, search)[a]) < b.lists@[li].card_ids@.len(),
{
    lemma_visible_upto(b, li, search, b.lists@[li].card_ids@.len() as int);
}

/// A list has no shown card and ordinal 0, or the ordinal is within its
/// shown cards.
pub open spec fn ordinal_ok(b: LoadedBoard, i: int) -> bool {
    let count = visible_of(b, i, None).len();
    &&& count == 0 ==> b.selected_card@[i] == 0
    &&& count > 0 ==> b.selected_card@[i] < count
}

/// The selection state fits the lists: one ordinal and scroll offset per
/// active list, the selected list in range, each ordinal within its list.
pub open spec fn selection_ok(b: LoadedBoard) -> bool {
    let n = b.lists@.len();
    &&& b.selected_card@.len() == n
    &&& b.scroll_offset@.len() == n
    &&& n > 0 ==> b.selected_list < n
    &&& forall|i: int| 0 <= i < n ==> #[trigger] ordinal_ok(b, i)
}

/// Card ids are unique.
pub open spec fn ids_unique(cards: Seq<Card>) -> bool {
    forall|i: int, j: int| 0 <= i < j < cards.len() ==> (#[trigger] cards[i]).id@ != (#[trigger] cards[j]).id@
}

/// Some list definition of the board has id `id`.
pub open spec fn names_list(meta_lists: Seq<ListMeta>, id: Seq<char>) -> bool {
    exists|m: int| 0 <= m < meta_lists.len() && (#[trigger] meta_lists[m]).id@ == id
}

/// Every card belongs to a list the board defines.
pub open spec fn no_orphans(b: LoadedBoard) -> bool {
    forall|k: int| 0 <= k < b.cards@.len() ==> names_list(b.meta.lists@, (#[trigger] b.cards@[k]).list_id@)
}

/// Every active list's card ids are its members in position order.
pub open spec fn lists_in_order(b: LoadedBoard) -> bool {
    forall|li: int| 0 <= li < b.lists@.len() ==> ordered_ids_of(b.cards@, (#[trigger] b.lists@[li]).id@, b.lists@[li].card_ids@)
}

/// Every active list is defined in the board's metadata.
pub open spec fn lists_defined(b: LoadedBoard) -> bool {
    forall|li: int| 0 <= li < b.lists@.len() ==> names_list(b.meta.lists@, (#[trigger] b.lists@[li]).id@)
}

/// No two active lists share an id.
pub open spec fn lists_distinct(b: LoadedBoard) -> bool {
    forall|i: int, j: int| 0 <= i < j < b.lists@.len() ==> (#[trigger] b.lists@[i]).id@ != (#[trigger] b.lists@[j]).id@
}

/// The structural invariants of a loaded board.
pub open spec fn well_formed(b: LoadedBoard) -> bool {
    &&& ids_unique(b.cards@)
    &&& no_orphans(b)
    &&& lists_defined(b)
    &&& lists_distinct(b)
    &&& lists_in_order(b)
    &&& selection_ok(b)
}

/// The selection after clamping every ordinal into its list's shown cards.
pub open spec fn clamped(b: LoadedBoard, i: int) -> usize {
    let count = visible_of(b, i, None).len();
    if count == 0 {
        0
    } else if b.selected_card@[i] >= count {
        (count - 1) as usize
    } else {
        b.selected_card@[i]
    }
}

/// Position of `x` in `s`, if present.
pub open spec fn index_in(s: Seq<usize>, x: usize) -> Option<int> {
    if s.contains(x) {
        Some(choose|i: int| 0 <= i < s.len() && s[i] == x)
    } else {
        None
    }
}

/// Position of `x` in `s` (first occurrence).
pub fn position_of(s: &Vec<usize>, x: usize) -> (r: Option<usize>)
    ensures
        r is Some <==> s@.contains(x),
        r is Some ==> r->0 < s@.len() && s@[r->0 as int] == x,
{
    let mut i: usize = 0;
    while i < s.len()
        invariant
            i <= s@.len(),
            forall|k: int| 0 <= k < i ==> s@[k] != x,
        decreases s.len() - i,
    {
        if s[i] == x {
            return Some(i);
        }
        i += 1;
    }
    None
}

/// The selected card's id: the selected list's selected ordinal counts its
/// shown (non-archived) cards; `None` when it is past them.
pub open spec fn current_card_id_of(b: LoadedBoard) -> Option<ShortId> {
    let li = b.selected_list as int;
    let vis = visible_of(b, li, None);
    if li < b.lists@.len() && li < b.selected_card@.len() && b.selected_card@[li] < vis.len() {
        Some(b.lists@[li].card_ids@[vis[b.selected_card@[li] as int] as int])
    } else {
        None
    }
}

impl LoadedBoard {
    /// Indices (into the list's `card_ids`) of the cards shown in list
    /// `list_idx`: archived cards are hidden and, with a search, so are
    /// non-matching ones. Empty for a list index out of range.
    pub fn visible_cards(&self, list_idx: usize, search: Option<&str>) -> (v: Vec<usize>)
        ensures
            v@ == visible_of(*self, list_idx as int, search_view(search)),
    {
        let mut v: Vec<usize> = Vec::new();
        if list_idx >= self.lists.len() {
            return v;
        }
        let list = &self.lists[list_idx];
        for i in 0..list.card_ids.len()
            invariant
                list_idx < self.lists@.len(),
                *list == self.lists@[list_idx as int],
                v@ == visible_upto(*self, list_idx as int, search_view(search), i as int),
        {
            match find_card(&self.cards, list.card_ids[i].as_str()) {
                Some(k) => {
                    let c = &self.cards[k];
                    let shown = !c.archived && match search {
                        Some(q) => c.matches_search(q, self.meta.labels.as_slice()),
                        None => true,
                    };
                    if shown {
                        v.push(i);
                    }
                },
                None => {},
            }
        }
        v
    }

    /// The selected card's id (see [`current_card_id_of`]).
    pub fn current_card_id(&self) -> (r: Option<&ShortId>)
        ensures
            match r {
                Some(id) => current_card_id_of(*self) == Some(*id),
                None => current_card_id_of(*self) is None,
            },
    {
        if self.selected_list >= self.lists.len() || self.selected_list >= self.selected_card.len() {
            return None;
        }
        let li = self.selected_list;
        let vis = self.visible_cards(li, None);
        let ord = self.selected_card[li];
        if ord < vis.len() {
            let n = self.lists[li].card_ids.len();
            proof {
                lemma_visible_of_in_range(*self, li as int, None);
            }
            Some(&self.lists[li].card_ids[vis[ord]])
        } else {
            None
        }
    }

    /// The selected card, when its id names a card.
    pub fn current_card(&self) -> (r: Option<&Card>)
        ensures
            match current_card_id_of(*self) {
                Some(id) => match r {
                    Some(c) => index_of(self.cards@, id@) >= 0 && *c == self.cards@[index_of(self.cards@, id@)],
                    None => index_of(self.cards@, id@) < 0,
                },
                None => r is None,
            },
    {
        match self.current_card_id() {
            Some(id) => match find_card(&self.cards, id.as_str()) {
                Some(k) => Some(&self.cards[k]),
                None => None,
            },
            None => None,
        }
    }

    /// Clamp every list's selected ordinal into its shown cards: 0 for a
    /// list with none, at most the last shown ordinal otherwise.
    pub fn clamp_selection(&mut self)
        requires
            old(self).selected_card@.len() >= old(self).lists@.len(),
        ensures
            final(self).selected_card@.len() == old(self).selected_card@.len(),
            forall|i: int| 0 <= i < old(self).lists@.len() ==> final(self).selected_card@[i] == #[trigger] clamped(*old(self), i),
            forall|i: int| old(self).lists@.len() <= i < old(self).selected_card@.len() ==> final(self).selected_card@[i] == old(self).selected_card@[i],
            *final(self) == (LoadedBoard { selected_card: final(self).selected_card, ..*old(self) }),
    {
        let ghost b0 = *self;
        let n = self.lists.len();
        for i in 0..n
            invariant
                n == b0.lists@.len(),
                n <= b0.selected_card@.len(),
                self.selected_card@.len() == b0.selected_card@.len(),
                *self == (LoadedBoard { selected_card: self.selected_card, ..b0 }),
                forall|k: int| 0 <= k < i ==> self.selected_card@[k] == #[trigger] clamped(b0, k),
                forall|k: int| i <= k < self.selected_card@.len() ==> self.selected_card@[k] == b0.selected_card@[k],
        {
            let count = self.visible_card_count(i);
            proof {
                lemma_visible_frame(b0, *self, i as int);
            }
            if count == 0 {
                self.selected_card.set(i, 0);
            } else if self.selected_card[i] >= count {
                self.selected_card.set(i, count - 1);
            }
        }
    }

    /// Number of shown (non-archived) cards of list `list_idx`.
    pub fn visible_card_count(&self, list_idx: usize) -> (n: usize)
        ensures
            n == visible_of(*self, list_idx as int, None).len(),
    {
        self.visible_cards(list_idx, None).len()
    }
}

} // verus!

verus! {

/// Index of the first `x` in `s`, or -1.
pub open spec fn first_pos(s: Seq<usize>, x: usize) -> int
    decreases s.len(),
{
    if s.len() == 0 {
        -1
    } else {
        let r = first_pos(s.drop_last(), x);
        if r >= 0 {
            r
        } else if s.last() == x {
            s.len() - 1
        } else {
            -1
        }
    }
}

/// The first element of `s` greater than `x`.
pub open spec fn first_gt(s: Seq<usize>, x: usize) -> Option<usize>
    decreases s.len(),
{
    if s.len() == 0 {
        None
    } else if s[0] > x {
        Some(s[0])
    } else {
        first_gt(s.drop_first(), x)
    }
}

/// The last element of `s` smaller than `x`.
pub open spec fn last_lt(s: Seq<usize>, x: usize) -> Option<usize>
    decreases s.len(),
{
    if s.len() == 0 {
        None
    } else if s.last() < x {
        Some(s.last())
    } else {
        last_lt(s.drop_last(), x)
    }
}

pub proof fn lemma_first_pos(s: Seq<usize>, x: usize)
    ensures
        -1 <= first_pos(s, x) < s.len(),
        first_pos(s, x) >= 0 ==> s[first_pos(s, x)] == x,
        first_pos(s, x) < 0 ==> !s.contains(x),
        first_pos(s, x) >= 0 ==> forall|k: int| 0 <= k < first_pos(s, x) ==> s[k] != x,
    decreases s.len(),
{
    if s.len() > 0 {
        let d = s.drop_last();
        lemma_first_pos(d, x);
        assert forall|k: int| 0 <= k < d.len() implies d[k] == s[k] by {}
        if first_pos(s, x) < 0 {
            assert forall|k: int| 0 <= k < s.len() implies s[k] != x by {
                if k < d.len() {
                    assert(!d.contains(x));
                    assert(d[k] != x);
                }
            }
        }
    }
}

/// Index of the first `x` in `s`.
pub fn find_pos(s: &Vec<usize>, x: usize) -> (r: Option<usize>)
    ensures
        match r {
            Some(i) => first_pos(s@, x) == i && i < s@.len(),
            None => first_pos(s@, x) < 0,
        },
{
    proof {
        lemma_first_pos(s@, x);
    }
    let mut i: usize = 0;
    while i < s.len()
        invariant
            i <= s@.len(),
            forall|k: int| 0 <= k < i ==> s@[k] != x,
        decreases s.len() - i,
    {
        if s[i] == x {
            proof {
                lemma_first_pos_at(s@, x, i as int);
            }
            return Some(i);
        }
        i += 1;
    }
    None
}

proof fn lemma_first_pos_at(s: Seq<usize>, x: usize, i: int)
    requires
        0 <= i < s.len(),
        s[i] == x,
        forall|k: int| 0 <= k < i ==> s[k] != x,
    ensures
        first_pos(s, x) == i,
{
    lemma_first_pos(s, x);
}

/// The first element of `s` greater than `x`.
pub fn find_first_gt(s: &Vec<usize>, x: usize) -> (r: Option<usize>)
    ensures
        r == first_gt(s@, x),
{
    let mut i: usize = 0;
    assert(s@.skip(0) =~= s@);
    while i < s.len()
        invariant
            i <= s@.len(),
            first_gt(s@, x) == first_gt(s@.skip(i as int), x),
        decreases s.len() - i,
    {
        assert(s@.skip(i as int).drop_first() =~= s@.skip(i + 1));
        if s[i] > x {
            return Some(s[i]);
        }
        i += 1;
    }
    None
}

/// The last element of `s` smaller than `x`.
pub fn find_last_lt(s: &Vec<usize>, x: usize) -> (r: Option<usize>)
    ensures
        r == last_lt(s@, x),
{
    let mut i: usize = s.len();
    assert(s@.take(i as int) =~= s@);
    while i > 0
        invariant
            i <= s@.len(),
            last_lt(s@, x) == last_lt(s@.take(i as int), x),
        decreases i,
    {
        assert(s@.take(i as int).drop_last() =~= s@.take(i - 1));
        if s[i - 1] < x {
            return Some(s[i - 1]);
        }
        i -= 1;
    }
    None
}

/// The selected ordinal of list `li` (0 when it has no slot).
pub open spec fn ordinal_of(b: LoadedBoard, li: int) -> usize {
    if 0 <= li < b.selected_card@.len() {
        b.selected_card@[li]
    } else {
        0
    }
}

/// The ordinal `select_card_down` moves list `li` to, if any: the shown
/// position of the first card after the selected one that is shown under
/// `search`.
pub open spec fn down_target(b: LoadedBoard, li: int, search: Option<Seq<char>>) -> Option<usize> {
    let base = visible_of(b, li, None);
    let ord = ordinal_of(b, li);
    if ord < base.len() {
        match first_gt(visible_of(b, li, search), base[ord as int]) {
            Some(raw) => if first_pos(base, raw) >= 0 {
                Some(first_pos(base, raw) as usize)
            } else {
                None
            },
            None => None,
        }
    } else {
        None
    }
}

/// The ordinal `select_card_up` moves list `li` to, if any.
pub open spec fn up_target(b: LoadedBoard, li: int, search: Option<Seq<char>>) -> Option<usize> {
    let base = visible_of(b, li, None);
    let ord = ordinal_of(b, li);
    if ord < base.len() {
        match last_lt(visible_of(b, li, search), base[ord as int]) {
            Some(raw) => if first_pos(base, raw) >= 0 {
                Some(first_pos(base, raw) as usize)
            } else {
                None
            },
            None => None,
        }
    } else {
        None
    }
}

/// `after` is `before` with list `li`'s ordinal set to `t` when `t` is
/// some ordinal, and unchanged otherwise.
pub open spec fn ordinal_moved(before: LoadedBoard, after: LoadedBoard, li: int, t: Option<usize>) -> bool {
    match t {
        Some(o) => after == (LoadedBoard { selected_card: after.selected_card, ..before })
            && after.selected_card@ == before.selected_card@.update(li, o),
        None => after == before,
    }
}

/// The first list (below `n`) with a card matching `q`.
pub open spec fn first_match_list(b: LoadedBoard, q: Seq<char>, n: int) -> Option<int>
    decreases n,
{
    if n <= 0 {
        None
    } else {
        match first_match_list(b, q, n - 1) {
            Some(li) => Some(li),
            None => if visible_of(b, n - 1, Some(q)).len() > 0 {
                Some(n - 1)
            } else {
                None
            },
        }
    }
}

proof fn lemma_first_match_stable(b: LoadedBoard, q: Seq<char>, m: int, n: int)
    requires
        0 < m <= n,
        first_match_list(b, q, m) is Some,
    ensures
        first_match_list(b, q, n) == first_match_list(b, q, m),
    decreases n - m,
{
    if n > m {
        lemma_first_match_stable(b, q, m, n - 1);
    }
}

/// The checklist length of the selected card (0 without one).
pub open spec fn current_checklist_len(b: LoadedBoard) -> int {
    match current_card_id_of(b) {
        Some(id) => if index_of(b.cards@, id@) >= 0 {
            b.cards@[index_of(b.cards@, id@)].checklist@.len() as int
        } else {
            0
        },
        None => 0,
    }
}

/// What kind of thing a command named that the board does not have.
#[derive(Debug, Clone, Copy, PartialEq, Eq, Structural)]
pub enum EntityKind {
    Card,
    List,
    Label,
    Board,
}

/// Which rule a rejected command broke.
#[derive(Debug, Clone, Copy, PartialEq, Eq, Structural)]
pub enum InvariantKind {
    /// A checklist index past the card's checklist.
    ChecklistIndex,
    /// A label index past the board's labels.
    LabelIndex,
    /// `MoveList` only moves left or right.
    MoveListDirection,
}

/// Why a command was rejected. The board is unchanged.
#[derive(Debug, Clone)]
pub enum BoardEditorError {
    NotFound { kind: EntityKind, id: ShortId },
    Invariant(InvariantKind),
}

/// A write the caller must perform after a command: one card's file, or
/// the board's metadata file.
#[derive(Debug, Clone)]
pub enum PendingWrite {
    Card(ShortId),
    Board,
}

/// The outside values a command may need: the current time, a fresh id
/// for a created card, list or label, and the order key of the position a
/// created, restored or moved card takes.
#[derive(Debug, Clone)]
pub struct ApplyContext {
    pub now: Timestamp,
    pub fresh_id: ShortId,
    pub new_position: u64,
}

/// The order keys a new position must fall after or between.
#[derive(Debug, Clone, Copy, PartialEq, Eq, Structural)]
pub enum PositionRequest {
    /// The command needs no new position.
    Unneeded,
    /// One past the last card of a list: past the largest key among its
    /// cards (`None` for an empty list), and past zero.
    After(Option<u64>),
    /// Strictly between two neighbours; `None` is an open end.
    Between(Option<u64>, Option<u64>),
}

/// The board, card and list fields that decide list order are unchanged
/// at every card: id, list, position and creation time.
pub open spec fn same_order_fields(a: Card, b: Card) -> bool {
    &&& a.id == b.id
    &&& a.list_id == b.list_id
    &&& a.position == b.position
    &&& a.created_at == b.created_at
}

/// The editor for one loaded board.
pub struct BoardEditor {
    pub board: LoadedBoard,
    pub last_added_card_id: Option<ShortId>,
    /// Non-fatal issues repaired while loading (orphan cards reattached,
    /// dangling label references stripped).
    pub diagnostics: Vec<String>,
}

impl BoardEditor {
    /// An editor over an already built board.
    pub fn from_loaded(board: LoadedBoard) -> (e: Self)
        ensures
            e.board == board,
            e.last_added_card_id is None,
            e.diagnostics@.len() == 0,
    {
        BoardEditor { board, last_added_card_id: None, diagnostics: Vec::new() }
    }

    /// The loaded board.
    pub fn board(&self) -> (b: &LoadedBoard)
        ensures
            *b == self.board,
    {
        &self.board
    }

    /// Id of the card created by the last `AddCard`, if the last command
    /// was one.
    pub fn last_added_card_id(&self) -> (r: Option<&ShortId>)
        ensures
            match r {
                Some(id) => self.last_added_card_id == Some(*id),
                None => self.last_added_card_id is None,
            },
    {
        match &self.last_added_card_id {
            Some(id) => Some(id),
            None => None,
        }
    }

    /// Select the list to the left, if any.
    pub fn select_list_left(&mut self)
        ensures
            final(self).board == (LoadedBoard {
                selected_list: if old(self).board.selected_list > 0 {
                    (old(self).board.selected_list - 1) as usize
                } else {
                    old(self).board.selected_list
                },
                ..old(self).board
            }),
            final(self).last_added_card_id == old(self).last_added_card_id,
            final(self).diagnostics == old(self).diagnostics,
    {
        if self.board.selected_list > 0 {
            self.board.selected_list -= 1;
        }
    }

    /// Select the list to the right, if any.
    pub fn select_list_right(&mut self)
        ensures
            final(self).board == (LoadedBoard {
                selected_list: if old(self).board.selected_list + 1 < old(self).board.lists@.len() {
                    (old(self).board.selected_list + 1) as usize
                } else {
                    old(self).board.selected_list
                },
                ..old(self).board
            }),
            final(self).last_added_card_id == old(self).last_added_card_id,
            final(self).diagnostics == old(self).diagnostics,
    {
        let n = self.board.lists.len();
        if self.board.selected_list < if n > 0 { n - 1 } else { 0 } {
            self.board.selected_list += 1;
        }
    }

    /// Move the selection down to the next shown card (the next match when
    /// a search is active).
    pub fn select_card_down(&mut self, search: Option<&str>)
        requires
            old(self).board.selected_card@.len() == old(self).board.lists@.len(),
        ensures
            ordinal_moved(old(self).board, final(self).board, old(self).board.selected_list as int,
                down_target(old(self).board, old(self).board.selected_list as int, search_view(search))),
            final(self).last_added_card_id == old(self).last_added_card_id,
            final(self).diagnostics == old(self).diagnostics,
    {
        let li = self.board.selected_list;
        let base = self.board.visible_cards(li, None);
        let cur_ord = if li < self.board.selected_card.len() { self.board.selected_card[li] } else { 0 };
        if cur_ord >= base.len() {
            return;
        }
        let cur_raw = base[cur_ord];
        let vs = self.board.visible_cards(li, search);
        if let Some(next_raw) = find_first_gt(&vs, cur_raw) {
            if let Some(ord) = find_pos(&base, next_raw) {
                if li < self.board.selected_card.len() {
                    self.board.selected_card.set(li, ord);
                }
            }
        }
    }

    /// Move the selection up to the previous shown card (the previous
    /// match when a search is active).
    pub fn select_card_up(&mut self, search: Option<&str>)
        requires
            old(self).board.selected_card@.len() == old(self).board.lists@.len(),
        ensures
            ordinal_moved(old(self).board, final(self).board, old(self).board.selected_list as int,
                up_target(old(self).board, old(self).board.selected_list as int, search_view(search))),
            final(self).last_added_card_id == old(self).last_added_card_id,
            final(self).diagnostics == old(self).diagnostics,
    {
        let li = self.board.selected_list;
        let base = self.board.visible_cards(li, None);
        let cur_ord = if li < self.board.selected_card.len() { self.board.selected_card[li] } else { 0 };
        if cur_ord >= base.len() {
            return;
        }
        let cur_raw = base[cur_ord];
        let vs = self.board.visible_cards(li, search);
        if let Some(prev_raw) = find_last_lt(&vs, cur_raw) {
            if let Some(ord) = find_pos(&base, prev_raw) {
                if li < self.board.selected_card.len() {
                    self.board.selected_card.set(li, ord);
                }
            }
        }
    }

    /// Select the first shown card of the selected list.
    pub fn select_first_card(&mut self)
        ensures
            final(self).board == (LoadedBoard { selected_card: final(self).board.selected_card, ..old(self).board }),
            final(self).board.selected_card@ == if (old(self).board.selected_list as int) < old(self).board.selected_card@.len() {
                old(self).board.selected_card@.update(old(self).board.selected_list as int, 0)
            } else {
                old(self).board.selected_card@
            },
            final(self).last_added_card_id == old(self).last_added_card_id,
            final(self).diagnostics == old(self).diagnostics,
    {
        let li = self.board.selected_list;
        if li < self.board.selected_card.len() {
            self.board.selected_card.set(li, 0);
        }
    }

    /// Select the last shown card of the selected list.
    pub fn select_last_card(&mut self)
        ensures
            final(self).board == (LoadedBoard { selected_card: final(self).board.selected_card, ..old(self).board }),
            final(self).board.selected_card@ == if (old(self).board.selected_list as int) < old(self).board.selected_card@.len() {
                old(self).board.selected_card@.update(
                    old(self).board.selected_list as int,
                    if visible_of(old(self).board, old(self).board.selected_list as int, None).len() > 0 {
                        (visible_of(old(self).board, old(self).board.selected_list as int, None).len() - 1) as usize
                    } else {
                        0
                    },
                )
            } else {
                old(self).board.selected_card@
            },
            final(self).last_added_card_id == old(self).last_added_card_id,
            final(self).diagnostics == old(self).diagnostics,
    {
        let li = self.board.selected_list;
        let count = self.board.visible_card_count(li);
        let max = if count > 0 { count - 1 } else { 0 };
        if li < self.board.selected_card.len() {
            self.board.selected_card.set(li, max);
        }
    }

    /// Jump to the first card matching `query` anywhere on the board: the
    /// first list with a match becomes selected, with that card selected.
    pub fn select_first_match(&mut self, query: &str)
        requires
            old(self).board.selected_card@.len() == old(self).board.lists@.len(),
        ensures
            final(self).last_added_card_id == old(self).last_added_card_id,
            final(self).diagnostics == old(self).diagnostics,
            match first_match_list(old(self).board, query@, old(self).board.lists@.len() as int) {
                None => final(self).board == old(self).board,
                Some(li) => {
                    let raw = visible_of(old(self).board, li, Some(query@))[0];
                    let base = visible_of(old(self).board, li, None);
                    &&& final(self).board == (LoadedBoard {
                        selected_list: li as usize,
                        selected_card: final(self).board.selected_card,
                        ..old(self).board
                    })
                    &&& final(self).board.selected_card@ == if first_pos(base, raw) >= 0 {
                        old(self).board.selected_card@.update(li, first_pos(base, raw) as usize)
                    } else {
                        old(self).board.selected_card@
                    }
                },
            },
    {
        let n = self.board.lists.len();
        for li in 0..n
            invariant
                n == self.board.lists@.len(),
                self.board.selected_card@.len() == n,
                first_match_list(self.board, query@, li as int) is None,
                *self == *old(self),
        {
            let vs = self.board.visible_cards(li, Some(query));
            if vs.len() > 0 {
                proof {
                    assert(first_match_list(self.board, query@, li + 1) == Some(li as int));
                    lemma_first_match_stable(self.board, query@, li + 1, n as int);
                }
                let raw = vs[0];
                let ghost b0 = self.board;
                self.board.selected_list = li;
                let base = self.board.visible_cards(li, None);
                proof {
                    lemma_visible_frame(b0, self.board, li as int);
                }
                if let Some(ord) = find_pos(&base, raw) {
                    self.board.selected_card.set(li, ord);
                }
                return;
            }
        }
    }

    /// Put the card-detail cursor and scroll back to the top.
    pub fn reset_detail_cursor(&mut self)
        ensures
            final(self).board == (LoadedBoard { detail_item_idx: 0, detail_scroll: 0, ..old(self).board }),
            final(self).last_added_card_id == old(self).last_added_card_id,
            final(self).diagnostics == old(self).diagnostics,
    {
        self.board.detail_item_idx = 0;
        self.board.detail_scroll = 0;
    }

    /// Move the card-detail cursor up one item.
    pub fn detail_item_up(&mut self)
        ensures
            final(self).board == (LoadedBoard {
                detail_item_idx: if old(self).board.detail_item_idx > 0 {
                    (old(self).board.detail_item_idx - 1) as usize
                } else {
                    0
                },
                ..old(self).board
            }),
            final(self).last_added_card_id == old(self).last_added_card_id,
            final(self).diagnostics == old(self).diagnostics,
    {
        if self.board.detail_item_idx > 0 {
            self.board.detail_item_idx -= 1;
        }
    }

    /// Move the card-detail cursor down one item, staying within the
    /// selected card's checklist.
    pub fn detail_item_down(&mut self)
        ensures
            final(self).board == (LoadedBoard {
                detail_item_idx: if old(self).board.detail_item_idx + 1 < current_checklist_len(old(self).board) {
                    (old(self).board.detail_item_idx + 1) as usize
                } else {
                    old(self).board.detail_item_idx
                },
                ..old(self).board
            }),
            final(self).last_added_card_id == old(self).last_added_card_id,
            final(self).diagnostics == old(self).diagnostics,
    {
        let len = match self.board.current_card() {
            Some(c) => c.checklist.len(),
            None => 0,
        };
        if self.board.detail_item_idx < if len > 0 { len - 1 } else { 0 } {
            self.board.detail_item_idx += 1;
        }
    }

    /// Scroll the description pane by `step`, within `0..=max_scroll`. The
    /// stored offset is clamped first, so a position past the maximum
    /// responds to the very next key.
    pub fn scroll_detail(&mut self, step: usize, down: bool, max_scroll: usize)
        ensures
            final(self).board == (LoadedBoard {
                detail_scroll: {
                    let cur = if old(self).board.detail_scroll < max_scroll {
                        old(self).board.detail_scroll as int
                    } else {
                        max_scroll as int
                    };
                    if down {
                        if cur + step < max_scroll { (cur + step) as usize } else { max_scroll }
                    } else {
                        if cur >= step { (cur - step) as usize } else { 0 }
                    }
                },
                ..old(self).board
            }),
            final(self).last_added_card_id == old(self).last_added_card_id,
            final(self).diagnostics == old(self).diagnostics,
    {
        let current = if self.board.detail_scroll < max_scroll { self.board.detail_scroll } else { max_scroll };
        self.board.detail_scroll = if down {
            if step < max_scroll - current { current + step } else { max_scroll }
        } else {
            if current >= step { current - step } else { 0 }
        };
    
    }
}

} // verus!
