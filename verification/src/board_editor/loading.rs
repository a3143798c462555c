//! Building a board from what was read, repairing dangling references,
//! and the in-memory side of reloading and of deleting archived cards and
//! lists. Reading and writing files is the caller's part.

use vstd::prelude::*;

use super::commands::{find_label, find_meta_list, label_index, lemma_meta_pos, meta_pos};
use super::placement::{list_max_key, max_key};
use super::{index_of, find_card, lemma_index_of, names_list, visible_of, BoardEditor, LoadedBoard, PendingWrite};
use crate::model::board::{BoardMeta, ListMeta};
use crate::model::card::{contains_id, has_id, Card};
use crate::model::ids::ShortId;
use crate::model::list::{build_lists, built_lists, is_member, CardList};
use crate::model::label::Label;
use crate::text::{concat3, decimal, push_decimal, push_str};

verus! {

/// Index of the first list definition that is not archived, or -1.
pub open spec fn first_active(lists: Seq<ListMeta>) -> int
    decreases lists.len(),
{
    if lists.len() == 0 {
        -1
    } else {
        let r = first_active(lists.drop_last());
        if r >= 0 {
            r
        } else if !lists.last().archived {
            lists.len() - 1
        } else {
            -1
        }
    }
}

/// The list orphaned cards are reattached to: the first active list
/// definition, else the first definition; `None` without definitions.
pub open spec fn reattach_target(lists: Seq<ListMeta>) -> Option<ShortId> {
    let a = first_active(lists);
    if a >= 0 {
        Some(lists[a].id)
    } else if lists.len() > 0 {
        Some(lists[0].id)
    } else {
        None
    }
}

proof fn lemma_first_active(lists: Seq<ListMeta>)
    ensures
        -1 <= first_active(lists) < lists.len(),
        first_active(lists) >= 0 ==> !lists[first_active(lists)].archived,
        forall|k: int| 0 <= k < lists.len() && (first_active(lists) < 0 || k < first_active(lists)) ==> (#[trigger] lists[k]).archived,
    decreases lists.len(),
{
    if lists.len() > 0 {
        lemma_first_active(lists.drop_last());
        assert forall|k: int| 0 <= k < lists.len() - 1 implies lists.drop_last()[k] == lists[k] by {}
    }
}

/// The list orphans go to (see [`reattach_target`]).
pub fn find_reattach_target(lists: &Vec<ListMeta>) -> (r: Option<ShortId>)
    ensures
        r == reattach_target(lists@),
{
    proof {
        lemma_first_active(lists@);
    }
    let mut i: usize = 0;
    while i < lists.len()
        invariant
            i <= lists@.len(),
            forall|k: int| 0 <= k < i ==> (#[trigger] lists@[k]).archived,
            -1 <= first_active(lists@) < lists@.len(),
            first_active(lists@) >= 0 ==> !lists@[first_active(lists@)].archived,
            forall|k: int| 0 <= k < lists@.len() && (first_active(lists@) < 0 || k < first_active(lists@)) ==> (#[trigger] lists@[k]).archived,
        decreases lists.len() - i,
    {
        if !lists[i].archived {
            return Some(lists[i].id.clone());
        }
        i += 1;
    }
    if lists.len() > 0 {
        Some(lists[0].id.clone())
    } else {
        None
    }
}

/// Whether some list definition has id `id`.
pub fn defines_list(lists: &Vec<ListMeta>, id: &str) -> (b: bool)
    ensures
        b == names_list(lists@, id@),
{
    proof {
        lemma_meta_pos(lists@, id@);
    }
    let r = find_meta_list(lists, id);
    proof {
        if names_list(lists@, id@) {
            let m = choose|m: int| 0 <= m < lists@.len() && (#[trigger] lists@[m]).id@ == id@;
        }
    }
    r.is_some()
}

/// The board knows a label with id `id`.
pub open spec fn known_label(labels: Seq<Label>) -> spec_fn(ShortId) -> bool {
    |l: ShortId| label_index(labels, l@) >= 0
}

/// The label ids of `ids` that name a label of `labels`, in order.
pub fn keep_known_labels(ids: &Vec<ShortId>, labels: &Vec<Label>) -> (r: Vec<ShortId>)
    ensures
        r@ == ids@.filter(known_label(labels@)),
{
    let mut r: Vec<ShortId> = Vec::new();
    for i in 0..ids.len()
        invariant
            r@ == ids@.take(i as int).filter(known_label(labels@)),
    {
        proof {
            reveal_with_fuel(Seq::<ShortId>::filter, 1);
            assert(ids@.take(i + 1).drop_last() =~= ids@.take(i as int));
        }
        if find_label(labels, &ids[i]).is_some() {
            r.push(ids[i].clone());
        }
    }
    assert(ids@.take(ids.len() as int) =~= ids@);
    r
}

/// The card is orphaned: no list definition names its list.
pub open spec fn is_orphan(meta: BoardMeta, c: Card) -> bool {
    !names_list(meta.lists@, c.list_id@)
}

/// The card is orphaned and there is a list to reattach it to.
pub open spec fn reattached(meta: BoardMeta, c: Card) -> bool {
    is_orphan(meta, c) && reattach_target(meta.lists@) is Some
}

/// Number of cards of `cards` that get reattached.
pub open spec fn reattach_count(meta: BoardMeta, cards: Seq<Card>) -> nat
    decreases cards.len(),
{
    if cards.len() == 0 {
        0
    } else {
        reattach_count(meta, cards.drop_last()) + if reattached(meta, cards.last()) { 1nat } else { 0nat }
    }
}

/// How many of the card's label references name no label of the board.
pub open spec fn stripped_count(meta: BoardMeta, c: Card) -> nat {
    (c.label_ids@.len() - c.label_ids@.filter(known_label(meta.labels@)).len()) as nat
}

/// `c2` is card `c` repaired: reattached to the target list at order key
/// `key` when orphaned, and with its unknown label references dropped.
pub open spec fn repaired(meta: BoardMeta, c: Card, key: u64, c2: Card) -> bool {
    let moved = reattached(meta, c);
    &&& c2.label_ids@ == c.label_ids@.filter(known_label(meta.labels@))
    &&& c2.checklist@ == c.checklist@
    &&& c2.history@ == c.history@
    &&& c2 == (Card {
        label_ids: c2.label_ids,
        checklist: c2.checklist,
        history: c2.history,
        list_id: if moved { reattach_target(meta.lists@)->0 } else { c.list_id },
        position: if moved { key } else { c.position },
        ..c
    })
}

/// The warnings repairing card `c` reports.
pub open spec fn card_warnings(meta: BoardMeta, c: Card) -> Seq<Seq<char>> {
    let quoted = "card \""@ + c.title@ + "\""@;
    let list_part = if is_orphan(meta, c) {
        if reattach_target(meta.lists@) is Some {
            seq![quoted + " pointed at missing list — reattached to first list"@]
        } else {
            seq![quoted + " is orphaned and the board has no lists to attach it to"@]
        }
    } else {
        seq![]
    };
    let n = stripped_count(meta, c);
    let label_part = if n > 0 {
        seq![quoted + " had "@ + decimal(n) + " unknown label ref(s) removed"@]
    } else {
        seq![]
    };
    list_part + label_part
}

/// The warnings repairing `cards` reports, card by card.
pub open spec fn repair_warnings(meta: BoardMeta, cards: Seq<Card>) -> Seq<Seq<char>>
    decreases cards.len(),
{
    if cards.len() == 0 {
        seq![]
    } else {
        repair_warnings(meta, cards.drop_last()) + card_warnings(meta, cards.last())
    }
}

/// The ids of the cards of `cards` that repairing changes, in order.
pub open spec fn repair_changed(meta: BoardMeta, cards: Seq<Card>) -> Seq<Seq<char>>
    decreases cards.len(),
{
    if cards.len() == 0 {
        seq![]
    } else {
        let c = cards.last();
        let rest = repair_changed(meta, cards.drop_last());
        if reattached(meta, c) || stripped_count(meta, c) > 0 {
            rest.push(c.id@)
        } else {
            rest
        }
    }
}

/// `key` lies past every order key of the list reattached cards go to.
pub open spec fn past_target_tail(meta: BoardMeta, cards: Seq<Card>, key: u64) -> bool {
    match reattach_target(meta.lists@) {
        Some(t) => match max_key(cards, t@) {
            Some(m) => m < key,
            None => true,
        },
        None => true,
    }
}

/// The order keys for reattached cards fit: there is one for each card
/// that gets reattached, they rise strictly, and each lies past the
/// cards already in the list they go to.
pub open spec fn reattach_keys_fit(meta: BoardMeta, cards: Seq<Card>, keys: Seq<u64>) -> bool {
    let n = reattach_count(meta, cards);
    &&& n <= keys.len()
    &&& forall|i: int, j: int| 0 <= i < j < n ==> #[trigger] keys[i] < #[trigger] keys[j]
    &&& forall|i: int| 0 <= i < n ==> past_target_tail(meta, cards, #[trigger] keys[i])
}

/// How many of `cards` loading reattaches.
fn reattach_total(meta: &BoardMeta, cards: &Vec<Card>) -> (n: usize)
    ensures
        n == reattach_count(*meta, cards@),
{
    let target = find_reattach_target(&meta.lists);
    let mut n: usize = 0;
    for k in 0..cards.len()
        invariant
            target == reattach_target(meta.lists@),
            n == reattach_count(*meta, cards@.take(k as int)),
            n <= k,
    {
        assert(cards@.take(k + 1).drop_last() =~= cards@.take(k as int));
        if target.is_some() && !defines_list(&meta.lists, cards[k].list_id.as_str()) {
            n += 1;
        }
    }
    assert(cards@.take(cards.len() as int) =~= cards@);
    n
}

/// Keys for the cards loading `cards` reattaches, one after another past
/// the largest key of the list they go to (from 0 when it has none);
/// `None` when they would run past `u64::MAX`.
pub fn reattach_keys(meta: &BoardMeta, cards: &Vec<Card>) -> (r: Option<Vec<u64>>)
    ensures
        r matches Some(keys) ==> reattach_keys_fit(*meta, cards@, keys@),
        r is None ==> (reattach_target(meta.lists@) matches Some(t) && max_key(cards@, t@) matches Some(m)
            && m + reattach_count(*meta, cards@) > u64::MAX),
{
    let target = find_reattach_target(&meta.lists);
    let n = reattach_total(meta, cards);
    if n == 0 {
        return Some(Vec::new());
    }
    let ghost top = match reattach_target(meta.lists@) {
        Some(t) => max_key(cards@, t@),
        None => None,
    };
    let first: u64 = match &target {
        Some(t) => match list_max_key(cards, t.as_str()) {
            Some(m) => {
                if u64::MAX - m < n as u64 {
                    return None;
                }
                m + 1
            },
            None => 0,
        },
        None => 0,
    };
    assert(top matches Some(m) ==> m < first && first + n <= u64::MAX + 1);
    assert(top is None ==> first == 0);
    let mut keys: Vec<u64> = Vec::new();
    for i in 0..n
        invariant
            keys@.len() == i,
            first + n <= u64::MAX + 1,
            forall|j: int| 0 <= j < i ==> #[trigger] keys@[j] == first + j,
    {
        keys.push(first + i as u64);
    }
    assert(forall|i: int| 0 <= i < n ==> past_target_tail(*meta, cards@, #[trigger] keys@[i]));
    Some(keys)
}

/// Whether `keys` fit the cards that loading `cards` reattaches (see
/// [`reattach_keys_fit`]).
pub fn reattach_keys_ok(meta: &BoardMeta, cards: &Vec<Card>, keys: &Vec<u64>) -> (b: bool)
    ensures
        b == reattach_keys_fit(*meta, cards@, keys@),
{
    let target = find_reattach_target(&meta.lists);
    let n = reattach_total(meta, cards);
    if n > keys.len() {
        return false;
    }
    if n == 0 {
        return true;
    }
    for i in 1..n
        invariant
            1 <= n <= keys@.len(),
            n == reattach_count(*meta, cards@),
            forall|a: int, c: int| 0 <= a < c < i ==> #[trigger] keys@[a] < #[trigger] keys@[c],
    {
        if keys[i - 1] >= keys[i] {
            assert(!(keys@[i - 1] < keys@[i as int]));
            return false;
        }
        assert forall|a: int, c: int| 0 <= a < c < i + 1 implies #[trigger] keys@[a] < #[trigger] keys@[c] by {
            if c == i && a < i - 1 {
                assert(keys@[a] < keys@[i - 1]);
            }
        }
    }
    let ok = match &target {
        Some(t) => match list_max_key(cards, t.as_str()) {
            Some(m) => m < keys[0],
            None => true,
        },
        None => true,
    };
    assert forall|i: int| 0 <= i < n implies keys@[0] <= #[trigger] keys@[i] by {
        if i > 0 {
            assert(keys@[0] < keys@[i]);
        }
    }
    if !ok {
        assert(!past_target_tail(*meta, cards@, keys@[0]));
    }
    ok
}

/// Cards reattached with fitting keys land past every card that was
/// already in their list, in the order they came, each at its own key.
pub proof fn lemma_reattached_last(meta: BoardMeta, cards: Seq<Card>, keys: Seq<u64>, out: Seq<Card>)
    requires
        reattach_keys_fit(meta, cards, keys),
        out.len() == cards.len(),
        forall|k: int| 0 <= k < cards.len() ==> repaired(
            meta,
            cards[k],
            keys[reattach_count(meta, cards.take(k)) as int],
            #[trigger] out[k],
        ),
    ensures
        forall|a: int, c: int|
            0 <= a < c < cards.len() && reattached(meta, #[trigger] cards[a]) && reattached(meta, #[trigger] cards[c])
                ==> out[a].position < out[c].position,
        forall|j: int, k: int|
            0 <= j < cards.len() && 0 <= k < cards.len() && !reattached(meta, #[trigger] cards[j]) && reattached(
                meta,
                #[trigger] cards[k],
            ) && out[j].list_id@ == out[k].list_id@ ==> out[j].position < out[k].position,
{
    let n = reattach_count(meta, cards);
    assert forall|k: int| 0 <= k < cards.len() && reattached(meta, #[trigger] cards[k]) implies reattach_count(
        meta,
        cards.take(k),
    ) < n && out[k].position == keys[reattach_count(meta, cards.take(k)) as int] by {
        lemma_reattach_count_mono(meta, cards, k + 1);
        assert(cards.take(k + 1).drop_last() =~= cards.take(k));
        assert(repaired(meta, cards[k], keys[reattach_count(meta, cards.take(k)) as int], out[k]));
    }
    assert forall|a: int, c: int|
        0 <= a < c < cards.len() && reattached(meta, #[trigger] cards[a]) && reattached(meta, #[trigger] cards[c])
            implies out[a].position < out[c].position by {
        let ia = reattach_count(meta, cards.take(a)) as int;
        let ic = reattach_count(meta, cards.take(c)) as int;
        lemma_reattach_count_mono(meta, cards.take(c), a + 1);
        assert(cards.take(c).take(a + 1) =~= cards.take(a + 1));
        assert(cards.take(a + 1).drop_last() =~= cards.take(a));
        assert(ia < ic);
        assert(keys[ia] < keys[ic]);
    }
    assert forall|j: int, k: int|
        0 <= j < cards.len() && 0 <= k < cards.len() && !reattached(meta, #[trigger] cards[j]) && reattached(
            meta,
            #[trigger] cards[k],
        ) && out[j].list_id@ == out[k].list_id@ implies out[j].position < out[k].position by {
        let t = reattach_target(meta.lists@)->0;
        let ik = reattach_count(meta, cards.take(k)) as int;
        assert(repaired(meta, cards[j], keys[reattach_count(meta, cards.take(j)) as int], out[j]));
        assert(is_member(cards, t@, j));
        crate::board_editor::laws::lemma_max_key(cards, t@);
        assert(past_target_tail(meta, cards, keys[ik]));
    }
}

/// The text views of a sequence of strings.
pub open spec fn texts(v: Seq<String>) -> Seq<Seq<char>> {
    v.map_values(|s: String| s@)
}

/// Reattach orphaned cards and drop label references the board does not
/// define. The `i`-th reattached card, in card order, gets order key
/// `keys[i]`; reattached cards go to the first active list (else the first
/// list). Returns the warnings, one per repair, and the ids of the cards
/// that changed (the caller writes those).
pub fn repair_references(meta: &BoardMeta, cards: &mut Vec<Card>, keys: &Vec<u64>) -> (report: (Vec<String>, Vec<ShortId>))
    requires
        reattach_keys_fit(*meta, old(cards)@, keys@),
    ensures
        final(cards)@.len() == old(cards)@.len(),
        forall|k: int| 0 <= k < old(cards)@.len() ==> repaired(
            *meta,
            old(cards)@[k],
            keys@[reattach_count(*meta, old(cards)@.take(k)) as int],
            #[trigger] final(cards)@[k],
        ),
        texts(report.0@) == repair_warnings(*meta, old(cards)@),
        texts(report.1@) == repair_changed(*meta, old(cards)@),
{
    let ghost start = cards@;
    let target = find_reattach_target(&meta.lists);
    let mut out: Vec<Card> = Vec::new();
    let mut warnings: Vec<String> = Vec::new();
    let mut changed: Vec<ShortId> = Vec::new();
    let mut used: usize = 0;
    let nkeys = keys.len();
    for k in 0..cards.len()
        invariant
            cards@ == start,
            nkeys == keys@.len(),
            target == reattach_target(meta.lists@),
            reattach_count(*meta, start) <= keys@.len(),
            used == reattach_count(*meta, start.take(k as int)),
            out@.len() == k,
            forall|j: int| 0 <= j < k ==> repaired(
                *meta,
                start[j],
                keys@[reattach_count(*meta, start.take(j)) as int],
                #[trigger] out@[j],
            ),
            texts(warnings@) == repair_warnings(*meta, start.take(k as int)),
            texts(changed@) == repair_changed(*meta, start.take(k as int)),
    {
        let ghost pre = start.take(k as int);
        proof {
            assert(start.take(k + 1).drop_last() =~= pre);
            lemma_reattach_count_mono(*meta, start, k as int + 1);
        }
        let ghost w0 = warnings@;
        let mut c = cards[k].duplicate();
        let orphan = !defines_list(&meta.lists, c.list_id.as_str());
        let quoted = concat3("card \"", c.title.as_str(), "\"");
        let mut card_changed = false;
        if orphan {
            match &target {
                Some(dst) => {
                    let mut w = quoted.clone();
                    push_str(&mut w, " pointed at missing list — reattached to first list");
                    warnings.push(w);
                    c.list_id = dst.clone();
                    c.position = keys[used];
                    used += 1;
                    card_changed = true;
                },
                None => {
                    let mut w = quoted.clone();
                    push_str(&mut w, " is orphaned and the board has no lists to attach it to");
                    warnings.push(w);
                },
            }
        }
        let before = c.label_ids.len();
        let kept = keep_known_labels(&c.label_ids, &meta.labels);
        c.label_ids = kept;
        let stripped = before - c.label_ids.len();
        if stripped > 0 {
            let mut w = quoted.clone();
            push_str(&mut w, " had ");
            push_decimal(&mut w, stripped);
            push_str(&mut w, " unknown label ref(s) removed");
            warnings.push(w);
            card_changed = true;
        }
        if card_changed {
            changed.push(c.id.clone());
        }
        out.push(c);
        proof {
            let c0 = start[k as int];
            assert(start.take(k + 1).last() == c0);
            assert(texts(warnings@) =~= texts(w0) + card_warnings(*meta, c0));
            assert(texts(changed@) =~= repair_changed(*meta, start.take(k + 1)));
            assert(start.take(k + 1).take(k as int) =~= pre);
        }
    }
    assert(start.take(cards.len() as int) =~= start);
    *cards = out;
    (warnings, changed)
}

proof fn lemma_reattach_count_mono(meta: BoardMeta, cards: Seq<Card>, k: int)
    requires
        0 <= k <= cards.len(),
    ensures
        reattach_count(meta, cards.take(k)) <= reattach_count(meta, cards),
    decreases cards.len() - k,
{
    if k < cards.len() {
        lemma_reattach_count_mono(meta, cards, k + 1);
        assert(cards.take(k + 1).drop_last() =~= cards.take(k));
    } else {
        assert(cards.take(k) =~= cards);
    }
}

/// `n` zeros.
fn zeros(n: usize) -> (v: Vec<usize>)
    ensures
        v@ == Seq::new(n as nat, |i: int| 0usize),
{
    let mut v: Vec<usize> = Vec::new();
    for i in 0..n
        invariant
            v@ == Seq::new(i as nat, |j: int| 0usize),
    {
        v.push(0);
        assert(v@ =~= Seq::new((i + 1) as nat, |j: int| 0usize));
    }
    v
}

/// Entry `i` of `s`, or 0 past its end.
pub open spec fn carried(s: Seq<usize>, i: int) -> usize {
    if i < s.len() { s[i] } else { 0 }
}

/// `x` clamped into `count` shown cards: 0 when there are none, at most
/// the last ordinal otherwise.
pub open spec fn clamp_to(x: usize, count: nat) -> usize {
    if count == 0 {
        0
    } else if x >= count {
        (count - 1) as usize
    } else {
        x
    }
}

impl LoadedBoard {
    /// A board built from its metadata and cards: the active lists in
    /// board order, each with its cards in order; the first list and the
    /// first card of each list selected; nothing scrolled.
    pub fn assemble(meta: BoardMeta, cards: Vec<Card>) -> (b: LoadedBoard)
        ensures
            b.meta == meta,
            b.cards == cards,
            built_lists(meta.lists@, cards@, false, b.lists@),
            b.selected_list == 0,
            b.selected_card@ == Seq::new(b.lists@.len(), |i: int| 0usize),
            b.scroll_offset@ == Seq::new(b.lists@.len(), |i: int| 0usize),
            b.detail_item_idx == 0,
            b.detail_scroll == 0,
    {
        let lists = build_lists(&meta, cards.as_slice(), false);
        let n = lists.len();
        LoadedBoard {
            meta,
            lists,
            cards,
            selected_list: 0,
            selected_card: zeros(n),
            scroll_offset: zeros(n),
            detail_item_idx: 0,
            detail_scroll: 0,
        }
    }
}

impl BoardEditor {
    /// An editor over a board read from storage: orphaned cards are
    /// reattached and unknown label references dropped (see
    /// [`repair_references`], whose warnings become the diagnostics), then
    /// the board is assembled. Also returns the ids of the repaired cards,
    /// which the caller writes back.
    pub fn load(meta: BoardMeta, cards: Vec<Card>, keys: &Vec<u64>) -> (r: (BoardEditor, Vec<ShortId>))
        requires
            reattach_keys_fit(meta, cards@, keys@),
        ensures
            r.0.board.meta == meta,
            r.0.board.cards@.len() == cards@.len(),
            forall|k: int| 0 <= k < cards@.len() ==> repaired(
                meta,
                cards@[k],
                keys@[reattach_count(meta, cards@.take(k)) as int],
                #[trigger] r.0.board.cards@[k],
            ),
            built_lists(meta.lists@, r.0.board.cards@, false, r.0.board.lists@),
            r.0.board.selected_list == 0,
            r.0.board.selected_card@ == Seq::new(r.0.board.lists@.len(), |i: int| 0usize),
            r.0.board.scroll_offset@ == Seq::new(r.0.board.lists@.len(), |i: int| 0usize),
            r.0.board.detail_item_idx == 0,
            r.0.board.detail_scroll == 0,
            r.0.last_added_card_id is None,
            texts(r.0.diagnostics@) == repair_warnings(meta, cards@),
            texts(r.1@) == repair_changed(meta, cards@),
            forall|a: int, c: int|
                0 <= a < c < cards@.len() && reattached(meta, #[trigger] cards@[a]) && reattached(meta, #[trigger] cards@[c])
                    ==> r.0.board.cards@[a].position < r.0.board.cards@[c].position,
            forall|j: int, k: int|
                0 <= j < cards@.len() && 0 <= k < cards@.len() && !reattached(meta, #[trigger] cards@[j])
                    && reattached(meta, #[trigger] cards@[k]) && r.0.board.cards@[j].list_id@ == r.0.board.cards@[k].list_id@
                    ==> r.0.board.cards@[j].position < r.0.board.cards@[k].position,
    {
        let ghost start = cards@;
        let mut cards = cards;
        let (warnings, changed) = repair_references(&meta, &mut cards, keys);
        proof {
            lemma_reattached_last(meta, start, keys@, cards@);
        }
        let board = LoadedBoard::assemble(meta, cards);
        (BoardEditor { board, last_added_card_id: None, diagnostics: warnings }, changed)
    }

    /// Replace the board's contents with freshly read metadata and cards,
    /// rebuilding the active lists and keeping the selection where it
    /// still fits: the selected list clamped to the last list, each list's
    /// ordinal and scroll offset carried over by index (0 for new lists),
    /// the ordinals then clamped into their shown cards.
    pub fn reload(&mut self, meta: BoardMeta, cards: Vec<Card>)
        ensures
            final(self).board.meta == meta,
            final(self).board.cards == cards,
            built_lists(meta.lists@, cards@, false, final(self).board.lists@),
            final(self).board.selected_list == if old(self).board.selected_list as int <= final(self).board.lists@.len() - 1 {
                old(self).board.selected_list
            } else if final(self).board.lists@.len() > 0 {
                (final(self).board.lists@.len() - 1) as usize
            } else {
                0
            },
            final(self).board.scroll_offset@ == Seq::new(
                final(self).board.lists@.len(),
                |i: int| carried(old(self).board.scroll_offset@, i),
            ),
            final(self).board.selected_card@.len() == final(self).board.lists@.len(),
            forall|i: int| 0 <= i < final(self).board.lists@.len() ==> #[trigger] final(self).board.selected_card@[i]
                == clamp_to(carried(old(self).board.selected_card@, i), visible_of(final(self).board, i, None).len()),
            final(self).board.detail_item_idx == old(self).board.detail_item_idx,
            final(self).board.detail_scroll == old(self).board.detail_scroll,
            final(self).last_added_card_id == old(self).last_added_card_id,
            final(self).diagnostics == old(self).diagnostics,
    {
        let lists = build_lists(&meta, cards.as_slice(), false);
        let n = lists.len();
        let old_list = self.board.selected_list;
        let ghost old_sel = self.board.selected_card@;
        let ghost old_scroll = self.board.scroll_offset@;
        let mut sel: Vec<usize> = Vec::new();
        let mut scroll: Vec<usize> = Vec::new();
        for i in 0..n
            invariant
                old_sel == self.board.selected_card@,
                old_scroll == self.board.scroll_offset@,
                sel@ == Seq::new(i as nat, |j: int| carried(old_sel, j)),
                scroll@ == Seq::new(i as nat, |j: int| carried(old_scroll, j)),
        {
            sel.push(if i < self.board.selected_card.len() { self.board.selected_card[i] } else { 0 });
            scroll.push(if i < self.board.scroll_offset.len() { self.board.scroll_offset[i] } else { 0 });
            assert(sel@ =~= Seq::new((i + 1) as nat, |j: int| carried(old_sel, j)));
            assert(scroll@ =~= Seq::new((i + 1) as nat, |j: int| carried(old_scroll, j)));
        }
        self.board.meta = meta;
        self.board.lists = lists;
        self.board.cards = cards;
        self.board.selected_card = sel;
        self.board.scroll_offset = scroll;
        self.board.selected_list = if n == 0 {
            0
        } else if old_list <= n - 1 {
            old_list
        } else {
            n - 1
        };
        let ghost mid = self.board;
        self.board.clamp_selection();
        proof {
            assert forall|i: int| 0 <= i < n implies #[trigger] self.board.selected_card@[i]
                == clamp_to(carried(old_sel, i), visible_of(self.board, i, None).len()) by {
                super::lemma_visible_frame(mid, self.board, i);
                assert(self.board.selected_card@[i] == super::clamped(mid, i));
            }
        }
    }

    /// Bring a card into the loaded board without writing it: it replaces
    /// the card with the same id, or is added.
    pub fn with_extra_card(&mut self, card: Card)
        ensures
            final(self).board == (LoadedBoard { cards: final(self).board.cards, ..old(self).board }),
            final(self).board.cards@ == if index_of(old(self).board.cards@, card.id@) >= 0 {
                old(self).board.cards@.update(index_of(old(self).board.cards@, card.id@), card)
            } else {
                old(self).board.cards@.push(card)
            },
            final(self).last_added_card_id == old(self).last_added_card_id,
            final(self).diagnostics == old(self).diagnostics,
    {
        match find_card(&self.board.cards, card.id.as_str()) {
            Some(k) => {
                self.board.cards.set(k, card);
            },
            None => {
                self.board.cards.push(card);
            },
        }
    }

    /// The archived lists of the board, each with its cards in order.
    pub fn archived_lists(&self) -> (lists: Vec<CardList>)
        ensures
            built_lists(self.board.meta.lists@, self.board.cards@, true, lists@),
    {
        build_lists(&self.board.meta, self.board.cards.as_slice(), true)
    }

    /// Remove an archived card from the loaded board; deleting its file is
    /// the caller's part.
    pub fn delete_archived_card(&mut self, card_id: &ShortId)
        ensures
            final(self).board == (LoadedBoard { cards: final(self).board.cards, ..old(self).board }),
            final(self).board.cards@ == old(self).board.cards@.filter(|c: Card| c.id@ != card_id@),
            final(self).last_added_card_id == old(self).last_added_card_id,
            final(self).diagnostics == old(self).diagnostics,
    {
        let ghost cards0 = self.board.cards@;
        let ghost f = |c: Card| c.id@ != card_id@;
        let mut i: usize = 0;
        let ghost mut j: int = 0;
        while i < self.board.cards.len()
            invariant
                f == (|c: Card| c.id@ != card_id@),
                0 <= j <= cards0.len(),
                self.board.cards@ == cards0.take(j).filter(f) + cards0.skip(j),
                i == cards0.take(j).filter(f).len(),
                *self == (BoardEditor { board: LoadedBoard { cards: self.board.cards, ..old(self).board }, ..*old(self) }),
            decreases cards0.len() - j,
        {
            proof {
                reveal_with_fuel(Seq::<Card>::filter, 1);
                assert(cards0.take(j + 1).drop_last() =~= cards0.take(j));
                assert(cards0.take(j + 1).filter(f) == if f(cards0[j]) {
                    cards0.take(j).filter(f).push(cards0[j])
                } else {
                    cards0.take(j).filter(f)
                });
                assert(self.board.cards@[i as int] == cards0[j]);
                assert(cards0.skip(j) =~= seq![cards0[j]] + cards0.skip(j + 1));
            }
            let ghost pre = cards0.take(j).filter(f);
            let ghost x = cards0[j];
            if self.board.cards[i].id == *card_id {
                self.board.cards.remove(i);
                assert(!f(x));
                assert(self.board.cards@ =~= pre + cards0.skip(j + 1));
            } else {
                i += 1;
                assert(f(x));
                assert(self.board.cards@ =~= pre.push(x) + cards0.skip(j + 1));
            }
            proof {
                j = j + 1;
            }
        }
        proof {
            assert(cards0.take(j) =~= cards0) by {
                assert(cards0.skip(j).len() == 0);
            }
        }
    }

    /// Remove an archived list from the loaded board: its definition and
    /// the cards `card_ids` name. Deleting the card files is the caller's
    /// part; the board's metadata file must be written.
    pub fn delete_archived_list(&mut self, list_id: &ShortId, card_ids: &Vec<ShortId>) -> (w: Vec<PendingWrite>)
        ensures
            final(self).board == (LoadedBoard {
                cards: final(self).board.cards,
                meta: BoardMeta { lists: final(self).board.meta.lists, ..old(self).board.meta },
                ..old(self).board
            }),
            final(self).board.cards@ == old(self).board.cards@.filter(|c: Card| !has_id(card_ids@, c.id@)),
            final(self).board.meta.lists@ == old(self).board.meta.lists@.filter(|l: ListMeta| l.id@ != list_id@),
            w@ == seq![PendingWrite::Board],
            final(self).last_added_card_id == old(self).last_added_card_id,
            final(self).diagnostics == old(self).diagnostics,
    {
        let ghost cards0 = self.board.cards@;
        let ghost f = |c: Card| !has_id(card_ids@, c.id@);
        let mut i: usize = 0;
        let ghost mut j: int = 0;
        while i < self.board.cards.len()
            invariant
                f == (|c: Card| !has_id(card_ids@, c.id@)),
                0 <= j <= cards0.len(),
                self.board.cards@ == cards0.take(j).filter(f) + cards0.skip(j),
                i == cards0.take(j).filter(f).len(),
                *self == (BoardEditor { board: LoadedBoard { cards: self.board.cards, ..old(self).board }, ..*old(self) }),
            decreases cards0.len() - j,
        {
            proof {
                reveal_with_fuel(Seq::<Card>::filter, 1);
                assert(cards0.take(j + 1).drop_last() =~= cards0.take(j));
                assert(cards0.take(j + 1).filter(f) == if f(cards0[j]) {
                    cards0.take(j).filter(f).push(cards0[j])
                } else {
                    cards0.take(j).filter(f)
                });
                assert(self.board.cards@[i as int] == cards0[j]);
                assert(cards0.skip(j) =~= seq![cards0[j]] + cards0.skip(j + 1));
            }
            if contains_id(card_ids, &self.board.cards[i].id) {
                self.board.cards.remove(i);
            } else {
                i += 1;
            }
            proof {
                j = j + 1;
                assert(self.board.cards@ =~= cards0.take(j).filter(f) + cards0.skip(j));
            }
        }
        proof {
            assert(cards0.take(j) =~= cards0) by {
                assert(cards0.skip(j).len() == 0);
            }
        }
        let ghost lists0 = self.board.meta.lists@;
        let ghost g = |l: ListMeta| l.id@ != list_id@;
        let ghost mid = *self;
        let mut i: usize = 0;
        let ghost mut j: int = 0;
        while i < self.board.meta.lists.len()
            invariant
                g == (|l: ListMeta| l.id@ != list_id@),
                0 <= j <= lists0.len(),
                self.board.meta.lists@ == lists0.take(j).filter(g) + lists0.skip(j),
                i == lists0.take(j).filter(g).len(),
                *self == (BoardEditor {
                    board: LoadedBoard { meta: BoardMeta { lists: self.board.meta.lists, ..mid.board.meta }, ..mid.board },
                    ..mid
                }),
            decreases lists0.len() - j,
        {
            proof {
                reveal_with_fuel(Seq::<ListMeta>::filter, 1);
                assert(lists0.take(j + 1).drop_last() =~= lists0.take(j));
                assert(lists0.take(j + 1).filter(g) == if g(lists0[j]) {
                    lists0.take(j).filter(g).push(lists0[j])
                } else {
                    lists0.take(j).filter(g)
                });
                assert(self.board.meta.lists@[i as int] == lists0[j]);
                assert(lists0.skip(j) =~= seq![lists0[j]] + lists0.skip(j + 1));
            }
            if self.board.meta.lists[i].id == *list_id {
                self.board.meta.lists.remove(i);
            } else {
                i += 1;
            }
            proof {
                j = j + 1;
                assert(self.board.meta.lists@ =~= lists0.take(j).filter(g) + lists0.skip(j));
            }
        }
        proof {
            assert(lists0.take(j) =~= lists0) by {
                assert(lists0.skip(j).len() == 0);
            }
        }
        let mut w: Vec<PendingWrite> = Vec::new();
        w.push(PendingWrite::Board);
        w
    }

    /// The card with id `card_id` as it is written: label references the
    /// board no longer defines are dropped (labels are pruned from cards
    /// lazily, when a card is next saved). `None` for an unknown card.
    pub fn card_for_save(&self, card_id: &ShortId) -> (r: Option<Card>)
        ensures
            match r {
                Some(c) => {
                    let k = index_of(self.board.cards@, card_id@);
                    let c0 = self.board.cards@[k];
                    &&& k >= 0
                    &&& c.label_ids@ == c0.label_ids@.filter(known_label(self.board.meta.labels@))
                    &&& c.checklist@ == c0.checklist@
                    &&& c.history@ == c0.history@
                    &&& c == (Card { label_ids: c.label_ids, checklist: c.checklist, history: c.history, ..c0 })
                },
                None => index_of(self.board.cards@, card_id@) < 0,
            },
    {
        match find_card(&self.board.cards, card_id.as_str()) {
            Some(k) => {
                let mut c = self.board.cards[k].duplicate();
                c.label_ids = keep_known_labels(&c.label_ids, &self.board.meta.labels);
                Some(c)
            },
            None => None,
        }
    }
}

} // verus!
