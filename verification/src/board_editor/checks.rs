//! The structural invariants of a loaded board, checked at run time: a
//! net for development builds that names the first broken rule.

use vstd::prelude::*;

use super::loading::defines_list;
use super::{BoardEditorError, EntityKind, InvariantKind, names_list, no_orphans, lists_in_order, ordinal_ok, selection_ok, visible_of, BoardEditor, LoadedBoard};
use crate::model::ids::ShortId;
use crate::model::list::{lemma_order_unique, ordered_card_ids, ordered_ids_of};
use crate::text::{decimal, push_decimal, push_str};

verus! {

/// The first broken invariant of a board.
#[derive(Debug, Clone, Copy, PartialEq, Eq, Structural)]
pub enum Breach {
    /// The card at this index names no list the board defines.
    OrphanCard(usize),
    /// The card ids of the active list at this index are out of step with
    /// the cards' positions.
    Diverged(usize),
    /// There is not one selected ordinal per active list.
    SelectedSlots,
    /// There is not one scroll offset per active list.
    ScrollSlots,
    /// The selected list is past the last active list.
    SelectedList,
    /// The list at this index shows no card but its ordinal is not 0.
    EmptyListOrdinal(usize),
    /// The ordinal of the list at this index is past its shown cards.
    OrdinalPastEnd(usize),
}

/// Index of the first of the first `n` cards that names no defined list,
/// or -1.
pub open spec fn orphan_upto(b: LoadedBoard, n: int) -> int
    decreases n,
{
    if n <= 0 {
        -1
    } else {
        let r = orphan_upto(b, n - 1);
        if r >= 0 {
            r
        } else if !names_list(b.meta.lists@, b.cards@[n - 1].list_id@) {
            n - 1
        } else {
            -1
        }
    }
}

/// Index of the first of the first `n` active lists whose card ids are
/// not its members in position order, or -1.
pub open spec fn diverged_upto(b: LoadedBoard, n: int) -> int
    decreases n,
{
    if n <= 0 {
        -1
    } else {
        let r = diverged_upto(b, n - 1);
        if r >= 0 {
            r
        } else if !ordered_ids_of(b.cards@, b.lists@[n - 1].id@, b.lists@[n - 1].card_ids@) {
            n - 1
        } else {
            -1
        }
    }
}

/// Index of the first of the first `n` lists whose ordinal is out of
/// range, or -1.
pub open spec fn bad_ordinal_upto(b: LoadedBoard, n: int) -> int
    decreases n,
{
    if n <= 0 {
        -1
    } else {
        let r = bad_ordinal_upto(b, n - 1);
        if r >= 0 {
            r
        } else if !ordinal_ok(b, n - 1) {
            n - 1
        } else {
            -1
        }
    }
}

/// The first broken invariant, checked in this order: orphan cards, list
/// order, the slot counts, the selected list, each list's ordinal.
pub open spec fn breach_of(b: LoadedBoard) -> Option<Breach> {
    let n = b.lists@.len();
    let o = orphan_upto(b, b.cards@.len() as int);
    let d = diverged_upto(b, n as int);
    let w = bad_ordinal_upto(b, n as int);
    if o >= 0 {
        Some(Breach::OrphanCard(o as usize))
    } else if d >= 0 {
        Some(Breach::Diverged(d as usize))
    } else if b.selected_card@.len() != n {
        Some(Breach::SelectedSlots)
    } else if b.scroll_offset@.len() != n {
        Some(Breach::ScrollSlots)
    } else if n > 0 && b.selected_list >= n {
        Some(Breach::SelectedList)
    } else if w >= 0 {
        if visible_of(b, w, None).len() == 0 {
            Some(Breach::EmptyListOrdinal(w as usize))
        } else {
            Some(Breach::OrdinalPastEnd(w as usize))
        }
    } else {
        None
    }
}

proof fn lemma_upto(b: LoadedBoard, n: int)
    requires
        0 <= n,
    ensures
        n <= b.cards@.len() ==> {
            let r = orphan_upto(b, n);
            &&& -1 <= r < n
            &&& r >= 0 ==> !names_list(b.meta.lists@, b.cards@[r].list_id@)
            &&& r < 0 ==> forall|k: int| 0 <= k < n ==> names_list(b.meta.lists@, (#[trigger] b.cards@[k]).list_id@)
        },
        n <= b.lists@.len() ==> {
            let r = diverged_upto(b, n);
            &&& -1 <= r < n
            &&& r >= 0 ==> !ordered_ids_of(b.cards@, b.lists@[r].id@, b.lists@[r].card_ids@)
            &&& r < 0 ==> forall|k: int|
                0 <= k < n ==> ordered_ids_of(b.cards@, (#[trigger] b.lists@[k]).id@, b.lists@[k].card_ids@)
        },
        n <= b.lists@.len() ==> {
            let r = bad_ordinal_upto(b, n);
            &&& -1 <= r < n
            &&& r >= 0 ==> !ordinal_ok(b, r)
            &&& r < 0 ==> forall|k: int| 0 <= k < n ==> #[trigger] ordinal_ok(b, k)
        },
    decreases n,
{
    if n > 0 {
        lemma_upto(b, n - 1);
    }
}

/// Once found, the first breaking index stays first as more are looked at.
proof fn lemma_upto_stable(b: LoadedBoard, n: int, m: int)
    requires
        0 <= n <= m,
    ensures
        orphan_upto(b, n) >= 0 ==> orphan_upto(b, m) == orphan_upto(b, n),
        diverged_upto(b, n) >= 0 ==> diverged_upto(b, m) == diverged_upto(b, n),
        bad_ordinal_upto(b, n) >= 0 ==> bad_ordinal_upto(b, m) == bad_ordinal_upto(b, n),
    decreases m - n,
{
    if n < m {
        lemma_upto_stable(b, n, m - 1);
    }
}

/// A board has no breach exactly when every card names a defined list,
/// every active list is in position order and the selection fits.
pub proof fn lemma_breach_free(b: LoadedBoard)
    ensures
        breach_of(b) is None <==> no_orphans(b) && lists_in_order(b) && selection_ok(b),
{
    lemma_upto(b, b.cards@.len() as int);
    lemma_upto(b, b.lists@.len() as int);
}

/// The text that names a breach.
pub open spec fn breach_text(b: LoadedBoard, br: Breach) -> Seq<char> {
    let n = b.lists@.len();
    match br {
        Breach::OrphanCard(k) => "card "@ + b.cards@[k as int].id@ + " has list_id \""@ + b.cards@[k as int].list_id@
            + "\" naming no known List"@,
        Breach::Diverged(li) => "list "@ + b.lists@[li as int].id@ + " derived card_ids diverged from position order"@,
        Breach::SelectedSlots => "selected_card has "@ + decimal(b.selected_card@.len()) + " slots, expected "@ + decimal(n),
        Breach::ScrollSlots => "scroll_offset has "@ + decimal(b.scroll_offset@.len()) + " slots, expected "@ + decimal(n),
        Breach::SelectedList => "selected_list "@ + decimal(b.selected_list as nat) + " out of range (lists: "@ + decimal(n)
            + ")"@,
        Breach::EmptyListOrdinal(i) => "list idx "@ + decimal(i as nat) + " has no visible cards but selected_card ordinal is "@
            + decimal(b.selected_card@[i as int] as nat),
        Breach::OrdinalPastEnd(i) => "list idx "@ + decimal(i as nat) + " selected_card ordinal "@ + decimal(
            b.selected_card@[i as int] as nat,
        ) + " >= visible count "@ + decimal(visible_of(b, i as int, None).len()),
    }
}

/// Whether two id sequences hold the same ids in the same order.
fn same_ids(a: &Vec<ShortId>, b: &Vec<ShortId>) -> (r: bool)
    ensures
        r == (a@.len() == b@.len() && forall|i: int| 0 <= i < a@.len() ==> (#[trigger] a@[i])@ == b@[i]@),
{
    if a.len() != b.len() {
        return false;
    }
    let mut i: usize = 0;
    while i < a.len()
        invariant
            a@.len() == b@.len(),
            i <= a@.len(),
            forall|j: int| 0 <= j < i ==> (#[trigger] a@[j])@ == b@[j]@,
        decreases a.len() - i,
    {
        if a[i] != b[i] {
            return false;
        }
        i += 1;
    }
    true
}

impl BoardEditor {
    /// The first broken invariant of the board, if any.
    pub fn find_breach(&self) -> (r: Option<Breach>)
        ensures
            r == breach_of(self.board),
    {
        let b = &self.board;
        let n = b.lists.len();
        proof {
            lemma_upto(*b, b.cards@.len() as int);
            lemma_upto(*b, n as int);
        }
        let mut k: usize = 0;
        while k < b.cards.len()
            invariant
                *b == self.board,
                k <= b.cards@.len(),
                orphan_upto(*b, k as int) < 0,
            decreases b.cards.len() - k,
        {
            if !defines_list(&b.meta.lists, b.cards[k].list_id.as_str()) {
                proof {
                    lemma_upto_stable(*b, k + 1, b.cards@.len() as int);
                }
                return Some(Breach::OrphanCard(k));
            }
            k += 1;
        }
        let mut li: usize = 0;
        while li < n
            invariant
                *b == self.board,
                n == b.lists@.len(),
                li <= n,
                orphan_upto(*b, b.cards@.len() as int) < 0,
                diverged_upto(*b, li as int) < 0,
            decreases n - li,
        {
            let expected = ordered_card_ids(b.lists[li].id.as_str(), &b.cards);
            let same = same_ids(&b.lists[li].card_ids, &expected);
            proof {
                let l = b.lists@[li as int];
                if same {
                    assert(ordered_ids_of(b.cards@, l.id@, l.card_ids@)) by {
                        let p = choose|p: Seq<int>|
                            crate::model::list::is_sorted_members(b.cards@, l.id@, p) && expected@.len() == p.len()
                                && forall|a: int| 0 <= a < p.len() ==> #[trigger] expected@[a]@ == b.cards@[p[a]].id@;
                        assert forall|a: int| 0 <= a < p.len() implies #[trigger] l.card_ids@[a]@ == b.cards@[p[a]].id@ by {
                            assert(expected@[a]@ == b.cards@[p[a]].id@);
                        }
                    }
                } else if ordered_ids_of(b.cards@, l.id@, l.card_ids@) {
                    lemma_order_unique(b.cards@, l.id@, l.card_ids@, expected@);
                }
            }
            if !same {
                proof {
                    lemma_upto_stable(*b, li + 1, n as int);
                }
                return Some(Breach::Diverged(li));
            }
            li += 1;
        }
        if b.selected_card.len() != n {
            return Some(Breach::SelectedSlots);
        }
        if b.scroll_offset.len() != n {
            return Some(Breach::ScrollSlots);
        }
        if n > 0 && b.selected_list >= n {
            return Some(Breach::SelectedList);
        }
        let mut i: usize = 0;
        while i < n
            invariant
                *b == self.board,
                n == b.lists@.len(),
                n > 0 ==> b.selected_list < n,
                b.scroll_offset@.len() == n,
                orphan_upto(*b, b.cards@.len() as int) < 0,
                diverged_upto(*b, n as int) < 0,
                b.selected_card@.len() == n,
                i <= n,
                bad_ordinal_upto(*b, i as int) < 0,
            decreases n - i,
        {
            let count = b.visible_card_count(i);
            let ord = b.selected_card[i];
            proof {
                lemma_upto_stable(*b, i + 1, n as int);
            }
            if count == 0 && ord != 0 {
                return Some(Breach::EmptyListOrdinal(i));
            }
            if count > 0 && ord >= count {
                return Some(Breach::OrdinalPastEnd(i));
            }
            i += 1;
        }
        None
    }

    /// Checks the board's structural invariants: every card names a list
    /// the board defines, every active list's card ids follow the cards'
    /// positions, and the selection fits the lists. The error names the
    /// first broken rule.
    pub fn check_invariants(&self) -> (r: Result<(), String>)
        ensures
            r is Ok <==> no_orphans(self.board) && lists_in_order(self.board) && selection_ok(self.board),
            match r {
                Ok(()) => breach_of(self.board) is None,
                Err(m) => breach_of(self.board) is Some && m@ == breach_text(self.board, breach_of(self.board)->0),
            },
    {
        proof {
            lemma_breach_free(self.board);
        }
        match self.find_breach() {
            None => Ok(()),
            Some(br) => Err(self.describe_breach(br)),
        }
    }

    /// The text that names a breach of this board.
    pub fn describe_breach(&self, br: Breach) -> (m: String)
        requires
            br == breach_of(self.board)->0,
            breach_of(self.board) is Some,
        ensures
            m@ == breach_text(self.board, br),
    {
        let b = &self.board;
        let n = b.lists.len();
        let mut m = String::new();
        proof {
            lemma_upto(*b, b.cards@.len() as int);
            lemma_upto(*b, n as int);
        }
        match br {
            Breach::OrphanCard(k) => {
                push_str(&mut m, "card ");
                push_str(&mut m, b.cards[k].id.as_str());
                push_str(&mut m, " has list_id \"");
                push_str(&mut m, b.cards[k].list_id.as_str());
                push_str(&mut m, "\" naming no known List");
            },
            Breach::Diverged(li) => {
                push_str(&mut m, "list ");
                push_str(&mut m, b.lists[li].id.as_str());
                push_str(&mut m, " derived card_ids diverged from position order");
            },
            Breach::SelectedSlots => {
                push_str(&mut m, "selected_card has ");
                push_decimal(&mut m, b.selected_card.len());
                push_str(&mut m, " slots, expected ");
                push_decimal(&mut m, n);
            },
            Breach::ScrollSlots => {
                push_str(&mut m, "scroll_offset has ");
                push_decimal(&mut m, b.scroll_offset.len());
                push_str(&mut m, " slots, expected ");
                push_decimal(&mut m, n);
            },
            Breach::SelectedList => {
                push_str(&mut m, "selected_list ");
                push_decimal(&mut m, b.selected_list);
                push_str(&mut m, " out of range (lists: ");
                push_decimal(&mut m, n);
                push_str(&mut m, ")");
            },
            Breach::EmptyListOrdinal(i) => {
                push_str(&mut m, "list idx ");
                push_decimal(&mut m, i);
                push_str(&mut m, " has no visible cards but selected_card ordinal is ");
                push_decimal(&mut m, b.selected_card[i]);
            },
            Breach::OrdinalPastEnd(i) => {
                push_str(&mut m, "list idx ");
                push_decimal(&mut m, i);
                push_str(&mut m, " selected_card ordinal ");
                push_decimal(&mut m, b.selected_card[i]);
                push_str(&mut m, " >= visible count ");
                let count = b.visible_card_count(i);
                push_decimal(&mut m, count);
            },
        }
        m
    }
}


/// The name an error message gives a kind of entity.
pub open spec fn kind_name(k: EntityKind) -> Seq<char> {
    match k {
        EntityKind::Card => "card"@,
        EntityKind::List => "list"@,
        EntityKind::Label => "label"@,
        EntityKind::Board => "board"@,
    }
}

/// The rule a rejected command broke, in words.
pub open spec fn rule_text(k: InvariantKind) -> Seq<char> {
    match k {
        InvariantKind::ChecklistIndex => "checklist index out of range"@,
        InvariantKind::LabelIndex => "label index out of range"@,
        InvariantKind::MoveListDirection => "MoveList only Left/Right"@,
    }
}

/// The message of a rejected command.
pub open spec fn error_text_of(e: BoardEditorError) -> Seq<char> {
    match e {
        BoardEditorError::NotFound { kind, id } => "not found: "@ + kind_name(kind) + " "@ + id@,
        BoardEditorError::Invariant(k) => "invariant violated: "@ + rule_text(k),
    }
}

/// The message of a rejected command (see [`error_text_of`]).
pub fn error_text(e: &BoardEditorError) -> (s: String)
    ensures
        s@ == error_text_of(*e),
{
    match e {
        BoardEditorError::NotFound { kind, id } => {
            let mut s = crate::text::owned("not found: ");
            push_str(&mut s, match kind {
                EntityKind::Card => "card",
                EntityKind::List => "list",
                EntityKind::Label => "label",
                EntityKind::Board => "board",
            });
            push_str(&mut s, " ");
            push_str(&mut s, id.as_str());
            s
        },
        BoardEditorError::Invariant(k) => {
            let mut s = crate::text::owned("invariant violated: ");
            push_str(&mut s, match k {
                InvariantKind::ChecklistIndex => "checklist index out of range",
                InvariantKind::LabelIndex => "label index out of range",
                InvariantKind::MoveListDirection => "MoveList only Left/Right",
            });
            s
        },
    }
}

} // verus!
