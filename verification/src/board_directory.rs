//! The collection of boards: their display order, and the board-level
//! changes made through a loaded board's editor (archive, restore,
//! rename, accent color). Reading and writing the board files and the
//! order file is the caller's part.

use vstd::prelude::*;

use crate::board_editor::apply::applied_with;
use crate::board_editor::placement::ids_known;
use crate::board_editor::{ApplyContext, BoardEditor, BoardEditorError, PendingWrite};
use crate::command::Command;
use crate::model::card::{contains_id, has_id};
use crate::model::board::BoardMeta;
use crate::model::ids::ShortId;
use crate::model::list::seq_lt;
use crate::model::label::{next_named, LabelColor};

verus! {

/// Add `board_id` at the end of the display order unless it is there.
/// Returns whether the order changed (and must be written).
pub fn append_to_order(order: &mut Vec<ShortId>, board_id: &ShortId) -> (changed: bool)
    ensures
        changed == !has_id(old(order)@, board_id@),
        final(order)@ == if changed { old(order)@.push(*board_id) } else { old(order)@ },
{
    if contains_id(order, board_id) {
        false
    } else {
        order.push(board_id.clone());
        true
    }
}

/// Drop every occurrence of `board_id` from the display order.
pub fn remove_from_order(order: &mut Vec<ShortId>, board_id: &ShortId)
    ensures
        final(order)@ == old(order)@.filter(|id: ShortId| id@ != board_id@),
{
    let ghost o0 = order@;
    let ghost f = |id: ShortId| id@ != board_id@;
    let mut i: usize = 0;
    let ghost mut j: int = 0;
    while i < order.len()
        invariant
            f == (|id: ShortId| id@ != board_id@),
            0 <= j <= o0.len(),
            order@ == o0.take(j).filter(f) + o0.skip(j),
            i == o0.take(j).filter(f).len(),
        decreases o0.len() - j,
    {
        proof {
            reveal_with_fuel(Seq::<ShortId>::filter, 1);
            assert(o0.take(j + 1).drop_last() =~= o0.take(j));
            assert(o0.take(j + 1).filter(f) == if f(o0[j]) {
                o0.take(j).filter(f).push(o0[j])
            } else {
                o0.take(j).filter(f)
            });
            assert(order@[i as int] == o0[j]);
            assert(o0.skip(j) =~= seq![o0[j]] + o0.skip(j + 1));
        }
        let ghost pre = o0.take(j).filter(f);
        if order[i] == *board_id {
            order.remove(i);
            assert(order@ =~= pre + o0.skip(j + 1));
        } else {
            i += 1;
            assert(order@ =~= pre.push(o0[j]) + o0.skip(j + 1));
        }
        proof {
            j = j + 1;
        }
    }
    proof {
        assert(o0.take(j) =~= o0) by {
            assert(o0.skip(j).len() == 0);
        }
    }
}

/// Index of the first id in `ids` equal to `id`, or -1.
pub open spec fn first_id(ids: Seq<ShortId>, id: Seq<char>) -> int
    decreases ids.len(),
{
    if ids.len() == 0 {
        -1
    } else {
        let r = first_id(ids.drop_last(), id);
        if r >= 0 {
            r
        } else if ids.last()@ == id {
            ids.len() - 1
        } else {
            -1
        }
    }
}

/// `order` with the ids of `displayed` it lacks appended, in displayed
/// order (each once).
pub open spec fn backfilled(order: Seq<ShortId>, displayed: Seq<ShortId>) -> Seq<ShortId>
    decreases displayed.len(),
{
    if displayed.len() == 0 {
        order
    } else {
        let o = backfilled(order, displayed.drop_last());
        if has_id(o, displayed.last()@) {
            o
        } else {
            o.push(displayed.last())
        }
    }
}

/// The display order after swapping boards `a` and `b`: when either is
/// missing from `order`, the boards shown (`displayed`) that it lacks are
/// appended first; then the first occurrences of `a` and `b` trade places
/// (nothing moves when either is still missing).
pub open spec fn swapped_order(order: Seq<ShortId>, a: Seq<char>, b: Seq<char>, displayed: Seq<ShortId>) -> Seq<ShortId> {
    let o = if !has_id(order, a) || !has_id(order, b) { backfilled(order, displayed) } else { order };
    let pa = first_id(o, a);
    let pb = first_id(o, b);
    if pa >= 0 && pb >= 0 {
        o.update(pa, o[pb]).update(pb, o[pa])
    } else {
        o
    }
}

proof fn lemma_first_id(ids: Seq<ShortId>, id: Seq<char>)
    ensures
        -1 <= first_id(ids, id) < ids.len(),
        first_id(ids, id) >= 0 ==> ids[first_id(ids, id)]@ == id,
        first_id(ids, id) >= 0 ==> forall|k: int| 0 <= k < first_id(ids, id) ==> ids[k]@ != id,
        first_id(ids, id) < 0 ==> forall|k: int| 0 <= k < ids.len() ==> ids[k]@ != id,
        first_id(ids, id) >= 0 <==> has_id(ids, id),
    decreases ids.len(),
{
    if ids.len() > 0 {
        let d = ids.drop_last();
        lemma_first_id(d, id);
        assert forall|k: int| 0 <= k < d.len() implies d[k] == ids[k] by {}
    }
    if has_id(ids, id) {
        let w = choose|w: int| 0 <= w < ids.len() && (#[trigger] ids[w])@ == id;
    }
}

/// Index of the first `id` in `ids`.
fn find_first_id(ids: &Vec<ShortId>, id: &ShortId) -> (r: Option<usize>)
    ensures
        match r {
            Some(i) => first_id(ids@, id@) == i && i < ids@.len(),
            None => first_id(ids@, id@) < 0,
        },
{
    proof {
        lemma_first_id(ids@, id@);
    }
    let mut i: usize = 0;
    while i < ids.len()
        invariant
            i <= ids@.len(),
            forall|k: int| 0 <= k < i ==> ids@[k]@ != id@,
            -1 <= first_id(ids@, id@) < ids@.len(),
            first_id(ids@, id@) >= 0 ==> ids@[first_id(ids@, id@)]@ == id@,
            first_id(ids@, id@) >= 0 ==> forall|k: int| 0 <= k < first_id(ids@, id@) ==> ids@[k]@ != id@,
        decreases ids.len() - i,
    {
        if ids[i] == *id {
            proof {
                lemma_first_id(ids@, id@);
                let f = first_id(ids@, id@);
                assert(ids@[i as int]@ == id@);
                if f >= 0 && f != i {
                    assert(ids@[f]@ == id@);
                }
            }
            return Some(i);
        }
        i += 1;
    }
    None
}

/// Swap boards `a` and `b` in the display order (see [`swapped_order`]).
/// Returns whether they were swapped (and the order must be written).
pub fn swap_order(order: &mut Vec<ShortId>, a: &ShortId, b: &ShortId, displayed: &Vec<ShortId>) -> (swapped: bool)
    ensures
        final(order)@ == swapped_order(old(order)@, a@, b@, displayed@),
        swapped == (has_id(final(order)@, a@) && has_id(final(order)@, b@)),
{
    if !contains_id(order, a) || !contains_id(order, b) {
        let ghost o0 = order@;
        for k in 0..displayed.len()
            invariant
                order@ == backfilled(o0, displayed@.take(k as int)),
        {
            proof {
                assert(displayed@.take(k + 1).drop_last() =~= displayed@.take(k as int));
            }
            if !contains_id(order, &displayed[k]) {
                order.push(displayed[k].clone());
            }
        }
        assert(displayed@.take(displayed.len() as int) =~= displayed@);
    }
    let ghost o1 = order@;
    proof {
        lemma_first_id(o1, a@);
        lemma_first_id(o1, b@);
    }
    match (find_first_id(order, a), find_first_id(order, b)) {
        (Some(pa), Some(pb)) => {
            let x = order[pa].clone();
            let y = order[pb].clone();
            order.set(pa, y);
            order.set(pb, x);
            proof {
                let o2 = order@;
                assert(o2 =~= o1.update(pa as int, o1[pb as int]).update(pb as int, o1[pa as int]));
                assert(o2[pa as int]@ == b@ || o2[pb as int]@ == b@);
                assert(o2[pa as int]@ == a@ || o2[pb as int]@ == a@);
                if o2[pa as int]@ == a@ {
                    assert(has_id(o2, a@));
                } else {
                    assert(has_id(o2, a@)) by { assert(o2[pb as int]@ == a@); }
                }
                if o2[pb as int]@ == b@ {
                    assert(has_id(o2, b@));
                } else {
                    assert(has_id(o2, b@)) by { assert(o2[pa as int]@ == b@); }
                }
            }
            true
        },
        _ => false,
    }
}

/// What `archive`, `restore`, `rename` and the accent setters require of
/// the editor (as [`BoardEditor::apply`] does).
pub open spec fn editable(e: BoardEditor) -> bool {
    &&& e.board.selected_card@.len() == e.board.lists@.len()
    &&& e.board.scroll_offset@.len() == e.board.lists@.len()
    &&& ids_known(e.board)
}

/// Archive the loaded board `board_id` and take it out of the display
/// order. Returns the editor's writes; the order file is to be written on
/// success too.
pub fn archive(editor: &mut BoardEditor, board_id: &ShortId, order: &mut Vec<ShortId>) -> (r: Result<Vec<PendingWrite>, BoardEditorError>)
    requires
        editable(*old(editor)),
    ensures
        exists|ctx: ApplyContext| #[trigger] applied_with(
            *old(editor),
            *final(editor),
            Command::ArchiveBoard { board_id: *board_id },
            ctx,
            r,
        ),
        final(order)@ == if r is Ok { old(order)@.filter(|id: ShortId| id@ != board_id@) } else { old(order)@ },
{
    let r = editor.apply(Command::ArchiveBoard { board_id: board_id.clone() }, 0);
    if r.is_ok() {
        remove_from_order(order, board_id);
    }
    r
}

/// Restore the loaded board `board_id` and put it back at the end of the
/// display order (unless it is there).
pub fn restore(editor: &mut BoardEditor, board_id: &ShortId, order: &mut Vec<ShortId>) -> (r: Result<Vec<PendingWrite>, BoardEditorError>)
    requires
        editable(*old(editor)),
    ensures
        exists|ctx: ApplyContext| #[trigger] applied_with(
            *old(editor),
            *final(editor),
            Command::RestoreBoard { board_id: *board_id },
            ctx,
            r,
        ),
        final(order)@ == if r is Ok && !has_id(old(order)@, board_id@) {
            old(order)@.push(*board_id)
        } else {
            old(order)@
        },
{
    let r = editor.apply(Command::RestoreBoard { board_id: board_id.clone() }, 0);
    if r.is_ok() {
        append_to_order(order, board_id);
    }
    r
}

/// Rename the loaded board.
pub fn rename(editor: &mut BoardEditor, name: String) -> (r: Result<Vec<PendingWrite>, BoardEditorError>)
    requires
        editable(*old(editor)),
    ensures
        exists|ctx: ApplyContext| #[trigger] applied_with(*old(editor), *final(editor), Command::RenameBoard { name }, ctx, r),
{
    editor.apply(Command::RenameBoard { name }, 0)
}

/// The accent color after `c`: the next named color of the cycle; a
/// custom color moves to the first named color, red.
pub open spec fn accent_after(c: LabelColor) -> LabelColor {
    match next_named(c) {
        Some(n) => n,
        None => LabelColor::Red,
    }
}

/// The writes (or error) of a color change, without the color.
pub open spec fn without_color(r: Result<(LabelColor, Vec<PendingWrite>), BoardEditorError>) -> Result<Vec<PendingWrite>, BoardEditorError> {
    match r {
        Ok((_, w)) => Ok(w),
        Err(e) => Err(e),
    }
}

/// Move the loaded board's accent color on to the next named one (see
/// [`accent_after`]) and return it.
pub fn cycle_accent(editor: &mut BoardEditor) -> (r: Result<(LabelColor, Vec<PendingWrite>), BoardEditorError>)
    requires
        editable(*old(editor)),
    ensures
        ({
            let next = accent_after(old(editor).board.meta.accent_color);
            exists|ctx: ApplyContext| #[trigger] applied_with(
                *old(editor),
                *final(editor),
                Command::SetAccentColor { color: next },
                ctx,
                without_color(r),
            )
            && (r is Ok ==> r->Ok_0.0 == next)
        }),
{
    let next = match editor.board.meta.accent_color.next() {
        Some(n) => n,
        None => LabelColor::Red,
    };
    let r = editor.apply(Command::SetAccentColor { color: next }, 0);
    match r {
        Ok(w) => Ok((next, w)),
        Err(e) => Err(e),
    }
}

/// Set the loaded board's accent color.
pub fn set_accent(editor: &mut BoardEditor, color: LabelColor) -> (r: Result<Vec<PendingWrite>, BoardEditorError>)
    requires
        editable(*old(editor)),
    ensures
        exists|ctx: ApplyContext| #[trigger] applied_with(*old(editor), *final(editor), Command::SetAccentColor { color }, ctx, r),
{
    editor.apply(Command::SetAccentColor { color }, 0)
}

/// Position of the first element of `s` whose name comes after `name`
/// (the length when none does).
pub open spec fn first_after(s: Seq<BoardMeta>, name: Seq<char>) -> int
    decreases s.len(),
{
    if s.len() == 0 {
        0
    } else if seq_lt(name, s[0].name@) {
        0
    } else {
        1 + first_after(s.drop_first(), name)
    }
}

/// `b` inserted into `s` after every board whose name does not come after
/// its own.
pub open spec fn insert_by_name(s: Seq<BoardMeta>, b: BoardMeta) -> Seq<BoardMeta> {
    s.insert(first_after(s, b.name@), b)
}

/// The boards sorted by name in code-point order, boards with equal names
/// kept in their order (a stable sort).
pub open spec fn sorted_by_name(s: Seq<BoardMeta>) -> Seq<BoardMeta>
    decreases s.len(),
{
    if s.len() == 0 {
        s
    } else {
        insert_by_name(sorted_by_name(s.drop_last()), s.last())
    }
}

proof fn lemma_first_after_bounds(s: Seq<BoardMeta>, name: Seq<char>)
    ensures
        0 <= first_after(s, name) <= s.len(),
        forall|k: int| 0 <= k < first_after(s, name) ==> !seq_lt(name, #[trigger] s[k].name@),
        first_after(s, name) < s.len() ==> seq_lt(name, s[first_after(s, name)].name@),
    decreases s.len(),
{
    if s.len() > 0 && !seq_lt(name, s[0].name@) {
        lemma_first_after_bounds(s.drop_first(), name);
        assert forall|k: int| 0 <= k < first_after(s, name) implies !seq_lt(name, #[trigger] s[k].name@) by {
            if k > 0 {
                assert(s[k] == s.drop_first()[k - 1]);
            }
        }
    }
}

/// Position in `s` where a board named `name` goes (see [`first_after`]).
fn position_after(s: &Vec<BoardMeta>, name: &str) -> (k: usize)
    ensures
        k == first_after(s@, name@),
{
    let mut k: usize = 0;
    assert(s@.skip(0) =~= s@);
    while k < s.len()
        invariant
            k <= s@.len(),
            first_after(s@, name@) == k + first_after(s@.skip(k as int), name@),
        decreases s.len() - k,
    {
        let ghost rest = s@.skip(k as int);
        if crate::model::list::str_lt(name, s[k].name.as_str()) {
            assert(rest[0] == s@[k as int]);
            return k;
        }
        assert(rest.drop_first() =~= s@.skip(k + 1));
        k += 1;
    }
    assert(s@.skip(k as int).len() == 0);
    k
}

/// Sorts `s` by name (see [`sorted_by_name`]).
pub fn sort_by_name(s: Vec<BoardMeta>) -> (r: Vec<BoardMeta>)
    ensures
        r@ == sorted_by_name(s@),
{
    let ghost all = s@;
    let mut rest = s;
    let mut r: Vec<BoardMeta> = Vec::new();
    let ghost mut i: int = 0;
    assert(all.take(0) =~= Seq::<BoardMeta>::empty());
    assert(all.skip(0) =~= all);
    while rest.len() > 0
        invariant
            0 <= i <= all.len(),
            rest@ == all.skip(i),
            r@ == sorted_by_name(all.take(i)),
        decreases rest.len(),
    {
        let b = rest.remove(0);
        proof {
            assert(all.take(i + 1).drop_last() =~= all.take(i));
            assert(all.take(i + 1).last() == b);
            assert(rest@ =~= all.skip(i + 1));
        }
        let k = position_after(&r, b.name.as_str());
        proof {
            lemma_first_after_bounds(r@, b.name@);
        }
        r.insert(k, b);
        proof {
            i = i + 1;
        }
    }
    assert(all.take(i) =~= all);
    r
}

/// Position of the first board in `s` with id `id`, or -1.
pub open spec fn board_with_id(s: Seq<BoardMeta>, id: Seq<char>) -> int
    decreases s.len(),
{
    if s.len() == 0 {
        -1
    } else if s[0].id@ == id {
        0
    } else {
        let r = board_with_id(s.drop_first(), id);
        if r < 0 {
            -1
        } else {
            r + 1
        }
    }
}

proof fn lemma_board_with_id(s: Seq<BoardMeta>, id: Seq<char>)
    ensures
        -1 <= board_with_id(s, id) < s.len(),
        board_with_id(s, id) >= 0 ==> s[board_with_id(s, id)].id@ == id,
        board_with_id(s, id) < 0 ==> forall|k: int| 0 <= k < s.len() ==> (#[trigger] s[k]).id@ != id,
    decreases s.len(),
{
    if s.len() > 0 && s[0].id@ != id {
        lemma_board_with_id(s.drop_first(), id);
        assert forall|k: int| 0 < k < s.len() implies (#[trigger] s[k]).id@ == s.drop_first()[k - 1].id@ by {}
    }
}

/// The boards picked in the order `order` names them (each id taking the
/// first board still left with that id), and the boards left over, in
/// their order.
pub open spec fn picked(order: Seq<ShortId>, boards: Seq<BoardMeta>) -> (Seq<BoardMeta>, Seq<BoardMeta>)
    decreases order.len(),
{
    if order.len() == 0 {
        (seq![], boards)
    } else {
        let (o, r) = picked(order.drop_last(), boards);
        let p = board_with_id(r, order.last()@);
        if p >= 0 {
            (o.push(r[p]), r.remove(p))
        } else {
            (o, r)
        }
    }
}

/// The boards as the selector and `tct boards` list them: those the order
/// file names, in its order, then the rest sorted by name.
pub open spec fn display_order(boards: Seq<BoardMeta>, order: Seq<ShortId>) -> Seq<BoardMeta> {
    let (o, r) = picked(order, boards);
    o + sorted_by_name(r)
}

/// Orders the active boards for display (see [`display_order`]).
pub fn ordered_boards(boards: Vec<BoardMeta>, order: &Vec<ShortId>) -> (r: Vec<BoardMeta>)
    ensures
        r@ == display_order(boards@, order@),
{
    let mut ordered: Vec<BoardMeta> = Vec::new();
    let mut remaining = boards;
    let ghost all = remaining@;
    let mut i: usize = 0;
    assert(order@.take(0) =~= Seq::<ShortId>::empty());
    while i < order.len()
        invariant
            i <= order@.len(),
            (ordered@, remaining@) == picked(order@.take(i as int), all),
        decreases order.len() - i,
    {
        assert(order@.take(i + 1).drop_last() =~= order@.take(i as int));
        let mut p: usize = 0;
        let ghost target = order@[i as int]@;
        let ghost before = (ordered@, remaining@);
        assert(remaining@.skip(0) =~= remaining@);
        while p < remaining.len()
            invariant
                i < order@.len(),
                p <= remaining@.len(),
                target == order@[i as int]@,
                board_with_id(remaining@, target) == if board_with_id(remaining@.skip(p as int), target) < 0 {
                    -1
                } else {
                    p + board_with_id(remaining@.skip(p as int), target)
                },
            ensures
                p <= remaining@.len(),
                p < remaining@.len() ==> remaining@[p as int].id@ == target,
                board_with_id(remaining@, target) == if board_with_id(remaining@.skip(p as int), target) < 0 {
                    -1
                } else {
                    p + board_with_id(remaining@.skip(p as int), target)
                },
            decreases remaining.len() - p,
        {
            if crate::text::same_text(remaining[p].id.as_str(), order[i].as_str()) {
                break;
            }
            assert(remaining@.skip(p as int).drop_first() =~= remaining@.skip(p + 1));
            p += 1;
        }
        proof {
            lemma_board_with_id(remaining@, target);
            if p == remaining.len() {
                assert(remaining@.skip(p as int).len() == 0);
            } else {
                assert(remaining@.skip(p as int)[0] == remaining@[p as int]);
                assert(board_with_id(remaining@.skip(p as int), target) == 0);
                assert(board_with_id(remaining@, target) == p);
            }
        }
        if p < remaining.len() {
            let b = remaining.remove(p);
            ordered.push(b);
        }
        proof {
            assert(before == picked(order@.take(i as int), all));
            assert((ordered@, remaining@) == picked(order@.take(i + 1), all));
        }
        i += 1;
    }
    assert(order@.take(order.len() as int) =~= order@);
    let mut sorted = sort_by_name(remaining);
    ordered.append(&mut sorted);
    ordered
}

/// The boards of `all` that are (`archived`) or are not archived, in
/// their order.
pub open spec fn with_archived(all: Seq<BoardMeta>, archived: bool) -> Seq<BoardMeta> {
    all.filter(|b: BoardMeta| b.archived == archived)
}

/// The boards of `all` that are (`archived`) or are not archived.
fn keep_archived(all: Vec<BoardMeta>, archived: bool) -> (r: Vec<BoardMeta>)
    ensures
        r@ == with_archived(all@, archived),
{
    let ghost f = |b: BoardMeta| b.archived == archived;
    let ghost whole = all@;
    let mut rest = all;
    let mut r: Vec<BoardMeta> = Vec::new();
    let ghost mut i: int = 0;
    assert(whole.take(0) =~= Seq::<BoardMeta>::empty());
    assert(whole.skip(0) =~= whole);
    while rest.len() > 0
        invariant
            0 <= i <= whole.len(),
            rest@ == whole.skip(i),
            f == (|b: BoardMeta| b.archived == archived),
            r@ == whole.take(i).filter(f),
        decreases rest.len(),
    {
        let b = rest.remove(0);
        proof {
            assert(whole.take(i + 1).drop_last() =~= whole.take(i));
            assert(whole.take(i + 1).last() == b);
            assert(rest@ =~= whole.skip(i + 1));
            reveal_with_fuel(Seq::<BoardMeta>::filter, 1);
        }
        if b.archived == archived {
            r.push(b);
        }
        proof {
            i = i + 1;
        }
    }
    assert(whole.take(i) =~= whole);
    r
}

/// The active boards of `all` in display order (see [`display_order`]).
pub fn active_boards(all: Vec<BoardMeta>, order: &Vec<ShortId>) -> (r: Vec<BoardMeta>)
    ensures
        r@ == display_order(with_archived(all@, false), order@),
{
    ordered_boards(keep_archived(all, false), order)
}

/// The archived boards of `all`, sorted by name.
pub fn archived_boards(all: Vec<BoardMeta>) -> (r: Vec<BoardMeta>)
    ensures
        r@ == sorted_by_name(with_archived(all@, true)),
{
    sort_by_name(keep_archived(all, true))
}

} // verus!
