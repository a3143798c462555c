//! The text the command line prints: card lines and details, board, list
//! and label listings, checklists. Dates shown as overdue are compared
//! with `today`, which the caller supplies.

use vstd::prelude::*;

use crate::model::board::BoardMeta;
use crate::model::calendar::{date_plus_days, days_after, valid_date};
use crate::model::card::{count_done, date_text, format_date, resolved_of, Card, ChecklistItem, Date};
use crate::board_editor::index_of;
use crate::command::Command;
use crate::model::ids::{ShortId, Timestamp};
use crate::model::label::Label;
use crate::model::list::CardList;
use crate::text::{decimal, owned, push_char, push_decimal, push_str};

verus! {

/// `a` comes before `b` on the calendar.
pub open spec fn date_lt(a: Date, b: Date) -> bool {
    a.year < b.year || (a.year == b.year && (a.month < b.month || (a.month == b.month && a.day < b.day)))
}

/// Whether date `a` comes before `b`.
pub fn date_before(a: Date, b: Date) -> (r: bool)
    ensures
        r == date_lt(a, b),
{
    a.year < b.year || (a.year == b.year && (a.month < b.month || (a.month == b.month && a.day < b.day)))
}

/// The labels' names joined by `, `.
pub open spec fn names_joined(ls: Seq<Label>) -> Seq<char>
    decreases ls.len(),
{
    if ls.len() == 0 {
        seq![]
    } else if ls.len() == 1 {
        ls[0].name@
    } else {
        names_joined(ls.drop_last()) + ", "@ + ls.last().name@
    }
}

/// The names of `labels` joined by `, `.
fn join_names(labels: &Vec<&Label>) -> (s: String)
    ensures
        s@ == names_joined(labels@.map_values(|l: &Label| *l)),
{
    let ghost ls = labels@.map_values(|l: &Label| *l);
    let mut s = String::new();
    let mut i: usize = 0;
    assert(ls.take(0) =~= Seq::<Label>::empty());
    while i < labels.len()
        invariant
            i <= labels@.len(),
            ls == labels@.map_values(|l: &Label| *l),
            s@ == names_joined(ls.take(i as int)),
        decreases labels.len() - i,
    {
        proof {
            assert(ls.take(i + 1).drop_last() =~= ls.take(i as int));
            assert(ls.take(i + 1).last() == *labels@[i as int]);
            if i == 0 {
                assert(ls.take(0) =~= Seq::<Label>::empty());
            }
        }
        if i > 0 {
            push_str(&mut s, ", ");
        }
        push_str(&mut s, labels[i].name.as_str());
        i += 1;
    }
    assert(ls.take(labels.len() as int) =~= ls);
    s
}

/// A due date as the listings show it: the date, marked when it is
/// before `today`.
pub open spec fn due_text(d: Date, today: Date) -> Seq<char> {
    if date_lt(d, today) {
        date_text(d) + " (OVERDUE)"@
    } else {
        date_text(d)
    }
}

/// `done/total` of a checklist.
pub open spec fn progress_text(items: Seq<ChecklistItem>) -> Seq<char> {
    decimal(count_done(items)) + "/"@ + decimal(items.len())
}

/// One card in a listing: number, id, title, then its labels, due date
/// and checklist progress where it has them.
pub open spec fn card_line_text(idx: nat, c: Card, labels: Seq<Label>, today: Date) -> Seq<char> {
    let ls = resolved_of(c.label_ids@, labels);
    let label_part = if ls.len() == 0 {
        seq![]
    } else {
        "  ["@ + names_joined(ls) + "]"@
    };
    let due_part = match c.due_date {
        None => seq![],
        Some(d) => "  due: "@ + due_text(d, today),
    };
    let check_part = if c.checklist@.len() == 0 {
        seq![]
    } else {
        "  checklist: "@ + progress_text(c.checklist@)
    };
    "    "@ + decimal(idx) + ". ["@ + c.id@ + "]  "@ + c.title@ + label_part + due_part + check_part
}

/// Appends the due date of a card as the listings show it.
fn push_due(s: &mut String, d: Date, today: Date)
    ensures
        final(s)@ == old(s)@ + due_text(d, today),
{
    push_str(s, format_date(d).as_str());
    if date_before(d, today) {
        push_str(s, " (OVERDUE)");
    }
}

/// Appends `done/total` of a non-empty checklist.
fn push_progress(s: &mut String, card: &Card)
    requires
        card.checklist@.len() > 0,
    ensures
        final(s)@ == old(s)@ + progress_text(card.checklist@),
{
    match card.checklist_progress() {
        Some((done, total)) => {
            push_decimal(s, done);
            push_str(s, "/");
            push_decimal(s, total);
        },
        None => {},
    }
}

/// The line listing card `card` as number `idx` (see [`card_line_text`]).
pub fn card_line(idx: usize, card: &Card, labels: &Vec<Label>, today: Date) -> (s: String)
    ensures
        s@ == card_line_text(idx as nat, *card, labels@, today),
{
    let mut s = owned("    ");
    push_decimal(&mut s, idx);
    push_str(&mut s, ". [");
    push_str(&mut s, card.id.as_str());
    push_str(&mut s, "]  ");
    push_str(&mut s, card.title.as_str());
    let ls = card.resolved_labels(labels.as_slice());
    if ls.len() > 0 {
        push_str(&mut s, "  [");
        push_str(&mut s, join_names(&ls).as_str());
        push_str(&mut s, "]");
    }
    match card.due_date {
        Some(d) => {
            push_str(&mut s, "  due: ");
            push_due(&mut s, d, today);
        },
        None => {},
    }
    if card.checklist.len() > 0 {
        push_str(&mut s, "  checklist: ");
        push_progress(&mut s, card);
    }
    s
}

/// 1970-01-01, where timestamps count from.
pub open spec fn epoch() -> Date {
    Date { year: 1970, month: 1, day: 1 }
}

/// Microseconds in a day.
pub const MICROS_PER_DAY: i64 = 86_400_000_000;

/// The UTC date of timestamp `t` as `%Y-%m-%d`: the date `t` whole days
/// (rounded down) after 1970-01-01.
pub open spec fn stamp_text(t: Timestamp) -> Seq<char> {
    match days_after(epoch(), t as int / MICROS_PER_DAY as int) {
        Some(d) => date_text(d),
        None => seq![],
    }
}

proof fn lemma_floor_negative(t: int, d: int)
    requires
        t < 0,
        d > 0,
    ensures
        t / d == -((-t - 1) / d) - 1,
{
    let q = (-t - 1) / d;
    let r = (-t - 1) % d;
    assert(-t - 1 == q * d + r && 0 <= r < d) by (nonlinear_arith)
        requires
            d > 0,
            -t - 1 >= 0,
            q == (-t - 1) / d,
            r == (-t - 1) % d,
    ;
    assert(t == (-q - 1) * d + (d - r - 1)) by (nonlinear_arith)
        requires
            -t - 1 == q * d + r,
    ;
    assert(t / d == -q - 1) by (nonlinear_arith)
        requires
            t == (-q - 1) * d + (d - r - 1),
            0 <= d - r - 1 < d,
            d > 0,
    ;
}

/// The date of timestamp `t` as the listings write it (see
/// [`stamp_text`]).
fn stamp_date_text(t: Timestamp) -> (s: String)
    ensures
        s@ == stamp_text(t),
{
    let days: i64 = if t >= 0 {
        let q = (t as u64) / (MICROS_PER_DAY as u64);
        proof {
            vstd::arithmetic::div_mod::lemma_div_is_ordered(t as int, i64::MAX as int, MICROS_PER_DAY as int);
            assert(i64::MAX as int / MICROS_PER_DAY as int == 106751991);
        }
        q as i64
    } else {
        let u: u64 = (-(t + 1)) as u64;
        let q = u / (MICROS_PER_DAY as u64);
        proof {
            vstd::arithmetic::div_mod::lemma_div_is_ordered(u as int, i64::MAX as int, MICROS_PER_DAY as int);
            assert(i64::MAX as int / MICROS_PER_DAY as int == 106751991);
            lemma_floor_negative(t as int, MICROS_PER_DAY as int);
        }
        -(q as i64) - 1
    };
    match date_plus_days(Date { year: 1970, month: 1, day: 1 }, days) {
        Some(d) => format_date(d),
        None => String::new(),
    }
}

/// The pieces of `s` between newlines, in order (one more than it has
/// newlines).
pub open spec fn pieces(s: Seq<char>) -> Seq<Seq<char>>
    decreases s.len(),
{
    if s.len() == 0 {
        seq![seq![]]
    } else {
        let p = pieces(s.drop_last());
        if s.last() == '\n' {
            p.push(seq![])
        } else {
            p.update(p.len() - 1, p.last().push(s.last()))
        }
    }
}

proof fn lemma_pieces_len(s: Seq<char>)
    ensures
        pieces(s).len() >= 1,
    decreases s.len(),
{
    if s.len() > 0 {
        lemma_pieces_len(s.drop_last());
    }
}

/// A line ended by a newline, without the carriage return before it.
pub open spec fn without_cr(l: Seq<char>) -> Seq<char> {
    if l.len() > 0 && l.last() == '\r' {
        l.drop_last()
    } else {
        l
    }
}

/// The lines of `s` as `str::lines` gives them: the pieces between
/// newlines, a carriage return dropped before each newline, and the piece
/// after the last newline only when it is not empty.
pub open spec fn text_lines(s: Seq<char>) -> Seq<Seq<char>> {
    let p = pieces(s);
    let ended = p.drop_last().map_values(|l: Seq<char>| without_cr(l));
    if p.last().len() == 0 {
        ended
    } else {
        ended.push(p.last())
    }
}

proof fn lemma_lines_step(done: Seq<String>, p: Seq<Seq<char>>, line: String)
    requires
        p.len() >= 1,
        done.map_values(|x: String| x@) == p.drop_last().map_values(|l: Seq<char>| without_cr(l)),
        line@ == without_cr(p.last()),
    ensures
        done.push(line).map_values(|x: String| x@) == p.map_values(|l: Seq<char>| without_cr(l)),
{
    let a = done.push(line).map_values(|x: String| x@);
    let b = p.map_values(|l: Seq<char>| without_cr(l));
    let old_a = done.map_values(|x: String| x@);
    let old_b = p.drop_last().map_values(|l: Seq<char>| without_cr(l));
    assert(old_a.len() == done.len());
    assert(old_b.len() == p.drop_last().len());
    assert(p.drop_last().len() == p.len() - 1);
    assert(old_a.len() == old_b.len());
    assert(a.len() == done.len() + 1);
    assert(a.len() == b.len());
    assert forall|k: int| 0 <= k < a.len() implies #[trigger] a[k] == b[k] by {
        if k < done.len() {
            assert(old_a[k] == old_b[k]);
            assert(p.drop_last()[k] == p[k]);
        }
    }
    assert(a =~= b);
}

/// The lines of `s` (see [`text_lines`]).
pub fn lines_of(s: &str) -> (v: Vec<String>)
    ensures
        v@.map_values(|x: String| x@) == text_lines(s@),
{
    let cs = crate::text::chars_of(s);
    let mut done: Vec<String> = Vec::new();
    let mut cur: Vec<char> = Vec::new();
    let mut i: usize = 0;
    proof {
        assert(cs@.take(0) =~= Seq::<char>::empty());
    }
    while i < cs.len()
        invariant
            i <= cs@.len(),
            cs@ == s@,
            pieces(cs@.take(i as int)).len() >= 1,
            done@.map_values(|x: String| x@) == pieces(cs@.take(i as int)).drop_last().map_values(
                |l: Seq<char>| without_cr(l),
            ),
            cur@ == pieces(cs@.take(i as int)).last(),
        decreases cs.len() - i,
    {
        let ghost p = pieces(cs@.take(i as int));
        let c = cs[i];
        proof {
            assert(cs@.take(i + 1).drop_last() =~= cs@.take(i as int));
            lemma_pieces_len(cs@.take(i + 1));
        }
        if c == '\n' {
            let ghost raw = cur@;
            if cur.len() > 0 && cur[cur.len() - 1] == '\r' {
                cur.pop();
            }
            assert(cur@ == without_cr(raw));
            let ghost before = done@;
            let line = crate::text::string_from_chars(cur.as_slice());
            let ghost gline = line;
            done.push(line);
            cur = Vec::new();
            proof {
                let q = pieces(cs@.take(i + 1));
                assert(q == p.push(seq![]));
                assert(q.drop_last() =~= p);
                lemma_lines_step(before, p, gline);
            }
        } else {
            cur.push(c);
            proof {
                let q = pieces(cs@.take(i + 1));
                assert(q.drop_last() =~= p.drop_last());
            }
        }
        i += 1;
    }
    assert(cs@.take(cs.len() as int) =~= cs@);
    if cur.len() > 0 {
        done.push(crate::text::string_from_chars(cur.as_slice()));
    }
    proof {
        let p = pieces(s@);
        if p.last().len() > 0 {
            assert(done@.map_values(|x: String| x@) =~= p.drop_last().map_values(|l: Seq<char>| without_cr(l)).push(
                p.last(),
            ));
        }
    }
    done
}

/// One checklist item in a card's detail: its mark and text.
pub open spec fn item_text(it: ChecklistItem) -> Seq<char> {
    "  ["@ + (if it.completed {
        "x"@
    } else {
        " "@
    }) + "] "@ + it.text@
}

/// What `tct cards <board> --show <card>` prints for card `c` of list
/// `l` on board `b`, line by line.
pub open spec fn card_detail_text(c: Card, b: BoardMeta, l: CardList, today: Date) -> Seq<Seq<char>> {
    let ls = resolved_of(c.label_ids@, b.labels@);
    let head = seq![
        "Card:        "@ + c.title@ + " ["@ + c.id@ + "]"@,
        "Board:       "@ + b.name@ + " ["@ + b.id@ + "]"@,
        "List:        "@ + l.name@ + " ["@ + l.id@ + "]"@,
    ];
    let labels_part: Seq<Seq<char>> = if ls.len() == 0 {
        seq![]
    } else {
        seq!["Labels:      "@ + names_joined(ls)]
    };
    let due_part: Seq<Seq<char>> = match c.due_date {
        None => seq![],
        Some(d) => seq!["Due:         "@ + due_text(d, today)],
    };
    let check_part: Seq<Seq<char>> = if c.checklist@.len() == 0 {
        seq![]
    } else {
        seq!["Checklist:   "@ + progress_text(c.checklist@)] + c.checklist@.map_values(|it: ChecklistItem| item_text(it))
    };
    let stamps = seq!["Created:     "@ + stamp_text(c.created_at), "Updated:     "@ + stamp_text(c.updated_at)];
    let desc_part: Seq<Seq<char>> = if c.description@.len() == 0 {
        seq![]
    } else {
        seq!["Description:"@] + text_lines(c.description@).map_values(|x: Seq<char>| "  "@ + x)
    };
    head + labels_part + due_part + check_part + stamps + desc_part
}

/// The views of a vector of strings.
pub open spec fn views(v: Seq<String>) -> Seq<Seq<char>> {
    v.map_values(|x: String| x@)
}

/// Appends `a + b + c + d + e` as one line.
fn push_line5(out: &mut Vec<String>, a: &str, b: &str, c: &str, d: &str, e: &str)
    ensures
        views(final(out)@) == views(old(out)@).push(a@ + b@ + c@ + d@ + e@),
{
    let mut s = owned(a);
    push_str(&mut s, b);
    push_str(&mut s, c);
    push_str(&mut s, d);
    push_str(&mut s, e);
    let ghost before = out@;
    out.push(s);
    assert(views(out@) =~= views(before).push(a@ + b@ + c@ + d@ + e@));
}

/// Appends a line.
fn push_line(out: &mut Vec<String>, s: String)
    ensures
        views(final(out)@) == views(old(out)@).push(s@),
{
    let ghost before = out@;
    let ghost g = s;
    out.push(s);
    assert(views(out@) =~= views(before).push(g@));
}

/// The lines `tct cards <board> --show <card>` prints (see
/// [`card_detail_text`]).
#[verifier::rlimit(60)]
#[verifier::spinoff_prover]
pub fn card_detail(card: &Card, board: &BoardMeta, list: &CardList, today: Date) -> (lines: Vec<String>)
    ensures
        views(lines@) == card_detail_text(*card, *board, *list, today),
{
    let mut out: Vec<String> = Vec::new();
    push_line5(&mut out, "Card:        ", card.title.as_str(), " [", card.id.as_str(), "]");
    push_line5(&mut out, "Board:       ", board.name.as_str(), " [", board.id.as_str(), "]");
    push_line5(&mut out, "List:        ", list.name.as_str(), " [", list.id.as_str(), "]");
    let ghost head = views(out@);
    let ls = card.resolved_labels(board.labels.as_slice());
    if ls.len() > 0 {
        let mut s = owned("Labels:      ");
        push_str(&mut s, join_names(&ls).as_str());
        push_line(&mut out, s);
    }
    let ghost after_labels = views(out@);
    let ghost ls_v = resolved_of(card.label_ids@, board.labels@);
    assert(ls@.map_values(|l: &Label| *l) == ls_v);
    assert(after_labels == head + (if ls_v.len() == 0 {
        Seq::<Seq<char>>::empty()
    } else {
        seq!["Labels:      "@ + names_joined(ls_v)]
    }));
    match card.due_date {
        Some(d) => {
            let mut s = owned("Due:         ");
            push_due(&mut s, d, today);
            push_line(&mut out, s);
        },
        None => {},
    }
    let ghost after_due = views(out@);
    assert(after_due == after_labels + match card.due_date {
        None => Seq::<Seq<char>>::empty(),
        Some(d) => seq!["Due:         "@ + due_text(d, today)],
    });
    if card.checklist.len() > 0 {
        let mut s = owned("Checklist:   ");
        push_progress(&mut s, card);
        push_line(&mut out, s);
        let ghost start = views(out@);
        let mut i: usize = 0;
        while i < card.checklist.len()
            invariant
                i <= card.checklist@.len(),
                views(out@) == start + card.checklist@.take(i as int).map_values(|it: ChecklistItem| item_text(it)),
            decreases card.checklist.len() - i,
        {
            let item = &card.checklist[i];
            let mut t = owned("  [");
            push_str(&mut t, if item.completed {
                "x"
            } else {
                " "
            });
            push_str(&mut t, "] ");
            push_str(&mut t, item.text.as_str());
            proof {
                reveal_strlit("x");
                reveal_strlit(" ");
                assert(t@ == item_text(*item));
            }
            push_line(&mut out, t);
            proof {
                assert(card.checklist@.take(i + 1).map_values(|it: ChecklistItem| item_text(it)) =~= card.checklist@.take(
                    i as int,
                ).map_values(|it: ChecklistItem| item_text(it)).push(item_text(card.checklist@[i as int])));
            }
            i += 1;
        }
        assert(card.checklist@.take(card.checklist.len() as int) =~= card.checklist@);
    }
    let ghost after_check = views(out@);
    assert(after_check == after_due + (if card.checklist@.len() == 0 {
        Seq::<Seq<char>>::empty()
    } else {
        seq!["Checklist:   "@ + progress_text(card.checklist@)] + card.checklist@.map_values(
            |it: ChecklistItem| item_text(it),
        )
    }));
    let mut created = owned("Created:     ");
    push_str(&mut created, stamp_date_text(card.created_at).as_str());
    push_line(&mut out, created);
    let mut updated = owned("Updated:     ");
    push_str(&mut updated, stamp_date_text(card.updated_at).as_str());
    push_line(&mut out, updated);
    let ghost after_stamps = views(out@);
    assert(after_stamps == after_check + seq![
        "Created:     "@ + stamp_text(card.created_at),
        "Updated:     "@ + stamp_text(card.updated_at),
    ]);
    if card.has_description() {
        push_line(&mut out, owned("Description:"));
        let ghost start = views(out@);
        let lines = lines_of(card.description.as_str());
        let mut i: usize = 0;
        while i < lines.len()
            invariant
                i <= lines@.len(),
                views(lines@) == text_lines(card.description@),
                views(out@) == start + views(lines@).take(i as int).map_values(|x: Seq<char>| "  "@ + x),
            decreases lines.len() - i,
        {
            let mut t = owned("  ");
            push_str(&mut t, lines[i].as_str());
            push_line(&mut out, t);
            proof {
                assert(views(lines@).take(i + 1).map_values(|x: Seq<char>| "  "@ + x) =~= views(lines@).take(
                    i as int,
                ).map_values(|x: Seq<char>| "  "@ + x).push("  "@ + lines@[i as int]@));
            }
            i += 1;
        }
        assert(views(lines@).take(lines.len() as int) =~= views(lines@));
    }
    assert(views(out@) == after_stamps + (if card.description@.len() == 0 {
        Seq::<Seq<char>>::empty()
    } else {
        seq!["Description:"@] + text_lines(card.description@).map_values(|x: Seq<char>| "  "@ + x)
    }));
    proof {
        let c = *card;
        let ls_v = resolved_of(c.label_ids@, board.labels@);
        assert(ls@.map_values(|l: &Label| *l) == ls_v);
        assert(head =~= seq![
            "Card:        "@ + c.title@ + " ["@ + c.id@ + "]"@,
            "Board:       "@ + board.name@ + " ["@ + board.id@ + "]"@,
            "List:        "@ + list.name@ + " ["@ + list.id@ + "]"@,
        ]);
        assert(views(out@) =~= card_detail_text(*card, *board, *list, today));
    }
    out
}

/// `n` spaces.
pub open spec fn spaces(n: int) -> Seq<char>
    decreases n,
{
    if n <= 0 {
        seq![]
    } else {
        spaces(n - 1).push(' ')
    }
}

/// `s` padded with spaces on the right to at least `w` characters, as
/// `{:<w}` writes it.
pub open spec fn padded(s: Seq<char>, w: int) -> Seq<char> {
    s + spaces(w - s.len())
}

/// Appends `s` padded to `w` characters (see [`padded`]).
fn push_padded(out: &mut String, s: &str, w: usize)
    ensures
        final(out)@ == old(out)@ + padded(s@, w as int),
{
    push_str(out, s);
    let n = crate::text::chars_of(s).len();
    let mut k: usize = n;
    let ghost base = old(out)@ + s@;
    assert(spaces(0) =~= Seq::<char>::empty());
    while k < w
        invariant
            n == s@.len(),
            k >= n,
            k == n || k <= w,
            out@ == base + spaces(k - n),
        decreases w - k,
    {
        push_char(out, ' ');
        k += 1;
        assert(spaces(k - n) == spaces(k - n - 1).push(' '));
    }
    proof {
        if w as int <= n as int {
            assert(k == n);
            assert(spaces(w - s@.len()) =~= Seq::<char>::empty());
            assert(spaces(k - n) =~= Seq::<char>::empty());
        } else {
            assert(k == w);
        }
    }
    assert(out@ =~= old(out)@ + padded(s@, w as int));
}

/// A board in the `tct boards` overview: id, name padded to 30
/// characters, and its list and active-card counts.
pub open spec fn board_row_text(b: BoardMeta, lists: nat, cards: nat) -> Seq<char> {
    "  ["@ + b.id@ + "]  "@ + padded(b.name@, 30) + " "@ + decimal(lists) + " lists, "@ + decimal(cards)
        + " active cards"@
}

/// The overview line of board `b` (see [`board_row_text`]).
pub fn board_row(b: &BoardMeta, lists: usize, cards: usize) -> (s: String)
    ensures
        s@ == board_row_text(*b, lists as nat, cards as nat),
{
    let mut s = owned("  [");
    push_str(&mut s, b.id.as_str());
    push_str(&mut s, "]  ");
    push_padded(&mut s, b.name.as_str(), 30);
    push_str(&mut s, " ");
    push_decimal(&mut s, lists);
    push_str(&mut s, " lists, ");
    push_decimal(&mut s, cards);
    push_str(&mut s, " active cards");
    s
}

/// An archived card in `tct cards <board> --archived`: number, id, title
/// and the date it was last changed.
pub open spec fn archived_card_row_text(i: nat, c: Card) -> Seq<char> {
    "  "@ + decimal(i) + ". ["@ + c.id@ + "]  "@ + c.title@ + "  (archived: "@ + stamp_text(c.updated_at) + ")"@
}

/// The line of archived card `c` numbered `i` (see
/// [`archived_card_row_text`]).
pub fn archived_card_row(i: usize, c: &Card) -> (s: String)
    ensures
        s@ == archived_card_row_text(i as nat, *c),
{
    let mut s = owned("  ");
    push_decimal(&mut s, i);
    push_str(&mut s, ". [");
    push_str(&mut s, c.id.as_str());
    push_str(&mut s, "]  ");
    push_str(&mut s, c.title.as_str());
    push_str(&mut s, "  (archived: ");
    push_str(&mut s, stamp_date_text(c.updated_at).as_str());
    push_str(&mut s, ")");
    s
}

/// Indexes into `cards` of the active cards `card_ids` names, in list
/// order; ids naming no card or an archived one are skipped.
pub open spec fn active_indexes(card_ids: Seq<ShortId>, cards: Seq<Card>) -> Seq<int>
    decreases card_ids.len(),
{
    if card_ids.len() == 0 {
        seq![]
    } else {
        let rest = active_indexes(card_ids.drop_last(), cards);
        let k = index_of(cards, card_ids.last()@);
        if k >= 0 && !cards[k].archived {
            rest.push(k)
        } else {
            rest
        }
    }
}

/// The active cards of a list (see [`active_indexes`]).
pub fn active_cards(card_ids: &Vec<ShortId>, cards: &Vec<Card>) -> (r: Vec<usize>)
    ensures
        r@.map_values(|k: usize| k as int) == active_indexes(card_ids@, cards@),
{
    let mut r: Vec<usize> = Vec::new();
    for i in 0..card_ids.len()
        invariant
            r@.map_values(|k: usize| k as int) == active_indexes(card_ids@.take(i as int), cards@),
    {
        assert(card_ids@.take(i + 1).drop_last() =~= card_ids@.take(i as int));
        match crate::board_editor::find_card(cards, card_ids[i].as_str()) {
            Some(k) => {
                if !cards[k].archived {
                    r.push(k);
                }
            },
            None => {},
        }
        assert(r@.map_values(|k: usize| k as int) =~= active_indexes(card_ids@.take(i + 1), cards@));
    }
    assert(card_ids@.take(card_ids.len() as int) =~= card_ids@);
    r
}

/// What `tct checklist <board> <card>` prints: the card's title and
/// progress, then each item numbered from 1 with its mark, or a note that
/// there are none.
pub open spec fn checklist_text(c: Card) -> Seq<Seq<char>> {
    let head = "Card: "@ + c.title@ + "  Checklist: "@ + (if c.checklist@.len() == 0 {
        "no items"@
    } else {
        progress_text(c.checklist@)
    });
    if c.checklist@.len() == 0 {
        seq![head, "  (no items)"@]
    } else {
        seq![head] + Seq::new(
            c.checklist@.len(),
            |i: int|
                "  "@ + decimal((i + 1) as nat) + ". ["@ + (if c.checklist@[i].completed {
                    "x"@
                } else {
                    " "@
                }) + "] "@ + c.checklist@[i].text@,
        )
    }
}

/// The lines of `tct checklist <board> <card>` (see [`checklist_text`]).
pub fn checklist_lines(card: &Card) -> (lines: Vec<String>)
    ensures
        views(lines@) == checklist_text(*card),
{
    let mut out: Vec<String> = Vec::new();
    let mut head = owned("Card: ");
    push_str(&mut head, card.title.as_str());
    push_str(&mut head, "  Checklist: ");
    push_str(&mut head, crate::cli::fmt_progress(card).as_str());
    proof {
        reveal_strlit("no items");
    }
    push_line(&mut out, head);
    if card.checklist.len() == 0 {
        push_line(&mut out, owned("  (no items)"));
        return out;
    }
    let ghost start = views(out@);
    let ghost f = |i: int|
        "  "@ + decimal((i + 1) as nat) + ". ["@ + (if card.checklist@[i].completed {
            "x"@
        } else {
            " "@
        }) + "] "@ + card.checklist@[i].text@;
    let mut i: usize = 0;
    while i < card.checklist.len()
        invariant
            i <= card.checklist@.len(),
            f == (|i: int|
                "  "@ + decimal((i + 1) as nat) + ". ["@ + (if card.checklist@[i].completed {
                    "x"@
                } else {
                    " "@
                }) + "] "@ + card.checklist@[i].text@),
            views(out@) == start + Seq::new(i as nat, f),
        decreases card.checklist.len() - i,
    {
        let item = &card.checklist[i];
        let mut t = owned("  ");
        push_decimal(&mut t, i + 1);
        push_str(&mut t, ". [");
        push_str(&mut t, if item.completed {
            "x"
        } else {
            " "
        });
        push_str(&mut t, "] ");
        push_str(&mut t, item.text.as_str());
        assert(t@ == f(i as int));
        push_line(&mut out, t);
        assert(Seq::new((i + 1) as nat, f) =~= Seq::new(i as nat, f).push(f(i as int)));
        i += 1;
    }
    assert(views(out@) =~= checklist_text(*card));
    out
}

/// The message of toggling item `n` (1-based) with text `text`, by the
/// state it now has.
pub open spec fn toggled_text(n: nat, text: Seq<char>, done: bool) -> Seq<char> {
    "Toggled item "@ + decimal(n) + " ('"@ + text + "') → "@ + (if done {
        "done"@
    } else {
        "undone"@
    }) + "."@
}

/// The message of toggling item `n` (see [`toggled_text`]).
pub fn toggled_message(n: usize, text: &str, done: bool) -> (s: String)
    ensures
        s@ == toggled_text(n as nat, text@, done),
{
    let mut s = owned("Toggled item ");
    push_decimal(&mut s, n);
    push_str(&mut s, " ('");
    push_str(&mut s, text);
    push_str(&mut s, "') → ");
    push_str(&mut s, if done {
        "done"
    } else {
        "undone"
    });
    push_str(&mut s, ".");
    s
}

/// A label in the `tct labels <board>` overview: id, name and color.
pub open spec fn label_row_text(l: Label) -> Seq<char> {
    "  ["@ + l.id@ + "]  "@ + l.name@ + "  ("@ + crate::cli::color_name_of(l.color) + ")"@
}

/// The overview line of label `l` (see [`label_row_text`]).
pub fn label_row(l: &Label) -> (s: String)
    ensures
        s@ == label_row_text(*l),
{
    let mut s = owned("  [");
    push_str(&mut s, l.id.as_str());
    push_str(&mut s, "]  ");
    push_str(&mut s, l.name.as_str());
    push_str(&mut s, "  (");
    push_str(&mut s, crate::cli::label_color_name(&l.color));
    push_str(&mut s, ")");
    s
}

/// What assigning (`assign`) or removing a label on a card does: the
/// label is toggled when that changes something, else nothing happens; and
/// the message the command line prints.
pub open spec fn label_change_of(c: Card, l: Label, assign: bool) -> (Option<Command>, Seq<char>) {
    let assigned = crate::model::card::has_id(c.label_ids@, l.id@);
    if assign {
        if assigned {
            (None, "Label '"@ + l.name@ + "' already assigned to card '"@ + c.title@ + "'."@)
        } else {
            (
                Some(Command::ToggleLabel { card_id: c.id, label_id: l.id }),
                "Assigned label '"@ + l.name@ + "' to card '"@ + c.title@ + "'."@,
            )
        }
    } else {
        if !assigned {
            (None, "Label '"@ + l.name@ + "' is not assigned to card '"@ + c.title@ + "'."@)
        } else {
            (
                Some(Command::ToggleLabel { card_id: c.id, label_id: l.id }),
                "Removed label '"@ + l.name@ + "' from card '"@ + c.title@ + "'."@,
            )
        }
    }
}

/// The command (if any) and message of assigning or removing label `l` on
/// card `c` (see [`label_change_of`]).
pub fn label_change(c: &Card, l: &Label, assign: bool) -> (r: (Option<Command>, String))
    ensures
        r.0 == label_change_of(*c, *l, assign).0,
        r.1@ == label_change_of(*c, *l, assign).1,
{
    let assigned = crate::model::card::contains_id(&c.label_ids, &l.id);
    let toggle = Command::ToggleLabel { card_id: c.id.clone(), label_id: l.id.clone() };
    let mut m = owned("Label '");
    if assign {
        if assigned {
            push_str(&mut m, l.name.as_str());
            push_str(&mut m, "' already assigned to card '");
            push_str(&mut m, c.title.as_str());
            push_str(&mut m, "'.");
            (None, m)
        } else {
            let mut m = owned("Assigned label '");
            push_str(&mut m, l.name.as_str());
            push_str(&mut m, "' to card '");
            push_str(&mut m, c.title.as_str());
            push_str(&mut m, "'.");
            (Some(toggle), m)
        }
    } else {
        if !assigned {
            push_str(&mut m, l.name.as_str());
            push_str(&mut m, "' is not assigned to card '");
            push_str(&mut m, c.title.as_str());
            push_str(&mut m, "'.");
            (None, m)
        } else {
            let mut m = owned("Removed label '");
            push_str(&mut m, l.name.as_str());
            push_str(&mut m, "' from card '");
            push_str(&mut m, c.title.as_str());
            push_str(&mut m, "'.");
            (Some(toggle), m)
        }
    }
}

/// Position of the first card of `s` changed strictly before time `t`
/// (the length when none was).
pub open spec fn first_older(s: Seq<Card>, t: Timestamp) -> int
    decreases s.len(),
{
    if s.len() == 0 {
        0
    } else if s[0].updated_at < t {
        0
    } else {
        1 + first_older(s.drop_first(), t)
    }
}

/// The cards newest first by the time they last changed, cards changed at
/// the same time kept in their order (a stable sort).
pub open spec fn newest_first(s: Seq<Card>) -> Seq<Card>
    decreases s.len(),
{
    if s.len() == 0 {
        s
    } else {
        let r = newest_first(s.drop_last());
        r.insert(first_older(r, s.last().updated_at), s.last())
    }
}

proof fn lemma_first_older_bounds(s: Seq<Card>, t: Timestamp)
    ensures
        0 <= first_older(s, t) <= s.len(),
    decreases s.len(),
{
    if s.len() > 0 && s[0].updated_at >= t {
        lemma_first_older_bounds(s.drop_first(), t);
    }
}

/// The archived cards of `cards`, newest first (see [`newest_first`]), as
/// `tct cards <board> --archived` lists them.
pub fn archived_newest_first(cards: Vec<Card>) -> (r: Vec<Card>)
    ensures
        r@ == newest_first(cards@.filter(|c: Card| c.archived)),
{
    let ghost all = cards@;
    let ghost f = |c: Card| c.archived;
    let mut rest = cards;
    let mut r: Vec<Card> = Vec::new();
    let ghost mut i: int = 0;
    assert(all.take(0) =~= Seq::<Card>::empty());
    assert(all.skip(0) =~= all);
    while rest.len() > 0
        invariant
            0 <= i <= all.len(),
            rest@ == all.skip(i),
            f == (|c: Card| c.archived),
            r@ == newest_first(all.take(i).filter(f)),
        decreases rest.len(),
    {
        let c = rest.remove(0);
        proof {
            assert(all.take(i + 1).drop_last() =~= all.take(i));
            assert(all.take(i + 1).last() == c);
            assert(rest@ =~= all.skip(i + 1));
            reveal_with_fuel(Seq::<Card>::filter, 1);
        }
        if c.archived {
            let mut k: usize = 0;
            let ghost r0 = r@;
            assert(r@.skip(0) =~= r@);
            while k < r.len()
                invariant
                    r@ == r0,
                    k <= r@.len(),
                    first_older(r0, c.updated_at) == k + first_older(r0.skip(k as int), c.updated_at),
                ensures
                    r@ == r0,
                    k <= r@.len(),
                    first_older(r0, c.updated_at) == k,
                decreases r.len() - k,
            {
                if r[k].updated_at < c.updated_at {
                    assert(r0.skip(k as int)[0] == r0[k as int]);
                    assert(first_older(r0.skip(k as int), c.updated_at) == 0);
                    break;
                }
                assert(r0.skip(k as int).drop_first() =~= r0.skip(k + 1));
                k += 1;
                if k == r.len() {
                    assert(r0.skip(k as int).len() == 0);
                }
            }
            proof {
                lemma_first_older_bounds(r0, c.updated_at);
            }
            let ghost gc = c;
            r.insert(k, c);
            proof {
                let t = all.take(i + 1).filter(f);
                assert(t.drop_last() =~= all.take(i).filter(f));
                assert(t.last() == gc);
            }
        } else {
            proof {
                assert(all.take(i + 1).filter(f) =~= all.take(i).filter(f));
            }
        }
        proof {
            i = i + 1;
        }
    }
    assert(all.take(i) =~= all);
    r
}

} // verus!
