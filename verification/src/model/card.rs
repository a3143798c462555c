//! Cards: the unit of work on a board.

use vstd::prelude::*;

use crate::model::ids::{new_id, now_micros, ShortId, Timestamp};
use crate::model::label::Label;
use crate::model::calendar::valid_date;
use crate::text::{contains_ci, decimal, has_substring, lowercase};

verus! {

/// A calendar date (the card's due date).
#[derive(Debug, Clone, Copy, PartialEq, Eq, Structural)]
pub struct Date {
    pub year: i32,
    pub month: u32,
    pub day: u32,
}

/// One checklist line of a card.
#[derive(Debug, Clone)]
pub struct ChecklistItem {
    pub text: String,
    pub completed: bool,
}

/// One line of a card's change history.
#[derive(Debug, Clone)]
pub struct HistoryEntry {
    pub at: Timestamp,
    pub action: String,
}

/// A card. Its list membership is `list_id`; `position` is the order key
/// of its fractional rank within that list (a larger key sorts later).
#[derive(Debug, Clone)]
pub struct Card {
    pub id: ShortId,
    pub title: String,
    pub description: String,
    pub label_ids: Vec<ShortId>,
    pub due_date: Option<Date>,
    pub checklist: Vec<ChecklistItem>,
    pub archived: bool,
    pub created_at: Timestamp,
    pub updated_at: Timestamp,
    pub history: Vec<HistoryEntry>,
    pub list_id: ShortId,
    pub position: u64,
}

/// Most history entries a card keeps; older ones are dropped first.
pub const HISTORY_LIMIT: usize = 50;

/// How many of the oldest entries are dropped when one is appended to a
/// history of length `n`.
pub open spec fn dropped_on_push(n: int) -> int {
    if n + 1 > HISTORY_LIMIT {
        n + 1 - HISTORY_LIMIT
    } else {
        0
    }
}

/// `after` is `before` with an entry (`action` at `now`) appended and the
/// oldest entries dropped so that at most `HISTORY_LIMIT` remain.
pub open spec fn history_logged(
    before: Seq<HistoryEntry>,
    after: Seq<HistoryEntry>,
    action: Seq<char>,
    now: Timestamp,
) -> bool {
    &&& after.len() == before.len() + 1 - dropped_on_push(before.len() as int)
    &&& after.drop_last() == before.skip(dropped_on_push(before.len() as int))
    &&& after.last().at == now
    &&& after.last().action@ == action
}

/// `after` is `before` with `action` logged at `now`: history appended
/// (capped), `updated_at` bumped, every other field unchanged.
pub open spec fn is_logged(before: Card, after: Card, action: Seq<char>, now: Timestamp) -> bool {
    &&& history_logged(before.history@, after.history@, action, now)
    &&& after.label_ids@ == before.label_ids@
    &&& after.checklist@ == before.checklist@
    &&& after == (Card {
        label_ids: after.label_ids,
        checklist: after.checklist,
        history: after.history,
        updated_at: now,
        ..before
    })
}

/// `after` is `before` with only `updated_at` bumped to `now`.
pub open spec fn is_touched(before: Card, after: Card, now: Timestamp) -> bool {
    &&& after.history@ == before.history@
    &&& after.label_ids@ == before.label_ids@
    &&& after.checklist@ == before.checklist@
    &&& after == (Card {
        label_ids: after.label_ids,
        checklist: after.checklist,
        history: after.history,
        updated_at: now,
        ..before
    })
}

/// The decimal digits of `n`, with zeros in front up to `width` digits.
pub open spec fn zero_padded(n: nat, width: nat) -> Seq<char> {
    let digits = decimal(n);
    let fill: nat = if digits.len() < width { (width - digits.len()) as nat } else { 0 };
    Seq::new(fill, |i: int| '0') + digits
}

/// How a year is written: four digits for 0 to 9999, otherwise a sign
/// and at least four digits.
pub open spec fn year_text(y: int) -> Seq<char> {
    if 0 <= y <= 9999 {
        zero_padded(y as nat, 4)
    } else if y < 0 {
        seq!['-'] + zero_padded((-y) as nat, 4)
    } else {
        seq!['+'] + zero_padded(y as nat, 4)
    }
}

/// How a date is written: `YYYY-MM-DD` (see [`year_text`]), or nothing for
/// a date that does not exist.
pub open spec fn date_text(d: Date) -> Seq<char> {
    if valid_date(d) {
        year_text(d.year as int) + seq!['-'] + zero_padded(d.month as nat, 2) + seq!['-'] + zero_padded(d.day as nat, 2)
    } else {
        seq![]
    }
}

/// Calls `chrono::NaiveDate::from_ymd_opt` and its `Display`, which
/// writes the year as four digits when it lies in 0..=9999 and with a sign
/// otherwise, then the month and day as two digits each; a date that
/// chrono rejects is written as the empty string.
#[verifier::external_body]
pub fn format_date(d: Date) -> (s: String)
    ensures
        s@ == date_text(d),
{
    chrono::NaiveDate::from_ymd_opt(d.year, d.month, d.day).map(|x| x.to_string()).unwrap_or_default()
}

/// Number of completed items.
pub open spec fn count_done(items: Seq<ChecklistItem>) -> nat
    decreases items.len(),
{
    if items.len() == 0 {
        0
    } else {
        count_done(items.drop_last()) + if items.last().completed {
            1nat
        } else {
            0nat
        }
    }
}

/// One markdown task line: `- [x] text` or `- [ ] text`.
pub open spec fn task_line(item: ChecklistItem) -> Seq<char> {
    seq!['-', ' ', '[', if item.completed {
        'x'
    } else {
        ' '
    }, ']', ' '] + item.text@
}

/// The task lines joined by newlines (empty for an empty checklist).
pub open spec fn markdown_of(items: Seq<ChecklistItem>) -> Seq<char>
    decreases items.len(),
{
    if items.len() == 0 {
        seq![]
    } else if items.len() == 1 {
        task_line(items[0])
    } else {
        markdown_of(items.drop_last()) + seq!['\n'] + task_line(items.last())
    }
}

/// The card matches a search query (case-insensitive substring) in its
/// title, description, a checklist item, or the name of an attached label
/// that the board defines.
pub open spec fn matches_query(c: Card, query: Seq<char>, board_labels: Seq<Label>) -> bool {
    ||| contains_ci(c.title@, query)
    ||| contains_ci(c.description@, query)
    ||| exists|i: int| 0 <= i < c.checklist@.len() && contains_ci(#[trigger] c.checklist@[i].text@, query)
    ||| exists|i: int, j: int|
        0 <= i < c.label_ids@.len() && 0 <= j < board_labels.len()
            && #[trigger] board_labels[j].id@ == #[trigger] c.label_ids@[i]@
            && contains_ci(board_labels[j].name@, query)
}

/// `ids` (by view) contains `id`.
pub open spec fn has_id(ids: Seq<ShortId>, id: Seq<char>) -> bool {
    exists|i: int| 0 <= i < ids.len() && (#[trigger] ids[i])@ == id
}

/// The board labels whose id the card carries, in board order.
pub open spec fn resolved_of(label_ids: Seq<ShortId>, board_labels: Seq<Label>) -> Seq<Label>
    decreases board_labels.len(),
{
    if board_labels.len() == 0 {
        seq![]
    } else {
        let rest = resolved_of(label_ids, board_labels.drop_last());
        if has_id(label_ids, board_labels.last().id@) {
            rest.push(board_labels.last())
        } else {
            rest
        }
    }
}

/// Whether `id` (by content) is among `ids`.
pub fn contains_id(ids: &Vec<ShortId>, id: &ShortId) -> (b: bool)
    ensures
        b == has_id(ids@, id@),
{
    let mut i: usize = 0;
    while i < ids.len()
        invariant
            i <= ids@.len(),
            forall|k: int| 0 <= k < i ==> (#[trigger] ids@[k])@ != id@,
        decreases ids.len() - i,
    {
        if ids[i] == *id {
            return true;
        }
        i += 1;
    }
    false
}

/// Searches `hay` for `needle`.
pub fn find_substring(hay: &Vec<char>, needle: &Vec<char>) -> (found: bool)
    ensures
        found == has_substring(hay@, needle@),
{
    let n = needle.len();
    if n > hay.len() {
        proof {
            assert forall|i: int| !crate::text::occurs_at(hay@, needle@, i) by {}
        }
        return false;
    }
    let mut i: usize = 0;
    while i <= hay.len() - n
        invariant
            n == needle@.len(),
            n <= hay@.len(),
            hay@.len() <= usize::MAX,
            i <= hay@.len() - n + 1,
            forall|k: int| 0 <= k < i ==> !crate::text::occurs_at(hay@, needle@, k),
        decreases hay.len() - n + 1 - i,
    {
        let mut j: usize = 0;
        let mut ok = true;
        while j < n
            invariant
                n == needle@.len(),
                i + n <= hay@.len(),
                hay@.len() <= usize::MAX,
                j <= n,
                ok == (forall|k: int| 0 <= k < j ==> hay@[i + k] == needle@[k]),
            decreases n - j,
        {
            if hay[i + j] != needle[j] {
                ok = false;
            }
            j += 1;
        }
        if ok {
            assert(crate::text::occurs_at(hay@, needle@, i as int));
            return true;
        }
        proof {
            if crate::text::occurs_at(hay@, needle@, i as int) {
                let k = choose|k: int| 0 <= k < n && hay@[i + k] != needle@[k];
                assert(hay@.subrange(i as int, i + n)[k] == needle@[k]);
            }
        }
        i += 1;
    }
    proof {
        assert forall|k: int| !crate::text::occurs_at(hay@, needle@, k) by {
            if 0 <= k && k + n <= hay@.len() {
                assert(k < i);
            }
        }
    }
    false
}

/// Case-insensitive substring test: both sides are lowercased first.
pub fn contains_ignore_case(hay: &str, query_lower: &Vec<char>) -> (found: bool)
    ensures
        found == has_substring(lowercase(hay@), query_lower@),
{
    let h = crate::text::chars_of(&crate::text::to_lowercase(hay));
    find_substring(&h, query_lower)
}

impl ChecklistItem {
    /// A field-by-field copy.
    pub fn duplicate(&self) -> (r: Self)
        ensures
            r == *self,
    {
        ChecklistItem { text: self.text.clone(), completed: self.completed }
    }
}

impl HistoryEntry {
    /// A field-by-field copy.
    pub fn duplicate(&self) -> (r: Self)
        ensures
            r == *self,
    {
        HistoryEntry { at: self.at, action: self.action.clone() }
    }
}

/// A copy of a vector of ids.
pub fn copy_ids(v: &Vec<ShortId>) -> (r: Vec<ShortId>)
    ensures
        r@ == v@,
{
    let mut r: Vec<ShortId> = Vec::new();
    for i in 0..v.len()
        invariant
            r@ == v@.take(i as int),
    {
        r.push(v[i].clone());
        assert(v@.take(i + 1) =~= v@.take(i as int).push(v@[i as int]));
    }
    assert(v@.take(v.len() as int) =~= v@);
    r
}

fn copy_checklist(v: &Vec<ChecklistItem>) -> (r: Vec<ChecklistItem>)
    ensures
        r@ == v@,
{
    let mut r: Vec<ChecklistItem> = Vec::new();
    for i in 0..v.len()
        invariant
            r@ == v@.take(i as int),
    {
        r.push(v[i].duplicate());
        assert(v@.take(i + 1) =~= v@.take(i as int).push(v@[i as int]));
    }
    assert(v@.take(v.len() as int) =~= v@);
    r
}

fn copy_history(v: &Vec<HistoryEntry>) -> (r: Vec<HistoryEntry>)
    ensures
        r@ == v@,
{
    let mut r: Vec<HistoryEntry> = Vec::new();
    for i in 0..v.len()
        invariant
            r@ == v@.take(i as int),
    {
        r.push(v[i].duplicate());
        assert(v@.take(i + 1) =~= v@.take(i as int).push(v@[i as int]));
    }
    assert(v@.take(v.len() as int) =~= v@);
    r
}

impl Card {
    /// A fresh card titled `title`, created at `now` with id `id`: empty
    /// description, no labels, no due date, empty checklist and history,
    /// not archived, in no list yet.
    pub fn new_at(id: ShortId, title: String, now: Timestamp) -> (c: Card)
        ensures
            c.id == id,
            c.title == title,
            c.description@ == Seq::<char>::empty(),
            c.label_ids@.len() == 0,
            c.due_date is None,
            c.checklist@.len() == 0,
            !c.archived,
            c.created_at == now,
            c.updated_at == now,
            c.history@.len() == 0,
            c.list_id@ == Seq::<char>::empty(),
            c.position == 0,
    {
        Card {
            id,
            title,
            description: String::new(),
            label_ids: Vec::new(),
            due_date: None,
            checklist: Vec::new(),
            archived: false,
            created_at: now,
            updated_at: now,
            history: Vec::new(),
            list_id: String::new(),
            position: 0,
        }
    }

    /// A fresh card with a random id, created now (see [`Card::new_at`]).
    pub fn new(title: String) -> (c: Card)
        ensures
            c.title == title,
            c.id@.len() == 8,
            c.description@ == Seq::<char>::empty(),
            c.label_ids@.len() == 0,
            c.due_date is None,
            c.checklist@.len() == 0,
            !c.archived,
            c.created_at == c.updated_at,
            c.history@.len() == 0,
    {
        let id = new_id();
        let now = now_micros();
        Card::new_at(id, title, now)
    }

    /// Field-wise equality, comparing the vector fields by their contents.
    pub open spec fn same(self, other: Card) -> bool {
        &&& self.label_ids@ == other.label_ids@
        &&& self.checklist@ == other.checklist@
        &&& self.history@ == other.history@
        &&& self == (Card {
            label_ids: self.label_ids,
            checklist: self.checklist,
            history: self.history,
            ..other
        })
    }

    /// A field-by-field copy.
    pub fn duplicate(&self) -> (c: Card)
        ensures
            c.same(*self),
    {
        Card {
            id: self.id.clone(),
            title: self.title.clone(),
            description: self.description.clone(),
            label_ids: copy_ids(&self.label_ids),
            due_date: self.due_date,
            checklist: copy_checklist(&self.checklist),
            archived: self.archived,
            created_at: self.created_at,
            updated_at: self.updated_at,
            history: copy_history(&self.history),
            list_id: self.list_id.clone(),
            position: self.position,
        }
    }

    /// `(done, total)` of the checklist, or `None` when it is empty.
    pub fn checklist_progress(&self) -> (p: Option<(usize, usize)>)
        ensures
            self.checklist@.len() == 0 ==> p is None,
            self.checklist@.len() > 0 ==> p == Some(
                (count_done(self.checklist@) as usize, self.checklist@.len() as usize),
            ),
            p matches Some((done, total)) ==> done == count_done(self.checklist@) && total == self.checklist@.len()
                && done <= total,
    {
        let total = self.checklist.len();
        if total == 0 {
            return None;
        }
        let mut done: usize = 0;
        for i in 0..total
            invariant
                total == self.checklist@.len(),
                done == count_done(self.checklist@.take(i as int)),
                done <= i,
        {
            assert(self.checklist@.take(i + 1).drop_last() =~= self.checklist@.take(i as int));
            if self.checklist[i].completed {
                done += 1;
            }
        }
        assert(self.checklist@.take(total as int) =~= self.checklist@);
        Some((done, total))
    }

    /// Whether the card matches `query` (see [`matches_query`]).
    pub fn matches_search(&self, query: &str, board_labels: &[Label]) -> (m: bool)
        ensures
            m == matches_query(*self, query@, board_labels@),
    {
        let q = crate::text::chars_of(&crate::text::to_lowercase(query));
        if contains_ignore_case(&self.title, &q) {
            return true;
        }
        if contains_ignore_case(&self.description, &q) {
            return true;
        }
        let mut i: usize = 0;
        while i < self.checklist.len()
            invariant
                q@ == lowercase(query@),
                i <= self.checklist@.len(),
                forall|k: int| 0 <= k < i ==> !contains_ci(#[trigger] self.checklist@[k].text@, query@),
            decreases self.checklist.len() - i,
        {
            if contains_ignore_case(&self.checklist[i].text, &q) {
                return true;
            }
            i += 1;
        }
        let mut i: usize = 0;
        while i < self.label_ids.len()
            invariant
                q@ == lowercase(query@),
                i <= self.label_ids@.len(),
                forall|a: int, b: int|
                    0 <= a < i && 0 <= b < board_labels@.len()
                        && #[trigger] board_labels@[b].id@ == #[trigger] self.label_ids@[a]@
                        ==> !contains_ci(board_labels@[b].name@, query@),
            decreases self.label_ids.len() - i,
        {
            let mut j: usize = 0;
            while j < board_labels.len()
                invariant
                    q@ == lowercase(query@),
                    i < self.label_ids@.len(),
                    j <= board_labels@.len(),
                    forall|b: int|
                        0 <= b < j && #[trigger] board_labels@[b].id@ == self.label_ids@[i as int]@
                            ==> !contains_ci(board_labels@[b].name@, query@),
                decreases board_labels.len() - j,
            {
                if board_labels[j].id == self.label_ids[i] && contains_ignore_case(&board_labels[j].name, &q) {
                    return true;
                }
                j += 1;
            }
            i += 1;
        }
        false
    }

    /// The checklist as a GitHub-flavored markdown task list, one line per
    /// item; empty when the checklist is empty.
    pub fn checklist_as_markdown(&self) -> (md: String)
        ensures
            md@ == markdown_of(self.checklist@),
    {
        let mut md = String::new();
        for i in 0..self.checklist.len()
            invariant
                md@ == markdown_of(self.checklist@.take(i as int)),
        {
            let item = &self.checklist[i];
            if i > 0 {
                crate::text::push_char(&mut md, '\n');
            }
            crate::text::push_char(&mut md, '-');
            crate::text::push_char(&mut md, ' ');
            crate::text::push_char(&mut md, '[');
            crate::text::push_char(&mut md, if item.completed { 'x' } else { ' ' });
            crate::text::push_char(&mut md, ']');
            crate::text::push_char(&mut md, ' ');
            crate::text::push_str(&mut md, item.text.as_str());
            proof {
                let t = self.checklist@.take(i + 1);
                assert(t.drop_last() =~= self.checklist@.take(i as int));
                if i == 0 {
                    assert(md@ =~= task_line(t[0]));
                } else {
                    assert(md@ =~= markdown_of(t.drop_last()) + seq!['\n'] + task_line(t.last()));
                }
            }
        }
        assert(self.checklist@.take(self.checklist.len() as int) =~= self.checklist@);
        md
    }

    /// The board labels attached to this card, in board order (not in the
    /// order they were attached).
    pub fn resolved_labels<'a>(&self, board_labels: &'a [Label]) -> (r: Vec<&'a Label>)
        ensures
            r@.map_values(|l: &Label| *l) == resolved_of(self.label_ids@, board_labels@),
    {
        let mut r: Vec<&'a Label> = Vec::new();
        for i in 0..board_labels.len()
            invariant
                r@.map_values(|l: &Label| *l) == resolved_of(self.label_ids@, board_labels@.take(i as int)),
        {
            let t = Ghost(board_labels@.take(i + 1));
            assert(t@.drop_last() =~= board_labels@.take(i as int));
            if contains_id(&self.label_ids, &board_labels[i].id) {
                r.push(&board_labels[i]);
            }
            assert(r@.map_values(|l: &Label| *l) =~= resolved_of(self.label_ids@, t@));
        }
        assert(board_labels@.take(board_labels.len() as int) =~= board_labels@);
        r
    }

    /// Whether the description is non-empty.
    pub fn has_description(&self) -> (b: bool)
        ensures
            b == (self.description@.len() > 0),
    {
        !self.description.as_str().is_empty()
    }

    /// Bump `updated_at` to `now`.
    pub fn touch_at(&mut self, now: Timestamp)
        ensures
            *final(self) == (Card { updated_at: now, ..*old(self) }),
    {
        self.updated_at = now;
    }

    /// Bump `updated_at` to the current time; nothing else changes.
    pub fn touch(&mut self)
        ensures
            *final(self) == (Card { updated_at: final(self).updated_at, ..*old(self) }),
    {
        let now = now_micros();
        self.touch_at(now);
    }

    /// Record `action` in the history at the current time (see
    /// [`Card::log_at`]).
    pub fn log(&mut self, action: String)
        ensures
            is_logged(*old(self), *final(self), action@, final(self).updated_at),
    {
        let now = now_micros();
        self.log_at(action, now);
    }

    /// Record `action` at `now` in the history (keeping the newest
    /// `HISTORY_LIMIT` entries) and bump `updated_at`.
    pub fn log_at(&mut self, action: String, now: Timestamp)
        ensures
            is_logged(*old(self), *final(self), action@, now),
    {
        let ghost h0 = self.history@;
        self.history.push(HistoryEntry { at: now, action });
        let len = self.history.len();
        if len > HISTORY_LIMIT {
            let mut kept: Vec<HistoryEntry> = Vec::new();
            let start = len - HISTORY_LIMIT;
            let mut i = start;
            while i < len
                invariant
                    start <= i <= len,
                    len == self.history@.len(),
                    kept@ =~= self.history@.subrange(start as int, i as int),
                decreases len - i,
            {
                kept.push(self.history[i].duplicate());
                i += 1;
            }
            self.history = kept;
        }
        self.updated_at = now;
        assert(self.history@.drop_last() =~= h0.skip(dropped_on_push(h0.len() as int)));
    }
}

} // verus!
