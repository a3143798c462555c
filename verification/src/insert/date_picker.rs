//! The due-date picker: a calendar date stepped by keys, kept in step
//! with a text buffer that can also be typed into.

use vstd::prelude::*;
use vstd::utf8::encode_utf8;

use super::line_input::{trim, LineInput};
use super::{InsertOutcome, InsertSurface};
use crate::command::Command;
use crate::key::{Key, KeyCode};
use crate::model::calendar::{
    date_from_ymd, date_parse, date_plus_days, date_pred, date_today, day_before, day_number, days_after, days_in_month, max_year,
    min_year, month_days, parsed_date, valid_date,
};
use crate::model::card::{date_text, format_date, Date};
use crate::model::ids::ShortId;
use crate::text::{chars_of, owned, push_char, string_from_chars};

verus! {

/// The picker of one card's due date.
#[derive(Debug)]
pub struct DatePicker {
    pub card_id: ShortId,
    /// The date as text, edited directly by typing.
    pub buffer: String,
    /// Byte offset of the cursor: always the end of the buffer.
    pub cursor: usize,
    /// The date on the calendar, `None` once the buffer was cleared.
    pub picker_date: Option<Date>,
    pub surface: InsertSurface,
}

/// Byte length of a text, where the picker's cursor sits.
pub open spec fn end_of(s: Seq<char>) -> usize {
    encode_utf8(s).len() as usize
}

/// A date far enough from the ends of chrono's range that a step of up to
/// a year stays inside it.
pub open spec fn steppable(d: Date) -> bool {
    min_year() < d.year < max_year() - 1
}

/// The date a step starts from: the picker's date, else today.
pub open spec fn base_of(p: DatePicker, today: Date) -> Date {
    match p.picker_date {
        Some(d) => d,
        None => today,
    }
}

/// `delta` months after `base` (before, for negative `delta`), the day
/// clamped to the length of the month reached.
pub open spec fn months_later(base: Date, delta: int) -> Date {
    let total = base.year * 12 + base.month - 1 + delta;
    let y = total / 12;
    let m = total % 12 + 1;
    let last = month_days(y, m);
    Date { year: y as i32, month: m as u32, day: (if base.day <= last { base.day as int } else { last }) as u32 }
}

/// Digits and the hyphen are what can be typed into the buffer.
pub open spec fn typable(c: char) -> bool {
    ('0' <= c && c <= '9') || c == '-'
}

/// ASCII case folding of a code point.
pub open spec fn ascii_fold(x: u32) -> u32 {
    if 65 <= x <= 90 {
        (x + 32) as u32
    } else {
        x
    }
}

/// The texts are equal ignoring ASCII case.
pub open spec fn eq_ignore_ascii_case(a: Seq<char>, b: Seq<char>) -> bool {
    a.len() == b.len() && forall|i: int| 0 <= i < a.len() ==> ascii_fold(a[i] as u32) == ascii_fold(#[trigger] b[i] as u32)
}

/// `after` is `before` showing `d`: date, text and cursor.
pub open spec fn shows(before: DatePicker, after: DatePicker, d: Date) -> bool {
    &&& after.card_id == before.card_id
    &&& after.surface == before.surface
    &&& after.picker_date == Some(d)
    &&& after.buffer@ == date_text(d)
    &&& after.cursor == end_of(after.buffer@)
}

/// `after` is `before` with the buffer set to `s`, the calendar following
/// it where it parses as a date.
pub open spec fn typed(before: DatePicker, after: DatePicker, s: Seq<char>) -> bool {
    &&& after.card_id == before.card_id
    &&& after.surface == before.surface
    &&& after.buffer@ == s
    &&& after.cursor == end_of(s)
    &&& after.picker_date == (match parsed_date(s) {
        Some(d) => Some(d),
        None => before.picker_date,
    })
}

/// A step of `n` days: from the picker's date (or today) when it is
/// steppable; nothing otherwise.
pub open spec fn day_step(before: DatePicker, after: DatePicker, today: Date, n: int) -> bool {
    let base = base_of(before, today);
    if steppable(base) {
        match days_after(base, n) {
            Some(x) => shows(before, after, x) && day_number(x) == day_number(base) + n,
            None => false,
        }
    } else {
        after == before
    }
}

/// A step of `delta` months, likewise.
pub open spec fn month_step(before: DatePicker, after: DatePicker, today: Date, delta: int) -> bool {
    let base = base_of(before, today);
    if steppable(base) {
        shows(before, after, months_later(base, delta))
    } else {
        after == before
    }
}

/// The first day of the month after the month of `d`, where chrono has
/// that year.
pub open spec fn next_month_first(d: Date) -> Option<Date> {
    if d.month == 12 {
        if d.year < max_year() {
            Some(Date { year: (d.year + 1) as i32, month: 1, day: 1 })
        } else {
            None
        }
    } else if d.month < 12 {
        Some(Date { year: d.year, month: (d.month + 1) as u32, day: 1 })
    } else {
        None
    }
}

/// The last day of the month of `d`: the day before the first of the next
/// month, where that exists.
pub open spec fn month_end(d: Date) -> Option<Date> {
    match next_month_first(d) {
        Some(n) => if valid_date(n) {
            Some(
                match day_before(n) {
                    Some(x) => x,
                    None => d,
                },
            )
        } else {
            None
        },
        None => None,
    }
}

/// What confirming the picker gives: clearing the due date for an empty
/// buffer or `none` in any case, else setting it to the calendar's date or,
/// without one, the buffer parsed; a status message when neither gives a
/// date.
pub open spec fn confirm_outcome(p: DatePicker, o: InsertOutcome) -> bool {
    let t = trim(p.buffer@);
    if t.len() == 0 || eq_ignore_ascii_case(t, "none"@) {
        o matches InsertOutcome::Confirm(Command::ClearDueDate { card_id }) && card_id@ == p.card_id@
    } else {
        match (match p.picker_date {
            Some(d) => Some(d),
            None => parsed_date(t),
        }) {
            Some(d) => o matches InsertOutcome::Confirm(Command::SetDueDate { card_id, date }) && card_id@ == p.card_id@
                && date == d,
            None => o matches InsertOutcome::CancelWithStatus(m) && m@ == "Invalid date format. Use YYYY-MM-DD"@,
        }
    }
}

/// What a key does to the picker, with `today` as the clock's date:
/// Esc cancels, Enter confirms; the arrows step a day or a week, Page
/// Up/Down a month (a year with Shift); `t` jumps to today, Home and End
/// to the first and last day of the month; typing digits and hyphens or
/// Backspace edits the text, Ctrl-U clears it. Other keys do nothing.
pub open spec fn stepped(before: DatePicker, after: DatePicker, key: Key, today: Date, o: InsertOutcome) -> bool {
    match key.code {
        KeyCode::Esc => o is Cancel && after == before,
        KeyCode::Enter => after == before && confirm_outcome(before, o),
        KeyCode::Left => o is Stay && day_step(before, after, today, -1),
        KeyCode::Right => o is Stay && day_step(before, after, today, 1),
        KeyCode::Up => o is Stay && day_step(before, after, today, -7),
        KeyCode::Down => o is Stay && day_step(before, after, today, 7),
        KeyCode::PageUp => o is Stay && month_step(before, after, today, if key.shift { -12 } else { -1 }),
        KeyCode::PageDown => o is Stay && month_step(before, after, today, if key.shift { 12 } else { 1 }),
        KeyCode::Home => o is Stay && match before.picker_date {
            Some(d) => if valid_date(Date { day: 1, ..d }) {
                shows(before, after, Date { day: 1, ..d })
            } else {
                after == before
            },
            None => after == before,
        },
        KeyCode::End => o is Stay && match before.picker_date {
            Some(d) => match month_end(d) {
                Some(x) => shows(before, after, x),
                None => after == before,
            },
            None => after == before,
        },
        KeyCode::Backspace => o is Stay && if before.buffer@.len() > 0 {
            typed(before, after, before.buffer@.drop_last())
        } else {
            after == before
        },
        KeyCode::Char(c) => o is Stay && if c == 't' || c == 'T' {
            shows(before, after, today)
        } else if c == 'u' && (key.control || key.command) {
            &&& after.card_id == before.card_id
            &&& after.surface == before.surface
            &&& after.buffer@.len() == 0
            &&& after.cursor == 0
            &&& after.picker_date is None
        } else if typable(c) {
            typed(before, after, before.buffer@.push(c))
        } else {
            after == before
        },
        _ => o is Stay && after == before,
    }
}

/// A key that steps the calendar by days or months.
pub open spec fn steps(code: KeyCode) -> bool {
    code == KeyCode::Left || code == KeyCode::Right || code == KeyCode::Up || code == KeyCode::Down || code
        == KeyCode::PageUp || code == KeyCode::PageDown
}

/// Whether two strings are equal ignoring ASCII case.
fn same_ignoring_ascii_case(a: &str, b: &str) -> (r: bool)
    ensures
        r == eq_ignore_ascii_case(a@, b@),
{
    let x = chars_of(a);
    let y = chars_of(b);
    if x.len() != y.len() {
        return false;
    }
    let mut i: usize = 0;
    while i < x.len()
        invariant
            x@ == a@,
            y@ == b@,
            x@.len() == y@.len(),
            i <= x@.len(),
            forall|j: int| 0 <= j < i ==> ascii_fold(x@[j] as u32) == ascii_fold(#[trigger] y@[j] as u32),
        decreases x.len() - i,
    {
        let p = x[i] as u32;
        let q = y[i] as u32;
        let fp = if 65 <= p && p <= 90 { p + 32 } else { p };
        let fq = if 65 <= q && q <= 90 { q + 32 } else { q };
        if fp != fq {
            return false;
        }
        i += 1;
    }
    true
}

impl DatePicker {
    /// A picker for `card_id` on the date `prefill` names, or on today's
    /// date when it names none.
    pub fn new(card_id: ShortId, prefill: &str, surface: InsertSurface) -> (p: Self)
        ensures
            p.card_id == card_id,
            p.surface == surface,
            p.picker_date matches Some(d) && valid_date(d) && p.buffer@ == date_text(d),
            parsed_date(prefill@) matches Some(d) ==> p.picker_date == Some(d),
            p.cursor == end_of(p.buffer@),
    {
        let initial = match date_parse(prefill) {
            Some(d) => d,
            None => date_today(),
        };
        let buf = format_date(initial);
        let cursor = buf.as_str().len();
        DatePicker { card_id, buffer: buf, cursor, picker_date: Some(initial), surface }
    }

    /// Where the picker is drawn.
    pub fn surface(&self) -> (s: InsertSurface)
        ensures
            s == self.surface,
    {
        self.surface
    }

    /// Shows `date`: on the calendar and as text.
    pub fn set_date(&mut self, date: Date)
        ensures
            shows(*old(self), *final(self), date),
    {
        self.picker_date = Some(date);
        self.buffer = format_date(date);
        self.cursor = self.buffer.as_str().len();
    }

    /// Takes the buffer's date onto the calendar, where it parses as one.
    pub fn sync_from_buffer(&mut self)
        ensures
            final(self).card_id == old(self).card_id,
            final(self).surface == old(self).surface,
            final(self).buffer == old(self).buffer,
            final(self).cursor == old(self).cursor,
            final(self).picker_date == (match parsed_date(old(self).buffer@) {
                Some(d) => Some(d),
                None => old(self).picker_date,
            }),
    {
        match date_parse(self.buffer.as_str()) {
            Some(d) => {
                self.picker_date = Some(d);
            },
            None => {},
        }
    }

    /// Replaces the buffer with `s`, the cursor at its end, and follows it
    /// on the calendar.
    fn retype(&mut self, s: String)
        ensures
            typed(*old(self), *final(self), s@),
    {
        self.buffer = s;
        self.cursor = self.buffer.as_str().len();
        self.sync_from_buffer();
    }

    /// Steps `days` days from the picker's date, or from `today` without
    /// one; nothing when that date is not steppable.
    fn shift_days(&mut self, days: i64, today: Date)
        requires
            -7 <= days <= 7,
            valid_date(base_of(*old(self), today)),
        ensures
            day_step(*old(self), *final(self), today, days as int),
    {
        let base = match self.picker_date {
            Some(d) => d,
            None => today,
        };
        if !(-262143 < base.year && base.year < 262141) {
            return;
        }
        match date_plus_days(base, days) {
            Some(x) => self.set_date(x),
            None => {},
        }
    }

    /// Steps `delta` months from the picker's date, or from `today`
    /// without one, keeping the day where the month reached has it;
    /// nothing when that date is not steppable.
    fn shift_months(&mut self, delta: i32, today: Date)
        requires
            -12 <= delta <= 12,
            valid_date(base_of(*old(self), today)),
        ensures
            month_step(*old(self), *final(self), today, delta as int),
    {
        let base = match self.picker_date {
            Some(d) => d,
            None => today,
        };
        if !(-262143 < base.year && base.year < 262141) {
            return;
        }
        let total: i64 = base.year as i64 * 12 + base.month as i64 - 1 + delta as i64;
        let shifted: u64 = (total + 3_600_000) as u64;
        let q: u64 = shifted / 12;
        let r: u64 = shifted % 12;
        let new_year: i64 = q as i64 - 300_000;
        let new_month: u32 = (r + 1) as u32;
        proof {
            vstd::arithmetic::div_mod::lemma_fundamental_div_mod_converse(
                total as int,
                12,
                new_year as int,
                r as int,
            );
        }
        let max_day = days_in_month(new_year as i32, new_month);
        let day = if base.day < max_day { base.day } else { max_day };
        match date_from_ymd(new_year as i32, new_month, day) {
            Some(d) => self.set_date(d),
            None => {},
        }
    }

    /// What confirming gives (see [`confirm_outcome`]).
    pub fn confirm(&self) -> (o: InsertOutcome)
        ensures
            confirm_outcome(*self, o),
    {
        let t = LineInput { buffer: owned(self.buffer.as_str()), cursor: 0 }.trimmed();
        proof {
            reveal_strlit("none");
        }
        if t.as_str().is_empty() || same_ignoring_ascii_case(t.as_str(), "none") {
            return InsertOutcome::Confirm(Command::ClearDueDate { card_id: owned(self.card_id.as_str()) });
        }
        let parsed = match self.picker_date {
            Some(d) => Some(d),
            None => date_parse(t.as_str()),
        };
        match parsed {
            Some(date) => InsertOutcome::Confirm(Command::SetDueDate { card_id: owned(self.card_id.as_str()), date }),
            None => InsertOutcome::CancelWithStatus(owned("Invalid date format. Use YYYY-MM-DD")),
        }
    }

    /// Handles one key, with `today` as the clock's date (see [`stepped`]).
    pub fn handle_key_on(&mut self, key: Key, today: Date) -> (o: InsertOutcome)
        requires
            valid_date(today),
            steps(key.code) && old(self).picker_date is Some ==> valid_date(old(self).picker_date->0),
        ensures
            stepped(*old(self), *final(self), key, today, o),
    {
        match key.code {
            KeyCode::Esc => InsertOutcome::Cancel,
            KeyCode::Enter => self.confirm(),
            KeyCode::Left => {
                self.shift_days(-1, today);
                InsertOutcome::Stay
            },
            KeyCode::Right => {
                self.shift_days(1, today);
                InsertOutcome::Stay
            },
            KeyCode::Up => {
                self.shift_days(-7, today);
                InsertOutcome::Stay
            },
            KeyCode::Down => {
                self.shift_days(7, today);
                InsertOutcome::Stay
            },
            KeyCode::PageUp => {
                self.shift_months(if key.shift { -12 } else { -1 }, today);
                InsertOutcome::Stay
            },
            KeyCode::PageDown => {
                self.shift_months(if key.shift { 12 } else { 1 }, today);
                InsertOutcome::Stay
            },
            KeyCode::Home => {
                match self.picker_date {
                    Some(d) => match date_from_ymd(d.year, d.month, 1) {
                        Some(first) => self.set_date(first),
                        None => {},
                    },
                    None => {},
                }
                InsertOutcome::Stay
            },
            KeyCode::End => {
                match self.picker_date {
                    Some(d) => {
                        let next_month = if d.month == 12 {
                            if d.year < 262142 {
                                date_from_ymd(d.year + 1, 1, 1)
                            } else {
                                None
                            }
                        } else if d.month < 12 {
                            date_from_ymd(d.year, d.month + 1, 1)
                        } else {
                            None
                        };
                        match next_month {
                            Some(nm) => {
                                let last = match date_pred(nm) {
                                    Some(x) => x,
                                    None => d,
                                };
                                self.set_date(last);
                            },
                            None => {},
                        }
                    },
                    None => {},
                }
                InsertOutcome::Stay
            },
            KeyCode::Backspace => {
                let mut v = chars_of(self.buffer.as_str());
                if v.len() > 0 {
                    v.pop();
                    let shorter = string_from_chars(v.as_slice());
                    self.retype(shorter);
                }
                InsertOutcome::Stay
            },
            KeyCode::Char(c) => {
                if c == 't' || c == 'T' {
                    self.set_date(today);
                } else if c == 'u' && (key.control || key.command) {
                    self.buffer = String::new();
                    self.cursor = 0;
                    self.picker_date = None;
                } else if ('0' <= c && c <= '9') || c == '-' {
                    let mut s = owned(self.buffer.as_str());
                    push_char(&mut s, c);
                    self.retype(s);
                }
                InsertOutcome::Stay
            },
            _ => InsertOutcome::Stay,
        }
    }

    /// Handles one key with today's date from the clock (see [`stepped`]).
    pub fn handle_key(&mut self, key: Key) -> (o: InsertOutcome)
        requires
            steps(key.code) && old(self).picker_date is Some ==> valid_date(old(self).picker_date->0),
        ensures
            exists|today: Date| valid_date(today) && stepped(*old(self), *final(self), key, today, o),
    {
        let today = date_today();
        self.handle_key_on(key, today)
    }
}

/// The arrows step through the calendar grid from the shown date (or
/// today): Left and Right by one day, Up and Down by a whole week, each
/// pair in opposite directions.
pub proof fn lemma_arrow_steps(before: DatePicker, after: DatePicker, key: Key, today: Date, o: InsertOutcome)
    requires
        stepped(before, after, key, today, o),
        steppable(base_of(before, today)),
    ensures
        ({
            let start = day_number(base_of(before, today));
            let shown = after.picker_date;
            &&& key.code == KeyCode::Left ==> (shown matches Some(x) && day_number(x) == start - 1)
            &&& key.code == KeyCode::Right ==> (shown matches Some(x) && day_number(x) == start + 1)
            &&& key.code == KeyCode::Up ==> (shown matches Some(x) && day_number(x) == start - 7)
            &&& key.code == KeyCode::Down ==> (shown matches Some(x) && day_number(x) == start + 7)
        }),
{
}

/// From the same picker, Up and Left reach different dates, and so do
/// Down and Right.
pub proof fn lemma_week_is_not_day(
    before: DatePicker,
    today: Date,
    k1: Key,
    a1: DatePicker,
    o1: InsertOutcome,
    k2: Key,
    a2: DatePicker,
    o2: InsertOutcome,
)
    requires
        steppable(base_of(before, today)),
        stepped(before, a1, k1, today, o1),
        stepped(before, a2, k2, today, o2),
        (k1.code == KeyCode::Up && k2.code == KeyCode::Left) || (k1.code == KeyCode::Down && k2.code == KeyCode::Right),
    ensures
        a1.picker_date != a2.picker_date,
{
    lemma_arrow_steps(before, a1, k1, today, o1);
    lemma_arrow_steps(before, a2, k2, today, o2);
}

} // verus!
