//! Markdown list editing in the description editor: continuing a list on
//! Enter, nesting and unnesting an item with Tab and Shift-Tab, and
//! renumbering numbered lists. The text is a sequence of lines with a
//! cursor; rows, columns and indents count characters.

use vstd::prelude::*;

use crate::text::{char_is_whitespace, chars_of, decimal, digit_char, is_ws, string_from_chars};

verus! {

// ── Reading a line ──────────────────────────────────────────────────

/// Number of leading whitespace characters (what `trim_start` removes).
pub open spec fn lead(s: Seq<char>) -> int
    decreases s.len(),
{
    if s.len() > 0 && is_ws(s[0]) {
        1 + lead(s.drop_first())
    } else {
        0
    }
}

proof fn lemma_lead(s: Seq<char>)
    ensures
        0 <= lead(s) <= s.len(),
        forall|i: int| 0 <= i < lead(s) ==> is_ws(#[trigger] s[i]),
        lead(s) < s.len() ==> !is_ws(s[lead(s)]),
    decreases s.len(),
{
    if s.len() > 0 && is_ws(s[0]) {
        lemma_lead(s.drop_first());
        assert forall|i: int| 0 <= i < lead(s) implies is_ws(#[trigger] s[i]) by {
            if i > 0 {
                assert(s[i] == s.drop_first()[i - 1]);
            }
        }
        if lead(s) < s.len() {
            assert(s[lead(s)] == s.drop_first()[lead(s) - 1]);
        }
    }
}

/// Index of the first `". "` in `t` at or after `i`, or -1.
pub open spec fn dot_space_from(t: Seq<char>, i: int) -> int
    decreases t.len() - i,
{
    if i < 0 || i + 1 >= t.len() {
        -1
    } else if t[i] == '.' && t[i + 1] == ' ' {
        i
    } else {
        dot_space_from(t, i + 1)
    }
}

proof fn lemma_dot_space_from(t: Seq<char>, i: int)
    requires
        0 <= i,
    ensures
        dot_space_from(t, i) == -1 || (i <= dot_space_from(t, i) && dot_space_from(t, i) + 1 < t.len()),
    decreases t.len() - i,
{
    if i + 1 < t.len() && !(t[i] == '.' && t[i + 1] == ' ') {
        lemma_dot_space_from(t, i + 1);
    }
}

/// The value of a run of decimal digits.
pub open spec fn digits_value(s: Seq<char>) -> int
    decreases s.len(),
{
    if s.len() == 0 {
        0
    } else {
        digits_value(s.drop_last()) * 10 + (s.last() as int - 48)
    }
}

/// Every character is an ASCII digit.
pub open spec fn all_digits(s: Seq<char>) -> bool {
    forall|i: int| 0 <= i < s.len() ==> '0' <= #[trigger] s[i] <= '9'
}

/// What `str::parse::<u64>` accepts and gives: an optional `+`, then at
/// least one decimal digit, the value fitting in `u64`.
pub open spec fn parsed_u64(s: Seq<char>) -> Option<u64> {
    let d = if s.len() > 0 && s[0] == '+' {
        s.drop_first()
    } else {
        s
    };
    if d.len() > 0 && all_digits(d) && digits_value(d) <= u64::MAX {
        Some(digits_value(d) as u64)
    } else {
        None
    }
}

/// A numbered item: its indent, the length of its number's text (up to
/// the first `". "` after the indent) and the number.
pub open spec fn numbered(line: Seq<char>) -> Option<(int, int, u64)> {
    let l = lead(line);
    let t = line.skip(l);
    let p = dot_space_from(t, 0);
    if p >= 0 {
        match parsed_u64(t.take(p)) {
            Some(n) => Some((l, p, n)),
            None => None,
        }
    } else {
        None
    }
}

/// An unordered item: after the indent, `- ` or `* `.
pub open spec fn bulleted(line: Seq<char>) -> bool {
    let t = line.skip(lead(line));
    t.len() >= 2 && (t[0] == '-' || t[0] == '*') && t[1] == ' '
}

fn lead_of(v: &Vec<char>) -> (n: usize)
    ensures
        n == lead(v@),
{
    proof {
        lemma_lead(v@);
    }
    let mut i: usize = 0;
    assert(v@.skip(0) =~= v@);
    while i < v.len() && char_is_whitespace(v[i])
        invariant
            i <= v@.len(),
            lead(v@) == i + lead(v@.skip(i as int)),
        decreases v.len() - i,
    {
        proof {
            assert(v@.skip(i as int).drop_first() =~= v@.skip(i + 1));
        }
        i += 1;
    }
    proof {
        if i < v.len() {
            assert(v@.skip(i as int)[0] == v@[i as int]);
        }
    }
    i
}

/// Index (in `v`) of the first `". "` at or after `from`, or `None`.
fn find_dot_space(v: &Vec<char>, from: usize) -> (r: Option<usize>)
    requires
        from <= v@.len(),
    ensures
        match r {
            Some(p) => from <= p && p - from == dot_space_from(v@.skip(from as int), 0) && p + 1 < v@.len(),
            None => dot_space_from(v@.skip(from as int), 0) == -1,
        },
{
    let ghost t = v@.skip(from as int);
    let mut i: usize = from;
    while i < v.len() && i + 1 < v.len()
        invariant
            from <= i <= v@.len(),
            t == v@.skip(from as int),
            dot_space_from(t, 0) == dot_space_from(t, i - from),
        decreases v.len() - i,
    {
        assert(t[i - from] == v@[i as int] && t[i - from + 1] == v@[i + 1]);
        if v[i] == '.' && v[i + 1] == ' ' {
            return Some(i);
        }
        i += 1;
    }
    None
}

proof fn lemma_digits_value_bound(s: Seq<char>)
    requires
        all_digits(s),
    ensures
        0 <= digits_value(s),
    decreases s.len(),
{
    if s.len() > 0 {
        lemma_digits_value_bound(s.drop_last());
    }
}

/// `str::parse::<u64>` of `v[start..end]` (see [`parsed_u64`]).
fn parse_u64_at(v: &Vec<char>, start: usize, end: usize) -> (r: Option<u64>)
    requires
        start <= end <= v@.len(),
    ensures
        r == parsed_u64(v@.subrange(start as int, end as int)),
{
    let ghost s = v@.subrange(start as int, end as int);
    let mut i = start;
    if i < end && v[i] == '+' {
        i += 1;
    }
    let ghost d = v@.subrange(i as int, end as int);
    proof {
        if start < end && v@[start as int] == '+' {
            assert(d =~= s.drop_first());
        } else {
            assert(d =~= s);
        }
    }
    if i == end {
        return None;
    }
    let mut acc: u64 = 0;
    let mut j = i;
    while j < end
        invariant
            i <= j <= end <= v@.len(),
            s == v@.subrange(start as int, end as int),
            d == (if s.len() > 0 && s[0] == '+' {
                s.drop_first()
            } else {
                s
            }),
            d == v@.subrange(i as int, end as int),
            all_digits(v@.subrange(i as int, j as int)),
            acc == digits_value(v@.subrange(i as int, j as int)),
        decreases end - j,
    {
        let c = v[j];
        proof {
            assert(v@.subrange(i as int, j + 1).drop_last() =~= v@.subrange(i as int, j as int));
        }
        if !('0' <= c && c <= '9') {
            proof {
                assert(d[j - i] == c);
            }
            return None;
        }
        let digit = (c as u32 - 48) as u64;
        if acc > (u64::MAX - digit) / 10 {
            proof {
                let k = j + 1;
                assert(digits_value(v@.subrange(i as int, k as int)) == acc * 10 + digit);
                assert(acc * 10 + digit > u64::MAX) by (nonlinear_arith)
                    requires
                        acc > (u64::MAX - digit) / 10,
                        digit <= 9,
                ;
                // Further digits only grow the value.
                lemma_digits_grow(d, (k - i) as int);
                assert(d.take((k - i) as int) =~= v@.subrange(i as int, k as int));
            }
            return None;
        }
        acc = acc * 10 + digit;
        j += 1;
    }
    assert(v@.subrange(i as int, end as int) =~= d);
    Some(acc)
}

/// A digit run's value is at least the value of any of its prefixes.
proof fn lemma_digits_grow(s: Seq<char>, k: int)
    requires
        0 <= k <= s.len(),
        all_digits(s.take(k)),
    ensures
        all_digits(s) ==> digits_value(s) >= digits_value(s.take(k)),
    decreases s.len() - k,
{
    if k < s.len() && all_digits(s) {
        assert(s.take(k + 1).drop_last() =~= s.take(k));
        assert(all_digits(s.take(k + 1)));
        lemma_digits_value_bound(s.take(k));
        lemma_digits_grow(s, k + 1);
    }
    if k == s.len() {
        assert(s.take(k) =~= s);
    }
}

/// The numbered-item reading of a line (see [`numbered`]).
fn numbered_of(v: &Vec<char>) -> (r: Option<(usize, usize, u64)>)
    ensures
        match r {
            Some((l, p, n)) => numbered(v@) == Some((l as int, p as int, n)) && l + p < v@.len(),
            None => numbered(v@) is None,
        },
{
    let l = lead_of(v);
    proof {
        lemma_lead(v@);
        lemma_dot_space_from(v@.skip(l as int), 0);
    }
    match find_dot_space(v, l) {
        Some(q) => {
            assert(q - l == dot_space_from(v@.skip(l as int), 0));
            assert(l <= q);
            let r = parse_u64_at(v, l, q);
            proof {
                assert(v@.skip(l as int).take(q - l) =~= v@.subrange(l as int, q as int));
            }
            match r {
                Some(n) => Some((l, q - l, n)),
                None => None,
            }
        },
        None => None,
    }
}

/// Whether the line is an unordered item (see [`bulleted`]).
fn bulleted_of(v: &Vec<char>) -> (b: bool)
    ensures
        b == bulleted(v@),
{
    let l = lead_of(v);
    proof {
        lemma_lead(v@);
    }
    let b = l < v.len() && l + 1 < v.len() && (v[l] == '-' || v[l] == '*') && v[l + 1] == ' ';
    proof {
        let t = v@.skip(l as int);
        if t.len() >= 2 {
            assert(t[0] == v@[l as int] && t[1] == v@[l + 1]);
        }
    }
    b
}

/// The decimal digits of `n`.
fn decimal_chars(n: u64) -> (v: Vec<char>)
    ensures
        v@ == decimal(n as nat),
    decreases n,
{
    let mut v = if n >= 10 {
        decimal_chars(n / 10)
    } else {
        Vec::new()
    };
    let d: u8 = (n % 10) as u8;
    v.push((48u8 + d) as char);
    proof {
        if n < 10 {
            assert(v@ =~= seq![digit_char(n as nat)]);
        } else {
            assert(v@ =~= decimal((n / 10) as nat).push(digit_char((n % 10) as nat)));
        }
    }
    v
}

// ── Renumbering ────────────────────────────────────────────────────

/// The open levels of numbered lists: `(indent, next number)`, outermost
/// first.
pub type Levels = Seq<(int, int)>;

/// The levels with those deeper than `ind` closed.
pub open spec fn pop_deeper(st: Levels, ind: int) -> Levels
    decreases st.len(),
{
    if st.len() > 0 && st.last().0 > ind {
        pop_deeper(st.drop_last(), ind)
    } else {
        st
    }
}

/// The levels with those at `ind` or deeper closed.
pub open spec fn pop_from(st: Levels, ind: int) -> Levels
    decreases st.len(),
{
    if st.len() > 0 && st.last().0 >= ind {
        pop_from(st.drop_last(), ind)
    } else {
        st
    }
}

/// The number an item at indent `ind` written as `n` should carry: the
/// next number of the open list at its indent, or its own number when it
/// starts a list.
pub open spec fn expected_number(st: Levels, ind: int, n: int) -> int {
    let s1 = pop_deeper(st, ind);
    if s1.len() > 0 && s1.last().0 == ind {
        s1.last().1
    } else {
        n
    }
}

/// One line of renumbering: an empty line closes every list; a numbered
/// item closes deeper lists, takes the number expected at its indent and
/// opens or advances its list; any other line closes the lists at its
/// indent or deeper.
pub open spec fn renum_step(st: Levels, line: Seq<char>) -> (Levels, Seq<char>) {
    if line.len() == 0 {
        (seq![], line)
    } else {
        match numbered(line) {
            Some((ind, p, n)) => {
                let s1 = pop_deeper(st, ind);
                let e = expected_number(st, ind, n as int);
                let s2 = if s1.len() > 0 && s1.last().0 == ind {
                    s1.drop_last().push((ind, e + 1))
                } else {
                    s1.push((ind, e + 1))
                };
                (s2, if e != n { line.take(ind) + decimal(e as nat) + line.skip(ind + p) } else { line })
            },
            None => (pop_from(st, lead(line)), line),
        }
    }
}

/// The levels and the renumbered lines after the first `k` lines.
pub open spec fn renum_upto(lines: Seq<Seq<char>>, k: int) -> (Levels, Seq<Seq<char>>)
    decreases k,
{
    if k <= 0 {
        (seq![], seq![])
    } else {
        let prev = renum_upto(lines, k - 1);
        let next = renum_step(prev.0, lines[k - 1]);
        (next.0, prev.1.push(next.1))
    }
}

/// The lines with every numbered list renumbered: within a run of items
/// at one indent the numbers count up by one from the run's first item,
/// which keeps its number; nested lists and lists separated by other text
/// are numbered independently.
pub open spec fn renumbered(lines: Seq<Seq<char>>) -> Seq<Seq<char>> {
    renum_upto(lines, lines.len() as int).1
}

/// Every expected number among the first `k` lines is below `u64::MAX`,
/// so the number after it exists.
pub open spec fn fits_upto(lines: Seq<Seq<char>>, k: int) -> bool
    decreases k,
{
    if k <= 0 {
        true
    } else {
        &&& fits_upto(lines, k - 1)
        &&& match numbered(lines[k - 1]) {
            Some((ind, p, n)) => lines[k - 1].len() == 0 || expected_number(renum_upto(lines, k - 1).0, ind, n as int)
                < u64::MAX,
            None => true,
        }
    }
}

/// The numbers renumbering reaches stay within `u64`.
pub open spec fn renumber_fits(lines: Seq<Seq<char>>) -> bool {
    fits_upto(lines, lines.len() as int)
}

/// The levels as integers.
pub open spec fn levels_of(v: Seq<(usize, u64)>) -> Levels {
    v.map_values(|x: (usize, u64)| (x.0 as int, x.1 as int))
}

proof fn lemma_levels_drop_last(v: Seq<(usize, u64)>)
    requires
        v.len() > 0,
    ensures
        levels_of(v.drop_last()) == levels_of(v).drop_last(),
        levels_of(v).last() == (v.last().0 as int, v.last().1 as int),
{
    assert(levels_of(v.drop_last()) =~= levels_of(v).drop_last());
}

/// The lines of `v` with every numbered list renumbered (see
/// [`renumbered`]).
fn renumber_lines(lines: &Vec<Vec<char>>) -> (out: Vec<Vec<char>>)
    requires
        renumber_fits(lines@.map_values(|l: Vec<char>| l@)),
    ensures
        out@.map_values(|l: Vec<char>| l@) == renumbered(lines@.map_values(|l: Vec<char>| l@)),
{
    let ghost ls = lines@.map_values(|l: Vec<char>| l@);
    let mut out: Vec<Vec<char>> = Vec::new();
    let mut stack: Vec<(usize, u64)> = Vec::new();
    for r in 0..lines.len()
        invariant
            ls == lines@.map_values(|l: Vec<char>| l@),
            renumber_fits(ls),
            levels_of(stack@) == renum_upto(ls, r as int).0,
            out@.map_values(|l: Vec<char>| l@) == renum_upto(ls, r as int).1,
    {
        let line = &lines[r];
        let ghost st0 = renum_upto(ls, r as int).0;
        proof {
            assert(ls[r as int] == line@);
            lemma_fits_prefix(ls, r + 1, ls.len() as int);
        }
        if line.len() == 0 {
            stack = Vec::new();
            out.push(line.clone());
            proof {
                assert(levels_of(stack@) =~= seq![]);
                assert(out@.map_values(|l: Vec<char>| l@) =~= renum_upto(ls, r as int).1.push(line@));
            }
        } else {
            match numbered_of(line) {
                Some((ind, p, n)) => {
                    while stack.len() > 0 && stack[stack.len() - 1].0 > ind
                        invariant
                            pop_deeper(levels_of(stack@), ind as int) == pop_deeper(st0, ind as int),
                        decreases stack.len(),
                    {
                        proof {
                            lemma_levels_drop_last(stack@);
                        }
                        stack.pop();
                    }
                    proof {
                        if stack@.len() > 0 {
                            lemma_levels_drop_last(stack@);
                        }
                        assert(pop_deeper(levels_of(stack@), ind as int) == levels_of(stack@));
                    }
                    let same = stack.len() > 0 && stack[stack.len() - 1].0 == ind;
                    let e: u64 = if same {
                        stack[stack.len() - 1].1
                    } else {
                        n
                    };
                    proof {
                        assert(e == expected_number(st0, ind as int, n as int));
                        assert(fits_upto(ls, r + 1));
                    }
                    if same {
                        proof {
                            lemma_levels_drop_last(stack@);
                        }
                        stack.pop();
                    }
                    stack.push((ind, e + 1));
                    let new_line = if e != n {
                        let mut nl: Vec<char> = Vec::new();
                        let mut k: usize = 0;
                        while k < ind
                            invariant
                                k <= ind,
                                ind + p < line@.len(),
                                nl@ == line@.take(k as int),
                            decreases ind - k,
                        {
                            nl.push(line[k]);
                            assert(nl@ =~= line@.take(k + 1));
                            k += 1;
                        }
                        let digits = decimal_chars(e);
                        let mut k2: usize = 0;
                        while k2 < digits.len()
                            invariant
                                k2 <= digits@.len(),
                                nl@ == line@.take(ind as int) + digits@.take(k2 as int),
                            decreases digits.len() - k2,
                        {
                            nl.push(digits[k2]);
                            assert(nl@ =~= line@.take(ind as int) + digits@.take(k2 + 1));
                            k2 += 1;
                        }
                        let mut k3: usize = ind + p;
                        while k3 < line.len()
                            invariant
                                ind + p <= k3 <= line@.len(),
                                nl@ == line@.take(ind as int) + digits@ + line@.subrange(ind + p, k3 as int),
                            decreases line.len() - k3,
                        {
                            nl.push(line[k3]);
                            assert(nl@ =~= line@.take(ind as int) + digits@ + line@.subrange(ind + p, k3 + 1));
                            k3 += 1;
                        }
                        proof {
                            assert(digits@.take(digits@.len() as int) =~= digits@);
                            assert(line@.subrange(ind + p, line@.len() as int) =~= line@.skip(ind + p));
                        }
                        nl
                    } else {
                        line.clone()
                    };
                    out.push(new_line);
                    proof {
                        let (s2, l2) = renum_step(st0, line@);
                        assert(levels_of(stack@) =~= s2) by {
                            if stack@.len() > 0 {
                                lemma_levels_drop_last(stack@);
                            }
                        }
                        assert(new_line@ == l2);
                        assert(out@.map_values(|l: Vec<char>| l@) =~= renum_upto(ls, r as int).1.push(l2));
                    }
                },
                None => {
                    let ind = lead_of(line);
                    while stack.len() > 0 && stack[stack.len() - 1].0 >= ind
                        invariant
                            pop_from(levels_of(stack@), ind as int) == pop_from(st0, ind as int),
                        decreases stack.len(),
                    {
                        proof {
                            lemma_levels_drop_last(stack@);
                        }
                        stack.pop();
                    }
                    proof {
                        if stack@.len() > 0 {
                            lemma_levels_drop_last(stack@);
                        }
                        assert(pop_from(levels_of(stack@), ind as int) == levels_of(stack@));
                    }
                    out.push(line.clone());
                    proof {
                        assert(out@.map_values(|l: Vec<char>| l@) =~= renum_upto(ls, r as int).1.push(line@));
                    }
                },
            }
        }
    }
    proof {
        assert(ls.len() == lines@.len());
    }
    out
}

proof fn lemma_fits_prefix(lines: Seq<Seq<char>>, k: int, m: int)
    requires
        0 <= k <= m,
        fits_upto(lines, m),
    ensures
        fits_upto(lines, k),
    decreases m - k,
{
    if k < m {
        lemma_fits_prefix(lines, k, m - 1);
    }
}

proof fn lemma_renum_len(lines: Seq<Seq<char>>, k: int)
    requires
        0 <= k,
    ensures
        renum_upto(lines, k).1.len() == k,
    decreases k,
{
    if k > 0 {
        lemma_renum_len(lines, k - 1);
    }
}

/// Renumbering keeps the number of lines and leaves every line that is not
/// a numbered item as it was.
pub proof fn lemma_renumber_keeps_other_lines(lines: Seq<Seq<char>>)
    ensures
        renumbered(lines).len() == lines.len(),
        forall|r: int| 0 <= r < lines.len() && numbered(#[trigger] lines[r]) is None ==> renumbered(lines)[r] == lines[r],
{
    lemma_renum_len(lines, lines.len() as int);
    assert forall|r: int| 0 <= r < lines.len() && numbered(#[trigger] lines[r]) is None implies renumbered(lines)[r]
        == lines[r] by {
        lemma_renum_prefix(lines, r + 1, lines.len() as int);
        lemma_renum_len(lines, r);
    }
}

/// The first `k` renumbered lines do not depend on later lines.
proof fn lemma_renum_prefix(lines: Seq<Seq<char>>, k: int, m: int)
    requires
        0 < k <= m,
    ensures
        renum_upto(lines, m).1[k - 1] == renum_upto(lines, k).1[k - 1],
    decreases m - k,
{
    if k < m {
        lemma_renum_prefix(lines, k, m - 1);
        lemma_renum_len(lines, m - 1);
    }
}

// ── The text and its cursor ───────────────────────────────────────

/// Editor text: its lines and the cursor (row, and column in characters).
#[derive(Debug, Clone)]
pub struct TextState {
    pub lines: Vec<String>,
    pub row: usize,
    pub col: usize,
}

/// The lines as character sequences.
pub open spec fn lines_of(t: TextState) -> Seq<Seq<char>> {
    t.lines@.map_values(|s: String| s@)
}

/// There is a line, and the cursor is on a line and within it.
pub open spec fn text_ok(t: TextState) -> bool {
    &&& t.lines@.len() >= 1
    &&& t.row < t.lines@.len()
    &&& t.col <= t.lines@[t.row as int]@.len()
}

/// Where a cursor jump to `(r, c)` lands: the nearest position in the
/// text.
pub open spec fn jump_to(ls: Seq<Seq<char>>, r: int, c: int) -> (int, int) {
    let rr = if r < ls.len() {
        r
    } else {
        ls.len() - 1
    };
    (rr, if c < ls[rr].len() { c } else { ls[rr].len() as int })
}

/// `n` spaces.
pub open spec fn spaces(n: int) -> Seq<char> {
    Seq::new(n as nat, |i: int| ' ')
}

/// A line that holds only a list marker: `-`, `*`, `- `, `* `, or a number
/// followed by `.` or `. `.
pub open spec fn bare_marker(t: Seq<char>) -> bool {
    ||| t == "-"@ || t == "*"@ || t == "- "@ || t == "* "@
    ||| (if t.len() >= 2 && t[t.len() - 2] == '.' && t[t.len() - 1] == ' ' {
        parsed_u64(t.take(t.len() - 2)) is Some
    } else if t.len() >= 1 && t.last() == '.' {
        parsed_u64(t.drop_last()) is Some
    } else {
        false
    })
}

/// The lines after continuing the numbered item at `row` with a new item
/// `1. ` below it, before renumbering.
pub open spec fn with_new_item(ls: Seq<Seq<char>>, row: int) -> Seq<Seq<char>> {
    ls.insert(row + 1, spaces(lead(ls[row])) + "1. "@)
}

/// What Enter does at `(row, col)`: at the very start it opens an empty
/// line above; on a line holding only a list marker it clears the line and
/// opens an empty one below; on a list item it continues the list below
/// (with the same marker and indent, a numbered list renumbered and the
/// cursor at the end of the new item); elsewhere it splits the line.
pub open spec fn after_enter(ls: Seq<Seq<char>>, row: int, col: int) -> (Seq<Seq<char>>, int, int) {
    let line = ls[row];
    let t = line.skip(lead(line));
    if row == 0 && col == 0 {
        (ls.insert(0, seq![]), 0, 0)
    } else if bare_marker(t) {
        (ls.update(row, seq![]).insert(row + 1, seq![]), row + 1, 0)
    } else if bulleted(line) {
        (ls.insert(row + 1, spaces(lead(line)) + t.take(2)), row + 1, lead(line) + 2)
    } else if numbered(line) is Some {
        let n = renumbered(with_new_item(ls, row));
        (n, row + 1, n[row + 1].len() as int)
    } else {
        (ls.update(row, line.take(col)).insert(row + 1, line.skip(col)), row + 1, 0)
    }
}

/// The line at `row` nested one level (three spaces deeper); a numbered
/// item restarts at 1.
pub open spec fn nested_line(line: Seq<char>) -> Seq<char> {
    match numbered(line) {
        Some((ind, p, n)) => spaces(3) + line.take(ind) + "1"@ + line.skip(ind + p),
        None => spaces(3) + line,
    }
}

/// What Tab does on a list item: nest it, renumber, move the cursor three
/// columns right (within the line). `None` when the line is no list item.
pub open spec fn after_tab(ls: Seq<Seq<char>>, row: int, col: int) -> Option<(Seq<Seq<char>>, int, int)> {
    let line = ls[row];
    if numbered(line) is None && !bulleted(line) {
        None
    } else {
        let n = renumbered(ls.update(row, nested_line(line)));
        Some((n, row, if col + 3 < n[row].len() { col + 3 } else { n[row].len() as int }))
    }
}

/// What Shift-Tab does on a list item indented by three or more: unnest
/// it, renumber, move the cursor three columns left (within the line).
/// Anything else is left alone.
pub open spec fn after_untab(ls: Seq<Seq<char>>, row: int, col: int) -> (Seq<Seq<char>>, int, int) {
    let line = ls[row];
    if lead(line) < 3 || (numbered(line) is None && !bulleted(line)) {
        (ls, row, col)
    } else {
        let n = renumbered(ls.update(row, line.skip(3)));
        let c = if col >= 3 { col - 3 } else { 0 };
        (n, row, if c < n[row].len() { c } else { n[row].len() as int })
    }
}

/// The numbers an edit's renumbering reaches fit in `u64` (see
/// [`renumber_fits`]) for each of the edits.
pub open spec fn edits_fit(ls: Seq<Seq<char>>, row: int) -> bool {
    &&& renumber_fits(ls)
    &&& (numbered(ls[row]) is Some ==> renumber_fits(with_new_item(ls, row)))
    &&& renumber_fits(ls.update(row, nested_line(ls[row])))
    &&& (lead(ls[row]) >= 3 ==> renumber_fits(ls.update(row, ls[row].skip(3))))
}

fn to_chars(lines: &Vec<String>) -> (v: Vec<Vec<char>>)
    ensures
        v@.map_values(|l: Vec<char>| l@) == lines@.map_values(|s: String| s@),
{
    let mut v: Vec<Vec<char>> = Vec::new();
    for i in 0..lines.len()
        invariant
            v@.len() == i,
            v@.map_values(|l: Vec<char>| l@) == lines@.take(i as int).map_values(|s: String| s@),
    {
        let ghost before = v@;
        let c = chars_of(lines[i].as_str());
        v.push(c);
        let ghost a = v@.map_values(|l: Vec<char>| l@);
        let ghost b = lines@.take(i + 1).map_values(|s: String| s@);
        let ghost a0 = before.map_values(|l: Vec<char>| l@);
        let ghost b0 = lines@.take(i as int).map_values(|s: String| s@);
        assert forall|k: int| 0 <= k < i + 1 implies #[trigger] a[k] == b[k] by {
            if k < i {
                assert(v@[k] == before[k]);
                assert(a0[k] == b0[k]);
            }
        }
        assert(v@.map_values(|l: Vec<char>| l@) =~= lines@.take(i + 1).map_values(|s: String| s@));
    }
    assert(lines@.take(lines@.len() as int) =~= lines@);
    v
}

fn to_strings(v: &Vec<Vec<char>>) -> (lines: Vec<String>)
    ensures
        lines@.map_values(|s: String| s@) == v@.map_values(|l: Vec<char>| l@),
{
    let mut lines: Vec<String> = Vec::new();
    for i in 0..v.len()
        invariant
            lines@.len() == i,
            lines@.map_values(|s: String| s@) == v@.take(i as int).map_values(|l: Vec<char>| l@),
    {
        let ghost before = lines@;
        let t = string_from_chars(v[i].as_slice());
        lines.push(t);
        let ghost a = lines@.map_values(|s: String| s@);
        let ghost b = v@.take(i + 1).map_values(|l: Vec<char>| l@);
        let ghost a0 = before.map_values(|s: String| s@);
        let ghost b0 = v@.take(i as int).map_values(|l: Vec<char>| l@);
        assert forall|k: int| 0 <= k < i + 1 implies #[trigger] a[k] == b[k] by {
            if k < i {
                assert(lines@[k] == before[k]);
                assert(a0[k] == b0[k]);
            }
        }
        assert(lines@.map_values(|s: String| s@) =~= v@.take(i + 1).map_values(|l: Vec<char>| l@));
    }
    assert(v@.take(v@.len() as int) =~= v@);
    lines
}

fn spaces_then(n: usize, rest: &Vec<char>) -> (v: Vec<char>)
    ensures
        v@ == spaces(n as int) + rest@,
{
    let mut v: Vec<char> = Vec::new();
    for i in 0..n
        invariant
            v@ == spaces(i as int),
    {
        v.push(' ');
        assert(v@ =~= spaces(i + 1));
    }
    for j in 0..rest.len()
        invariant
            v@ == spaces(n as int) + rest@.take(j as int),
    {
        v.push(rest[j]);
        assert(v@ =~= spaces(n as int) + rest@.take(j + 1));
    }
    assert(rest@.take(rest@.len() as int) =~= rest@);
    v
}

fn slice_of(v: &Vec<char>, from: usize, to: usize) -> (s: Vec<char>)
    requires
        from <= to <= v@.len(),
    ensures
        s@ == v@.subrange(from as int, to as int),
{
    let mut s: Vec<char> = Vec::new();
    for i in from..to
        invariant
            from <= i <= to,
            to <= v@.len(),
            s@ == v@.subrange(from as int, i as int),
    {
        s.push(v[i]);
        assert(s@ =~= v@.subrange(from as int, i + 1));
    }
    s
}

fn concat(a: &Vec<char>, b: &Vec<char>) -> (c: Vec<char>)
    ensures
        c@ == a@ + b@,
{
    let mut c = slice_of(a, 0, a.len());
    for j in 0..b.len()
        invariant
            c@ == a@ + b@.take(j as int),
    {
        c.push(b[j]);
        assert(c@ =~= a@ + b@.take(j + 1));
    }
    assert(a@.subrange(0, a@.len() as int) =~= a@);
    assert(b@.take(b@.len() as int) =~= b@);
    c
}

fn lit(s: &str) -> (v: Vec<char>)
    ensures
        v@ == s@,
{
    chars_of(s)
}

impl TextState {
    /// Renumbers every numbered list; the cursor stays where it was, or
    /// the nearest position.
    pub fn renumber_all(&mut self)
        requires
            text_ok(*old(self)),
            renumber_fits(lines_of(*old(self))),
        ensures
            lines_of(*final(self)) == renumbered(lines_of(*old(self))),
            (final(self).row as int, final(self).col as int) == jump_to(
                renumbered(lines_of(*old(self))),
                old(self).row as int,
                old(self).col as int,
            ),
            text_ok(*final(self)),
    {
        let v = to_chars(&self.lines);
        let out = renumber_lines(&v);
        proof {
            lemma_renumber_keeps_other_lines(lines_of(*self));
        }
        self.lines = to_strings(&out);
        let n = self.lines.len();
        if self.row >= n {
            self.row = n - 1;
        }
        let len = out[self.row].len();
        if self.col >= len {
            self.col = len;
        }
        proof {
            assert(lines_of(*self)[self.row as int] == out@[self.row as int]@);
        }
    }

    /// What Enter does (see [`after_enter`]).
    pub fn handle_enter_in_list(&mut self)
        requires
            text_ok(*old(self)),
            edits_fit(lines_of(*old(self)), old(self).row as int),
        ensures
            (lines_of(*final(self)), final(self).row as int, final(self).col as int) == after_enter(
                lines_of(*old(self)),
                old(self).row as int,
                old(self).col as int,
            ),
    {
        let ghost ls = lines_of(*self);
        let mut v = to_chars(&self.lines);
        let row = self.row;
        let col = self.col;
        if row == 0 && col == 0 {
            v.insert(0, Vec::new());
            self.lines = to_strings(&v);
            proof {
                assert(lines_of(*self) =~= ls.insert(0, seq![]));
            }
            return;
        }
        let line = slice_of(&v[row], 0, v[row].len());
        proof {
            assert(line@ =~= ls[row as int]);
        }
        let l = lead_of(&line);
        proof {
            lemma_lead(line@);
        }
        let t = slice_of(&line, l, line.len());
        proof {
            assert(t@ =~= line@.skip(l as int));
        }
        if is_bare_marker(&t) {
            v.set(row, Vec::new());
            v.insert(row + 1, Vec::new());
            self.lines = to_strings(&v);
            self.row = row + 1;
            self.col = 0;
            proof {
                assert(lines_of(*self) =~= ls.update(row as int, seq![]).insert(row + 1, seq![]));
            }
            return;
        }
        if bulleted_of(&line) {
            let marker = slice_of(&t, 0, 2);
            let item = spaces_then(l, &marker);
            v.insert(row + 1, item);
            self.lines = to_strings(&v);
            self.row = row + 1;
            self.col = l + 2;
            proof {
                assert(marker@ =~= t@.take(2));
                assert(lines_of(*self) =~= ls.insert(row + 1, spaces(l as int) + t@.take(2)));
            }
            return;
        }
        if numbered_of(&line).is_some() {
            let item = spaces_then(l, &lit("1. "));
            v.insert(row + 1, item);
            proof {
                assert(v@.map_values(|x: Vec<char>| x@) =~= with_new_item(ls, row as int));
            }
            let out = renumber_lines(&v);
            proof {
                lemma_renumber_keeps_other_lines(with_new_item(ls, row as int));
            }
            self.lines = to_strings(&out);
            self.row = row + 1;
            self.col = out[row + 1].len();
            proof {
                assert(out@.map_values(|x: Vec<char>| x@)[row + 1] == out@[row + 1]@);
            }
            return;
        }
        let head = slice_of(&line, 0, col);
        let tail = slice_of(&line, col, line.len());
        v.set(row, head);
        v.insert(row + 1, tail);
        self.lines = to_strings(&v);
        self.row = row + 1;
        self.col = 0;
        proof {
            assert(head@ =~= line@.take(col as int));
            assert(tail@ =~= line@.skip(col as int));
            assert(lines_of(*self) =~= ls.update(row as int, line@.take(col as int)).insert(row + 1, line@.skip(col as int)));
        }
    }

    /// What Tab does on a list item (see [`after_tab`]); `false`, with
    /// nothing changed, on any other line.
    pub fn handle_tab_nest(&mut self) -> (nested: bool)
        requires
            text_ok(*old(self)),
            edits_fit(lines_of(*old(self)), old(self).row as int),
        ensures
            match after_tab(lines_of(*old(self)), old(self).row as int, old(self).col as int) {
                Some((n, r, c)) => nested && lines_of(*final(self)) == n && final(self).row == r && final(self).col == c,
                None => !nested && *final(self) == *old(self),
            },
    {
        let ghost ls = lines_of(*self);
        let mut v = to_chars(&self.lines);
        let row = self.row;
        let col = self.col;
        let line = slice_of(&v[row], 0, v[row].len());
        proof {
            assert(line@ =~= ls[row as int]);
        }
        let num = numbered_of(&line);
        if num.is_none() && !bulleted_of(&line) {
            return false;
        }
        let nested = match num {
            Some((ind, p, _n)) => {
                let a = spaces_then(3, &slice_of(&line, 0, ind));
                let b = concat(&a, &lit("1"));
                let c = concat(&b, &slice_of(&line, ind + p, line.len()));
                proof {
                    assert(c@ =~= spaces(3) + line@.take(ind as int) + "1"@ + line@.skip(ind + p));
                }
                c
            },
            None => spaces_then(3, &line),
        };
        v.set(row, nested);
        proof {
            assert(v@.map_values(|x: Vec<char>| x@) =~= ls.update(row as int, nested_line(ls[row as int])));
        }
        let out = renumber_lines(&v);
        proof {
            lemma_renumber_keeps_other_lines(ls.update(row as int, nested_line(ls[row as int])));
        }
        self.lines = to_strings(&out);
        let len = out[row].len();
        self.col = if col < len && len - col > 3 { col + 3 } else { len };
        proof {
            assert(out@.map_values(|x: Vec<char>| x@)[row as int] == out@[row as int]@);
        }
        true
    }

    /// What Shift-Tab does (see [`after_untab`]).
    pub fn handle_shift_tab_unnest(&mut self)
        requires
            text_ok(*old(self)),
            edits_fit(lines_of(*old(self)), old(self).row as int),
        ensures
            (lines_of(*final(self)), final(self).row as int, final(self).col as int) == after_untab(
                lines_of(*old(self)),
                old(self).row as int,
                old(self).col as int,
            ),
    {
        let ghost ls = lines_of(*self);
        let mut v = to_chars(&self.lines);
        let row = self.row;
        let col = self.col;
        let line = slice_of(&v[row], 0, v[row].len());
        proof {
            assert(line@ =~= ls[row as int]);
        }
        let l = lead_of(&line);
        if l < 3 {
            return;
        }
        if numbered_of(&line).is_none() && !bulleted_of(&line) {
            return;
        }
        proof {
            lemma_lead(line@);
        }
        let rest = slice_of(&line, 3, line.len());
        v.set(row, rest);
        proof {
            assert(rest@ =~= line@.skip(3));
            assert(v@.map_values(|x: Vec<char>| x@) =~= ls.update(row as int, ls[row as int].skip(3)));
        }
        let out = renumber_lines(&v);
        proof {
            lemma_renumber_keeps_other_lines(ls.update(row as int, ls[row as int].skip(3)));
        }
        self.lines = to_strings(&out);
        let c = if col >= 3 { col - 3 } else { 0 };
        let len = out[row].len();
        self.col = if c < len { c } else { len };
        proof {
            assert(out@.map_values(|x: Vec<char>| x@)[row as int] == out@[row as int]@);
        }
    }
}

/// Whether the text after the indent is only a list marker (see
/// [`bare_marker`]).
fn is_bare_marker(t: &Vec<char>) -> (b: bool)
    ensures
        b == bare_marker(t@),
{
    proof {
        reveal_strlit("-");
        reveal_strlit("*");
        reveal_strlit("- ");
        reveal_strlit("* ");
    }
    let n = t.len();
    if n == 1 && (t[0] == '-' || t[0] == '*') {
        proof {
            if t@[0] == '-' {
                assert(t@ =~= "-"@);
            } else {
                assert(t@ =~= "*"@);
            }
        }
        return true;
    }
    if n == 2 && (t[0] == '-' || t[0] == '*') && t[1] == ' ' {
        proof {
            if t@[0] == '-' {
                assert(t@ =~= "- "@);
            } else {
                assert(t@ =~= "* "@);
            }
        }
        return true;
    }
    proof {
        if n == 1 {
            assert(t@ != "-"@ ==> t@[0] != '-');
        }
        assert(t@ != "-"@ && t@ != "*"@ && t@ != "- "@ && t@ != "* "@) by {
            if t@ == "- "@ || t@ == "* "@ {
                assert(t@.len() == 2);
            }
            if t@ == "-"@ || t@ == "*"@ {
                assert(t@.len() == 1);
            }
        }
    }
    if n >= 2 && t[n - 2] == '.' && t[n - 1] == ' ' {
        let r = parse_u64_at(t, 0, n - 2);
        proof {
            assert(t@.subrange(0, n - 2) =~= t@.take(n - 2));
        }
        return r.is_some();
    }
    if n >= 1 && t[n - 1] == '.' {
        let r = parse_u64_at(t, 0, n - 1);
        proof {
            assert(t@.subrange(0, n - 1) =~= t@.drop_last());
        }
        return r.is_some();
    }
    false
}

} // verus!
