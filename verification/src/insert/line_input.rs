//! A single-line text buffer with a cursor, the editing primitive of the
//! line editors. The cursor is a byte offset into the UTF-8 text and
//! always lies on a character boundary.

use vstd::prelude::*;
use vstd::utf8::{encode_scalar, encode_utf8};

use crate::key::{has_ctrl_or_cmd, Key, KeyCode};
use crate::text::{char_is_whitespace, chars_of, is_ws, string_from_chars};

verus! {

/// A single-line buffer and its cursor (a byte offset on a character
/// boundary).
#[derive(Debug)]
pub struct LineInput {
    pub buffer: String,
    pub cursor: usize,
}

/// What a key meant to a [`LineInput`].
#[derive(Debug, Clone, Copy, PartialEq, Eq, Structural)]
pub enum LineKey {
    /// The key was an edit or a cursor move.
    Edited,
    /// Enter: the caller should confirm.
    Confirm,
    /// Esc: the caller should cancel.
    Cancel,
    /// Not a key the buffer reacts to.
    Ignored,
}

/// Number of UTF-8 bytes of the characters `s`.
pub open spec fn byte_len(s: Seq<char>) -> nat {
    encode_utf8(s).len()
}

/// Index `k` of the character boundary at byte offset `b` of `s`, or -1
/// when `b` is not a boundary.
pub open spec fn char_index(s: Seq<char>, b: int) -> int
    decreases s.len(),
{
    if byte_len(s) == b {
        s.len() as int
    } else if s.len() == 0 {
        -1
    } else {
        char_index(s.drop_last(), b)
    }
}

pub proof fn lemma_encode_append(a: Seq<char>, b: Seq<char>)
    ensures
        encode_utf8(a + b) == encode_utf8(a) + encode_utf8(b),
    decreases a.len(),
{
    if a.len() > 0 {
        lemma_encode_append(a.drop_first(), b);
        assert((a + b).drop_first() =~= a.drop_first() + b);
        assert(encode_utf8(a + b) =~= encode_scalar(a[0] as u32) + (encode_utf8(a.drop_first()) + encode_utf8(b)));
    } else {
        assert(a + b =~= b);
    }
}

/// One character encodes as its scalar.
pub proof fn lemma_encode_one(c: char)
    ensures
        encode_utf8(seq![c]) == encode_scalar(c as u32),
        1 <= encode_scalar(c as u32).len() <= 4,
{
    reveal_with_fuel(encode_utf8, 2);
    assert(seq![c].drop_first() =~= Seq::<char>::empty());
    assert(encode_utf8(seq![c]) =~= encode_scalar(c as u32));
}

/// Removing character `j` takes its width off the byte length.
pub proof fn lemma_byte_len_remove(s: Seq<char>, j: int)
    requires
        0 <= j < s.len(),
    ensures
        byte_len(s.remove(j)) + encode_scalar(s[j] as u32).len() == byte_len(s),
{
    let t = s.remove(j);
    assert(s =~= (s.take(j) + seq![s[j]]) + s.skip(j + 1));
    assert(t =~= s.take(j) + s.skip(j + 1));
    lemma_encode_append(s.take(j) + seq![s[j]], s.skip(j + 1));
    lemma_encode_append(s.take(j), seq![s[j]]);
    lemma_encode_append(s.take(j), s.skip(j + 1));
    lemma_encode_one(s[j]);
}

/// Inserting `c` at `j` adds its width to the byte length.
pub proof fn lemma_byte_len_insert(s: Seq<char>, j: int, c: char)
    requires
        0 <= j <= s.len(),
    ensures
        byte_len(s.insert(j, c)) == byte_len(s) + encode_scalar(c as u32).len(),
{
    let t = s.insert(j, c);
    assert(t =~= (s.take(j) + seq![c]) + s.skip(j));
    assert(s =~= s.take(j) + s.skip(j));
    lemma_encode_append(s.take(j) + seq![c], s.skip(j));
    lemma_encode_append(s.take(j), seq![c]);
    lemma_encode_append(s.take(j), s.skip(j));
    lemma_encode_one(c);
}

/// Every character takes at least one byte.
pub proof fn lemma_len_le_bytes(s: Seq<char>)
    ensures
        s.len() <= byte_len(s),
    decreases s.len(),
{
    if s.len() > 0 {
        let d = s.drop_last();
        lemma_len_le_bytes(d);
        assert(s =~= d + seq![s.last()]);
        lemma_encode_append(d, seq![s.last()]);
        lemma_encode_one(s.last());
    }
}

/// The bytes of a prefix grow by the width of the next character, which
/// is at least one byte.
pub proof fn lemma_byte_len_step(s: Seq<char>, k: int)
    requires
        0 <= k < s.len(),
    ensures
        byte_len(s.take(k + 1)) == byte_len(s.take(k)) + encode_scalar(s[k] as u32).len(),
        encode_scalar(s[k] as u32).len() >= 1,
{
    assert(s.take(k + 1) =~= s.take(k) + seq![s[k]]);
    lemma_encode_append(s.take(k), seq![s[k]]);
    lemma_encode_one(s[k]);
}

/// Prefix byte lengths increase strictly with the prefix.
pub proof fn lemma_byte_len_mono(s: Seq<char>, j: int, k: int)
    requires
        0 <= j < k <= s.len(),
    ensures
        byte_len(s.take(j)) < byte_len(s.take(k)),
    decreases k - j,
{
    lemma_byte_len_step(s, k - 1);
    if j < k - 1 {
        lemma_byte_len_mono(s, j, k - 1);
    }
}

/// The boundary at the end of prefix `k` has index `k`.
pub proof fn lemma_char_index(s: Seq<char>, k: int)
    requires
        0 <= k <= s.len(),
    ensures
        char_index(s, byte_len(s.take(k)) as int) == k,
    decreases s.len(),
{
    assert(s.take(s.len() as int) =~= s);
    if k < s.len() {
        lemma_byte_len_mono(s, k, s.len() as int);
        let d = s.drop_last();
        assert(d.take(k) =~= s.take(k));
        lemma_char_index(d, k);
    }
}

/// The well-formed states: the cursor is a character boundary.
pub open spec fn line_ok(buffer: Seq<char>, cursor: usize) -> bool {
    char_index(buffer, cursor as int) >= 0
}

/// The text can take one more character without its byte length
/// leaving the address space.
pub open spec fn has_room(buffer: Seq<char>) -> bool {
    byte_len(buffer) + 4 <= usize::MAX
}

/// The text, cursor (as a character index) and reaction after `key` on
/// text `s` with the cursor before character `k`.
pub open spec fn line_after(s: Seq<char>, k: int, key: Key) -> (Seq<char>, int, LineKey) {
    let ctrl = key.control || key.command;
    match key.code {
        KeyCode::Esc => (s, k, LineKey::Cancel),
        KeyCode::Enter => (s, k, LineKey::Confirm),
        KeyCode::Backspace => if k > 0 { (s.remove(k - 1), k - 1, LineKey::Edited) } else { (s, k, LineKey::Edited) },
        KeyCode::Delete => if k < s.len() { (s.remove(k), k, LineKey::Edited) } else { (s, k, LineKey::Ignored) },
        KeyCode::Left => (s, if k > 0 { k - 1 } else { k }, LineKey::Edited),
        KeyCode::Right => (s, if k < s.len() { k + 1 } else { k }, LineKey::Edited),
        KeyCode::Home => (s, 0, LineKey::Edited),
        KeyCode::End => (s, s.len() as int, LineKey::Edited),
        KeyCode::Char(c) => if ctrl && c == 'u' {
            (Seq::empty(), 0, LineKey::Edited)
        } else if ctrl && c == 'a' {
            (s, 0, LineKey::Edited)
        } else if ctrl && c == 'e' {
            (s, s.len() as int, LineKey::Edited)
        } else {
            (s.insert(k, c), k + 1, LineKey::Edited)
        },
        _ => (s, k, LineKey::Ignored),
    }
}

/// `s` without leading and trailing whitespace.
pub open spec fn trim(s: Seq<char>) -> Seq<char> {
    let a = lead_ws(s, 0);
    let b = trail_end(s, s.len() as int);
    if a < b { s.subrange(a, b) } else { Seq::empty() }
}

/// Index of the first non-whitespace character at or after `i` (or the length).
pub open spec fn lead_ws(s: Seq<char>, i: int) -> int
    decreases s.len() - i,
{
    if i >= s.len() || i < 0 {
        s.len() as int
    } else if is_ws(s[i]) {
        lead_ws(s, i + 1)
    } else {
        i
    }
}

/// One past the last non-whitespace character before `j` (or 0).
pub open spec fn trail_end(s: Seq<char>, j: int) -> int
    decreases j,
{
    if j <= 0 {
        0
    } else if is_ws(s[j - 1]) {
        trail_end(s, j - 1)
    } else {
        j
    }
}

/// A key changes the byte length by at most one character, and leaves
/// the cursor within the text.
proof fn lemma_line_after_bytes(s: Seq<char>, k: int, key: Key)
    requires
        0 <= k <= s.len(),
    ensures
        byte_len(line_after(s, k, key).0) <= byte_len(s) + 4,
        0 <= line_after(s, k, key).1 <= line_after(s, k, key).0.len(),
{
    let (t, k2, r) = line_after(s, k, key);
    match key.code {
        KeyCode::Backspace => if k > 0 {
            lemma_byte_len_remove(s, k - 1);
        },
        KeyCode::Delete => if k < s.len() {
            lemma_byte_len_remove(s, k);
        },
        KeyCode::Char(c) => {
            if t.len() == 0 {
                assert(byte_len(t) == 0);
            } else if t.len() == s.len() + 1 {
                lemma_byte_len_insert(s, k, c);
            }
        },
        _ => {},
    }
}

/// The characters, cursor index and reaction [`line_after`] gives.
fn edit_chars(v: Vec<char>, k: usize, key: Key) -> (r: (Vec<char>, usize, LineKey))
    requires
        k <= v@.len(),
        v@.len() + 1 <= usize::MAX,
    ensures
        (r.0@, r.1 as int, r.2) == line_after(v@, k as int, key),
{
    let ghost s = v@;
    let ctrl = has_ctrl_or_cmd(&key);
    match key.code {
        KeyCode::Esc => (v, k, LineKey::Cancel),
        KeyCode::Enter => (v, k, LineKey::Confirm),
        KeyCode::Backspace => {
            if k > 0 {
                let mut w = v;
                w.remove(k - 1);
                (w, k - 1, LineKey::Edited)
            } else {
                (v, k, LineKey::Edited)
            }
        },
        KeyCode::Delete => {
            if k < v.len() {
                let mut w = v;
                w.remove(k);
                (w, k, LineKey::Edited)
            } else {
                (v, k, LineKey::Ignored)
            }
        },
        KeyCode::Left => {
            let nk = if k > 0 { k - 1 } else { k };
            (v, nk, LineKey::Edited)
        },
        KeyCode::Right => {
            let nk = if k < v.len() { k + 1 } else { k };
            (v, nk, LineKey::Edited)
        },
        KeyCode::Home => (v, 0, LineKey::Edited),
        KeyCode::End => {
            let n = v.len();
            (v, n, LineKey::Edited)
        },
        KeyCode::Char(c) => {
            if ctrl && c == 'u' {
                let e: Vec<char> = Vec::new();
                assert(e@ =~= Seq::<char>::empty());
                (e, 0, LineKey::Edited)
            } else if ctrl && c == 'a' {
                (v, 0, LineKey::Edited)
            } else if ctrl && c == 'e' {
                let n = v.len();
                (v, n, LineKey::Edited)
            } else {
                let mut w = v;
                w.insert(k, c);
                (w, k + 1, LineKey::Edited)
            }
        },
        _ => (v, k, LineKey::Ignored),
    }
}

/// UTF-8 width of a character.
pub fn char_width(c: char) -> (w: usize)
    ensures
        w == encode_scalar(c as u32).len(),
        1 <= w <= 4,
{
    let v = c as u32;
    if v <= 0x7F {
        1
    } else if v <= 0x7FF {
        2
    } else if v <= 0xFFFF && !(0xD800 <= v && v <= 0xDFFF) {
        3
    } else {
        4
    }
}

/// Byte length of the first `k` characters of `v`.
fn prefix_bytes(v: &Vec<char>, k: usize, limit: usize) -> (n: usize)
    requires
        k <= v@.len(),
        byte_len(v@) <= limit,
    ensures
        n == byte_len(v@.take(k as int)),
{
    let mut n: usize = 0;
    let mut i: usize = 0;
    assert(v@.take(0) =~= Seq::<char>::empty());
    while i < k
        invariant
            i <= k <= v@.len(),
            byte_len(v@) <= limit,
            n == byte_len(v@.take(i as int)),
        decreases k - i,
    {
        proof {
            lemma_byte_len_step(v@, i as int);
            if i + 1 < v@.len() {
                lemma_byte_len_mono(v@, i + 1, v@.len() as int);
            }
            assert(v@.take(v@.len() as int) =~= v@);
        }
        n = n + char_width(v[i]);
        i += 1;
    }
    n
}

/// Index of the character boundary at byte offset `b` of `v`.
fn boundary_of(v: &Vec<char>, b: usize) -> (k: usize)
    requires
        char_index(v@, b as int) >= 0,
    ensures
        k == char_index(v@, b as int),
        byte_len(v@.take(k as int)) == b,
{
    let ghost kk = char_index(v@, b as int);
    proof {
        lemma_char_index_spec(v@, b as int);
    }
    let mut n: usize = 0;
    let mut i: usize = 0;
    let vlen = v.len();
    assert(v@.take(0) =~= Seq::<char>::empty());
    while n < b
        invariant
            vlen == v@.len(),
            0 <= kk <= v@.len(),
            byte_len(v@.take(kk)) == b,
            i <= kk,
            n == byte_len(v@.take(i as int)),
        decreases kk - i,
    {
        proof {
            if i == kk {
                assert(false);
            }
            lemma_byte_len_step(v@, i as int);
            if i + 1 < kk {
                lemma_byte_len_mono(v@, i + 1, kk);
            }
        }
        n = n + char_width(v[i]);
        i += 1;
    }
    proof {
        if i < kk {
            lemma_byte_len_mono(v@, i as int, kk);
        }
        lemma_char_index(v@, i as int);
    }
    i
}

/// A boundary index is within the text and ends a prefix of that many bytes.
pub proof fn lemma_char_index_spec(s: Seq<char>, b: int)
    requires
        char_index(s, b) >= 0,
    ensures
        char_index(s, b) <= s.len(),
        byte_len(s.take(char_index(s, b))) == b,
    decreases s.len(),
{
    assert(s.take(s.len() as int) =~= s);
    if byte_len(s) != b {
        let d = s.drop_last();
        lemma_char_index_spec(d, b);
        assert(d.take(char_index(d, b)) =~= s.take(char_index(d, b)));
    }
}

impl LineInput {
    /// The cursor as a character index.
    pub open spec fn char_pos(&self) -> int {
        char_index(self.buffer@, self.cursor as int)
    }

    /// An empty buffer.
    pub fn new() -> (l: Self)
        ensures
            l.buffer@ == Seq::<char>::empty(),
            l.cursor == 0,
            line_ok(l.buffer@, l.cursor),
    {
        let l = LineInput { buffer: String::new(), cursor: 0 };
        assert(l.buffer@.take(0) =~= l.buffer@);
        l
    }

    /// A buffer holding `initial`, the cursor at its end.
    pub fn with_initial(initial: &str) -> (l: Self)
        requires
            has_room(initial@),
        ensures
            l.buffer@ == initial@,
            l.cursor == byte_len(initial@),
            l.char_pos() == initial@.len(),
            line_ok(l.buffer@, l.cursor),
    {
        let v = chars_of(initial);
        let n = prefix_bytes(&v, v.len(), usize::MAX);
        proof {
            assert(v@.take(v@.len() as int) =~= v@);
            lemma_char_index(v@, v@.len() as int);
        }
        LineInput { buffer: string_from_chars(v.as_slice()), cursor: n }
    }

    /// React to one key (see [`line_after`]): Esc cancels, Enter
    /// confirms, Backspace and Delete remove the character before and
    /// after the cursor, Left/Right/Home/End move it, Ctrl-U clears,
    /// Ctrl-A and Ctrl-E jump to the ends, any other character is
    /// inserted at the cursor.
    pub fn handle_key(&mut self, key: Key) -> (r: LineKey)
        requires
            line_ok(old(self).buffer@, old(self).cursor),
            has_room(old(self).buffer@),
        ensures
            ({
                let (s2, k2, r2) = line_after(old(self).buffer@, old(self).char_pos(), key);
                &&& final(self).buffer@ == s2
                &&& final(self).cursor == byte_len(s2.take(k2))
                &&& r == r2
            }),
            line_ok(final(self).buffer@, final(self).cursor),
            final(self).char_pos() == line_after(old(self).buffer@, old(self).char_pos(), key).1,
    {
        let v = chars_of(self.buffer.as_str());
        let k = boundary_of(&v, self.cursor);
        let ghost s = v@;
        proof {
            lemma_char_index_spec(s, self.cursor as int);
            lemma_len_le_bytes(s);
            lemma_line_after_bytes(s, k as int, key);
        }
        let (nv, nk, r) = edit_chars(v, k, key);
        let nb = prefix_bytes(&nv, nk, usize::MAX);
        proof {
            lemma_char_index(nv@, nk as int);
        }
        self.buffer = string_from_chars(nv.as_slice());
        self.cursor = nb;
        r
    }

    /// The text without leading and trailing whitespace.
    pub fn trimmed(&self) -> (t: String)
        ensures
            t@ == trim(self.buffer@),
    {
        let v = chars_of(self.buffer.as_str());
        let mut a: usize = 0;
        while a < v.len() && char_is_whitespace(v[a])
            invariant
                a <= v@.len(),
                lead_ws(v@, 0) == lead_ws(v@, a as int),
            decreases v.len() - a,
        {
            a += 1;
        }
        let mut b: usize = v.len();
        while b > 0 && char_is_whitespace(v[b - 1])
            invariant
                b <= v@.len(),
                trail_end(v@, v@.len() as int) == trail_end(v@, b as int),
            decreases b,
        {
            b -= 1;
        }
        let mut w: Vec<char> = Vec::new();
        let mut i: usize = a;
        while i < b
            invariant
                a <= i <= b || (b < a && i == a),
                b <= v@.len(),
                a < b ==> w@ == v@.subrange(a as int, i as int),
                a >= b ==> w@.len() == 0,
            decreases b - i,
        {
            w.push(v[i]);
            i += 1;
        }
        string_from_chars(w.as_slice())
    }
}

} // verus!
