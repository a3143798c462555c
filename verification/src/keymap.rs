//! Keymaps: one table per mode mapping a key to the mode's action plus the
//! help text for that binding. Dispatch ([`lookup`]) and the help overlay
//! ([`help_rows`]) read the same table, so a binding is defined once.

use vstd::prelude::*;

use crate::key::KeyCode;

pub mod board_selector;
pub mod card_detail;
pub mod normal;

verus! {

/// One binding: a key (with a required Shift state, or any) to an action,
/// with the help overlay's text.
#[derive(Clone, Copy)]
pub struct Binding<A> {
    pub code: KeyCode,
    /// `Some(_)` to require a Shift state (arrow keys); `None` for
    /// character keys, where case already encodes Shift.
    pub shift: Option<bool>,
    pub action: A,
    /// Key display in the help overlay; bindings that share a help row
    /// use the same text.
    pub keys: &'static str,
    pub help: &'static str,
    pub section: &'static str,
}

/// The binding reacts to `code` pressed with Shift in state `shift`.
pub open spec fn binds<A>(b: Binding<A>, code: KeyCode, shift: bool) -> bool {
    &&& b.code == code
    &&& match b.shift {
        Some(s) => s == shift,
        None => true,
    }
}

/// Index of the first binding of `map` that reacts to the key, or -1.
pub open spec fn first_binding<A>(map: Seq<Binding<A>>, code: KeyCode, shift: bool) -> int
    decreases map.len(),
{
    if map.len() == 0 {
        -1
    } else {
        let r = first_binding(map.drop_last(), code, shift);
        if r >= 0 {
            r
        } else if binds(map.last(), code, shift) {
            map.len() - 1
        } else {
            -1
        }
    }
}

proof fn lemma_first_binding<A>(map: Seq<Binding<A>>, code: KeyCode, shift: bool)
    ensures
        -1 <= first_binding(map, code, shift) < map.len(),
        first_binding(map, code, shift) >= 0 ==> binds(map[first_binding(map, code, shift)], code, shift),
        first_binding(map, code, shift) >= 0 ==> forall|k: int|
            0 <= k < first_binding(map, code, shift) ==> !binds(#[trigger] map[k], code, shift),
        first_binding(map, code, shift) < 0 ==> forall|k: int| 0 <= k < map.len() ==> !binds(#[trigger] map[k], code, shift),
    decreases map.len(),
{
    if map.len() > 0 {
        let d = map.drop_last();
        lemma_first_binding(d, code, shift);
        assert forall|k: int| 0 <= k < d.len() implies d[k] == map[k] by {}
    }
}

/// No two bindings of the table react to the same key press.
pub open spec fn conflict_free<A>(map: Seq<Binding<A>>) -> bool {
    forall|i: int, j: int|
        0 <= i < j < map.len() ==> !(#[trigger] map[i].code == #[trigger] map[j].code && (map[i].shift is None
            || map[j].shift is None || map[i].shift == map[j].shift))
}

/// The action bound to the key: the first binding that reacts to it.
pub fn lookup<A: Copy>(map: &[Binding<A>], code: KeyCode, shift: bool) -> (r: Option<A>)
    ensures
        match r {
            Some(a) => first_binding(map@, code, shift) >= 0 && a == map@[first_binding(map@, code, shift)].action,
            None => first_binding(map@, code, shift) < 0,
        },
{
    proof {
        lemma_first_binding(map@, code, shift);
    }
    let mut i: usize = 0;
    while i < map.len()
        invariant
            i <= map@.len(),
            forall|k: int| 0 <= k < i ==> !binds(#[trigger] map@[k], code, shift),
        decreases map.len() - i,
    {
        let b = &map[i];
        let reacts = b.code == code && match b.shift {
            Some(s) => s == shift,
            None => true,
        };
        if reacts {
            proof {
                lemma_first_binding(map@, code, shift);
                let f = first_binding(map@, code, shift);
                if f != i {
                    assert(binds(map@[f], code, shift));
                }
            }
            return Some(b.action);
        }
        i += 1;
    }
    None
}

/// The help rows of a section among the first `n` bindings: each binding's
/// `(keys, help)` in table order, a row that is already there skipped.
pub open spec fn rows_of<A>(map: Seq<Binding<A>>, section: Seq<char>, n: int) -> Seq<(Seq<char>, Seq<char>)>
    decreases n,
{
    if n <= 0 {
        seq![]
    } else {
        let rest = rows_of(map, section, n - 1);
        let b = map[n - 1];
        if b.section@ == section && !rest.contains((b.keys@, b.help@)) {
            rest.push((b.keys@, b.help@))
        } else {
            rest
        }
    }
}

/// The help rows of `section`, in table order, each row once (for example
/// `Up / Down` once though Up and Down are two bindings).
pub fn help_rows<A>(map: &[Binding<A>], section: &str) -> (rows: Vec<(&'static str, &'static str)>)
    ensures
        rows@.map_values(|r: (&'static str, &'static str)| (r.0@, r.1@)) == rows_of(map@, section@, map@.len() as int),
{
    let mut rows: Vec<(&'static str, &'static str)> = Vec::new();
    for i in 0..map.len()
        invariant
            rows@.map_values(|r: (&'static str, &'static str)| (r.0@, r.1@)) == rows_of(map@, section@, i as int),
    {
        let b = &map[i];
        let ghost before = rows_of(map@, section@, i as int);
        if crate::text::same_text(b.section, section) {
            let mut seen = false;
            let mut j: usize = 0;
            while j < rows.len()
                invariant
                    j <= rows@.len(),
                    rows@.map_values(|r: (&'static str, &'static str)| (r.0@, r.1@)) == before,
                    seen == exists|k: int| 0 <= k < j && before[k] == (b.keys@, b.help@),
                decreases rows.len() - j,
            {
                let (k, h) = rows[j];
                if crate::text::same_text(k, b.keys) && crate::text::same_text(h, b.help) {
                    seen = true;
                }
                proof {
                    assert(before[j as int] == (k@, h@));
                    if seen {
                        if !(exists|m: int| 0 <= m < j && before[m] == (b.keys@, b.help@)) {
                            assert(before[j as int] == (b.keys@, b.help@));
                        }
                    }
                }
                j += 1;
            }
            proof {
                if before.contains((b.keys@, b.help@)) {
                    let m = choose|m: int| 0 <= m < before.len() && before[m] == (b.keys@, b.help@);
                    assert(0 <= m < j && before[m] == (b.keys@, b.help@));
                }
            }
            if !seen {
                rows.push((b.keys, b.help));
                proof {
                    assert(rows@.map_values(|r: (&'static str, &'static str)| (r.0@, r.1@)) =~= before.push((b.keys@, b.help@)));
                }
            }
        }
    }
    rows
}

} // verus!
