//! Command-line argument handling: flag lookup, resolving names and ids
//! given on the command line, and choosing the subcommand. Running the
//! subcommands (reading and writing boards, printing) is the caller's
//! part.

use vstd::prelude::*;

use crate::board_editor::index_of;
use crate::model::board::BoardMeta;
use crate::model::card::{count_done, Card};
use crate::model::ids::ShortId;
use crate::model::label::{Label, LabelColor};
use crate::model::list::CardList;
use crate::text::{chars_of, concat3, contains_ci, decimal, owned, push_decimal, push_str, same_text, to_lowercase};

verus! {

/// Whether `flag` is among the arguments.
pub fn has_flag(args: &Vec<String>, flag: &str) -> (b: bool)
    ensures
        b == exists|i: int| 0 <= i < args@.len() && (#[trigger] args@[i])@ == flag@,
{
    let mut i: usize = 0;
    while i < args.len()
        invariant
            i <= args@.len(),
            forall|k: int| 0 <= k < i ==> (#[trigger] args@[k])@ != flag@,
        decreases args.len() - i,
    {
        if same_text(args[i].as_str(), flag) {
            return true;
        }
        i += 1;
    }
    false
}

/// Index of the first argument equal to `flag` that is followed by at
/// least `n` more arguments, or -1.
pub open spec fn flag_at(args: Seq<String>, flag: Seq<char>, n: nat) -> int
    decreases args.len(),
{
    if args.len() <= n {
        -1
    } else {
        let r = flag_at(args.drop_last(), flag, n);
        let i = args.len() - 1 - n;
        if r >= 0 {
            r
        } else if args[i]@ == flag {
            i
        } else {
            -1
        }
    }
}

proof fn lemma_flag_at(args: Seq<String>, flag: Seq<char>, n: nat)
    requires
        n >= 1,
    ensures
        -1 <= flag_at(args, flag, n),
        flag_at(args, flag, n) >= 0 ==> flag_at(args, flag, n) + n < args.len(),
        flag_at(args, flag, n) >= 0 ==> args[flag_at(args, flag, n)]@ == flag,
        flag_at(args, flag, n) >= 0 ==> forall|k: int| 0 <= k < flag_at(args, flag, n) ==> args[k]@ != flag,
        flag_at(args, flag, n) < 0 ==> forall|k: int| 0 <= k < args.len() - n ==> args[k]@ != flag,
    decreases args.len(),
{
    if args.len() > n {
        let d = args.drop_last();
        lemma_flag_at(d, flag, n);
        assert forall|k: int| 0 <= k < d.len() implies d[k] == args[k] by {}
    }
}

/// Position of the first `flag` followed by `n` more arguments.
fn find_flag(args: &Vec<String>, flag: &str, n: usize) -> (r: Option<usize>)
    requires
        1 <= n <= 2,
    ensures
        match r {
            Some(i) => i == flag_at(args@, flag@, n as nat) && i + n < args@.len(),
            None => flag_at(args@, flag@, n as nat) < 0,
        },
{
    proof {
        lemma_flag_at(args@, flag@, n as nat);
    }
    if args.len() <= n {
        return None;
    }
    let last = args.len() - n;
    let mut i: usize = 0;
    while i < last
        invariant
            1 <= n <= 2,
            last + n == args@.len(),
            i <= last,
            forall|k: int| 0 <= k < i ==> args@[k]@ != flag@,
        decreases last - i,
    {
        if same_text(args[i].as_str(), flag) {
            proof {
                lemma_flag_at(args@, flag@, n as nat);
                let f = flag_at(args@, flag@, n as nat);
                if f >= 0 && f != i {
                    assert(args@[f]@ == flag@);
                }
            }
            return Some(i);
        }
        i += 1;
    }
    proof {
        lemma_flag_at(args@, flag@, n as nat);
        let f = flag_at(args@, flag@, n as nat);
        if f >= 0 {
            assert(args@[f]@ == flag@);
        }
    }
    None
}

/// The argument after the first `flag` that has one.
pub fn flag_value(args: &Vec<String>, flag: &str) -> (v: Option<String>)
    ensures
        match v {
            Some(s) => flag_at(args@, flag@, 1) >= 0 && s == args@[flag_at(args@, flag@, 1) + 1],
            None => flag_at(args@, flag@, 1) < 0,
        },
{
    let len = args.len();
    match find_flag(args, flag, 1) {
        Some(i) => Some(args[i + 1].clone()),
        None => None,
    }
}

/// The two arguments after the first `flag` that has two.
pub fn flag_values2(args: &Vec<String>, flag: &str) -> (v: Option<(String, String)>)
    ensures
        match v {
            Some((a, b)) => {
                let i = flag_at(args@, flag@, 2);
                &&& i >= 0
                &&& a == args@[i + 1]
                &&& b == args@[i + 2]
            },
            None => flag_at(args@, flag@, 2) < 0,
        },
{
    let len = args.len();
    match find_flag(args, flag, 2) {
        Some(i) => Some((args[i + 1].clone(), args[i + 2].clone())),
        None => None,
    }
}

/// The arguments following each occurrence of `flag` (the last argument
/// has none).
pub open spec fn values_of(args: Seq<String>, flag: Seq<char>) -> Seq<Seq<char>>
    decreases args.len(),
{
    if args.len() < 2 {
        seq![]
    } else {
        let rest = values_of(args.drop_last(), flag);
        if args[args.len() - 2]@ == flag {
            rest.push(args.last()@)
        } else {
            rest
        }
    }
}

/// Every argument that follows `flag`, in order.
pub fn flag_values_all(args: &Vec<String>, flag: &str) -> (v: Vec<String>)
    ensures
        v@.map_values(|s: String| s@) == values_of(args@, flag@),
{
    let mut v: Vec<String> = Vec::new();
    let mut j: usize = 1;
    assert(args@.take(1).len() < 2 ==> values_of(args@.take(1), flag@) =~= seq![]);
    if args.len() < 2 {
        assert(values_of(args@, flag@) =~= seq![]);
        return v;
    }
    while j < args.len()
        invariant
            1 <= j <= args@.len(),
            v@.map_values(|s: String| s@) == values_of(args@.take(j as int), flag@),
        decreases args.len() - j,
    {
        proof {
            assert(args@.take(j + 1).drop_last() =~= args@.take(j as int));
        }
        if same_text(args[j - 1].as_str(), flag) {
            v.push(args[j].clone());
        }
        assert(v@.map_values(|s: String| s@) =~= values_of(args@.take(j + 1), flag@));
        j += 1;
    }
    assert(args@.take(args.len() as int) =~= args@);
    v
}

/// Number of ids among `card_ids` that name a card that is not archived.
pub open spec fn active_count(card_ids: Seq<ShortId>, cards: Seq<Card>) -> nat
    decreases card_ids.len(),
{
    if card_ids.len() == 0 {
        0
    } else {
        let k = index_of(cards, card_ids.last()@);
        active_count(card_ids.drop_last(), cards) + if k >= 0 && !cards[k].archived { 1nat } else { 0nat }
    }
}

/// How many of `card_ids` name an active (not archived) card.
pub fn count_active(card_ids: &Vec<ShortId>, cards: &Vec<Card>) -> (n: usize)
    ensures
        n == active_count(card_ids@, cards@),
{
    let mut n: usize = 0;
    for i in 0..card_ids.len()
        invariant
            n == active_count(card_ids@.take(i as int), cards@),
            n <= i,
    {
        assert(card_ids@.take(i + 1).drop_last() =~= card_ids@.take(i as int));
        match crate::board_editor::find_card(cards, card_ids[i].as_str()) {
            Some(k) => {
                if !cards[k].archived {
                    n += 1;
                }
            },
            None => {},
        }
    }
    assert(card_ids@.take(card_ids.len() as int) =~= card_ids@);
    n
}

/// The checklist progress the CLI prints: `done/total`, or `no items`.
pub fn fmt_progress(card: &Card) -> (s: String)
    ensures
        s@ == if card.checklist@.len() == 0 {
            "no items"@
        } else {
            decimal(count_done(card.checklist@)) + "/"@ + decimal(card.checklist@.len())
        },
{
    match card.checklist_progress() {
        None => owned("no items"),
        Some((done, total)) => {
            let mut s = String::new();
            push_decimal(&mut s, done);
            push_str(&mut s, "/");
            push_decimal(&mut s, total);
            s
        },
    }
}

/// An entry a name or id on the command line may resolve to.
pub struct Entry {
    pub id: ShortId,
    pub name: String,
}

/// Indices of the entries whose name contains `partial`, ignoring case.
pub open spec fn name_matches(entries: Seq<Entry>, partial: Seq<char>) -> Seq<int>
    decreases entries.len(),
{
    if entries.len() == 0 {
        seq![]
    } else {
        let rest = name_matches(entries.drop_last(), partial);
        if contains_ci(entries.last().name@, partial) {
            rest.push(entries.len() - 1)
        } else {
            rest
        }
    }
}

/// Index of the first entry whose id is `partial`, or -1.
pub open spec fn id_match(entries: Seq<Entry>, partial: Seq<char>) -> int
    decreases entries.len(),
{
    if entries.len() == 0 {
        -1
    } else {
        let r = id_match(entries.drop_last(), partial);
        if r >= 0 {
            r
        } else if entries.last().id@ == partial {
            entries.len() - 1
        } else {
            -1
        }
    }
}

/// `name [id]` of each matched entry, joined with `, `.
pub open spec fn described(entries: Seq<Entry>, m: Seq<int>) -> Seq<char>
    decreases m.len(),
{
    if m.len() == 0 {
        seq![]
    } else {
        let e = entries[m.last()];
        let d = e.name@ + " ["@ + e.id@ + "]"@;
        if m.len() == 1 {
            d
        } else {
            described(entries, m.drop_last()) + ", "@ + d
        }
    }
}

/// What resolving `partial` among `entries` gives: by id, the first entry
/// with that id; by name, the only entry whose name contains it (ignoring
/// case). Otherwise the error message: no entry, or (by name) all the
/// candidates.
pub open spec fn resolved(entries: Seq<Entry>, partial: Seq<char>, by_id: bool, entity: Seq<char>, r: Result<usize, String>) -> bool {
    if by_id {
        let i = id_match(entries, partial);
        if i >= 0 {
            r matches Ok(k) && k == i
        } else {
            r matches Err(msg) && msg@ == "No "@ + entity + " with ID '"@ + partial + "'."@
        }
    } else {
        let m = name_matches(entries, partial);
        if m.len() == 1 {
            r matches Ok(k) && k == m[0]
        } else if m.len() == 0 {
            r matches Err(msg) && msg@ == "No "@ + entity + " matches '"@ + partial + "'."@
        } else {
            r matches Err(msg) && msg@ == "Multiple "@ + entity + "s match '"@ + partial + "': "@ + described(entries, m) + "."@
        }
    }
}

proof fn lemma_id_match(entries: Seq<Entry>, partial: Seq<char>)
    ensures
        -1 <= id_match(entries, partial) < entries.len(),
        id_match(entries, partial) >= 0 ==> entries[id_match(entries, partial)].id@ == partial,
        id_match(entries, partial) >= 0 ==> forall|k: int| 0 <= k < id_match(entries, partial) ==> entries[k].id@ != partial,
        id_match(entries, partial) < 0 ==> forall|k: int| 0 <= k < entries.len() ==> entries[k].id@ != partial,
    decreases entries.len(),
{
    if entries.len() > 0 {
        let d = entries.drop_last();
        lemma_id_match(d, partial);
        assert forall|k: int| 0 <= k < d.len() implies d[k] == entries[k] by {}
    }
}

proof fn lemma_name_matches(entries: Seq<Entry>, partial: Seq<char>)
    ensures
        forall|a: int| 0 <= a < name_matches(entries, partial).len() ==> 0 <= #[trigger] name_matches(entries, partial)[a] < entries.len(),
    decreases entries.len(),
{
    if entries.len() > 0 {
        let d = entries.drop_last();
        lemma_name_matches(d, partial);
        let rest = name_matches(d, partial);
        assert forall|a: int| 0 <= a < name_matches(entries, partial).len() implies 0 <= #[trigger] name_matches(entries, partial)[a] < entries.len() by {
            if a < rest.len() {
                assert(name_matches(entries, partial)[a] == rest[a]);
            }
        }
    }
}

/// The indices as integers.
pub open spec fn as_ints(v: Seq<usize>) -> Seq<int> {
    v.map_values(|x: usize| x as int)
}

/// Resolve `partial` among `entries` (see [`resolved`]).
pub fn resolve_one(entries: &Vec<Entry>, partial: &str, by_id: bool, entity: &str) -> (r: Result<usize, String>)
    ensures
        resolved(entries@, partial@, by_id, entity@, r),
        r is Ok ==> r->Ok_0 < entries@.len(),
{
    if by_id {
        proof {
            lemma_id_match(entries@, partial@);
        }
        let mut i: usize = 0;
        while i < entries.len()
            invariant
                by_id,
                i <= entries@.len(),
                forall|k: int| 0 <= k < i ==> entries@[k].id@ != partial@,
            decreases entries.len() - i,
        {
            if same_text(entries[i].id.as_str(), partial) {
                proof {
                    lemma_id_match(entries@, partial@);
                    assert(entries@[i as int].id@ == partial@);
                    let f = id_match(entries@, partial@);
                    if f >= 0 && f != i {
                        assert(entries@[f].id@ == partial@);
                    }
                }
                return Ok(i);
            }
            i += 1;
        }
        let mut msg = concat3("No ", entity, " with ID '");
        push_str(&mut msg, partial);
        push_str(&mut msg, "'.");
        return Err(msg);
    }
    let q = chars_of(to_lowercase(partial).as_str());
    let mut m: Vec<usize> = Vec::new();
    let mut desc = String::new();
    for i in 0..entries.len()
        invariant
            as_ints(m@) == name_matches(entries@.take(i as int), partial@),
            q@ == crate::text::lowercase(partial@),
            desc@ == described(entries@, name_matches(entries@.take(i as int), partial@)),
            forall|a: int| 0 <= a < m@.len() ==> m@[a] < i,
    {
        proof {
            assert(entries@.take(i + 1).drop_last() =~= entries@.take(i as int));
            assert(entries@.take(i + 1).last() == entries@[i as int]);
        }
        let ghost before = name_matches(entries@.take(i as int), partial@);
        if crate::model::card::contains_ignore_case(entries[i].name.as_str(), &q) {
            if m.len() > 0 {
                push_str(&mut desc, ", ");
            }
            push_str(&mut desc, entries[i].name.as_str());
            push_str(&mut desc, " [");
            push_str(&mut desc, entries[i].id.as_str());
            push_str(&mut desc, "]");
            m.push(i);
            proof {
                let now = before.push(i as int);
                assert(now.drop_last() =~= before);
                assert(as_ints(m@) =~= now);
            }
        }
        proof {
            assert forall|a: int| 0 <= a < m@.len() implies m@[a] < i + 1 by {}
        }
    }
    proof {
        assert(entries@.take(entries.len() as int) =~= entries@);
        assert(m@.len() == name_matches(entries@, partial@).len());
    }
    if m.len() == 1 {
        assert(as_ints(m@)[0] == m@[0] as int);
        return Ok(m[0]);
    }
    if m.len() == 0 {
        let mut msg = concat3("No ", entity, " matches '");
        push_str(&mut msg, partial);
        push_str(&mut msg, "'.");
        return Err(msg);
    }
    let mut msg = concat3("Multiple ", entity, "s match '");
    push_str(&mut msg, partial);
    push_str(&mut msg, "': ");
    push_str(&mut msg, desc.as_str());
    push_str(&mut msg, ".");
    Err(msg)
}

/// The boards as entries (id, name).
pub open spec fn board_entries(boards: Seq<BoardMeta>) -> Seq<Entry> {
    Seq::new(boards.len(), |i: int| Entry { id: boards[i].id, name: boards[i].name })
}

fn entries_of_boards(boards: &Vec<BoardMeta>) -> (e: Vec<Entry>)
    ensures
        e@ == board_entries(boards@),
{
    let mut e: Vec<Entry> = Vec::new();
    for i in 0..boards.len()
        invariant
            e@ == board_entries(boards@).take(i as int),
    {
        e.push(Entry { id: boards[i].id.clone(), name: boards[i].name.clone() });
        assert(e@ =~= board_entries(boards@).take(i + 1));
    }
    assert(board_entries(boards@).take(boards.len() as int) =~= board_entries(boards@));
    e
}

/// Find a board among `boards` (the active boards, in display order) by
/// id or name.
pub fn find_board(boards: &Vec<BoardMeta>, partial: &str, by_id: bool) -> (r: Result<usize, String>)
    ensures
        resolved(board_entries(boards@), partial@, by_id, "active board"@, r),
        r is Ok ==> r->Ok_0 < boards@.len(),
{
    let e = entries_of_boards(boards);
    resolve_one(&e, partial, by_id, "active board")
}

/// Find an archived board among `boards` by id or name.
pub fn find_archived_board(boards: &Vec<BoardMeta>, partial: &str, by_id: bool) -> (r: Result<usize, String>)
    ensures
        resolved(board_entries(boards@), partial@, by_id, "archived board"@, r),
        r is Ok ==> r->Ok_0 < boards@.len(),
{
    let e = entries_of_boards(boards);
    resolve_one(&e, partial, by_id, "archived board")
}

/// The lists as entries.
pub open spec fn list_entries(lists: Seq<CardList>) -> Seq<Entry> {
    Seq::new(lists.len(), |i: int| Entry { id: lists[i].id, name: lists[i].name })
}

/// Find a list by id or name.
pub fn find_list(lists: &Vec<CardList>, partial: &str, by_id: bool) -> (r: Result<usize, String>)
    ensures
        resolved(list_entries(lists@), partial@, by_id, "list"@, r),
        r is Ok ==> r->Ok_0 < lists@.len(),
{
    let mut e: Vec<Entry> = Vec::new();
    for i in 0..lists.len()
        invariant
            e@ == list_entries(lists@).take(i as int),
    {
        e.push(Entry { id: lists[i].id.clone(), name: lists[i].name.clone() });
        assert(e@ =~= list_entries(lists@).take(i + 1));
    }
    assert(list_entries(lists@).take(lists.len() as int) =~= list_entries(lists@));
    resolve_one(&e, partial, by_id, "list")
}

/// The labels as entries.
pub open spec fn label_entries(labels: Seq<Label>) -> Seq<Entry> {
    Seq::new(labels.len(), |i: int| Entry { id: labels[i].id, name: labels[i].name })
}

/// Find a label by id or name.
pub fn find_label(labels: &Vec<Label>, partial: &str, by_id: bool) -> (r: Result<usize, String>)
    ensures
        resolved(label_entries(labels@), partial@, by_id, "label"@, r),
        r is Ok ==> r->Ok_0 < labels@.len(),
{
    let mut e: Vec<Entry> = Vec::new();
    for i in 0..labels.len()
        invariant
            e@ == label_entries(labels@).take(i as int),
    {
        e.push(Entry { id: labels[i].id.clone(), name: labels[i].name.clone() });
        assert(e@ =~= label_entries(labels@).take(i + 1));
    }
    assert(label_entries(labels@).take(labels.len() as int) =~= label_entries(labels@));
    resolve_one(&e, partial, by_id, "label")
}

/// Index of the first `--board` argument, or -1.
pub open spec fn board_flag_at(args: Seq<String>) -> int
    decreases args.len(),
{
    if args.len() == 0 {
        -1
    } else {
        let r = board_flag_at(args.drop_last());
        if r >= 0 {
            r
        } else if args.last()@ == "--board"@ {
            args.len() - 1
        } else {
            -1
        }
    }
}

proof fn lemma_board_flag_at(args: Seq<String>)
    ensures
        -1 <= board_flag_at(args) < args.len(),
        board_flag_at(args) >= 0 ==> args[board_flag_at(args)]@ == "--board"@,
        board_flag_at(args) >= 0 ==> forall|k: int| 0 <= k < board_flag_at(args) ==> args[k]@ != "--board"@,
        board_flag_at(args) < 0 ==> forall|k: int| 0 <= k < args.len() ==> args[k]@ != "--board"@,
    decreases args.len(),
{
    if args.len() > 0 {
        let d = args.drop_last();
        lemma_board_flag_at(d);
        assert forall|k: int| 0 <= k < d.len() implies d[k] == args[k] by {}
    }
}

/// The board `--board <name>` names, resolved among the active boards
/// `boards`: `None` without the flag; an error when the flag has no
/// argument or the name does not resolve to one board.
pub fn resolve_board_flag(args: &Vec<String>, boards: &Vec<BoardMeta>) -> (r: Result<Option<ShortId>, String>)
    ensures
        ({
            let i = board_flag_at(args@);
            if i < 0 {
                r == Ok::<Option<ShortId>, String>(None)
            } else if i + 1 >= args@.len() {
                r matches Err(msg) && msg@ == "--board requires a board name argument"@
            } else {
                exists|res: Result<usize, String>| #[trigger] resolved(board_entries(boards@), args@[i + 1]@, false, "active board"@, res)
                    && match res {
                    Ok(k) => r == Ok::<Option<ShortId>, String>(Some(boards@[k as int].id)),
                    Err(msg) => r matches Err(m2) && m2@ == msg@,
                }
            }
        }),
{
    proof {
        lemma_board_flag_at(args@);
    }
    let mut i: usize = 0;
    while i < args.len()
        invariant
            i <= args@.len(),
            forall|k: int| 0 <= k < i ==> args@[k]@ != "--board"@,
        decreases args.len() - i,
    {
        if same_text(args[i].as_str(), "--board") {
            proof {
                lemma_board_flag_at(args@);
                let f = board_flag_at(args@);
                if f >= 0 && f != i {
                    assert(args@[f]@ == "--board"@);
                }
            }
            if i + 1 < args.len() {
                let res = find_board(boards, args[i + 1].as_str(), false);
                return match res {
                    Ok(k) => Ok(Some(boards[k].id.clone())),
                    Err(msg) => Err(msg),
                };
            } else {
                return Err(owned("--board requires a board name argument"));
            }
        }
        i += 1;
    }
    Ok(None)
}

/// The subcommands of the command line.
#[derive(Debug, Clone, Copy, PartialEq, Eq, Structural)]
pub enum Subcommand {
    Boards,
    Lists,
    Cards,
    Checklist,
    Labels,
    Search,
}

/// A subcommand to run, with its arguments and whether names are to be
/// matched as exact ids.
pub struct Invocation {
    pub command: Subcommand,
    pub args: Vec<String>,
    pub by_id: bool,
}

/// The subcommand a word names.
pub open spec fn subcommand_of(word: Seq<char>) -> Option<Subcommand> {
    if word == "boards"@ {
        Some(Subcommand::Boards)
    } else if word == "lists"@ {
        Some(Subcommand::Lists)
    } else if word == "cards"@ {
        Some(Subcommand::Cards)
    } else if word == "checklist"@ {
        Some(Subcommand::Checklist)
    } else if word == "labels"@ {
        Some(Subcommand::Labels)
    } else if word == "search"@ {
        Some(Subcommand::Search)
    } else {
        None
    }
}

/// The arguments other than `--by-id`.
pub open spec fn without_by_id(args: Seq<String>) -> Seq<Seq<char>> {
    args.map_values(|s: String| s@).filter(|s: Seq<char>| s != "--by-id"@)
}

/// Choose the subcommand: `--by-id` anywhere switches to id matching and
/// is dropped; the first remaining argument names the subcommand, the
/// rest are its arguments. An unknown word is an error.
pub fn run(args: &Vec<String>) -> (r: Result<Invocation, String>)
    requires
        without_by_id(args@).len() > 0,
    ensures
        ({
            let rest = without_by_id(args@);
            let by_id = exists|i: int| 0 <= i < args@.len() && (#[trigger] args@[i])@ == "--by-id"@;
            match subcommand_of(rest[0]) {
                Some(c) => r matches Ok(inv) && inv.command == c && inv.by_id == by_id
                    && inv.args@.map_values(|s: String| s@) == rest.drop_first(),
                None => r matches Err(msg) && msg@ == "Unknown command '"@ + rest[0] + "'. Run 'tct --help' for usage."@,
            }
        }),
{
    let by_id = has_flag(args, "--by-id");
    let mut kept: Vec<String> = Vec::new();
    let ghost f = |s: Seq<char>| s != "--by-id"@;
    let ghost views = args@.map_values(|s: String| s@);
    for i in 0..args.len()
        invariant
            f == (|s: Seq<char>| s != "--by-id"@),
            views == args@.map_values(|s: String| s@),
            kept@.map_values(|s: String| s@) == views.take(i as int).filter(f),
    {
        proof {
            reveal_with_fuel(Seq::<Seq<char>>::filter, 1);
            assert(views.take(i + 1).drop_last() =~= views.take(i as int));
        }
        if !same_text(args[i].as_str(), "--by-id") {
            kept.push(args[i].clone());
        }
        assert(kept@.map_values(|s: String| s@) =~= views.take(i + 1).filter(f));
    }
    assert(views.take(args.len() as int) =~= views);
    let ghost kv = kept@.map_values(|s: String| s@);
    assert(kv.len() > 0);
    assert(kept@[0]@ == kv[0]);
    let sub = kept.remove(0);
    proof {
        assert(kept@.map_values(|s: String| s@) =~= kv.drop_first());
        reveal_strlit("boards");
        reveal_strlit("lists");
        reveal_strlit("cards");
        reveal_strlit("checklist");
        reveal_strlit("labels");
        reveal_strlit("search");
    }
    let s = sub.as_str();
    let command = if same_text(s, "boards") {
        Subcommand::Boards
    } else if same_text(s, "lists") {
        Subcommand::Lists
    } else if same_text(s, "cards") {
        Subcommand::Cards
    } else if same_text(s, "checklist") {
        Subcommand::Checklist
    } else if same_text(s, "labels") {
        Subcommand::Labels
    } else if same_text(s, "search") {
        Subcommand::Search
    } else {
        let mut msg = concat3("Unknown command '", s, "'. Run 'tct --help' for usage.");
        return Err(msg);
    };
    Ok(Invocation { command, args: kept, by_id })
}

/// The cards as entries (id, title).
pub open spec fn card_entries(cards: Seq<Card>) -> Seq<Entry> {
    Seq::new(cards.len(), |i: int| Entry { id: cards[i].id, name: cards[i].title })
}

/// Find an archived card among `cards` (the board's archived cards) by id
/// or title.
pub fn find_archived_card(cards: &Vec<Card>, partial: &str, by_id: bool) -> (r: Result<usize, String>)
    ensures
        resolved(card_entries(cards@), partial@, by_id, "archived card"@, r),
        r is Ok ==> r->Ok_0 < cards@.len(),
{
    let mut e: Vec<Entry> = Vec::new();
    for i in 0..cards.len()
        invariant
            e@ == card_entries(cards@).take(i as int),
    {
        e.push(Entry { id: cards[i].id.clone(), name: cards[i].title.clone() });
        assert(e@ =~= card_entries(cards@).take(i + 1));
    }
    assert(card_entries(cards@).take(cards.len() as int) =~= card_entries(cards@));
    resolve_one(&e, partial, by_id, "archived card")
}

/// A card a card lookup accepts: shown (or archived ones allowed), and
/// with id `partial` (by id) or a title containing it ignoring case.
pub open spec fn card_hit(c: Card, partial: Seq<char>, include_archived: bool, by_id: bool) -> bool {
    &&& include_archived || !c.archived
    &&& if by_id {
        c.id@ == partial
    } else {
        contains_ci(c.title@, partial)
    }
}

/// The hits among the first `n` ids of the list at index `li`: pairs of
/// the list index and the card's index in `cards`.
pub open spec fn list_hits(
    li: int,
    ids: Seq<ShortId>,
    cards: Seq<Card>,
    partial: Seq<char>,
    include_archived: bool,
    by_id: bool,
    n: int,
) -> Seq<(int, int)>
    decreases n,
{
    if n <= 0 {
        seq![]
    } else {
        let rest = list_hits(li, ids, cards, partial, include_archived, by_id, n - 1);
        let k = index_of(cards, ids[n - 1]@);
        if k >= 0 && card_hit(cards[k], partial, include_archived, by_id) {
            rest.push((li, k))
        } else {
            rest
        }
    }
}

/// The hits in the first `n` lists, list by list, each in card order.
pub open spec fn all_hits(
    lists: Seq<CardList>,
    cards: Seq<Card>,
    partial: Seq<char>,
    include_archived: bool,
    by_id: bool,
    n: int,
) -> Seq<(int, int)>
    decreases n,
{
    if n <= 0 {
        seq![]
    } else {
        all_hits(lists, cards, partial, include_archived, by_id, n - 1) + list_hits(
            n - 1,
            lists[n - 1].card_ids@,
            cards,
            partial,
            include_archived,
            by_id,
            lists[n - 1].card_ids@.len() as int,
        )
    }
}

/// `title [id]` of each hit, joined with `, `.
pub open spec fn described_hits(cards: Seq<Card>, h: Seq<(int, int)>) -> Seq<char>
    decreases h.len(),
{
    if h.len() == 0 {
        seq![]
    } else {
        let c = cards[h.last().1];
        let d = c.title@ + " ["@ + c.id@ + "]"@;
        if h.len() == 1 {
            d
        } else {
            described_hits(cards, h.drop_last()) + ", "@ + d
        }
    }
}

proof fn lemma_list_hits(
    li: int,
    ids: Seq<ShortId>,
    cards: Seq<Card>,
    partial: Seq<char>,
    include_archived: bool,
    by_id: bool,
    n: int,
)
    requires
        n <= ids.len(),
    ensures
        forall|a: int|
            0 <= a < list_hits(li, ids, cards, partial, include_archived, by_id, n).len() ==> {
                let h = #[trigger] list_hits(li, ids, cards, partial, include_archived, by_id, n)[a];
                h.0 == li && 0 <= h.1 < cards.len()
            },
    decreases n,
{
    if n > 0 {
        lemma_list_hits(li, ids, cards, partial, include_archived, by_id, n - 1);
        crate::board_editor::lemma_index_of(cards, ids[n - 1]@);
        let rest = list_hits(li, ids, cards, partial, include_archived, by_id, n - 1);
        let all = list_hits(li, ids, cards, partial, include_archived, by_id, n);
        assert forall|a: int| 0 <= a < all.len() implies {
            let h = #[trigger] all[a];
            h.0 == li && 0 <= h.1 < cards.len()
        } by {
            if a < rest.len() {
                assert(all[a] == rest[a]);
            }
        }
    }
}

proof fn lemma_all_hits(lists: Seq<CardList>, cards: Seq<Card>, partial: Seq<char>, include_archived: bool, by_id: bool, n: int)
    requires
        n <= lists.len(),
    ensures
        forall|a: int|
            0 <= a < all_hits(lists, cards, partial, include_archived, by_id, n).len() ==> {
                let h = #[trigger] all_hits(lists, cards, partial, include_archived, by_id, n)[a];
                0 <= h.0 < n && 0 <= h.1 < cards.len()
            },
    decreases n,
{
    if n > 0 {
        lemma_all_hits(lists, cards, partial, include_archived, by_id, n - 1);
        let l = lists[n - 1];
        lemma_list_hits(n - 1, l.card_ids@, cards, partial, include_archived, by_id, l.card_ids@.len() as int);
        let a1 = all_hits(lists, cards, partial, include_archived, by_id, n - 1);
        let a2 = list_hits(n - 1, l.card_ids@, cards, partial, include_archived, by_id, l.card_ids@.len() as int);
        assert forall|a: int| 0 <= a < (a1 + a2).len() implies {
            let h = #[trigger] (a1 + a2)[a];
            0 <= h.0 < n && 0 <= h.1 < cards.len()
        } by {
            if a < a1.len() {
                assert((a1 + a2)[a] == a1[a]);
            } else {
                assert((a1 + a2)[a] == a2[a - a1.len()]);
            }
        }
    }
}

/// Leaving archived cards out changes nothing else: a card is a hit
/// without archived cards exactly when it is a hit with them and is not
/// archived.
pub proof fn lemma_card_hit_archived(c: Card, partial: Seq<char>, by_id: bool)
    ensures
        card_hit(c, partial, false, by_id) <==> (card_hit(c, partial, true, by_id) && !c.archived),
        card_hit(c, partial, false, by_id) ==> !c.archived,
{
}

/// Without archived cards, no hit of a card lookup is an archived card,
/// so only shown cards count toward a match or an ambiguity.
pub proof fn lemma_hits_skip_archived(lists: Seq<CardList>, cards: Seq<Card>, partial: Seq<char>, by_id: bool, n: int)
    requires
        n <= lists.len(),
    ensures
        forall|a: int|
            0 <= a < all_hits(lists, cards, partial, false, by_id, n).len() ==> !cards[(#[trigger] all_hits(
                lists,
                cards,
                partial,
                false,
                by_id,
                n,
            )[a]).1].archived,
    decreases n,
{
    if n > 0 {
        lemma_hits_skip_archived(lists, cards, partial, by_id, n - 1);
        let l = lists[n - 1];
        lemma_list_hits_skip_archived(n - 1, l.card_ids@, cards, partial, by_id, l.card_ids@.len() as int);
        let a1 = all_hits(lists, cards, partial, false, by_id, n - 1);
        let a2 = list_hits(n - 1, l.card_ids@, cards, partial, false, by_id, l.card_ids@.len() as int);
        assert forall|a: int| 0 <= a < (a1 + a2).len() implies !cards[(#[trigger] (a1 + a2)[a]).1].archived by {
            if a < a1.len() {
                assert((a1 + a2)[a] == a1[a]);
            } else {
                assert((a1 + a2)[a] == a2[a - a1.len()]);
            }
        }
    }
}

proof fn lemma_list_hits_skip_archived(li: int, ids: Seq<ShortId>, cards: Seq<Card>, partial: Seq<char>, by_id: bool, n: int)
    ensures
        forall|a: int|
            0 <= a < list_hits(li, ids, cards, partial, false, by_id, n).len() ==> !cards[(#[trigger] list_hits(
                li,
                ids,
                cards,
                partial,
                false,
                by_id,
                n,
            )[a]).1].archived,
    decreases n,
{
    if n > 0 {
        lemma_list_hits_skip_archived(li, ids, cards, partial, by_id, n - 1);
        let rest = list_hits(li, ids, cards, partial, false, by_id, n - 1);
        let all = list_hits(li, ids, cards, partial, false, by_id, n);
        assert forall|a: int| 0 <= a < all.len() implies !cards[(#[trigger] all[a]).1].archived by {
            if a < rest.len() {
                assert(all[a] == rest[a]);
            }
        }
    }
}

/// Find a card in `lists` (in list order, each list in card order) by id
/// or by title. By id the first hit is taken; by title there must be
/// exactly one. The result is the list's index and the card's index in
/// `cards`; otherwise the error message names the candidates.
pub fn find_card_in_lists(
    lists: &Vec<CardList>,
    cards: &Vec<Card>,
    partial: &str,
    include_archived: bool,
    by_id: bool,
) -> (r: Result<(usize, usize), String>)
    ensures
        ({
            let h = all_hits(lists@, cards@, partial@, include_archived, by_id, lists@.len() as int);
            if by_id {
                if h.len() == 0 {
                    r matches Err(msg) && msg@ == "No card with ID '"@ + partial@ + "'."@
                } else {
                    r matches Ok((li, k)) && li == h[0].0 && k == h[0].1
                }
            } else if h.len() == 1 {
                r matches Ok((li, k)) && li == h[0].0 && k == h[0].1
            } else if h.len() == 0 {
                r matches Err(msg) && msg@ == "No card matches '"@ + partial@ + "'."@
            } else {
                r matches Err(msg) && msg@ == "Multiple cards match '"@ + partial@ + "': "@ + described_hits(cards@, h) + "."@
            }
        }),
        r matches Ok((li, k)) ==> li < lists@.len() && k < cards@.len(),
        r matches Ok((li, k)) ==> (include_archived || !cards@[k as int].archived),
{
    proof {
        lemma_hits_skip_archived(lists@, cards@, partial@, by_id, lists@.len() as int);
    }
    let q = chars_of(to_lowercase(partial).as_str());
    let mut hits: Vec<(usize, usize)> = Vec::new();
    let mut desc = String::new();
    let ghost pv = partial@;
    for li in 0..lists.len()
        invariant
            q@ == crate::text::lowercase(partial@),
            pv == partial@,
            hits@.map_values(|h: (usize, usize)| (h.0 as int, h.1 as int)) == all_hits(lists@, cards@, pv, include_archived, by_id, li as int),
            desc@ == described_hits(cards@, all_hits(lists@, cards@, pv, include_archived, by_id, li as int)),
    {
        let ids = &lists[li].card_ids;
        let ghost before = all_hits(lists@, cards@, pv, include_archived, by_id, li as int);
        for j in 0..ids.len()
            invariant
                q@ == crate::text::lowercase(partial@),
                pv == partial@,
                li < lists@.len(),
                *ids == lists@[li as int].card_ids,
                before == all_hits(lists@, cards@, pv, include_archived, by_id, li as int),
                hits@.map_values(|h: (usize, usize)| (h.0 as int, h.1 as int)) == before + list_hits(
                    li as int,
                    ids@,
                    cards@,
                    pv,
                    include_archived,
                    by_id,
                    j as int,
                ),
                desc@ == described_hits(cards@, before + list_hits(li as int, ids@, cards@, pv, include_archived, by_id, j as int)),
        {
            let ghost prev = before + list_hits(li as int, ids@, cards@, pv, include_archived, by_id, j as int);
            match crate::board_editor::find_card(cards, ids[j].as_str()) {
                Some(k) => {
                    let c = &cards[k];
                    let hit = (include_archived || !c.archived) && if by_id {
                        same_text(c.id.as_str(), partial)
                    } else {
                        crate::model::card::contains_ignore_case(c.title.as_str(), &q)
                    };
                    if hit {
                        if hits.len() > 0 {
                            push_str(&mut desc, ", ");
                        }
                        push_str(&mut desc, c.title.as_str());
                        push_str(&mut desc, " [");
                        push_str(&mut desc, c.id.as_str());
                        push_str(&mut desc, "]");
                        hits.push((li, k));
                        proof {
                            let now = prev.push((li as int, k as int));
                            assert(now.drop_last() =~= prev);
                            assert(before + list_hits(li as int, ids@, cards@, pv, include_archived, by_id, j + 1) =~= now);
                            assert(hits@.map_values(|h: (usize, usize)| (h.0 as int, h.1 as int)) =~= now);
                        }
                    } else {
                        proof {
                            assert(before + list_hits(li as int, ids@, cards@, pv, include_archived, by_id, j + 1) =~= prev);
                        }
                    }
                },
                None => {
                    proof {
                        assert(before + list_hits(li as int, ids@, cards@, pv, include_archived, by_id, j + 1) =~= prev);
                    }
                },
            }
        }
    }
    let ghost h = all_hits(lists@, cards@, pv, include_archived, by_id, lists@.len() as int);
    proof {
        lemma_all_hits(lists@, cards@, pv, include_archived, by_id, lists@.len() as int);
        assert(hits@.len() == h.len());
    }
    if by_id {
        if hits.len() == 0 {
            let mut msg = owned("No card with ID '");
            push_str(&mut msg, partial);
            push_str(&mut msg, "'.");
            return Err(msg);
        }
        proof {
            assert(hits@.map_values(|x: (usize, usize)| (x.0 as int, x.1 as int))[0] == h[0]);
        }
        return Ok(hits[0]);
    }
    if hits.len() == 1 {
        proof {
            assert(hits@.map_values(|x: (usize, usize)| (x.0 as int, x.1 as int))[0] == h[0]);
        }
        return Ok(hits[0]);
    }
    if hits.len() == 0 {
        let mut msg = owned("No card matches '");
        push_str(&mut msg, partial);
        push_str(&mut msg, "'.");
        return Err(msg);
    }
    let mut msg = owned("Multiple cards match '");
    push_str(&mut msg, partial);
    push_str(&mut msg, "': ");
    push_str(&mut msg, desc.as_str());
    push_str(&mut msg, ".");
    Err(msg)
}

/// The name the CLI prints for a label color.
pub open spec fn color_name_of(color: LabelColor) -> Seq<char> {
    match color {
            LabelColor::Red => "red"@,
            LabelColor::Orange => "orange"@,
            LabelColor::Yellow => "yellow"@,
            LabelColor::Green => "green"@,
            LabelColor::Blue => "blue"@,
            LabelColor::Purple => "purple"@,
            LabelColor::Pink => "pink"@,
            LabelColor::Cyan => "cyan"@,
            LabelColor::Custom { .. } => "custom"@,
    }
}

/// The name the CLI prints for a label color (see [`color_name_of`]).
pub fn label_color_name(color: &LabelColor) -> (s: &'static str)
    ensures
        s@ == color_name_of(*color),
{
    match color {
        LabelColor::Red => "red",
        LabelColor::Orange => "orange",
        LabelColor::Yellow => "yellow",
        LabelColor::Green => "green",
        LabelColor::Blue => "blue",
        LabelColor::Purple => "purple",
        LabelColor::Pink => "pink",
        LabelColor::Cyan => "cyan",
        LabelColor::Custom { .. } => "custom",
    }
}

} // verus!
