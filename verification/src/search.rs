//! Searching cards across boards: which boards and lists a search covers
//! and which cards it finds, by substring or by regular expression.
//! Loading the boards and printing the results is the caller's part.

use vstd::prelude::*;

use crate::board_editor::{find_card, index_of};
use crate::model::board::BoardMeta;
use crate::model::card::{matches_query, Card};
use crate::model::label::Label;
use crate::model::list::CardList;
use crate::text::{chars_of, contains_ci, owned, to_lowercase};

verus! {

#[verifier::external_type_specification]
#[verifier::external_body]
pub struct ExRegex(regex::Regex);

/// Whether `regex::Regex::new` accepts the pattern.
pub uninterp spec fn regex_accepts(pattern: Seq<char>) -> bool;

/// What `regex::Regex::is_match` answers for the pattern and the text.
pub uninterp spec fn regex_matches(pattern: Seq<char>, text: Seq<char>) -> bool;

/// Calls `regex::Regex::new`; it fails exactly when the pattern is not a
/// regular expression the crate accepts.
#[verifier::external_body]
fn regex_new(pattern: &str) -> (r: Option<regex::Regex>)
    ensures
        r is Some == regex_accepts(pattern@),
{
    match regex::Regex::new(pattern) {
        Ok(re) => Some(re),
        Err(_) => None,
    }
}

/// A compiled regular expression and the pattern it was compiled from.
pub struct Pattern {
    source: String,
    re: regex::Regex,
}

impl Pattern {
    /// The pattern's text.
    pub closed spec fn source(&self) -> Seq<char> {
        self.source@
    }

    /// Compiles `pattern`; the error is the CLI's message for a pattern the
    /// regex crate refuses.
    pub fn compile(pattern: &str) -> (r: Result<Pattern, String>)
        ensures
            r is Ok == regex_accepts(pattern@),
            r matches Ok(p) ==> p.source() == pattern@,
            r matches Err(m) ==> m@ == "Invalid regular expression"@,
    {
        match regex_new(pattern) {
            Some(re) => Ok(Pattern { source: owned(pattern), re }),
            None => Err(owned("Invalid regular expression")),
        }
    }
}

/// Calls `regex::Regex::is_match` on the compiled pattern.
#[verifier::external_body]
fn pattern_matches(p: &Pattern, text: &str) -> (b: bool)
    ensures
        b == regex_matches(p.source(), text@),
{
    p.re.is_match(text)
}

/// The card matches the pattern in its title, description, a checklist
/// item's text or the name of a board label it carries.
pub open spec fn matches_pattern(c: Card, pattern: Seq<char>, board_labels: Seq<Label>) -> bool {
    ||| regex_matches(pattern, c.title@)
    ||| regex_matches(pattern, c.description@)
    ||| exists|i: int| 0 <= i < c.checklist@.len() && regex_matches(pattern, #[trigger] c.checklist@[i].text@)
    ||| exists|i: int, j: int|
        0 <= i < c.label_ids@.len() && 0 <= j < board_labels.len() && #[trigger] board_labels[j].id@
            == #[trigger] c.label_ids@[i]@ && regex_matches(pattern, board_labels[j].name@)
}

/// Whether the card matches the pattern (see [`matches_pattern`]).
pub fn card_matches_regex(card: &Card, re: &Pattern, board_labels: &Vec<Label>) -> (m: bool)
    ensures
        m == matches_pattern(*card, re.source(), board_labels@),
{
    if pattern_matches(re, card.title.as_str()) || pattern_matches(re, card.description.as_str()) {
        return true;
    }
    for i in 0..card.checklist.len()
        invariant
            forall|k: int| 0 <= k < i ==> !regex_matches(re.source(), #[trigger] card.checklist@[k].text@),
    {
        if pattern_matches(re, card.checklist[i].text.as_str()) {
            return true;
        }
    }
    for i in 0..card.label_ids.len()
        invariant
            forall|k: int, j: int|
                0 <= k < i && 0 <= j < board_labels@.len() && #[trigger] board_labels@[j].id@ == #[trigger] card.label_ids@[k]@
                    ==> !regex_matches(re.source(), board_labels@[j].name@),
    {
        for j in 0..board_labels.len()
            invariant
                i < card.label_ids@.len(),
                forall|k: int, j2: int|
                    0 <= k < i && 0 <= j2 < board_labels@.len() && #[trigger] board_labels@[j2].id@ == #[trigger] card.label_ids@[k]@
                        ==> !regex_matches(re.source(), board_labels@[j2].name@),
                forall|j2: int|
                    0 <= j2 < j && #[trigger] board_labels@[j2].id@ == card.label_ids@[i as int]@ ==> !regex_matches(
                        re.source(),
                        board_labels@[j2].name@,
                    ),
        {
            if board_labels[j].id == card.label_ids[i] && pattern_matches(re, board_labels[j].name.as_str()) {
                return true;
            }
        }
    }
    false
}

/// What a search looks for.
pub enum SearchQuery {
    /// A substring, ignoring case.
    Text(String),
    /// A regular expression.
    Regex(Pattern),
}

/// The card is a hit of the query.
pub open spec fn query_hit(c: Card, q: SearchQuery, board_labels: Seq<Label>) -> bool {
    match q {
        SearchQuery::Text(t) => matches_query(c, t@, board_labels),
        SearchQuery::Regex(p) => matches_pattern(c, p.source(), board_labels),
    }
}

/// Whether the card is a hit of the query.
pub fn card_hits(card: &Card, q: &SearchQuery, board_labels: &Vec<Label>) -> (m: bool)
    ensures
        m == query_hit(*card, *q, board_labels@),
{
    match q {
        SearchQuery::Text(t) => card.matches_search(t.as_str(), board_labels.as_slice()),
        SearchQuery::Regex(p) => card_matches_regex(card, p, board_labels),
    }
}

/// The boards a search covers: all of them without a filter, else those
/// whose name contains one of the filters, ignoring case.
pub open spec fn searched(b: BoardMeta, filters: Seq<String>) -> bool {
    filters.len() == 0 || exists|f: int| 0 <= f < filters.len() && contains_ci(b.name@, #[trigger] filters[f]@)
}

/// Indices of the boards a search covers, in order; an error when board
/// filters were given and no board matches them.
pub fn boards_to_search(boards: &Vec<BoardMeta>, filters: &Vec<String>) -> (r: Result<Vec<usize>, String>)
    ensures
        match r {
            Ok(v) => {
                &&& v@.map_values(|i: usize| i as int) == Seq::new(boards@.len() as nat, |i: int| i).filter(
                    |i: int| searched(boards@[i], filters@),
                )
                &&& (filters@.len() > 0 ==> v@.len() > 0)
            },
            Err(m) => {
                &&& m@ == "No boards match the --board filter."@
                &&& filters@.len() > 0
                &&& forall|i: int| 0 <= i < boards@.len() ==> !searched(#[trigger] boards@[i], filters@)
            },
        },
{
    let ghost all = Seq::new(boards@.len() as nat, |i: int| i);
    let ghost keep = |i: int| searched(boards@[i], filters@);
    let mut lowered: Vec<Vec<char>> = Vec::new();
    for f in 0..filters.len()
        invariant
            lowered@.len() == f,
            forall|k: int| 0 <= k < f ==> (#[trigger] lowered@[k])@ == crate::text::lowercase(filters@[k]@),
    {
        lowered.push(chars_of(to_lowercase(filters[f].as_str()).as_str()));
    }
    let mut v: Vec<usize> = Vec::new();
    for i in 0..boards.len()
        invariant
            lowered@.len() == filters@.len(),
            forall|k: int| 0 <= k < filters@.len() ==> (#[trigger] lowered@[k])@ == crate::text::lowercase(filters@[k]@),
            all == Seq::new(boards@.len() as nat, |i: int| i),
            keep == (|i: int| searched(boards@[i], filters@)),
            v@.map_values(|i: usize| i as int) == all.take(i as int).filter(keep),
            forall|k: int| 0 <= k < v@.len() ==> v@[k] < i,
    {
        proof {
            assert(all.take(i + 1).drop_last() =~= all.take(i as int));
            reveal_with_fuel(Seq::<int>::filter, 1);
        }
        let mut hit = filters.len() == 0;
        let mut f: usize = 0;
        while f < filters.len() && !hit
            invariant
                lowered@.len() == filters@.len(),
                forall|k: int| 0 <= k < filters@.len() ==> (#[trigger] lowered@[k])@ == crate::text::lowercase(filters@[k]@),
                i < boards@.len(),
                f <= filters@.len(),
                filters@.len() == 0 ==> hit,
                hit ==> searched(boards@[i as int], filters@),
                !hit ==> forall|k: int| 0 <= k < f ==> !contains_ci(boards@[i as int].name@, #[trigger] filters@[k]@),
            decreases filters.len() - f,
        {
            if crate::model::card::contains_ignore_case(boards[i].name.as_str(), &lowered[f]) {
                hit = true;
            }
            f += 1;
        }
        proof {
            if !hit {
                assert(!searched(boards@[i as int], filters@));
            }
            assert(all.take(i + 1).last() == i as int);
        }
        if hit {
            v.push(i);
            proof {
                assert(v@.map_values(|i: usize| i as int) =~= all.take(i as int).filter(keep).push(i as int));
            }
        }
    }
    proof {
        assert(all.take(boards@.len() as int) =~= all);
    }
    if v.len() == 0 && filters.len() > 0 {
        proof {
            assert forall|i: int| 0 <= i < boards@.len() implies !searched(#[trigger] boards@[i], filters@) by {
                if searched(boards@[i], filters@) {
                    all.lemma_filter_contains(keep, i);
                    assert(all[i] == i);
                    assert(all.filter(keep).contains(i));
                }
            }
        }
        return Err(owned("No boards match the --board filter."));
    }
    Ok(v)
}

/// A list a search covers: any list without a list filter, else one whose
/// name contains the filter, ignoring case.
pub fn list_selected(list: &CardList, filter: Option<&str>) -> (b: bool)
    ensures
        b == match filter {
            None => true,
            Some(f) => contains_ci(list.name@, f@),
        },
{
    match filter {
        None => true,
        Some(f) => {
            let q = chars_of(to_lowercase(f).as_str());
            crate::model::card::contains_ignore_case(list.name.as_str(), &q)
        },
    }
}

/// The hits among the first `n` card ids of a list: indices into `cards`
/// of the cards found, skipping ids with no card and archived cards unless
/// asked for.
pub open spec fn list_results(
    ids: Seq<String>,
    cards: Seq<Card>,
    q: SearchQuery,
    board_labels: Seq<Label>,
    include_archived: bool,
    n: int,
) -> Seq<int>
    decreases n,
{
    if n <= 0 {
        seq![]
    } else {
        let rest = list_results(ids, cards, q, board_labels, include_archived, n - 1);
        let k = index_of(cards, ids[n - 1]@);
        if k >= 0 && (include_archived || !cards[k].archived) && query_hit(cards[k], q, board_labels) {
            rest.push(k)
        } else {
            rest
        }
    }
}

/// The cards of `list` a search finds, in the list's order (indices into
/// `cards`).
pub fn matching_cards(
    list: &CardList,
    cards: &Vec<Card>,
    q: &SearchQuery,
    board_labels: &Vec<Label>,
    include_archived: bool,
) -> (v: Vec<usize>)
    ensures
        v@.map_values(|i: usize| i as int) == list_results(
            list.card_ids@,
            cards@,
            *q,
            board_labels@,
            include_archived,
            list.card_ids@.len() as int,
        ),
        forall|a: int| 0 <= a < v@.len() ==> v@[a] < cards@.len(),
{
    let mut v: Vec<usize> = Vec::new();
    for j in 0..list.card_ids.len()
        invariant
            v@.map_values(|i: usize| i as int) == list_results(list.card_ids@, cards@, *q, board_labels@, include_archived, j as int),
            forall|a: int| 0 <= a < v@.len() ==> v@[a] < cards@.len(),
    {
        match find_card(cards, list.card_ids[j].as_str()) {
            Some(k) => {
                if (include_archived || !cards[k].archived) && card_hits(&cards[k], q, board_labels) {
                    v.push(k);
                    assert(v@.map_values(|i: usize| i as int) =~= list_results(
                        list.card_ids@,
                        cards@,
                        *q,
                        board_labels@,
                        include_archived,
                        j as int,
                    ).push(k as int));
                }
            },
            None => {},
        }
    }
    v
}

} // verus!
