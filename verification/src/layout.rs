//! Where a board's files live under the data directory: each path is the
//! data directory followed by relative components. Finding the data
//! directory (environment, working directory, home) and touching the
//! files is the caller's part.

use vstd::prelude::*;

use crate::text::{concat3, owned};

verus! {

/// A path under the data directory: `base`, then each of `parts`.
#[derive(Debug, Clone)]
pub struct DataPath {
    pub base: String,
    pub parts: Vec<String>,
}

/// The components of a path, as texts.
pub open spec fn parts_of(p: DataPath) -> Seq<Seq<char>> {
    p.parts@.map_values(|s: String| s@)
}

fn path_of(base: &str, parts: Vec<String>) -> (p: DataPath)
    ensures
        p.base@ == base@,
        p.parts == parts,
{
    DataPath { base: owned(base), parts }
}

/// The directory holding one directory per board.
pub fn boards_dir(base: &str) -> (p: DataPath)
    ensures
        p.base@ == base@,
        parts_of(p) == seq!["boards"@],
{
    let p = path_of(base, vec![owned("boards")]);
    assert(parts_of(p) =~= seq!["boards"@]);
    p
}

/// The file holding the display order of the boards.
pub fn board_order_path(base: &str) -> (p: DataPath)
    ensures
        p.base@ == base@,
        parts_of(p) == seq!["board_order.json"@],
{
    let p = path_of(base, vec![owned("board_order.json")]);
    assert(parts_of(p) =~= seq!["board_order.json"@]);
    p
}

/// The directory of one board.
pub fn board_dir(base: &str, board_id: &str) -> (p: DataPath)
    ensures
        p.base@ == base@,
        parts_of(p) == seq!["boards"@, board_id@],
{
    let p = path_of(base, vec![owned("boards"), owned(board_id)]);
    assert(parts_of(p) =~= seq!["boards"@, board_id@]);
    p
}

/// The metadata file of one board.
pub fn board_meta_path(base: &str, board_id: &str) -> (p: DataPath)
    ensures
        p.base@ == base@,
        parts_of(p) == seq!["boards"@, board_id@, "board.json"@],
{
    let p = path_of(base, vec![owned("boards"), owned(board_id), owned("board.json")]);
    assert(parts_of(p) =~= seq!["boards"@, board_id@, "board.json"@]);
    p
}

/// The file of one list of a board (`list-<id>.json`).
pub fn list_path(base: &str, board_id: &str, list_id: &str) -> (p: DataPath)
    ensures
        p.base@ == base@,
        parts_of(p) == seq!["boards"@, board_id@, "list-"@ + list_id@ + ".json"@],
{
    let p = path_of(base, vec![owned("boards"), owned(board_id), concat3("list-", list_id, ".json")]);
    assert(parts_of(p) =~= seq!["boards"@, board_id@, "list-"@ + list_id@ + ".json"@]);
    p
}

/// The file of one card of a board (`card-<id>.json`).
pub fn card_path(base: &str, board_id: &str, card_id: &str) -> (p: DataPath)
    ensures
        p.base@ == base@,
        parts_of(p) == seq!["boards"@, board_id@, "card-"@ + card_id@ + ".json"@],
{
    let p = path_of(base, vec![owned("boards"), owned(board_id), concat3("card-", card_id, ".json")]);
    assert(parts_of(p) =~= seq!["boards"@, board_id@, "card-"@ + card_id@ + ".json"@]);
    p
}

} // verus!
