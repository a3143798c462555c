//! What a command line asks for: whether to show help, run a subcommand
//! or open the interface; which action each subcommand's flags select (the
//! first flag present, in a fixed order); and the commands and indexes
//! derived from flag values. Looking boards up and running the commands is
//! the caller's part.

use vstd::prelude::*;

use crate::cli::{flag_at, flag_value, flag_values2, has_flag};
use crate::command::Command;
use crate::model::calendar::{date_parse, parsed_date};
use crate::model::card::Date;
use crate::model::ids::ShortId;
use crate::text::{chars_of, decimal, owned, push_decimal, push_str, same_text};

verus! {

/// `flag` is among the arguments.
pub open spec fn has_arg(args: Seq<String>, flag: Seq<char>) -> bool {
    exists|i: int| 0 <= i < args.len() && (#[trigger] args[i])@ == flag
}

/// The value after the first `flag` that has one.
pub open spec fn value_after(args: Seq<String>, flag: Seq<char>) -> Seq<char> {
    args[flag_at(args, flag, 1) + 1]@
}

/// The two values after the first `flag` that has two.
pub open spec fn values_after(args: Seq<String>, flag: Seq<char>) -> (Seq<char>, Seq<char>) {
    let i = flag_at(args, flag, 2);
    (args[i + 1]@, args[i + 2]@)
}

/// What the program does with its arguments.
#[derive(Debug, Clone, Copy, PartialEq, Eq, Structural)]
pub enum Entry {
    /// Print the help text.
    Help,
    /// Run a subcommand without the interface.
    Subcommand,
    /// Open the interface.
    Interface,
}

/// Help when `--help` or `-h` is anywhere or the first argument is
/// `help`; a subcommand when the first argument does not start with `-`;
/// else the interface.
pub open spec fn entry_of(args: Seq<String>) -> Entry {
    if has_arg(args, "--help"@) || has_arg(args, "-h"@) || (args.len() > 0 && args[0]@ == "help"@) {
        Entry::Help
    } else if args.len() > 0 && !(args[0]@.len() > 0 && args[0]@[0] == '-') {
        Entry::Subcommand
    } else {
        Entry::Interface
    }
}

/// What the program does with `args` (see [`entry_of`]).
pub fn entry(args: &Vec<String>) -> (e: Entry)
    ensures
        e == entry_of(args@),
{
    if has_flag(args, "--help") || has_flag(args, "-h") || (args.len() > 0 && same_text(args[0].as_str(), "help")) {
        return Entry::Help;
    }
    if args.len() > 0 {
        let first = chars_of(args[0].as_str());
        if !(first.len() > 0 && first[0] == '-') {
            return Entry::Subcommand;
        }
    }
    Entry::Interface
}

/// What `tct boards` asks for.
#[derive(Debug, Clone)]
pub enum BoardsAction {
    Archived,
    Create { name: String },
    Archive { board: String },
    Restore { board: String },
    Delete { board: String },
    Overview,
}

/// The action `tct boards` flags select: `--archived`, then `--create`,
/// `--archive`, `--restore`, `--delete`, else the overview.
pub open spec fn boards_action_is(args: Seq<String>, a: BoardsAction) -> bool {
    if has_arg(args, "--archived"@) {
        a is Archived
    } else if flag_at(args, "--create"@, 1) >= 0 {
        a matches BoardsAction::Create { name } && name@ == value_after(args, "--create"@)
    } else if flag_at(args, "--archive"@, 1) >= 0 {
        a matches BoardsAction::Archive { board } && board@ == value_after(args, "--archive"@)
    } else if flag_at(args, "--restore"@, 1) >= 0 {
        a matches BoardsAction::Restore { board } && board@ == value_after(args, "--restore"@)
    } else if flag_at(args, "--delete"@, 1) >= 0 {
        a matches BoardsAction::Delete { board } && board@ == value_after(args, "--delete"@)
    } else {
        a is Overview
    }
}

/// The action of `tct boards` (see [`boards_action_is`]).
pub fn boards_action(args: &Vec<String>) -> (a: BoardsAction)
    ensures
        boards_action_is(args@, a),
{
    if has_flag(args, "--archived") {
        return BoardsAction::Archived;
    }
    if let Some(name) = flag_value(args, "--create") {
        return BoardsAction::Create { name };
    }
    if let Some(board) = flag_value(args, "--archive") {
        return BoardsAction::Archive { board };
    }
    if let Some(board) = flag_value(args, "--restore") {
        return BoardsAction::Restore { board };
    }
    if let Some(board) = flag_value(args, "--delete") {
        return BoardsAction::Delete { board };
    }
    BoardsAction::Overview
}

/// What `tct lists <board>` asks for.
#[derive(Debug, Clone)]
pub enum ListsAction {
    Archived,
    Create { name: String },
    Rename { list: String, name: String },
    Archive { list: String },
    Restore { list: String },
    Delete { list: String },
    Overview,
}

/// The action `tct lists <board>` flags select: `--archived`, then
/// `--create`, `--rename`, `--archive`, `--restore`, `--delete`, else the
/// overview.
pub open spec fn lists_action_is(args: Seq<String>, a: ListsAction) -> bool {
    if has_arg(args, "--archived"@) {
        a is Archived
    } else if flag_at(args, "--create"@, 1) >= 0 {
        a matches ListsAction::Create { name } && name@ == value_after(args, "--create"@)
    } else if flag_at(args, "--rename"@, 2) >= 0 {
        a matches ListsAction::Rename { list, name } && (list@, name@) == values_after(args, "--rename"@)
    } else if flag_at(args, "--archive"@, 1) >= 0 {
        a matches ListsAction::Archive { list } && list@ == value_after(args, "--archive"@)
    } else if flag_at(args, "--restore"@, 1) >= 0 {
        a matches ListsAction::Restore { list } && list@ == value_after(args, "--restore"@)
    } else if flag_at(args, "--delete"@, 1) >= 0 {
        a matches ListsAction::Delete { list } && list@ == value_after(args, "--delete"@)
    } else {
        a is Overview
    }
}

/// The board argument and action of `tct lists` (see
/// [`lists_action_is`]); without a board argument, the usage line.
pub fn lists_request(args: &Vec<String>) -> (r: Result<(String, ListsAction), String>)
    ensures
        match r {
            Ok((b, a)) => args@.len() > 0 && b@ == args@[0]@ && lists_action_is(args@, a),
            Err(m) => args@.len() == 0 && m@ == "Usage: tct lists <board> [--create|--rename|--archive|--restore|--delete|--archived ...]"@,
        },
{
    if args.len() == 0 {
        return Err(owned("Usage: tct lists <board> [--create|--rename|--archive|--restore|--delete|--archived ...]"));
    }
    let board = args[0].clone();
    if has_flag(args, "--archived") {
        return Ok((board, ListsAction::Archived));
    }
    if let Some(name) = flag_value(args, "--create") {
        return Ok((board, ListsAction::Create { name }));
    }
    if let Some((list, name)) = flag_values2(args, "--rename") {
        return Ok((board, ListsAction::Rename { list, name }));
    }
    if let Some(list) = flag_value(args, "--archive") {
        return Ok((board, ListsAction::Archive { list }));
    }
    if let Some(list) = flag_value(args, "--restore") {
        return Ok((board, ListsAction::Restore { list }));
    }
    if let Some(list) = flag_value(args, "--delete") {
        return Ok((board, ListsAction::Delete { list }));
    }
    Ok((board, ListsAction::Overview))
}

/// What `tct cards <board>` asks for.
#[derive(Debug, Clone)]
pub enum CardsAction {
    Archived,
    Show { card: String },
    InList { list: String },
    Create { list: String, title: String },
    Edit { card: String },
    Archive { card: String },
    Restore { card: String },
    Delete { card: String },
    Overview,
}

/// The action `tct cards <board>` flags select: `--archived`, then
/// `--show`, `--list`, `--create`, `--edit`, `--archive`, `--restore`,
/// `--delete`, else the overview.
pub open spec fn cards_action_is(args: Seq<String>, a: CardsAction) -> bool {
    if has_arg(args, "--archived"@) {
        a is Archived
    } else if flag_at(args, "--show"@, 1) >= 0 {
        a matches CardsAction::Show { card } && card@ == value_after(args, "--show"@)
    } else if flag_at(args, "--list"@, 1) >= 0 {
        a matches CardsAction::InList { list } && list@ == value_after(args, "--list"@)
    } else if flag_at(args, "--create"@, 2) >= 0 {
        a matches CardsAction::Create { list, title } && (list@, title@) == values_after(args, "--create"@)
    } else if flag_at(args, "--edit"@, 1) >= 0 {
        a matches CardsAction::Edit { card } && card@ == value_after(args, "--edit"@)
    } else if flag_at(args, "--archive"@, 1) >= 0 {
        a matches CardsAction::Archive { card } && card@ == value_after(args, "--archive"@)
    } else if flag_at(args, "--restore"@, 1) >= 0 {
        a matches CardsAction::Restore { card } && card@ == value_after(args, "--restore"@)
    } else if flag_at(args, "--delete"@, 1) >= 0 {
        a matches CardsAction::Delete { card } && card@ == value_after(args, "--delete"@)
    } else {
        a is Overview
    }
}

/// The board argument and action of `tct cards` (see
/// [`cards_action_is`]); without a board argument, the usage line.
pub fn cards_request(args: &Vec<String>) -> (r: Result<(String, CardsAction), String>)
    ensures
        match r {
            Ok((b, a)) => args@.len() > 0 && b@ == args@[0]@ && cards_action_is(args@, a),
            Err(m) => args@.len() == 0 && m@ == "Usage: tct cards <board> [--show|--create|--edit|--archive|--restore|--delete|--list|--archived ...]"@,
        },
{
    if args.len() == 0 {
        return Err(
            owned("Usage: tct cards <board> [--show|--create|--edit|--archive|--restore|--delete|--list|--archived ...]"),
        );
    }
    let board = args[0].clone();
    if has_flag(args, "--archived") {
        return Ok((board, CardsAction::Archived));
    }
    if let Some(card) = flag_value(args, "--show") {
        return Ok((board, CardsAction::Show { card }));
    }
    if let Some(list) = flag_value(args, "--list") {
        return Ok((board, CardsAction::InList { list }));
    }
    if let Some((list, title)) = flag_values2(args, "--create") {
        return Ok((board, CardsAction::Create { list, title }));
    }
    if let Some(card) = flag_value(args, "--edit") {
        return Ok((board, CardsAction::Edit { card }));
    }
    if let Some(card) = flag_value(args, "--archive") {
        return Ok((board, CardsAction::Archive { card }));
    }
    if let Some(card) = flag_value(args, "--restore") {
        return Ok((board, CardsAction::Restore { card }));
    }
    if let Some(card) = flag_value(args, "--delete") {
        return Ok((board, CardsAction::Delete { card }));
    }
    Ok((board, CardsAction::Overview))
}

/// What `tct labels <board>` asks for.
#[derive(Debug, Clone)]
pub enum LabelsAction {
    Create { name: String },
    Delete { label: String },
    Assign { card: String, label: String },
    Remove { card: String, label: String },
    Overview,
}

/// The action `tct labels <board>` flags select: `--create`, then
/// `--delete`, `--assign`, `--remove`, else the overview.
pub open spec fn labels_action_is(args: Seq<String>, a: LabelsAction) -> bool {
    if flag_at(args, "--create"@, 1) >= 0 {
        a matches LabelsAction::Create { name } && name@ == value_after(args, "--create"@)
    } else if flag_at(args, "--delete"@, 1) >= 0 {
        a matches LabelsAction::Delete { label } && label@ == value_after(args, "--delete"@)
    } else if flag_at(args, "--assign"@, 2) >= 0 {
        a matches LabelsAction::Assign { card, label } && (card@, label@) == values_after(args, "--assign"@)
    } else if flag_at(args, "--remove"@, 2) >= 0 {
        a matches LabelsAction::Remove { card, label } && (card@, label@) == values_after(args, "--remove"@)
    } else {
        a is Overview
    }
}

/// The board argument and action of `tct labels` (see
/// [`labels_action_is`]); without a board argument, the usage line.
pub fn labels_request(args: &Vec<String>) -> (r: Result<(String, LabelsAction), String>)
    ensures
        match r {
            Ok((b, a)) => args@.len() > 0 && b@ == args@[0]@ && labels_action_is(args@, a),
            Err(m) => args@.len() == 0 && m@ == "Usage: tct labels <board> [--create|--delete|--assign|--remove ...]"@,
        },
{
    if args.len() == 0 {
        return Err(owned("Usage: tct labels <board> [--create|--delete|--assign|--remove ...]"));
    }
    let board = args[0].clone();
    if let Some(name) = flag_value(args, "--create") {
        return Ok((board, LabelsAction::Create { name }));
    }
    if let Some(label) = flag_value(args, "--delete") {
        return Ok((board, LabelsAction::Delete { label }));
    }
    if let Some((card, label)) = flag_values2(args, "--assign") {
        return Ok((board, LabelsAction::Assign { card, label }));
    }
    if let Some((card, label)) = flag_values2(args, "--remove") {
        return Ok((board, LabelsAction::Remove { card, label }));
    }
    Ok((board, LabelsAction::Overview))
}

/// What `tct checklist <board> <card>` asks for.
#[derive(Debug, Clone)]
pub enum ChecklistAction {
    Add { text: String },
    Toggle { index: String },
    Delete { index: String },
    Show,
}

/// The action `tct checklist <board> <card>` flags select: `--add`, then
/// `--toggle`, `--delete`, else showing the checklist.
pub open spec fn checklist_action_is(args: Seq<String>, a: ChecklistAction) -> bool {
    if flag_at(args, "--add"@, 1) >= 0 {
        a matches ChecklistAction::Add { text } && text@ == value_after(args, "--add"@)
    } else if flag_at(args, "--toggle"@, 1) >= 0 {
        a matches ChecklistAction::Toggle { index } && index@ == value_after(args, "--toggle"@)
    } else if flag_at(args, "--delete"@, 1) >= 0 {
        a matches ChecklistAction::Delete { index } && index@ == value_after(args, "--delete"@)
    } else {
        a is Show
    }
}

/// The board and card arguments and the action of `tct checklist` (see
/// [`checklist_action_is`]); without a board argument the usage line,
/// without a card argument a message naming it.
pub fn checklist_request(args: &Vec<String>) -> (r: Result<(String, String, ChecklistAction), String>)
    ensures
        match r {
            Ok((b, c, a)) => args@.len() > 1 && b@ == args@[0]@ && c@ == args@[1]@ && checklist_action_is(args@, a),
            Err(m) => (args@.len() == 0 && m@ == "Usage: tct checklist <board> <card> [--add|--toggle|--delete ...]"@) || (
            args@.len() == 1 && m@ == "Missing required argument: card name"@),
        },
{
    if args.len() == 0 {
        return Err(owned("Usage: tct checklist <board> <card> [--add|--toggle|--delete ...]"));
    }
    if args.len() == 1 {
        return Err(owned("Missing required argument: card name"));
    }
    let board = args[0].clone();
    let card = args[1].clone();
    if let Some(text) = flag_value(args, "--add") {
        return Ok((board, card, ChecklistAction::Add { text }));
    }
    if let Some(index) = flag_value(args, "--toggle") {
        return Ok((board, card, ChecklistAction::Toggle { index }));
    }
    if let Some(index) = flag_value(args, "--delete") {
        return Ok((board, card, ChecklistAction::Delete { index }));
    }
    Ok((board, card, ChecklistAction::Show))
}

/// The value of a decimal digit character.
pub open spec fn digit_value(c: char) -> nat {
    (c as u32 - '0' as u32) as nat
}

/// The number the digits of `s` write.
pub open spec fn digits_value(s: Seq<char>) -> nat
    decreases s.len(),
{
    if s.len() == 0 {
        0
    } else {
        digits_value(s.drop_last()) * 10 + digit_value(s.last())
    }
}

/// `s` is digits only, at least one.
pub open spec fn all_digits(s: Seq<char>) -> bool {
    s.len() > 0 && forall|i: int| 0 <= i < s.len() ==> '0' <= #[trigger] s[i] <= '9'
}

/// The unsigned integer `s` writes as the standard library's parser reads
/// it: an optional `+` and then digits, fitting in `usize`.
pub open spec fn parsed_index(s: Seq<char>) -> Option<nat> {
    let d = if s.len() > 0 && s[0] == '+' {
        s.drop_first()
    } else {
        s
    };
    if all_digits(d) && digits_value(d) <= usize::MAX {
        Some(digits_value(d))
    } else {
        None
    }
}

proof fn lemma_digits_grow(s: Seq<char>, i: int)
    requires
        0 <= i <= s.len(),
        forall|k: int| 0 <= k < s.len() ==> '0' <= #[trigger] s[k] <= '9',
    ensures
        digits_value(s.take(i)) <= digits_value(s),
    decreases s.len() - i,
{
    if i < s.len() {
        lemma_digits_grow(s, i + 1);
        assert(s.take(i + 1).drop_last() =~= s.take(i));
    } else {
        assert(s.take(i) =~= s);
    }
}

/// Reads `s` as the standard library reads a `usize` (see
/// [`parsed_index`]).
fn parse_index(s: &str) -> (r: Option<usize>)
    ensures
        match parsed_index(s@) {
            Some(n) => r == Some(n as usize),
            None => r is None,
        },
{
    let v = chars_of(s);
    let start: usize = if v.len() > 0 && v[0] == '+' {
        1
    } else {
        0
    };
    let ghost d = if s@.len() > 0 && s@[0] == '+' {
        s@.drop_first()
    } else {
        s@
    };
    assert(d =~= v@.subrange(start as int, v@.len() as int));
    assert(parsed_index(s@) == (if all_digits(d) && digits_value(d) <= usize::MAX {
        Some(digits_value(d))
    } else {
        None
    }));
    if start >= v.len() {
        return None;
    }
    let mut n: usize = 0;
    let mut i: usize = start;
    while i < v.len()
        invariant
            start <= i <= v@.len(),
            start < v@.len(),
            d =~= v@.subrange(start as int, v@.len() as int),
            parsed_index(s@) == (if all_digits(d) && digits_value(d) <= usize::MAX {
                Some(digits_value(d))
            } else {
                None
            }),
            forall|k: int| start <= k < i ==> '0' <= #[trigger] v@[k] <= '9',
            n == digits_value(v@.subrange(start as int, i as int)),
        decreases v.len() - i,
    {
        let c = v[i];
        if !('0' <= c && c <= '9') {
            proof {
                assert(d[i - start] == c);
                assert(!all_digits(d));
            }
            return None;
        }
        let dv = (c as u32 - '0' as u32) as usize;
        proof {
            assert(v@.subrange(start as int, i + 1).drop_last() =~= v@.subrange(start as int, i as int));
        }
        if n > (usize::MAX - dv) / 10 {
            proof {
                assert(digits_value(v@.subrange(start as int, i + 1)) == n * 10 + dv);
                assert(n * 10 + dv > usize::MAX) by (nonlinear_arith)
                    requires
                        n > (usize::MAX - dv) / 10,
                        dv <= 9,
                ;
                if all_digits(d) {
                    assert(v@.subrange(start as int, i + 1) =~= d.take(i + 1 - start));
                    lemma_digits_grow(d, i + 1 - start);
                }
            }
            return None;
        }
        proof {
            assert(n * 10 + dv <= usize::MAX) by (nonlinear_arith)
                requires
                    n <= (usize::MAX - dv) / 10,
                    dv <= 9,
            ;
        }
        n = n * 10 + dv;
        i += 1;
    }
    assert(v@.subrange(start as int, i as int) =~= d);
    Some(n)
}

/// The 0-based index of checklist item `n_str` (1-based) on a card with
/// `total` items, or the message the command line prints.
pub open spec fn checklist_index_of(n_str: Seq<char>, total: nat) -> Result<nat, Seq<char>> {
    match parsed_index(n_str) {
        None => Err("Item index must be a positive integer"@),
        Some(n) => if n == 0 {
            Err("Index must be >= 1"@)
        } else if n - 1 >= total {
            Err("Index "@ + decimal(n) + " out of range (card has "@ + decimal(total) + " items)"@)
        } else {
            Ok((n - 1) as nat)
        },
    }
}

/// The 0-based item index the command line's 1-based `n_str` names on a
/// card with `total` items (see [`checklist_index_of`]).
pub fn checklist_index(n_str: &str, total: usize) -> (r: Result<usize, String>)
    ensures
        match checklist_index_of(n_str@, total as nat) {
            Ok(i) => r == Ok::<usize, String>(i as usize),
            Err(m) => r matches Err(e) && e@ == m,
        },
{
    match parse_index(n_str) {
        None => Err(owned("Item index must be a positive integer")),
        Some(n) => if n == 0 {
            Err(owned("Index must be >= 1"))
        } else if n - 1 >= total {
            let mut m = owned("Index ");
            push_decimal(&mut m, n);
            push_str(&mut m, " out of range (card has ");
            push_decimal(&mut m, total);
            push_str(&mut m, " items)");
            Err(m)
        } else {
            Ok(n - 1)
        },
    }
}

/// The edits `tct cards <board> --edit <card>` asks for: a new title, a
/// new description, and a due date to set (`Some(Some(_))`) or clear
/// (`Some(None)`, the value `none`); at least one is needed, and a due date
/// must read as one.
pub open spec fn card_edits_of(card_id: ShortId, args: Seq<String>) -> Result<Seq<Command>, Seq<char>> {
    let t = flag_at(args, "--title"@, 1);
    let d = flag_at(args, "--description"@, 1);
    let u = flag_at(args, "--due"@, 1);
    if t < 0 && d < 0 && u < 0 {
        Err("cards --edit requires at least one of: --title, --description, --due"@)
    } else if u >= 0 && value_after(args, "--due"@) != "none"@ && parsed_date(value_after(args, "--due"@)) is None {
        Err("Invalid date format. Use YYYY-MM-DD or 'none'."@)
    } else {
        let title_edit: Seq<Command> = if t >= 0 {
            seq![Command::EditCardTitle { card_id, title: args[t + 1] }]
        } else {
            seq![]
        };
        let body_edit: Seq<Command> = if d >= 0 {
            seq![Command::EditCardDescription { card_id, body: args[d + 1] }]
        } else {
            seq![]
        };
        let due_edit: Seq<Command> = if u < 0 {
            seq![]
        } else if value_after(args, "--due"@) == "none"@ {
            seq![Command::ClearDueDate { card_id }]
        } else {
            seq![Command::SetDueDate { card_id, date: parsed_date(value_after(args, "--due"@))->0 }]
        };
        Ok(title_edit + body_edit + due_edit)
    }
}

/// The commands `tct cards <board> --edit <card>` applies to card
/// `card_id`, in order (see [`card_edits_of`]), or the message it prints.
pub fn card_edits(card_id: &ShortId, args: &Vec<String>) -> (r: Result<Vec<Command>, String>)
    ensures
        match card_edits_of(*card_id, args@) {
            Ok(cmds) => r matches Ok(v) && v@ == cmds,
            Err(m) => r matches Err(e) && e@ == m,
        },
{
    let title = flag_value(args, "--title");
    let body = flag_value(args, "--description");
    let due = flag_value(args, "--due");
    if title.is_none() && body.is_none() && due.is_none() {
        return Err(owned("cards --edit requires at least one of: --title, --description, --due"));
    }
    let due_change: Option<Option<Date>> = match &due {
        None => None,
        Some(s) => if same_text(s.as_str(), "none") {
            Some(None)
        } else {
            match date_parse(s.as_str()) {
                Some(d) => Some(Some(d)),
                None => {
                    return Err(owned("Invalid date format. Use YYYY-MM-DD or 'none'."));
                },
            }
        },
    };
    let mut cmds: Vec<Command> = Vec::new();
    if let Some(t) = title {
        cmds.push(Command::EditCardTitle { card_id: card_id.clone(), title: t });
    }
    if let Some(b) = body {
        cmds.push(Command::EditCardDescription { card_id: card_id.clone(), body: b });
    }
    match due_change {
        Some(Some(d)) => cmds.push(Command::SetDueDate { card_id: card_id.clone(), date: d }),
        Some(None) => cmds.push(Command::ClearDueDate { card_id: card_id.clone() }),
        None => {},
    }
    proof {
        let t = flag_at(args@, "--title"@, 1);
        let d = flag_at(args@, "--description"@, 1);
        match card_edits_of(*card_id, args@) {
            Ok(c) => {
                assert(cmds@ =~= c);
            },
            Err(_) => {},
        }
    }
    Ok(cmds)
}

} // verus!
