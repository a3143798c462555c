//! The interface's session state: the mode and the mode to return to, the
//! open dialog and insert handler, the boards of the selector and the open
//! board's editor. Time, the terminal and the files are the caller's
//! part; it hands in what it read and performs what the state asks for.

use vstd::prelude::*;

use crate::board_editor::{BoardEditor, LoadedBoard};
use crate::mode::{is_base, AppMode};
use crate::model::board::BoardMeta;
use crate::model::card::Card;
use crate::model::label::LabelColor;
use crate::text::{owned, push_decimal, push_str, same_text};

verus! {

/// The session: `D` is the dialog type, `I` the insert handler type.
pub struct App<D, I> {
    pub mode: AppMode,
    /// The mode a closed dialog or a cancelled insert returns to.
    pub previous_mode: Option<AppMode>,
    pub should_quit: bool,
    pub status_message: Option<String>,
    /// The active boards, in display order.
    pub boards: Vec<BoardMeta>,
    pub selected_board_idx: usize,
    pub editor: Option<BoardEditor>,
    pub search_query: String,
    pub search_active: bool,
    pub label_filter: Option<LabelColor>,
    pub dialog: Option<D>,
    pub insert: Option<I>,
}

/// How long a status message stays on the status line, in milliseconds.
pub const STATUS_TTL_MS: u64 = 3000;

/// The mode to fall back to when nothing was remembered: the board view
/// with a board open, else the board selector.
pub open spec fn fallback_mode<D, I>(a: App<D, I>) -> AppMode {
    if a.editor is Some {
        AppMode::Normal
    } else {
        AppMode::BoardSelector
    }
}

/// The mode to remember when an overlay opens over `a`: its mode if
/// it is a base view, else what was remembered already (so that a chain of
/// overlays returns to the view it started from).
pub open spec fn remembered<D, I>(a: App<D, I>) -> Option<AppMode> {
    if is_base(a.mode) {
        Some(a.mode)
    } else {
        a.previous_mode
    }
}

/// The state after opening dialog `d`: the mode before is remembered if
/// it is a base view.
pub open spec fn with_dialog<D, I>(a: App<D, I>, d: D) -> App<D, I> {
    App {
        previous_mode: remembered(a),
        dialog: Some(d),
        mode: AppMode::Dialog,
        ..a
    }
}

/// The state after closing the dialog: the remembered mode comes back
/// (and is forgotten), else the fallback.
pub open spec fn without_dialog<D, I>(a: App<D, I>) -> App<D, I> {
    App {
        dialog: None,
        mode: match a.previous_mode {
            Some(m) => m,
            None => fallback_mode(a),
        },
        previous_mode: None,
        ..a
    }
}

/// The state after entering insert mode with handler `h`: the mode before
/// is remembered if it is a base view.
pub open spec fn with_insert<D, I>(a: App<D, I>, h: I) -> App<D, I> {
    App {
        previous_mode: remembered(a),
        insert: Some(h),
        mode: AppMode::Insert,
        ..a
    }
}

/// The state after cancelling insert mode: the remembered mode comes back
/// (and is forgotten), else the fallback.
pub open spec fn without_insert<D, I>(a: App<D, I>) -> App<D, I> {
    App {
        insert: None,
        mode: match a.previous_mode {
            Some(m) => m,
            None => fallback_mode(a),
        },
        previous_mode: None,
        ..a
    }
}

/// The dialog is up exactly in dialog mode and the insert handler exactly
/// in insert mode.
pub open spec fn modes_consistent<D, I>(a: App<D, I>) -> bool {
    &&& (a.dialog is Some <==> a.mode == AppMode::Dialog)
    &&& (a.insert is Some <==> a.mode == AppMode::Insert)
}

/// The selected board index after the board list changed: clamped to the
/// last board, kept when the list is empty.
pub open spec fn clamped_board_idx(idx: usize, len: nat) -> usize {
    if idx >= len && len > 0 {
        (len - 1) as usize
    } else {
        idx
    }
}

/// The board `delta` places from the one at `idx` in a list of `len`
/// boards, wrapping around.
pub open spec fn wrapped(idx: int, delta: int, len: int) -> int {
    (idx + delta) % len
}

/// Index of the first board with id `id`, or -1.
pub open spec fn board_pos(boards: Seq<BoardMeta>, id: Seq<char>) -> int
    decreases boards.len(),
{
    if boards.len() == 0 {
        -1
    } else {
        let r = board_pos(boards.drop_last(), id);
        if r >= 0 {
            r
        } else if boards.last().id@ == id {
            boards.len() - 1
        } else {
            -1
        }
    }
}

proof fn lemma_board_pos(boards: Seq<BoardMeta>, id: Seq<char>)
    ensures
        -1 <= board_pos(boards, id) < boards.len(),
        board_pos(boards, id) >= 0 ==> boards[board_pos(boards, id)].id@ == id,
        board_pos(boards, id) >= 0 ==> forall|k: int| 0 <= k < board_pos(boards, id) ==> boards[k].id@ != id,
        board_pos(boards, id) < 0 ==> forall|k: int| 0 <= k < boards.len() ==> boards[k].id@ != id,
    decreases boards.len(),
{
    if boards.len() > 0 {
        let d = boards.drop_last();
        lemma_board_pos(d, id);
        assert forall|k: int| 0 <= k < d.len() implies d[k] == boards[k] by {}
    }
}

/// Where switching the open board by `delta` goes: the board `delta`
/// places from the open one in display order, wrapping around; nothing
/// with fewer than two boards, without an open board listed, or when the
/// step comes back to the same board.
pub open spec fn cycle_target_of(boards: Seq<BoardMeta>, open_id: Option<Seq<char>>, delta: int) -> Option<int> {
    match open_id {
        Some(id) => {
            let idx = board_pos(boards, id);
            if boards.len() < 2 || idx < 0 {
                None
            } else {
                let t = wrapped(idx, delta, boards.len() as int);
                if t == idx {
                    None
                } else {
                    Some(t)
                }
            }
        },
        None => None,
    }
}

impl<D, I> App<D, I> {
    /// A session on the board selector over `boards`.
    pub fn new(boards: Vec<BoardMeta>) -> (a: Self)
        ensures
            a.mode == AppMode::BoardSelector,
            a.previous_mode is None,
            !a.should_quit,
            a.status_message is None,
            a.boards == boards,
            a.selected_board_idx == 0,
            a.editor is None,
            a.search_query@.len() == 0,
            !a.search_active,
            a.label_filter is None,
            a.dialog is None,
            a.insert is None,
            modes_consistent(a),
    {
        App {
            mode: AppMode::BoardSelector,
            previous_mode: None,
            should_quit: false,
            status_message: None,
            boards,
            selected_board_idx: 0,
            editor: None,
            search_query: String::new(),
            search_active: false,
            label_filter: None,
            dialog: None,
            insert: None,
        }
    }

    /// The open board, if any.
    pub fn board(&self) -> (b: Option<&LoadedBoard>)
        ensures
            match self.editor {
                Some(e) => b == Some(&e.board),
                None => b is None,
            },
    {
        match &self.editor {
            Some(e) => Some(e.board()),
            None => None,
        }
    }

    /// The search query, when search is on.
    pub fn search(&self) -> (s: Option<&str>)
        ensures
            s matches Some(q) ==> self.search_active && q@ == self.search_query@,
            s is None ==> !self.search_active,
    {
        if self.search_active {
            Some(self.search_query.as_str())
        } else {
            None
        }
    }

    /// Shows `msg` in the status line.
    pub fn set_status(&mut self, msg: String)
        ensures
            *final(self) == (App { status_message: Some(msg), ..*old(self) }),
    {
        self.status_message = Some(msg);
    }

    /// Whether a periodic reload of the open board may run now: a board is
    /// open, the view is the board, its help or a card detail, and no
    /// insert handler is active.
    pub fn should_reload(&self) -> (b: bool)
        ensures
            b == (self.editor is Some && (self.mode == AppMode::Normal || self.mode == AppMode::Help || self.mode
                == AppMode::CardDetail) && self.insert is None),
    {
        self.editor.is_some() && (self.mode == AppMode::Normal || self.mode == AppMode::Help || self.mode
            == AppMode::CardDetail) && self.insert.is_none()
    }

    /// The periodic tick: the status line is cleared once its message has
    /// been up longer than [`STATUS_TTL_MS`] (`status_age_ms` is its age).
    /// Returns whether the open board is due to be read again: the reload
    /// interval has passed since the last reload and a reload may run now
    /// (see [`Self::should_reload`]).
    pub fn on_tick(&mut self, status_age_ms: u64, since_reload_ms: u64, reload_interval_ms: u64) -> (due: bool)
        ensures
            *final(self) == (App {
                status_message: if status_age_ms > STATUS_TTL_MS {
                    None
                } else {
                    old(self).status_message
                },
                ..*old(self)
            }),
            due == (since_reload_ms >= reload_interval_ms && old(self).editor is Some && (old(self).mode
                == AppMode::Normal || old(self).mode == AppMode::Help || old(self).mode == AppMode::CardDetail)
                && old(self).insert is None),
    {
        if status_age_ms > STATUS_TTL_MS {
            self.status_message = None;
        }
        since_reload_ms >= reload_interval_ms && self.should_reload()
    }

    /// Takes a fresh list of the active boards; the selection is clamped
    /// into it.
    pub fn reload_boards(&mut self, boards: Vec<BoardMeta>)
        ensures
            *final(self) == (App {
                boards,
                selected_board_idx: clamped_board_idx(old(self).selected_board_idx, boards@.len()),
                ..*old(self)
            }),
    {
        self.boards = boards;
        if self.selected_board_idx >= self.boards.len() && self.boards.len() > 0 {
            self.selected_board_idx = self.boards.len() - 1;
        }
    }

    /// Opens the board the editor was loaded for: the board view shows,
    /// and the status line reports repairs made while loading.
    pub fn load_board(&mut self, editor: BoardEditor)
        ensures
            final(self).editor == Some(editor),
            final(self).mode == AppMode::Normal,
            final(self).status_message == if editor.diagnostics@.len() > 0 {
                Some(final(self).status_message->0)
            } else {
                old(self).status_message
            },
            editor.diagnostics@.len() > 0 ==> final(self).status_message->0@ == "Repaired "@ + crate::text::decimal(
                editor.diagnostics@.len(),
            ) + " reference issue(s) on load — see card order/labels"@,
            *final(self) == (App { editor: final(self).editor, mode: final(self).mode, status_message: final(self).status_message, ..*old(self) }),
    {
        let repaired = editor.diagnostics.len();
        self.editor = Some(editor);
        self.mode = AppMode::Normal;
        if repaired > 0 {
            let mut msg = owned("Repaired ");
            push_decimal(&mut msg, repaired);
            push_str(&mut msg, " reference issue(s) on load — see card order/labels");
            self.status_message = Some(msg);
        }
    }

    /// Closes the open board and returns to the board selector over a
    /// fresh list of the boards.
    pub fn close_board(&mut self, boards: Vec<BoardMeta>)
        ensures
            *final(self) == (App {
                editor: None,
                boards,
                selected_board_idx: clamped_board_idx(old(self).selected_board_idx, boards@.len()),
                mode: AppMode::BoardSelector,
                ..*old(self)
            }),
    {
        self.editor = None;
        self.reload_boards(boards);
        self.mode = AppMode::BoardSelector;
    }

    /// The periodic reload read the open board again: the editor takes it,
    /// keeping the selection where it fits (see `BoardEditor::reload`).
    pub fn reloaded(&mut self, meta: BoardMeta, cards: Vec<Card>)
        ensures
            match old(self).editor {
                Some(e) => final(self).editor matches Some(f) && f.board.meta == meta && f.board.cards == cards
                    && f.diagnostics == e.diagnostics,
                None => final(self).editor is None,
            },
            final(self).mode == old(self).mode,
            final(self).dialog == old(self).dialog,
            final(self).insert == old(self).insert,
    {
        match self.editor.take() {
            Some(mut e) => {
                e.reload(meta, cards);
                self.editor = Some(e);
            },
            None => {},
        }
    }

    /// The periodic reload found the board gone: the editor is dropped and
    /// the board selector shows over a fresh list of the boards.
    pub fn board_vanished(&mut self, boards: Vec<BoardMeta>)
        ensures
            *final(self) == (App {
                editor: None,
                boards,
                selected_board_idx: clamped_board_idx(old(self).selected_board_idx, boards@.len()),
                mode: AppMode::BoardSelector,
                ..*old(self)
            }),
    {
        self.close_board(boards);
    }

    /// Opens a modal dialog, remembering the current mode if it is a base
    /// view, so that closing it returns there.
    pub fn open_dialog(&mut self, dialog: D)
        ensures
            *final(self) == with_dialog(*old(self), dialog),
    {
        if self.mode.is_base_view() {
            self.previous_mode = Some(self.mode);
        }
        self.dialog = Some(dialog);
        self.mode = AppMode::Dialog;
    }

    /// Opens a modal dialog over a live insert handler: the remembered mode
    /// stays the one the editor was opened from.
    pub fn open_dialog_over_insert(&mut self, dialog: D)
        ensures
            *final(self) == (App { dialog: Some(dialog), mode: AppMode::Dialog, ..*old(self) }),
    {
        self.dialog = Some(dialog);
        self.mode = AppMode::Dialog;
    }

    /// Closes the dialog, returning to the remembered mode or the fallback.
    pub fn close_dialog(&mut self)
        ensures
            *final(self) == without_dialog(*old(self)),
    {
        self.dialog = None;
        let fallback = if self.editor.is_some() {
            AppMode::Normal
        } else {
            AppMode::BoardSelector
        };
        self.mode = match self.previous_mode.take() {
            Some(m) => m,
            None => fallback,
        };
    }

    /// Closes the dialog to `target`, keeping the remembered mode.
    pub fn close_dialog_to(&mut self, target: AppMode)
        ensures
            *final(self) == (App { dialog: None, mode: target, ..*old(self) }),
    {
        self.dialog = None;
        self.mode = target;
    }

    /// Enters insert mode with `handler`, remembering the current mode if it
    /// is a base view, for a cancel.
    pub fn start_insert(&mut self, handler: I)
        ensures
            *final(self) == with_insert(*old(self), handler),
    {
        if self.mode.is_base_view() {
            self.previous_mode = Some(self.mode);
        }
        self.insert = Some(handler);
        self.mode = AppMode::Insert;
    }

    /// Leaves insert mode, returning to the remembered mode or the
    /// fallback.
    pub fn cancel_insert(&mut self)
        ensures
            *final(self) == without_insert(*old(self)),
    {
        self.insert = None;
        let fallback = if self.editor.is_some() {
            AppMode::Normal
        } else {
            AppMode::BoardSelector
        };
        self.mode = match self.previous_mode.take() {
            Some(m) => m,
            None => fallback,
        };
    }
}

/// Where switching the open board by `delta` goes (see
/// [`cycle_target_of`]).
pub fn cycle_target(boards: &Vec<BoardMeta>, open_id: Option<&str>, delta: i32) -> (r: Option<usize>)
    ensures
        r matches Some(t) ==> cycle_target_of(boards@, crate::board_editor::search_view(open_id), delta as int) == Some(t as int),
        r is None ==> cycle_target_of(boards@, crate::board_editor::search_view(open_id), delta as int) is None,
{
    let len = boards.len();
    if len < 2 {
        return None;
    }
    let id = match open_id {
        Some(id) => id,
        None => {
            return None;
        },
    };
    proof {
        lemma_board_pos(boards@, id@);
    }
    let mut idx: usize = 0;
    let mut found = false;
    while idx < len && !found
        invariant
            len == boards@.len(),
            idx <= len,
            found ==> idx < len && boards@[idx as int].id@ == id@,
            forall|k: int| 0 <= k < idx ==> boards@[k].id@ != id@,
        decreases len - idx + (if found { 0int } else { 1int }),
    {
        if same_text(boards[idx].id.as_str(), id) {
            found = true;
        } else {
            idx += 1;
        }
    }
    if !found {
        return None;
    }
    proof {
        if board_pos(boards@, id@) != idx {
            assert(boards@[board_pos(boards@, id@)].id@ == id@);
        }
    }
    let n: u128 = len as u128;
    let raw: i128 = idx as i128 + delta as i128;
    let t: u128 = if raw >= 0 {
        let x: u128 = raw as u128;
        let q = x / n;
        let r = x % n;
        proof {
            vstd::arithmetic::div_mod::lemma_fundamental_div_mod(x as int, n as int);
            assert(raw == q * n + r) by (nonlinear_arith)
                requires
                    x == n * q + r,
                    raw == x,
            ;
            vstd::arithmetic::div_mod::lemma_fundamental_div_mod_converse(raw as int, n as int, q as int, r as int);
        }
        r
    } else {
        let neg: u128 = (-raw) as u128;
        let r = neg % n;
        let q = neg / n;
        proof {
            vstd::arithmetic::div_mod::lemma_fundamental_div_mod(neg as int, n as int);
        }
        if r == 0 {
            proof {
                assert(raw == -(q as int) * n + 0) by (nonlinear_arith)
                    requires
                        neg == n * q + r,
                        r == 0,
                        neg == -raw,
                ;
                vstd::arithmetic::div_mod::lemma_fundamental_div_mod_converse(raw as int, n as int, -(q as int), 0);
            }
            0
        } else {
            proof {
                assert(raw == (-(q as int) - 1) * n + (n - r)) by (nonlinear_arith)
                    requires
                        neg == n * q + r,
                        neg == -raw,
                ;
                vstd::arithmetic::div_mod::lemma_fundamental_div_mod_converse(
                    raw as int,
                    n as int,
                    -(q as int) - 1,
                    (n - r) as int,
                );
            }
            n - r
        }
    };
    proof {
        assert(t == wrapped(idx as int, delta as int, len as int));
    }
    if t == idx as u128 {
        None
    } else {
        Some(t as usize)
    }
}

/// The remembered mode is a base view, if there is one.
pub open spec fn returns_to_base<D, I>(a: App<D, I>) -> bool {
    match a.previous_mode {
        Some(m) => is_base(m),
        None => true,
    }
}

/// Closing a dialog opened from a base view returns to that view and
/// forgets it; opened over another overlay, closing returns to the view
/// that overlay was opened from.
pub proof fn lemma_dialog_round_trip<D, I>(a: App<D, I>, d: D)
    ensures
        without_dialog(with_dialog(a, d)).mode == if is_base(a.mode) {
            a.mode
        } else {
            match a.previous_mode {
                Some(m) => m,
                None => fallback_mode(a),
            }
        },
        without_dialog(with_dialog(a, d)).dialog is None,
        without_dialog(with_dialog(a, d)).previous_mode is None,
        without_dialog(with_dialog(a, d)).insert == a.insert,
        without_dialog(with_dialog(a, d)).editor == a.editor,
{
}

/// Cancelling an insert started from a base view returns to that view and
/// forgets it; started over another overlay, cancelling returns to the view
/// that overlay was opened from.
pub proof fn lemma_insert_round_trip<D, I>(a: App<D, I>, h: I)
    ensures
        without_insert(with_insert(a, h)).mode == if is_base(a.mode) {
            a.mode
        } else {
            match a.previous_mode {
                Some(m) => m,
                None => fallback_mode(a),
            }
        },
        without_insert(with_insert(a, h)).insert is None,
        without_insert(with_insert(a, h)).previous_mode is None,
        without_insert(with_insert(a, h)).dialog == a.dialog,
        without_insert(with_insert(a, h)).editor == a.editor,
{
}

/// The remembered mode is always a base view, so closing an overlay never
/// lands in an overlay mode without its dialog or handler: every
/// transition keeps it so, and keeps the dialog up exactly in dialog mode
/// and the insert handler exactly in insert mode (opening a dialog from
/// outside insert mode, closing it, starting an insert from outside dialog
/// mode, cancelling it).
pub proof fn lemma_modes_stay_consistent<D, I>(a: App<D, I>, d: D, h: I)
    requires
        returns_to_base(a),
    ensures
        returns_to_base(with_dialog(a, d)),
        returns_to_base(without_dialog(a)),
        returns_to_base(with_insert(a, h)),
        returns_to_base(without_insert(a)),
        is_base(without_dialog(a).mode),
        is_base(without_insert(a).mode),
        modes_consistent(a) && a.mode != AppMode::Insert ==> modes_consistent(with_dialog(a, d)),
        modes_consistent(a) && a.mode == AppMode::Dialog ==> modes_consistent(without_dialog(a)),
        modes_consistent(a) && a.mode != AppMode::Dialog ==> modes_consistent(with_insert(a, h)),
        modes_consistent(a) && a.mode == AppMode::Insert ==> modes_consistent(without_insert(a)),
{
}

} // verus!
