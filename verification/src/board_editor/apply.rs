//! One entry point for every command: validate, apply, clamp the
//! selection.

use vstd::prelude::*;

use super::commands::{
    card_edit_done, card_edit_error, card_edit_fails, is_card_edit, is_list_edit, is_meta_edit, list_edit_error,
    list_edited, meta_edit_error, meta_edited, meta_writes,
};
use super::placement::{ids_known, is_placement, key_fits, placed, placement_error, position_request_of};
use super::{clamped, ApplyContext, BoardEditor, BoardEditorError, LoadedBoard, PendingWrite};
use crate::command::Command;
use crate::model::ids::{new_id, now_micros};

verus! {

/// `e` is what `cmd` meets on `b`: `None` when it succeeds, the error
/// it reports otherwise.
pub open spec fn command_error(b: LoadedBoard, cmd: Command, e: Option<BoardEditorError>) -> bool {
    if is_card_edit(cmd) {
        match e {
            None => !card_edit_fails(b, cmd),
            Some(x) => card_edit_fails(b, cmd) && card_edit_error(b, cmd, x),
        }
    } else if is_meta_edit(cmd) {
        meta_edit_error(b.meta, cmd, e)
    } else if is_list_edit(cmd) {
        list_edit_error(b, cmd, e)
    } else {
        placement_error(b, cmd, e)
    }
}

/// `b2` and `w` are what a successful `cmd` makes of `b`, with `ctx`
/// giving the time, the fresh id and the order key, before the selection
/// is clamped.
pub open spec fn command_applied(b: LoadedBoard, cmd: Command, ctx: ApplyContext, b2: LoadedBoard, w: Seq<PendingWrite>) -> bool {
    if is_card_edit(cmd) {
        card_edit_done(b, cmd, ctx.now, b2, w)
    } else if is_meta_edit(cmd) {
        &&& b2 == (LoadedBoard { meta: b2.meta, ..b })
        &&& meta_edited(b.meta, cmd, ctx.fresh_id, b2.meta)
        &&& meta_writes(cmd, w)
    } else if is_list_edit(cmd) {
        list_edited(b, cmd, ctx.fresh_id, b2, w)
    } else {
        placed(b, cmd, ctx, b2, w)
    }
}

/// `fin` is `mid` with every list's selected ordinal clamped into its
/// shown cards.
pub open spec fn settled(mid: LoadedBoard, fin: LoadedBoard) -> bool {
    &&& fin == (LoadedBoard { selected_card: fin.selected_card, ..mid })
    &&& fin.selected_card@.len() == mid.selected_card@.len()
    &&& forall|i: int| 0 <= i < mid.lists@.len() ==> fin.selected_card@[i] == #[trigger] clamped(mid, i)
    &&& forall|i: int| mid.lists@.len() <= i < mid.selected_card@.len() ==> fin.selected_card@[i] == mid.selected_card@[i]
}

/// The outcome of applying `cmd` with `ctx` to the editor `before`,
/// giving `after` and the result `r`: on success the command's effect
/// followed by clamping, with its writes; on failure the error the
/// command meets, the board unchanged. Only `AddCard` leaves a last added
/// card id.
pub open spec fn applied_with(
    before: BoardEditor,
    after: BoardEditor,
    cmd: Command,
    ctx: ApplyContext,
    r: Result<Vec<PendingWrite>, BoardEditorError>,
) -> bool {
    &&& after.diagnostics == before.diagnostics
    &&& after.last_added_card_id == if r is Ok && cmd is AddCard { Some(ctx.fresh_id) } else { None }
    &&& match r {
        Ok(w) => command_error(before.board, cmd, None) && exists|mid: LoadedBoard|
            command_applied(before.board, cmd, ctx, mid, w@) && #[trigger] settled(mid, after.board),
        Err(e) => command_error(before.board, cmd, Some(e)) && after.board == before.board,
    }
}

impl BoardEditor {
    /// Apply `cmd` with the time, fresh id and order key `ctx` gives; on
    /// success the selection is clamped and the writes the caller must
    /// perform are returned. A rejected command changes nothing.
    pub fn apply_at(&mut self, cmd: Command, ctx: &ApplyContext) -> (r: Result<Vec<PendingWrite>, BoardEditorError>)
        requires
            key_fits(position_request_of(old(self).board, cmd), ctx.new_position),
            old(self).board.selected_card@.len() == old(self).board.lists@.len(),
            old(self).board.scroll_offset@.len() == old(self).board.lists@.len(),
            ids_known(old(self).board),
        ensures
            applied_with(*old(self), *final(self), cmd, *ctx, r),
    {
        self.last_added_card_id = None;
        let ghost start = *self;
        let r = if is_card_edit_cmd(&cmd) {
            self.apply_card_edit(&cmd, ctx.now)
        } else if is_meta_edit_cmd(&cmd) {
            self.apply_meta_edit(cmd, ctx.fresh_id.clone())
        } else if is_list_edit_cmd(&cmd) {
            self.apply_list_edit(cmd, ctx.fresh_id.clone())
        } else {
            self.apply_placement(cmd, ctx)
        };
        match r {
            Ok(w) => {
                let ghost mid = self.board;
                self.board.clamp_selection();
                assert(settled(mid, self.board));
                Ok(w)
            },
            Err(e) => Err(e),
        }
    }

    /// Apply `cmd` now: the current time and a random fresh id complete
    /// `new_position` (see [`BoardEditor::position_request`]) into the
    /// context of [`BoardEditor::apply_at`].
    pub fn apply(&mut self, cmd: Command, new_position: u64) -> (r: Result<Vec<PendingWrite>, BoardEditorError>)
        requires
            key_fits(position_request_of(old(self).board, cmd), new_position),
            old(self).board.selected_card@.len() == old(self).board.lists@.len(),
            old(self).board.scroll_offset@.len() == old(self).board.lists@.len(),
            ids_known(old(self).board),
        ensures
            exists|ctx: ApplyContext|
                ctx.new_position == new_position && #[trigger] applied_with(*old(self), *final(self), cmd, ctx, r),
    {
        let ctx = ApplyContext { now: now_micros(), fresh_id: new_id(), new_position };
        let r = self.apply_at(cmd, &ctx);
        assert(applied_with(*old(self), *self, cmd, ctx, r));
        r
    }
}

fn is_card_edit_cmd(cmd: &Command) -> (b: bool)
    ensures
        b == is_card_edit(*cmd),
{
    match cmd {
        Command::ArchiveCard { .. } | Command::EditCardTitle { .. } | Command::EditCardDescription { .. }
        | Command::SetDueDate { .. } | Command::ClearDueDate { .. } | Command::AddChecklistItem { .. }
        | Command::EditChecklistItem { .. } | Command::ToggleChecklistItem { .. }
        | Command::RemoveChecklistItem { .. } | Command::ReorderChecklistItem { .. }
        | Command::ToggleLabel { .. } => true,
        _ => false,
    }
}

fn is_meta_edit_cmd(cmd: &Command) -> (b: bool)
    ensures
        b == is_meta_edit(*cmd),
{
    match cmd {
        Command::ArchiveBoard { .. } | Command::RestoreBoard { .. } | Command::RenameBoard { .. }
        | Command::SetAccentColor { .. } | Command::DefineLabel { .. } | Command::RenameLabel { .. }
        | Command::SetLabelColor { .. } | Command::DeleteLabel { .. } | Command::ReorderLabels { .. } => true,
        _ => false,
    }
}

fn is_list_edit_cmd(cmd: &Command) -> (b: bool)
    ensures
        b == is_list_edit(*cmd),
{
    match cmd {
        Command::AddList { .. } | Command::ArchiveList { .. } | Command::RestoreList { .. }
        | Command::RenameList { .. } | Command::MoveList { .. } => true,
        _ => false,
    }
}

} // verus!
