//! The interface's modes.

use vstd::prelude::*;

verus! {

/// What the interface is showing and where keys go.
#[derive(Debug, Clone, Copy, PartialEq, Eq, Structural)]
pub enum AppMode {
    BoardSelector,
    Normal,
    CardDetail,
    /// Editing a line or text; the active insert handler takes the keys.
    Insert,
    Command,
    /// A modal dialog takes the keys.
    Dialog,
    Help,
}

/// The views a closed overlay returns to: the board selector, the board
/// and a card's detail. Dialogs, insert handlers, the command line and the
/// help screen are overlays.
pub open spec fn is_base(m: AppMode) -> bool {
    m == AppMode::BoardSelector || m == AppMode::Normal || m == AppMode::CardDetail
}

impl AppMode {
    /// Whether this is a view an overlay returns to (see [`is_base`]).
    pub fn is_base_view(self) -> (b: bool)
        ensures
            b == is_base(self),
    {
        match self {
            AppMode::BoardSelector | AppMode::Normal | AppMode::CardDetail => true,
            _ => false,
        }
    }
}

} // verus!
