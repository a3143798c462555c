//! The persisted board model: labels, cards, lists and board metadata.

pub mod board;
pub mod calendar;
pub mod card;
pub mod ids;
pub mod label;
pub mod list;
