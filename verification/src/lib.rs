//! Terminal Card Tracker core: the board model, the board editor that
//! applies commands to a loaded board, board ordering, CLI argument
//! helpers, single-line text editing and terminal color quantization.

pub mod board_directory;
pub mod board_editor;
pub mod cli;
pub mod cli_format;
pub mod cli_plan;
pub mod command;
pub mod dispatch;
pub mod flow;
pub mod dialog;
pub mod insert;
pub mod key;
pub mod keymap;
pub mod layout;
pub mod migration;
pub mod mode;
pub mod model;
pub mod search;
pub mod session;
pub mod term_caps;
pub mod text;
