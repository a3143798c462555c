# tct — Terminal Card Tracker

A kanban board kept as plain JSON files: boards hold lists, lists hold
cards, and cards carry a description, labels, a checklist, a due date and
a history. It is driven from a terminal interface or from command-line
subcommands.

The core is a Verus library whose behaviour is stated in `requires` /
`ensures` contracts and proved:

- `src/model/` — boards, lists, cards, labels, ids and calendar dates.
- `src/board_editor/` — applying a command to a loaded board: what each
  command changes, which files must be written, where a placed card's
  order key must fall, loading with repair of dangling references, and
  the laws that hold across commands (well-formedness is kept, moves land
  between their shown neighbours).
- `src/board_directory.rs` — board ordering, archiving, accent colours.
- `src/session.rs`, `src/dispatch.rs`, `src/flow.rs`, `src/keymap/`,
  `src/dialog/`, `src/insert/` — the interface's state machine: modes,
  key bindings, dialogs, line and description editing, the date picker.
- `src/cli*.rs`, `src/search.rs` — command-line requests and output text.
- `src/migration.rs`, `src/layout.rs`, `src/term_caps.rs`, `src/text.rs` —
  the older list-file format, file paths, terminal colours, text helpers.

Calls into `chrono`, `regex`, `uuid` and the standard library that the
library makes stand behind small trusted wrappers whose doc comments say
what they claim.

`app/` is the program around the library: file storage, JSON records,
the terminal loop and the command-line entry point. `tests/` runs the
library on concrete inputs.
