# nano — a verified editor core

The logic of a small terminal text editor, written in Verus: every function in
`src/` carries a contract that the verifier proves.

## Layout

- `src/bytes.rs`, `src/chars.rs`, `src/strfind.rs` — bytes, characters
  (UTF-8 or single-byte), widths, case-folded comparison and searching.
- `src/definitions.rs` — the editor's constants, flags, commands and small
  record types.
- `src/buffer.rs`, `src/cut.rs` — a file as a list of lines with cursor and
  mark; cutting, copying, pasting, deleting, and putting text back.
- `src/files.rs` — reading and writing file contents (line ends, formats,
  invalid UTF-8), the ring of open buffers, lock file contents, path and
  name handling, completions, and status reports.
- `src/history.rs` — the prompt histories, their browsing and completion,
  the history file and the register of cursor positions.
- `src/global.rs` — key names and codes, the tables of commands and key
  bindings, and toggles.
- `src/help.rs` — the help text for each menu and the help viewer's keys.
- `src/browser.rs` — the file browser's list, layout, selection, search,
  keys and name details.
- `src/color.rs`, `src/syntax.rs` — interface colours; syntax selection,
  colour pairs and the bookkeeping of rules that span lines.
- `src/dialogs.rs` — the decisions of the write-out, insert and execute
  dialogues.

Laws that relate several functions (reading back what was written, undoing
a cut by a paste, switching buffers back and forth, toggling twice, numbering
colour pairs, reading back anchors, the order of a file list, stepping over
a character) are public proof functions next to the functions they are
about.

`tests/` exercises the library on concrete values; `app/` holds the parts
that touch the outside world (files, directories, commands, the password
database, the terminal's UTF-8 mode) and the loops of the interactive
dialogues, which ask a `Screen` for keys and answers and let the library
decide what each one does.
