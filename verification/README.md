# codex_hooks

What stop hooks and ad-hoc memory notes decide, written and proved in Verus.

- `src/` is the verified library. It runs no command and touches no file.
  - `stop`: what one run of a stop hook means, and what all of them decide together
  - `stop_run`: a run of all stop hooks for one request, as a state machine
  - `stop_laws`: what holds of stop hooks whatever they do
  - `changed_files`, `path_order`: the list of changed files that hooks are told about
  - `output_parser`: the JSON that a stop hook writes
  - `engine`, `protocol`, `text`: what these share
  - `ad_hoc`: when the instructions for memory notes are written
  - `ad_hoc_note`: what a memory note may look like
- `app/` runs git, the hooks' commands and the file operations, as the library says.
- `tests/` runs the library.
