# savepath

A clipboard for file paths. `sap` saves paths (newest first), lists them,
clears them, and prints a shell alias for `pap`; `pap` splices a saved path,
quoted, into a command line and lets the user move it between the words and
between the saved paths before printing the command; `cb` lists, saves and
clears paths too, and runs a command with a saved path in it (after its first
word, or with `-p` in place of every word that is `$`).

- `src/` is the verified library (Verus): the clipboard state, the command
  splicing, the picker's moves, the file-id reader, the alias scripts, and the
  text helpers they rest on, each with its contract; the laws of the picker
  and of the clipboard are proof functions there.
- `app/` is the program around it: command-line grammars (clap), the
  terminal (crossterm), and the clipboard file (RON through serde).
- `tests/` runs the library on concrete values.
