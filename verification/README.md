# lux

The core of a keyboard-driven launcher, verified with Verus.

- `src/` holds the library: the view stack and its published snapshots, the
  query engine that folds effects into state, view and action registries,
  keymaps and hotkeys, the selection and cursor model of the launcher panel,
  and the single-line text editor with its UTF-8/UTF-16 offset arithmetic.
  Every function there carries a contract, and the laws of the library are
  public proof functions next to the code they speak of.
- `tests/` exercises the library on concrete values.
- `app/` is the headless program around it: Lua scripting through `mlua`,
  configuration files, and the loop that hands events to the library.
