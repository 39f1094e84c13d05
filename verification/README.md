# HydroShot

A screenshot capture and annotation tool. The `hydroshot` library (`src/`)
holds the program's logic with Verus contracts and proofs; the program
around it (`app/`) holds the windows, the event loop and the operating
system services.

## Library modules

- `undo`, `edits` — command-pattern undo/redo of the annotation list and the
  recorded edits (add, delete, replace, in-place text editing), with the
  laws that undo and redo reverse each other and that every edit is one
  undo step.
- `overlay` — what a key press does in the capture overlay, the cursor of a
  selection zone, the size label and the capture countdown.
- `settings` — the settings window as a state machine over the edited
  configuration.
- `config`, `toolbar_config`, `toolbar`, `tools`, `theme`, `icons`, `tray` —
  tool shortcuts, toolbar layout and buttons, palettes, icon documents and
  the tray menu.
- `hotkey` — parsing global hotkey bindings and recording them from a key
  press (a recorded binding parses back to the same keys).
- `pixels`, `present`, `capture`, `export`, `upload` — cropping,
  compositing, premultiplication, pixelation blocks and their averages,
  surface packing, X11 image conversion, PNG encoding, the upload request
  and reading the link out of the upload reply.
- `history` — which saved captures the history keeps, newest first.
- `path_env`, `window_detect`, `platform`, `cli` — search-path editing,
  window lookup under the cursor, platform fallbacks and the command line.

`tests/` runs the library on concrete values.
