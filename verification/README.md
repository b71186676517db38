# tabl

A terminal spreadsheet for data files (Parquet, CSV, JSON, NDJSON): browse,
edit cells, add and remove rows and columns, derive columns from SQL
expressions, filter, and save, converting between formats on the way.

The logic is a library verified with Verus (`src/`); the program around it
(`app/`) reads and writes files with polars, evaluates SQL expressions and
summary statistics, and drives the terminal with ratatui and crossterm.

## Layout

- `src/text.rs` — character-level text: trimming, words, case, decimals.
- `src/value.rs` — cell values and column types; dates and datetimes through
  chrono.
- `src/frame.rs`, `src/edit.rs`, `src/sheet.rs` — a frame of typed columns,
  the pending-edit overlay, and the sheet: edits, filter view, structural
  changes, baking edits in, and the statistics table.
- `src/app.rs`, `src/event.rs` — the application state machine: modes,
  navigation, commands, and keys and mouse events. Outside work (writing a
  file, evaluating an expression, reading a float) is returned as an `Action`
  and its outcome handed back through `App::finish_*`.
- `src/table.rs`, `src/status.rs`, `src/viewport.rs` — the grid layout
  (which columns fit, widths, cell texts and styles, click geometry) and the
  status line.
- `src/show.rs` — the plain-text table of the `show` and `describe` commands.
- `src/laws.rs` — properties that span several operations, proved.
- `app/` — the command line, polars I/O and evaluation, and the terminal loop.
