use tabl::app::{Action, App, Mode};
use tabl::error::Error;
use tabl::event::{handle_key, handle_mouse, KeyCode, KeyPress, MouseEvent, MouseKind};
use tabl::format::Format;
use tabl::frame::{Column, Frame};
use tabl::sheet::Sheet;
use tabl::status::status_line;
use tabl::table::{Area, CellStyle};
use tabl::value::{DType, Value};

fn int_col(name: &str, vals: &[i64]) -> Column {
    Column {
        name: name.to_string(),
        dtype: DType::Int,
        values: vals.iter().map(|v| Value::Int(*v)).collect(),
    }
}

fn str_col(name: &str, vals: &[&str]) -> Column {
    Column {
        name: name.to_string(),
        dtype: DType::Str,
        values: vals.iter().map(|v| Value::Str(v.to_string())).collect(),
    }
}

fn app_of(cols: Vec<Column>) -> App {
    let h = cols.first().map(|c| c.values.len()).unwrap_or(0);
    App::new(Sheet::new(Frame::new(h, cols).unwrap()), "test.csv".to_string())
}

fn press(code: KeyCode) -> KeyPress {
    KeyPress::new(code)
}

fn key(app: &mut App, code: KeyCode) -> Action {
    handle_key(app, press(code))
}

fn type_text(app: &mut App, text: &str) {
    for ch in text.chars() {
        key(app, KeyCode::Char(ch));
    }
}

fn run_cmd(app: &mut App, cmd: &str) -> Action {
    key(app, KeyCode::Char(':'));
    type_text(app, cmd);
    key(app, KeyCode::Enter)
}

fn left_click(column: u16, row: u16) -> MouseEvent {
    MouseEvent { kind: MouseKind::LeftDown, column, row }
}

fn scroll(kind: MouseKind) -> MouseEvent {
    MouseEvent { kind, column: 0, row: 0 }
}

/// The grid area of a `width` x `height` screen: all but the status line.
fn grid_area(width: u16, height: u16) -> Area {
    Area { x: 0, y: 0, width, height: height - 1 }
}

fn message(app: &App) -> String {
    app.message.clone().unwrap_or_default()
}

#[test]
fn renders_header_cells_and_status() {
    let mut app = app_of(vec![int_col("id", &[1, 2]), str_col("name", &["alice", "bob"])]);

    let layout = app.lay_out(grid_area(40, 6));
    let names: Vec<&str> = layout.header.iter().map(|h| h.name.as_str()).collect();
    assert!(names.contains(&"name"), "header missing in {names:?}");
    let cells: Vec<&str> = layout.rows.iter().flat_map(|r| r.cells.iter().map(|c| c.text.as_str())).collect();
    assert!(cells.contains(&"alice"), "cell missing in {cells:?}");
    assert!(status_line(&app).text.contains("NORMAL"));
    // The type row renders under the column names.
    let labels: Vec<&str> = layout.header.iter().map(|h| h.label.as_str()).collect();
    assert!(labels.contains(&"int"), "id type missing in {labels:?}");
    assert!(labels.contains(&"str"), "name type missing in {labels:?}");

    // The visible dimensions were fed back to the app: 2 real columns plus
    // the trailing append slot.
    assert!(app.page_rows > 0);
    assert_eq!(app.page_cols, 3);
}

#[test]
fn ctrl_u_clears_buffer_in_both_modes() {
    let ctrl_u = KeyPress::with_ctrl('u');
    let mut app = app_of(vec![int_col("n", &[7])]);

    // Command mode: type then clear, staying in Command mode.
    key(&mut app, KeyCode::Char(':'));
    type_text(&mut app, "filter x");
    handle_key(&mut app, ctrl_u);
    assert_eq!(app.mode, Mode::Command);
    assert_eq!(app.command, "");

    key(&mut app, KeyCode::Esc);

    // Insert mode: the buffer seeds with "7", Ctrl+U clears it, still editing.
    key(&mut app, KeyCode::Char('i'));
    assert_eq!(app.edit, "7");
    handle_key(&mut app, ctrl_u);
    assert_eq!(app.mode, Mode::Insert);
    assert_eq!(app.edit, "");
}

#[test]
fn gg_jumps_to_top_g_alone_is_a_prefix() {
    let mut app = app_of(vec![int_col("a", &[0, 1, 2, 3])]);
    app.page_rows = 10;
    app.goto_bottom();
    assert_eq!(app.viewport.sel_row, 3);

    // `gg` returns to the top.
    key(&mut app, KeyCode::Char('g'));
    assert_eq!(app.pending_key, Some('g'));
    key(&mut app, KeyCode::Char('g'));
    assert_eq!(app.viewport.sel_row, 0);

    // `g` then a motion is not a chord: the motion still happens.
    key(&mut app, KeyCode::Char('g'));
    key(&mut app, KeyCode::Char('j'));
    assert_eq!(app.pending_key, None);
    assert_eq!(app.viewport.sel_row, 1);
}

#[test]
fn colon_number_jumps_to_row() {
    let mut app = app_of(vec![int_col("a", &[0, 1, 2, 3, 4])]);
    app.page_rows = 3;

    run_cmd(&mut app, "3");
    assert_eq!(app.viewport.sel_row, 3);

    // Out of range clamps to the last row.
    run_cmd(&mut app, "999");
    assert_eq!(app.viewport.sel_row, 4);

    run_cmd(&mut app, "0");
    assert_eq!(app.viewport.sel_row, 0);
}

#[test]
fn quit_is_gated_behind_colon_q() {
    let mut app = app_of(vec![int_col("a", &[1])]);

    // A bare `q` does not quit.
    key(&mut app, KeyCode::Char('q'));
    assert!(!app.should_quit);

    // `:` enters Command mode, `q` is buffered, Enter runs it.
    key(&mut app, KeyCode::Char(':'));
    assert_eq!(app.mode, Mode::Command);
    key(&mut app, KeyCode::Char('q'));
    assert_eq!(app.command, "q");
    key(&mut app, KeyCode::Enter);
    assert!(app.should_quit);
    assert_eq!(app.mode, Mode::Normal);
}

#[test]
fn insert_commits_edit_to_overlay() {
    // A single int column; the selection starts at (0, 0).
    let mut app = app_of(vec![int_col("n", &[1, 2])]);

    key(&mut app, KeyCode::Char('i'));
    assert_eq!(app.mode, Mode::Insert);
    assert_eq!(app.edit, "1", "buffer seeds with the current value");

    // Clear it and type "42".
    key(&mut app, KeyCode::Backspace);
    key(&mut app, KeyCode::Char('4'));
    key(&mut app, KeyCode::Char('2'));
    key(&mut app, KeyCode::Enter);

    assert_eq!(app.mode, Mode::Normal);
    assert_eq!(app.sheet.view(0, 1).rows[0][0], Value::Int(42));
}

#[test]
fn insert_rejects_bad_value_and_stays_editing() {
    let mut app = app_of(vec![int_col("n", &[1])]);

    key(&mut app, KeyCode::Char('i'));
    key(&mut app, KeyCode::Backspace);
    key(&mut app, KeyCode::Char('x')); // not an integer
    key(&mut app, KeyCode::Enter);

    assert_eq!(app.mode, Mode::Insert, "stays in Insert on parse error");
    assert!(app.message.is_some(), "surfaces an error message");
    // The cell is untouched.
    assert_eq!(app.sheet.view(0, 1).rows[0][0], Value::Int(1));

    // Esc abandons the edit cleanly.
    key(&mut app, KeyCode::Esc);
    assert_eq!(app.mode, Mode::Normal);
    assert!(app.message.is_none());
}

#[test]
fn add_and_delete_columns_via_commands() {
    let mut app = app_of(vec![int_col("a", &[1, 2]), str_col("b", &["x", "y"])]);
    // The cursor starts on column 0 ("a").

    // `add` inserts left of the cursor; the new column becomes active.
    run_cmd(&mut app, "add id int");
    assert_eq!(app.sheet.shape(), (2, 3));
    let meta = app.sheet.column_meta();
    assert_eq!(meta[0].name, "id"); // took the cursor's slot
    assert_eq!(meta[0].dtype, DType::Int);
    assert_eq!(meta[1].name, "a"); // shifted right
    assert_eq!(app.viewport.sel_col, 0, "selection follows the new column");

    // Move onto "a" (now index 1) and add again; an omitted type is str.
    app.move_right();
    assert_eq!(app.viewport.sel_col, 1);
    run_cmd(&mut app, "add mid");
    let meta = app.sheet.column_meta();
    assert_eq!(meta[1].name, "mid");
    assert_eq!(meta[1].dtype, DType::Str);
    assert_eq!(meta[2].name, "a"); // shifted right again
    assert_eq!(app.viewport.sel_col, 1);

    // Delete by name.
    run_cmd(&mut app, "delete b");
    assert_eq!(app.sheet.shape(), (2, 3));
    assert!(app.sheet.column_meta().iter().all(|c| c.name != "b"));

    // An unknown type is reported, the sheet unchanged.
    let before = app.sheet.shape();
    run_cmd(&mut app, "add oops notatype");
    assert_eq!(app.sheet.shape(), before);
    assert!(message(&app).contains("unknown dtype"));
}

#[test]
fn delete_without_name_drops_active_column() {
    let mut app = app_of(vec![int_col("a", &[1]), str_col("b", &["x"]), int_col("c", &[9])]);

    app.move_right(); // cursor on "b"
    assert_eq!(app.viewport.sel_col, 1);

    run_cmd(&mut app, "delete");
    assert_eq!(app.sheet.shape(), (1, 2));
    let names: Vec<_> = app.sheet.column_meta().into_iter().map(|c| c.name).collect();
    assert_eq!(names, vec!["a", "c"]);
}

#[test]
fn add_at_end_via_phantom_column() {
    let mut app = app_of(vec![int_col("a", &[1, 2]), str_col("b", &["x", "y"])]);

    // Past the last real column onto the append slot.
    app.move_right(); // -> b (1)
    app.move_right(); // -> append slot (2)
    assert_eq!(app.viewport.sel_col, 2);

    // Adding here appends at the far right; the new column becomes active.
    run_cmd(&mut app, "add z int");
    assert_eq!(app.sheet.shape(), (2, 3));
    let meta = app.sheet.column_meta();
    assert_eq!(meta[2].name, "z");
    assert_eq!(app.viewport.sel_col, 2, "selection lands on the new column");
}

#[test]
fn enter_on_phantom_opens_add_command() {
    let mut app = app_of(vec![int_col("a", &[1]), str_col("b", &["x"])]);

    app.move_right(); // -> b
    app.move_right(); // -> append slot
    assert_eq!(app.viewport.sel_col, 2);

    // Enter on the append slot drops into Command mode prefilled with `add `.
    key(&mut app, KeyCode::Enter);
    assert_eq!(app.mode, Mode::Command);
    assert_eq!(app.command, "add ");

    // Type the rest and run it.
    type_text(&mut app, "z int");
    key(&mut app, KeyCode::Enter);

    assert_eq!(app.sheet.shape(), (1, 3));
    assert_eq!(app.sheet.column_meta()[2].name, "z");
}

#[test]
fn null_cells_render_sentinel() {
    let mut app = app_of(vec![int_col("a", &[1, 2])]);
    // A freshly added column is all null.
    run_cmd(&mut app, "add c int");

    let layout = app.lay_out(grid_area(40, 8));
    let nulls: Vec<_> = layout
        .rows
        .iter()
        .flat_map(|r| r.cells.iter())
        .filter(|c| c.text == "<null>")
        .collect();
    assert!(!nulls.is_empty(), "null sentinel missing");
    assert!(nulls.iter().all(|c| c.style == CellStyle::Dim));
}

#[test]
fn eval_adds_overwrites_and_reports_errors() {
    let mut app = app_of(vec![int_col("a", &[1, 2]), int_col("b", &[10, 20])]);
    // The cursor is on column 0 ("a").

    // A new column computed from others, inserted at the cursor; the
    // selection follows onto it. (`a * 2 + b` evaluates to 12, 24.)
    match run_cmd(&mut app, "eval c = a * 2 + b") {
        Action::Eval { name, expr } => {
            assert_eq!(name, "c");
            assert_eq!(expr, "a * 2 + b");
            app.finish_eval(&name, Ok(int_col("c", &[12, 24])));
        }
        other => panic!("expected an evaluation request, got {other:?}"),
    }
    assert_eq!(app.sheet.shape(), (2, 3));
    let c = app.sheet.column_meta().iter().position(|m| m.name == "c").unwrap();
    assert_eq!(app.viewport.sel_col, c, "selection follows the result column");
    assert_eq!(app.sheet.cell(0, c), Value::Int(12)); // 1*2 + 10

    // Overwriting an existing column keeps the shape.
    match run_cmd(&mut app, "eval a = a + 100") {
        Action::Eval { name, .. } => app.finish_eval(&name, Ok(int_col("a", &[101, 102]))),
        other => panic!("expected an evaluation request, got {other:?}"),
    }
    assert_eq!(app.sheet.shape(), (2, 3));
    let a = app.sheet.column_meta().iter().position(|m| m.name == "a").unwrap();
    assert_eq!(app.sheet.cell(0, a), Value::Int(101));

    // A malformed expression reports an error and leaves the sheet unchanged.
    let before = app.sheet.shape();
    match run_cmd(&mut app, "eval bad = nope + 1") {
        Action::Eval { name, .. } => {
            app.finish_eval(&name, Err(Error::Backend("unknown column: nope".to_string())))
        }
        other => panic!("expected an evaluation request, got {other:?}"),
    }
    assert_eq!(app.sheet.shape(), before);
    assert!(app.message.is_some());

    // A missing `=` is a usage error.
    run_cmd(&mut app, "eval whoops");
    assert!(message(&app).contains("usage"));
}

#[test]
fn filter_is_a_toggleable_temporary_view() {
    let mut app = app_of(vec![int_col("a", &[1, 2, 3, 4]), str_col("b", &["x", "y", "z", "w"])]);

    // `a > 2`: two rows; selection and scroll reset to the top.
    match run_cmd(&mut app, "filter a > 2") {
        Action::Filter { clause } => {
            assert_eq!(clause, "a > 2");
            app.finish_filter(Ok(vec![Some(false), Some(false), Some(true), Some(true)]));
        }
        other => panic!("expected a filter request, got {other:?}"),
    }
    assert!(app.sheet.is_filtered());
    assert_eq!(app.sheet.shape().0, 2);
    assert_eq!(app.viewport.sel_row, 0);
    assert_eq!(app.sheet.cell(0, 0), Value::Int(3)); // the first matching row

    // `a > 1`, evaluated against the full frame, never layered.
    match run_cmd(&mut app, "filter a > 1") {
        Action::Filter { .. } => {
            app.finish_filter(Ok(vec![Some(false), Some(true), Some(true), Some(true)]))
        }
        other => panic!("expected a filter request, got {other:?}"),
    }
    assert_eq!(app.sheet.shape().0, 3);

    // A bare `:filter` clears it.
    run_cmd(&mut app, "filter");
    assert!(!app.sheet.is_filtered());
    assert_eq!(app.sheet.shape().0, 4);
}

#[test]
fn add_and_edit_a_date_column() {
    let mut app = app_of(vec![int_col("a", &[1, 2])]);

    // A new date column at the cursor.
    run_cmd(&mut app, "add when date");
    let when = app.sheet.column_meta().iter().position(|c| c.name == "when").unwrap();
    assert_eq!(app.sheet.column_meta()[when].dtype, DType::Date);

    // Edit it by typing a date; it reads and renders back formatted.
    app.viewport.sel_col = when;
    key(&mut app, KeyCode::Char('i'));
    type_text(&mut app, "2026-07-04");
    key(&mut app, KeyCode::Enter);
    assert_eq!(app.mode, Mode::Normal);
    assert_eq!(app.sheet.cell(0, when).display(), "2026-07-04");

    // A malformed date is rejected and keeps you editing.
    key(&mut app, KeyCode::Char('i'));
    type_text(&mut app, "nope");
    key(&mut app, KeyCode::Enter);
    assert_eq!(app.mode, Mode::Insert);
    assert!(app.message.is_some());
}

#[test]
fn rename_active_and_named_columns() {
    let mut app = app_of(vec![int_col("a", &[1]), int_col("b", &[2])]);

    // With one argument the active column is renamed (cursor on 0 = "a").
    run_cmd(&mut app, "rename id");
    assert_eq!(app.sheet.column_meta()[0].name, "id");

    // With two, a column by name.
    run_cmd(&mut app, "rename b value");
    assert_eq!(app.sheet.column_meta()[1].name, "value");

    // Renaming onto an existing name is rejected.
    run_cmd(&mut app, "rename value id");
    assert!(message(&app).contains("already exists"));
}

#[test]
fn aa_adds_row_and_dd_deletes_it() {
    let mut app = app_of(vec![int_col("a", &[1, 2, 3])]);
    app.page_rows = 10;

    // `aa` inserts a null row below and moves onto it.
    key(&mut app, KeyCode::Char('a'));
    key(&mut app, KeyCode::Char('a'));
    assert_eq!(app.sheet.shape(), (4, 1));
    assert_eq!(app.viewport.sel_row, 1);
    assert!(app.sheet.cell(1, 0).is_null());

    // `dd` deletes the current (null) row, restoring the rows as they were.
    key(&mut app, KeyCode::Char('d'));
    key(&mut app, KeyCode::Char('d'));
    assert_eq!(app.sheet.shape(), (3, 1));
    assert_eq!(app.sheet.cell(1, 0), Value::Int(2));
}

#[test]
fn incomplete_chord_falls_through() {
    let mut app = app_of(vec![int_col("a", &[1, 2])]);
    app.page_rows = 10;

    // `a` then `j`: no chord; `j` moves down and no row is added.
    key(&mut app, KeyCode::Char('a'));
    assert_eq!(app.pending_key, Some('a'));
    key(&mut app, KeyCode::Char('j'));
    assert_eq!(app.pending_key, None);
    assert_eq!(app.sheet.shape(), (2, 1), "no row added");
    assert_eq!(app.viewport.sel_row, 1, "moved down instead");
}

#[test]
fn left_click_moves_selection_to_the_clicked_cell() {
    let mut app = app_of(vec![int_col("a", &[0, 3, 6]), int_col("b", &[1, 4, 7]), int_col("c", &[2, 5, 8])]);

    // Lay out once so the grid geometry is captured. At width 40: a one-wide
    // gutter, then columns a/b/c each three wide ("int" is the widest)
    // separated by one space: a at x=2, b at x=6, c at x=10. Data rows begin
    // at y=2, below the two-line header.
    app.lay_out(grid_area(40, 8));

    // A click inside column b on the second data row.
    handle_mouse(&mut app, left_click(7, 3));
    assert_eq!(app.viewport.sel_row, 1);
    assert_eq!(app.viewport.sel_col, 1);

    // A click in the header band selects nothing.
    handle_mouse(&mut app, left_click(7, 0));
    assert_eq!(app.viewport.sel_row, 1);
    assert_eq!(app.viewport.sel_col, 1);

    // Nor does a click below the last data row (only 3 rows are present).
    handle_mouse(&mut app, left_click(7, 6));
    assert_eq!(app.viewport.sel_row, 1);
    assert_eq!(app.viewport.sel_col, 1);
}

#[test]
fn mouse_is_ignored_outside_normal_mode() {
    let mut app = app_of(vec![int_col("a", &[0, 2]), int_col("b", &[1, 3])]);
    app.lay_out(grid_area(40, 8));

    // Begin editing, then click elsewhere: the edit survives untouched.
    key(&mut app, KeyCode::Char('i'));
    assert_eq!(app.mode, Mode::Insert);
    handle_mouse(&mut app, left_click(7, 3));
    assert_eq!(app.mode, Mode::Insert, "click must not exit Insert");
    assert_eq!(app.viewport.sel_row, 0, "selection unchanged while editing");
    assert_eq!(app.viewport.sel_col, 0);
}

#[test]
fn scroll_wheel_moves_the_selection() {
    let mut app = app_of(vec![int_col("a", &[0, 1, 2, 3, 4, 5, 6, 7, 8])]);
    app.page_rows = 20; // room for every row, so the wheel just moves the cursor

    handle_mouse(&mut app, scroll(MouseKind::ScrollDown));
    assert_eq!(app.viewport.sel_row, 3, "scroll down nudges three rows");

    handle_mouse(&mut app, scroll(MouseKind::ScrollUp));
    assert_eq!(app.viewport.sel_row, 0);
}

#[test]
fn navigation_clamps_to_bounds() {
    let mut app = app_of(vec![int_col("a", &[1, 2, 3])]);
    app.page_rows = 10;

    app.move_up(5);
    assert_eq!(app.viewport.sel_row, 0);

    app.move_down(100);
    assert_eq!(app.viewport.sel_row, 2, "should clamp to last row");

    // One column: right moves onto the append slot (index 1), then stops.
    app.move_right();
    assert_eq!(app.viewport.sel_col, 1, "moves onto the phantom slot");
    app.move_right();
    assert_eq!(app.viewport.sel_col, 1, "can't go past the phantom slot");
}

#[test]
fn write_command_asks_for_a_write_in_the_path_format() {
    let mut app = app_of(vec![int_col("n", &[1, 2])]);
    match run_cmd(&mut app, "w out.parquet") {
        Action::Write { path, format, quit_after } => {
            assert_eq!(path, "out.parquet");
            assert_eq!(format, Format::Parquet);
            assert!(!quit_after);
            app.finish_write(&path, Ok(()), quit_after);
        }
        other => panic!("expected a write request, got {other:?}"),
    }
    assert_eq!(app.mode, Mode::Normal);
    assert_eq!(message(&app), "wrote out.parquet");
    assert!(!app.should_quit);

    // With no path, back to the source file; `:wq` quits once written.
    match run_cmd(&mut app, "wq") {
        Action::Write { path, format, quit_after } => {
            assert_eq!(path, "test.csv");
            assert_eq!(format, Format::Csv);
            assert!(quit_after);
            app.finish_write(&path, Ok(()), quit_after);
        }
        other => panic!("expected a write request, got {other:?}"),
    }
    assert!(app.should_quit);
}

#[test]
fn write_to_an_unknown_extension_fails_without_a_request() {
    let mut app = app_of(vec![int_col("n", &[1])]);
    let action = run_cmd(&mut app, "w notes.txt");
    assert!(matches!(action, Action::Nothing));
    assert_eq!(message(&app), "write failed: unsupported format: txt");

    app.finish_write("x.csv", Err(Error::Io("disk full".to_string())), true);
    assert_eq!(message(&app), "write failed: io error: disk full");
    assert!(!app.should_quit);
}

#[test]
fn unknown_command_is_reported() {
    let mut app = app_of(vec![int_col("n", &[1])]);
    run_cmd(&mut app, "frobnicate now");
    assert_eq!(message(&app), "unknown command: frobnicate");
    assert_eq!(app.mode, Mode::Normal);
    assert_eq!(app.command, "");
}

#[test]
fn float_edit_asks_for_the_float_reading() {
    let mut app = app_of(vec![Column {
        name: "x".to_string(),
        dtype: DType::Float,
        values: vec![Value::Float("1.5".to_string())],
    }]);
    key(&mut app, KeyCode::Char('i'));
    assert_eq!(app.edit, "1.5");
    key(&mut app, KeyCode::Backspace);
    type_text(&mut app, "25 ");
    match key(&mut app, KeyCode::Enter) {
        Action::ReadFloat { text } => {
            assert_eq!(text, "1.25");
            app.commit_float(Some("1.25".to_string()));
        }
        other => panic!("expected a float reading request, got {other:?}"),
    }
    assert_eq!(app.mode, Mode::Normal);
    assert_eq!(app.sheet.cell(0, 0), Value::Float("1.25".to_string()));
}

#[test]
fn status_line_reports_position_and_mode() {
    let mut app = app_of(vec![int_col("a", &[1, 2, 3]), int_col("b", &[4, 5, 6])]);
    app.page_rows = 10;
    app.move_down(1);
    let s = status_line(&app);
    assert!(s.reversed);
    assert_eq!(
        s.text,
        " NORMAL   row 2/3   col 1/2   (i edit · aa/dd row · :eval · :w save · :q quit) "
    );

    app.move_right();
    app.move_right();
    key(&mut app, KeyCode::Char('d'));
    assert_eq!(status_line(&app).text, " NORMAL   row 2/3   col +/2   d… ");

    key(&mut app, KeyCode::Esc);
    key(&mut app, KeyCode::Char(':'));
    type_text(&mut app, "w");
    let s = status_line(&app);
    assert_eq!(s.text, ":w");
    assert!(!s.reversed);
}

#[test]
fn status_line_in_insert_mode_shows_buffer_and_error() {
    let mut app = app_of(vec![int_col("a", &[1])]);
    key(&mut app, KeyCode::Char('i'));
    type_text(&mut app, "x");
    key(&mut app, KeyCode::Enter);
    assert_eq!(
        status_line(&app).text,
        " INSERT   1x   (Enter commit · Esc cancel)   ⚠ expected an integer, got `1x`"
    );
}

#[test]
fn layout_marks_the_selected_row_and_column() {
    let mut app = app_of(vec![int_col("a", &[0, 3, 6]), int_col("b", &[1, 4, 7]), int_col("c", &[2, 5, 8])]);
    app.page_rows = 10;
    app.move_down(1);
    app.move_right();
    let layout = app.lay_out(grid_area(40, 8));
    assert_eq!(layout.selected_row, Some(1));
    assert_eq!(layout.selected_col, Some(2)); // the gutter is column 0
    let selected: Vec<bool> = layout.header.iter().map(|h| h.selected).collect();
    assert_eq!(selected, vec![false, true, false, false]);
    assert_eq!(layout.gutter, 1);
    assert_eq!(layout.widths, vec![3, 3, 3, 3]);
    assert_eq!(layout.rows[1].index, "1");
    assert_eq!(layout.rows[1].cells[1].text, "4");
    assert_eq!(layout.rows[1].cells[1].style, CellStyle::Colored(1));
    assert_eq!(layout.rows[1].cells[3].style, CellStyle::Plain);
}

#[test]
fn backspace_undoes_typing() {
    let mut app = app_of(vec![int_col("n", &[5])]);
    key(&mut app, KeyCode::Char(':'));
    type_text(&mut app, "ad");
    key(&mut app, KeyCode::Char('x'));
    key(&mut app, KeyCode::Backspace);
    assert_eq!(app.command, "ad");
    assert_eq!(app.mode, Mode::Command);
    // Backspacing past the start cancels the command.
    key(&mut app, KeyCode::Backspace);
    key(&mut app, KeyCode::Backspace);
    key(&mut app, KeyCode::Backspace);
    assert_eq!(app.mode, Mode::Normal);

    key(&mut app, KeyCode::Char('i'));
    key(&mut app, KeyCode::Char('7'));
    key(&mut app, KeyCode::Backspace);
    assert_eq!(app.edit, "5");
    assert_eq!(app.mode, Mode::Insert);
}

#[test]
fn insert_mode_arrows_leave_the_buffer_alone() {
    let mut app = app_of(vec![int_col("n", &[5])]);
    key(&mut app, KeyCode::Char('i'));
    key(&mut app, KeyCode::Left);
    key(&mut app, KeyCode::Right);
    assert_eq!(app.edit, "5");
    assert_eq!(app.mode, Mode::Insert);
}

#[test]
fn commit_on_the_append_slot_records_text_there() {
    let mut app = app_of(vec![int_col("a", &[1])]);
    app.move_right();
    assert_eq!(app.viewport.sel_col, 1);
    app.mode = Mode::Insert;
    app.edit = "hi".to_string();
    assert!(matches!(app.commit_edit(), Action::Nothing));
    assert_eq!(app.mode, Mode::Normal);
    assert_eq!(app.sheet.cell(0, 1), Value::Str("hi".to_string()));
    // Baking leaves an edit past the last column out of the frame.
    let f = app.sheet.materialize().unwrap();
    assert_eq!(f.columns.len(), 1);
    assert_eq!(f.get(0, 0), Value::Int(1));
}

#[test]
fn refused_filter_keeps_the_view() {
    let mut app = app_of(vec![int_col("a", &[1, 2, 3])]);
    app.finish_filter(Ok(vec![Some(true), Some(false), Some(true)]));
    assert_eq!(app.sheet.shape().0, 2);
    app.finish_filter(Err(Error::Other("filter must be a boolean expression".to_string())));
    assert!(app.sheet.is_filtered());
    assert_eq!(app.sheet.shape().0, 2);
    assert_eq!(message(&app), "filter must be a boolean expression");
}

#[test]
fn type_labels_read_back_in_add() {
    for d in [DType::Bool, DType::Int, DType::Float, DType::Str, DType::Date, DType::Datetime] {
        let label: Vec<char> = d.label().chars().collect();
        assert_eq!(tabl::app::parse_dtype(&label), Some(d));
    }
    assert_eq!(tabl::app::parse_dtype(&vec!['?']), None);
}
