//! Application state and its transitions: modal input, vim-style. Navigate
//! in Normal mode, type into a cell in Insert mode, enter `:` commands in
//! Command mode.
//!
//! Work that needs the outside world (writing a file, evaluating an SQL
//! expression, reading a float) is not done here: a transition returns an
//! [`Action`] naming it, and the caller performs it and hands the outcome
//! back through the matching `finish_*` method.

use vstd::prelude::*;
use crate::error::{error_text, Error};
use crate::format::{format_of_extension, lowered_extension, Format};
use crate::frame::Column;
use crate::sheet::{
    added_column, deleted_row, dropped_column, evaluated_column, filter_post, inserted_row,
    name_index, renamed_column, set_cell_post, viewed, window_len, Sheet,
};
use crate::text::{chars_of, concat, decimal, decimal_of, find_char, find_space, first_where, is_word, lower, parse_i64, parse_usize, parsed_i64, parsed_usize, push_char, slice_chars, space_pred, char_pred, split_words, string_of, to_lower, trim, trim_chars, words, join3, views};
use crate::value::{
    date_of_text, datetime_of_text, display_text, dtype_label, parse_date, parse_datetime, DType,
    Value,
};
use crate::table::{editing_text, laid_out, layout, Area, GridLayout};
use crate::view::Snapshot;
use crate::viewport::{GridGeometry, Viewport};

verus! {

/// Input mode.
#[derive(Debug, Clone, Copy, PartialEq, Eq, Structural)]
pub enum Mode {
    Normal,
    Insert,
    Command,
}

/// Outside work that a transition asks the caller to perform.
#[derive(Debug)]
pub enum Action {
    /// Nothing to do.
    Nothing,
    /// Write the sheet's shown rows (`Sheet::materialize_view`) to `path` as
    /// `format`, then report through [`App::finish_write`].
    Write { path: String, format: Format, quit_after: bool },
    /// Evaluate the SQL expression `expr` against the sheet's frame with
    /// pending edits baked in, then report through [`App::finish_eval`].
    Eval { name: String, expr: String },
    /// Evaluate the boolean SQL expression `clause` against the sheet's frame
    /// with pending edits baked in, then report the per-row mask through
    /// [`App::finish_filter`].
    Filter { clause: String },
    /// Read `text` as an `f64`, then report its display text (or `None`
    /// where it is no number) through [`App::commit_float`].
    ReadFloat { text: String },
}

/// `String::pop`: removes and returns the last character.
#[verifier::external_body]
fn pop_char(s: &mut String) -> (r: Option<char>)
    ensures
        old(s)@.len() == 0 ==> r is None && final(s)@ == old(s)@,
        old(s)@.len() > 0 ==> r == Some(old(s)@.last()) && final(s)@ == old(s)@.drop_last(),
{
    s.pop()
}

/// Where the selection scrolls a window to: the offset moves back to the
/// selection when it is above the window, and forward just enough to show it
/// when it is below a window of `page` rows (no change when `page` is 0).
pub open spec fn follow(sel: usize, offset: usize, page: usize) -> usize {
    if sel < offset {
        sel
    } else if page > 0 && sel >= offset + page {
        (sel + 1 - page) as usize
    } else {
        offset
    }
}

/// The selection and offsets pulled back into a sheet of `rows` rows and
/// `cols` columns (the append slot, index `cols`, stays reachable).
pub open spec fn clamped(vp: Viewport, rows: nat, cols: nat) -> Viewport {
    let sel_col = if vp.sel_col < cols {
        vp.sel_col
    } else {
        cols as usize
    };
    let last = if rows > 0 {
        (rows - 1) as usize
    } else {
        0usize
    };
    let sel_row = if vp.sel_row < last {
        vp.sel_row
    } else {
        last
    };
    Viewport {
        sel_col,
        sel_row,
        col_offset: if vp.col_offset < sel_col {
            vp.col_offset
        } else {
            sel_col
        },
        row_offset: if vp.row_offset < sel_row {
            vp.row_offset
        } else {
            sel_row
        },
    }
}

/// The application state.
pub struct App {
    pub sheet: Sheet,
    /// File the sheet was loaded from; `:w` with no argument writes back here.
    pub source: String,
    pub mode: Mode,
    pub viewport: Viewport,
    pub should_quit: bool,
    /// Text typed after `:` in Command mode (without the colon).
    pub command: String,
    /// In-progress text for the cell being edited in Insert mode.
    pub edit: String,
    /// Transient feedback shown in the status bar.
    pub message: Option<String>,
    /// First key of a pending two-key chord (`a` of `aa`), if any.
    pub pending_key: Option<char>,
    /// Visible data rows and columns, fed back by the renderer each frame.
    pub page_rows: usize,
    pub page_cols: usize,
    /// Screen geometry of the last rendered grid, for mouse hit-testing.
    pub grid: Option<GridGeometry>,
}

impl App {
    /// The sheet is consistent.
    pub open spec fn wf(&self) -> bool {
        self.sheet.wf()
    }

    /// Rows shown.
    pub open spec fn nrows(&self) -> nat {
        self.sheet.visible()
    }

    /// Columns of the sheet.
    pub open spec fn ncols(&self) -> nat {
        self.sheet.base().ncols()
    }

    /// Everything but the viewport is as in `o`.
    pub open spec fn same_but_viewport(&self, o: App) -> bool {
        &&& self.sheet == o.sheet
        &&& self.source == o.source
        &&& self.mode == o.mode
        &&& self.should_quit == o.should_quit
        &&& self.command == o.command
        &&& self.edit == o.edit
        &&& self.message == o.message
        &&& self.pending_key == o.pending_key
        &&& self.page_rows == o.page_rows
        &&& self.page_cols == o.page_cols
        &&& self.grid == o.grid
    }

    /// A fresh application over `sheet`, loaded from `source`: Normal mode,
    /// selection at the origin, nothing typed.
    pub fn new(sheet: Sheet, source: String) -> (r: Self)
        requires
            sheet.wf(),
        ensures
            r.wf(),
            r.sheet == sheet,
            r.source == source,
            r.mode == Mode::Normal,
            r.viewport == (Viewport { row_offset: 0, col_offset: 0, sel_row: 0, sel_col: 0 }),
            !r.should_quit,
            r.command@ == Seq::<char>::empty(),
            r.edit@ == Seq::<char>::empty(),
            r.message is None,
            r.pending_key is None,
            r.page_rows == 0,
            r.page_cols == 0,
            (r.grid is None),
    {
        App {
            sheet,
            source,
            mode: Mode::Normal,
            viewport: Viewport { row_offset: 0, col_offset: 0, sel_row: 0, sel_col: 0 },
            should_quit: false,
            command: String::new(),
            edit: String::new(),
            message: None,
            pending_key: None,
            page_rows: 0,
            page_cols: 0,
            grid: None,
        }
    }

    fn rows(&self) -> (r: usize)
        ensures
            r == self.nrows(),
    {
        self.sheet.shape().0
    }

    fn cols(&self) -> (r: usize)
        ensures
            r == self.ncols(),
    {
        self.sheet.shape().1
    }

    /// Ask to quit.
    pub fn quit(&mut self)
        ensures
            final(self).should_quit,
            final(self).sheet == old(self).sheet,
            final(self).mode == old(self).mode,
            final(self).viewport == old(self).viewport,
            final(self).command == old(self).command,
            final(self).edit == old(self).edit,
            final(self).message == old(self).message,
            same_input(*final(self), *old(self)),
    {
        self.should_quit = true;
    }

    /// Enter Command mode (`:`) with an empty buffer.
    pub fn enter_command(&mut self)
        ensures
            enter_command_post(*old(self), *final(self)),
    {
        self.mode = Mode::Command;
        self.command = String::new();
        self.message = None;
    }

    /// Enter Command mode with `prefill` already in the buffer.
    fn start_command(&mut self, prefill: &str)
        ensures
            final(self).mode == Mode::Command,
            final(self).command@ == prefill@,
            final(self).message is None,
            final(self).sheet == old(self).sheet,
            final(self).viewport == old(self).viewport,
            final(self).should_quit == old(self).should_quit,
            final(self).edit == old(self).edit,
            same_input(*final(self), *old(self)),
    {
        self.mode = Mode::Command;
        self.command = String::from_str(prefill);
        self.message = None;
    }

    /// Leave Command mode, dropping the typed command.
    pub fn cancel_command(&mut self)
        ensures
            cancel_command_post(*old(self), *final(self)),
    {
        self.mode = Mode::Normal;
        self.command = String::new();
    }

    /// Type `c` into the command buffer.
    pub fn push_command(&mut self, c: char)
        ensures
            push_command_post(*old(self), *final(self), c),
    {
        push_char(&mut self.command, c);
    }

    /// Delete the last typed command character; backspacing past the start
    /// cancels the command.
    pub fn backspace_command(&mut self)
        ensures
            backspace_command_post(*old(self), *final(self)),
    {
        if pop_char(&mut self.command).is_none() {
            self.cancel_command();
        }
    }

    /// Clear the command buffer but stay in Command mode.
    pub fn clear_command(&mut self)
        ensures
            clear_command_post(*old(self), *final(self)),
    {
        self.command = String::new();
    }

    /// Pull the selection and scroll offsets back in range after the sheet's
    /// shape changes.
    fn clamp_selection(&mut self)
        ensures
            final(self).viewport == clamped(old(self).viewport, old(self).nrows(), old(self).ncols()),
            final(self).same_but_viewport(*old(self)),
    {
        let (rows, cols) = self.sheet.shape();
        let sel_col = if self.viewport.sel_col < cols {
            self.viewport.sel_col
        } else {
            cols
        };
        let last = if rows > 0 {
            rows - 1
        } else {
            0
        };
        let sel_row = if self.viewport.sel_row < last {
            self.viewport.sel_row
        } else {
            last
        };
        let col_offset = if self.viewport.col_offset < sel_col {
            self.viewport.col_offset
        } else {
            sel_col
        };
        let row_offset = if self.viewport.row_offset < sel_row {
            self.viewport.row_offset
        } else {
            sel_row
        };
        self.viewport = Viewport { row_offset, col_offset, sel_row, sel_col };
    }

    /// Scroll vertically so the selected row stays within the window.
    fn follow_row(&mut self)
        ensures
            final(self).viewport == (Viewport {
                row_offset: follow(
                    old(self).viewport.sel_row,
                    old(self).viewport.row_offset,
                    old(self).page_rows,
                ),
                ..old(self).viewport
            }),
            final(self).same_but_viewport(*old(self)),
    {
        let page = self.page_rows;
        let sel = self.viewport.sel_row;
        let off = self.viewport.row_offset;
        if sel < off {
            self.viewport.row_offset = sel;
        } else if page > 0 && sel - off >= page {
            self.viewport.row_offset = sel - page + 1;
        }
    }

    /// Scroll horizontally so the selected column stays visible.
    fn follow_col(&mut self)
        ensures
            final(self).viewport == (Viewport {
                col_offset: follow(
                    old(self).viewport.sel_col,
                    old(self).viewport.col_offset,
                    old(self).page_cols,
                ),
                ..old(self).viewport
            }),
            final(self).same_but_viewport(*old(self)),
    {
        let page = self.page_cols;
        let sel = self.viewport.sel_col;
        let off = self.viewport.col_offset;
        if sel < off {
            self.viewport.col_offset = sel;
        } else if page > 0 && sel - off >= page {
            self.viewport.col_offset = sel - page + 1;
        }
    }

    /// Move the selection `n` rows down, stopping at the last row.
    pub fn move_down(&mut self, n: usize)
        ensures
            down_post(*old(self), *final(self), n),
    {
        let rows = self.rows();
        if rows == 0 {
            return;
        }
        let target = self.viewport.sel_row.saturating_add(n);
        self.viewport.sel_row = if target < rows - 1 {
            target
        } else {
            rows - 1
        };
        self.follow_row();
    }

    /// Move the selection `n` rows up, stopping at the first row.
    pub fn move_up(&mut self, n: usize)
        ensures
            up_post(*old(self), *final(self), n),
    {
        self.viewport.sel_row = self.viewport.sel_row.saturating_sub(n);
        self.follow_row();
    }

    /// Move the selection one column right, up to the append slot past the
    /// last column.
    pub fn move_right(&mut self)
        ensures
            right_post(*old(self), *final(self)),
    {
        let cols = self.cols();
        let target = self.viewport.sel_col.saturating_add(1);
        self.viewport.sel_col = if target < cols {
            target
        } else {
            cols
        };
        self.follow_col();
    }

    /// Move the selection one column left, stopping at the first.
    pub fn move_left(&mut self)
        ensures
            left_post(*old(self), *final(self)),
    {
        self.viewport.sel_col = self.viewport.sel_col.saturating_sub(1);
        self.follow_col();
    }

    /// One page down (at least one row).
    pub fn page_down(&mut self)
        ensures
            down_post(*old(self), *final(self), page_step(*old(self))),
    {
        let n = if self.page_rows > 1 {
            self.page_rows
        } else {
            1
        };
        self.move_down(n);
    }

    /// One page up (at least one row).
    pub fn page_up(&mut self)
        ensures
            up_post(*old(self), *final(self), page_step(*old(self))),
    {
        let n = if self.page_rows > 1 {
            self.page_rows
        } else {
            1
        };
        self.move_up(n);
    }

    /// Select the first row.
    pub fn goto_top(&mut self)
        ensures
            row_moved_to(*old(self), *final(self), 0),
    {
        self.viewport.sel_row = 0;
        self.follow_row();
    }

    /// Select the last row (no change on an empty sheet).
    pub fn goto_bottom(&mut self)
        ensures
            bottom_post(*old(self), *final(self)),
    {
        let rows = self.rows();
        if rows > 0 {
            self.viewport.sel_row = rows - 1;
            self.follow_row();
        }
    }

    /// Jump to row `row` (0-based), clamped to the last row.
    pub fn goto_row(&mut self, row: usize)
        ensures
            goto_post(*old(self), *final(self), row),
    {
        let rows = self.rows();
        if rows == 0 {
            return;
        }
        self.viewport.sel_row = if row < rows - 1 {
            row
        } else {
            rows - 1
        };
        self.follow_row();
    }

    /// Select the first column.
    pub fn goto_first_col(&mut self)
        ensures
            col_moved_to(*old(self), *final(self), 0),
    {
        self.viewport.sel_col = 0;
        self.follow_col();
    }

    /// Select the last column (no change on a sheet without columns).
    pub fn goto_last_col(&mut self)
        ensures
            last_col_post(*old(self), *final(self)),
    {
        let cols = self.cols();
        if cols > 0 {
            self.viewport.sel_col = cols - 1;
            self.follow_col();
        }
    }
}

/// `n` is `o` with the selected row moved to `sel` and the window scrolled
/// to follow it.
pub open spec fn row_moved_to(o: App, n: App, sel: usize) -> bool {
    &&& n.viewport == (Viewport {
        sel_row: sel,
        row_offset: follow(sel, o.viewport.row_offset, o.page_rows),
        ..o.viewport
    })
    &&& n.same_but_viewport(o)
}

/// `n` is `o` with the selected column moved to `sel` and the window
/// scrolled to follow it.
pub open spec fn col_moved_to(o: App, n: App, sel: usize) -> bool {
    &&& n.viewport == (Viewport {
        sel_col: sel,
        col_offset: follow(sel, o.viewport.col_offset, o.page_cols),
        ..o.viewport
    })
    &&& n.same_but_viewport(o)
}

/// The rows a page step moves: the page height, at least one.
pub open spec fn page_step(o: App) -> usize {
    if o.page_rows > 1 {
        o.page_rows
    } else {
        1
    }
}

/// Moving `k` rows down from `o`, stopping at the last row.
pub open spec fn down_post(o: App, n: App, k: usize) -> bool {
    if o.nrows() == 0 {
        n == o
    } else {
        row_moved_to(
            o,
            n,
            if o.viewport.sel_row + k < o.nrows() - 1 {
                (o.viewport.sel_row + k) as usize
            } else {
                (o.nrows() - 1) as usize
            },
        )
    }
}

/// Moving `k` rows up from `o`, stopping at the first row.
pub open spec fn up_post(o: App, n: App, k: usize) -> bool {
    row_moved_to(
        o,
        n,
        if o.viewport.sel_row >= k {
            (o.viewport.sel_row - k) as usize
        } else {
            0usize
        },
    )
}

/// Moving one column right from `o`, up to the append slot.
pub open spec fn right_post(o: App, n: App) -> bool {
    col_moved_to(
        o,
        n,
        if o.viewport.sel_col + 1 < o.ncols() {
            (o.viewport.sel_col + 1) as usize
        } else {
            o.ncols() as usize
        },
    )
}

/// Moving one column left from `o`, stopping at the first.
pub open spec fn left_post(o: App, n: App) -> bool {
    col_moved_to(
        o,
        n,
        if o.viewport.sel_col >= 1 {
            (o.viewport.sel_col - 1) as usize
        } else {
            0usize
        },
    )
}

/// Selecting the last row of `o` (no change when it has none).
pub open spec fn bottom_post(o: App, n: App) -> bool {
    if o.nrows() == 0 {
        n == o
    } else {
        row_moved_to(o, n, (o.nrows() - 1) as usize)
    }
}

/// Selecting row `row` of `o`, clamped to its last row (no change when it
/// has none).
pub open spec fn goto_post(o: App, n: App, row: usize) -> bool {
    if o.nrows() == 0 {
        n == o
    } else {
        row_moved_to(
            o,
            n,
            if row < o.nrows() - 1 {
                row
            } else {
                (o.nrows() - 1) as usize
            },
        )
    }
}

/// Selecting the last column of `o` (no change when it has none).
pub open spec fn last_col_post(o: App, n: App) -> bool {
    if o.ncols() == 0 {
        n == o
    } else {
        col_moved_to(o, n, (o.ncols() - 1) as usize)
    }
}

/// The column type a `:add` argument names, compared case-insensitively.
pub open spec fn dtype_named(s: Seq<char>) -> Option<DType> {
    let l = lower(s);
    if l == "str"@ || l == "string"@ || l == "text"@ || l == "utf8"@ {
        Some(DType::Str)
    } else if l == "int"@ || l == "integer"@ || l == "i64"@ {
        Some(DType::Int)
    } else if l == "float"@ || l == "f64"@ || l == "double"@ || l == "number"@ {
        Some(DType::Float)
    } else if l == "bool"@ || l == "boolean"@ {
        Some(DType::Bool)
    } else if l == "date"@ {
        Some(DType::Date)
    } else if l == "datetime"@ || l == "timestamp"@ {
        Some(DType::Datetime)
    } else {
        None
    }
}

/// Parse a column-type name from a `:add` argument.
pub fn parse_dtype(s: &Vec<char>) -> (r: Option<DType>)
    ensures
        r == dtype_named(s@),
{
    let l = to_lower(s);
    if is_word(&l, "str") || is_word(&l, "string") || is_word(&l, "text") || is_word(&l, "utf8") {
        Some(DType::Str)
    } else if is_word(&l, "int") || is_word(&l, "integer") || is_word(&l, "i64") {
        Some(DType::Int)
    } else if is_word(&l, "float") || is_word(&l, "f64") || is_word(&l, "double") || is_word(
        &l,
        "number",
    ) {
        Some(DType::Float)
    } else if is_word(&l, "bool") || is_word(&l, "boolean") {
        Some(DType::Bool)
    } else if is_word(&l, "date") {
        Some(DType::Date)
    } else if is_word(&l, "datetime") || is_word(&l, "timestamp") {
        Some(DType::Datetime)
    } else {
        None
    }
}

/// The command word of a typed command: the trimmed text up to its first
/// white space.
pub open spec fn command_word(s: Seq<char>) -> Seq<char> {
    let t = trim(s);
    t.take(first_where(t, space_pred()))
}

/// The argument text of a typed command: what follows the command word's
/// terminating white-space character, trimmed.
pub open spec fn command_rest(s: Seq<char>) -> Seq<char> {
    let t = trim(s);
    let i = first_where(t, space_pred());
    if i < t.len() {
        trim(t.skip(i + 1))
    } else {
        Seq::empty()
    }
}

/// The name and expression of an `:eval` argument `name = expr`, split at the
/// first `=` and trimmed; `None` without an `=`.
pub open spec fn eval_parts(rest: Seq<char>) -> Option<(Seq<char>, Seq<char>)> {
    let i = first_where(rest, char_pred('='));
    if i < rest.len() {
        Some((trim(rest.take(i)), trim(rest.skip(i + 1))))
    } else {
        None
    }
}

/// `o` differs from `n` at most in the sheet, viewport, message and quit flag.
pub open spec fn same_input(n: App, o: App) -> bool {
    &&& n.source == o.source
    &&& n.edit == o.edit
    &&& n.pending_key == o.pending_key
    &&& n.page_rows == o.page_rows
    &&& n.page_cols == o.page_cols
    &&& n.grid == o.grid
}

/// `n.message` holds exactly the text `t`.
pub open spec fn says(n: App, t: Seq<char>) -> bool {
    n.message matches Some(m) && m@ == t
}

/// `n` is `o` with only its message set to `t`.
pub open spec fn only_says(n: App, o: App, t: Seq<char>) -> bool {
    &&& n.sheet == o.sheet
    &&& n.viewport == o.viewport
    &&& n.should_quit == o.should_quit
    &&& says(n, t)
}

/// The outcome of `:add` with arguments `args` on `o`.
pub open spec fn add_command_post(o: App, n: App, args: Seq<Seq<char>>) -> bool {
    if args.len() == 1 || (args.len() == 2 && dtype_named(args[1]) is Some) {
        let name = args[0];
        let dtype = if args.len() == 1 {
            DType::Str
        } else {
            dtype_named(args[1])->0
        };
        if o.sheet.base().has_name(name) {
            only_says(n, o, "column `"@ + name + "` already exists"@)
        } else {
            &&& added_column(o.sheet, n.sheet, name, dtype, o.viewport.sel_col)
            &&& n.viewport == clamped(o.viewport, n.nrows(), n.ncols())
            &&& n.should_quit == o.should_quit
            &&& says(n, "added column `"@ + name + "` ("@ + dtype_label(dtype) + ")"@)
        }
    } else if args.len() == 2 {
        only_says(n, o, "unknown dtype `"@ + args[1] + "` (str/int/float/bool)"@)
    } else {
        only_says(n, o, "usage: :add <name> [dtype]"@)
    }
}

/// The column `:delete` or `:rename` acts on when no name is given: the one
/// under the cursor.
pub open spec fn active_name(o: App) -> Option<Seq<char>> {
    if o.viewport.sel_col < o.ncols() {
        Some(o.sheet.base().name_of(o.viewport.sel_col as int))
    } else {
        None
    }
}

/// The outcome of `:delete` with arguments `args` on `o`.
pub open spec fn delete_command_post(o: App, n: App, args: Seq<Seq<char>>) -> bool {
    if args.len() > 1 {
        only_says(n, o, "usage: :delete [name]"@)
    } else if args.len() == 0 && active_name(o) is None {
        only_says(n, o, "no column under the cursor"@)
    } else {
        let name = if args.len() == 1 {
            args[0]
        } else {
            active_name(o)->0
        };
        if !o.sheet.base().has_name(name) {
            only_says(n, o, "no column `"@ + name + "`"@)
        } else {
            &&& dropped_column(o.sheet, n.sheet, name)
            &&& n.viewport == clamped(o.viewport, n.nrows(), n.ncols())
            &&& n.should_quit == o.should_quit
            &&& says(n, "deleted column `"@ + name + "`"@)
        }
    }
}

/// The outcome of `:rename` with arguments `args` on `o`.
pub open spec fn rename_command_post(o: App, n: App, args: Seq<Seq<char>>) -> bool {
    if args.len() == 0 || args.len() > 2 {
        only_says(n, o, "usage: :rename [old] <new>"@)
    } else if args.len() == 1 && active_name(o) is None {
        only_says(n, o, "no column under the cursor"@)
    } else {
        let old = if args.len() == 2 {
            args[0]
        } else {
            active_name(o)->0
        };
        let new = if args.len() == 2 {
            args[1]
        } else {
            args[0]
        };
        if !o.sheet.base().has_name(old) {
            only_says(n, o, "no column `"@ + old + "`"@)
        } else if old != new && o.sheet.base().has_name(new) {
            only_says(n, o, "column `"@ + new + "` already exists"@)
        } else {
            &&& renamed_column(o.sheet, n.sheet, old, new)
            &&& n.viewport == o.viewport
            &&& n.should_quit == o.should_quit
            &&& says(n, "renamed `"@ + old + "` \u{2192} `"@ + new + "`"@)
        }
    }
}

impl App {
    fn say(&mut self, t: &str)
        ensures
            final(self).message matches Some(m) && m@ == t@,
            final(self).sheet == old(self).sheet,
            final(self).viewport == old(self).viewport,
            final(self).should_quit == old(self).should_quit,
            final(self).mode == old(self).mode,
            final(self).command == old(self).command,
            same_input(*final(self), *old(self)),
    {
        self.message = Some(String::from_str(t));
    }

    fn say_chars(&mut self, t: &Vec<char>)
        ensures
            final(self).message matches Some(m) && m@ == t@,
            final(self).sheet == old(self).sheet,
            final(self).viewport == old(self).viewport,
            final(self).should_quit == old(self).should_quit,
            final(self).mode == old(self).mode,
            final(self).command == old(self).command,
            same_input(*final(self), *old(self)),
    {
        self.message = Some(string_of(t));
    }

    /// `:add <name> [dtype]`: insert a new null column at the cursor, the
    /// current column shifting right; the new column becomes active.
    fn add_column(&mut self, args: &Vec<Vec<char>>)
        requires
            old(self).wf(),
        ensures
            final(self).wf(),
            add_command_post(*old(self), *final(self), views(args@)),
            final(self).mode == old(self).mode,
            final(self).command == old(self).command,
            same_input(*final(self), *old(self)),
    {
        let n = args.len();
        if n == 0 || n > 2 {
            self.say("usage: :add <name> [dtype]");
            return;
        }
        let dtype = if n == 1 {
            DType::Str
        } else {
            match parse_dtype(&args[1]) {
                Some(d) => d,
                None => {
                    let m = concat(
                        &concat(&chars_of("unknown dtype `"), &args[1]),
                        &chars_of("` (str/int/float/bool)"),
                    );
                    self.say_chars(&m);
                    return;
                },
            }
        };
        let name = string_of(&args[0]);
        let index = self.viewport.sel_col;
        match self.sheet.add_column(name.as_str(), dtype, index) {
            Ok(()) => {
                self.clamp_selection();
                let m = concat(
                    &concat(
                        &concat(&concat(&chars_of("added column `"), &args[0]), &chars_of("` (")),
                        &chars_of(dtype.label()),
                    ),
                    &chars_of(")"),
                );
                self.say_chars(&m);
            },
            Err(err) => {
                let m = err.message();
                self.message = Some(m);
            },
        }
    }

    /// `:delete [name]`: drop the named column, or the active one.
    fn delete_column(&mut self, args: &Vec<Vec<char>>)
        requires
            old(self).wf(),
        ensures
            final(self).wf(),
            delete_command_post(*old(self), *final(self), views(args@)),
            final(self).mode == old(self).mode,
            final(self).command == old(self).command,
            same_input(*final(self), *old(self)),
    {
        let n = args.len();
        if n > 1 {
            self.say("usage: :delete [name]");
            return;
        }
        let name: Vec<char> = if n == 1 {
            args[0].clone()
        } else {
            let sel = self.viewport.sel_col;
            if sel < self.sheet.shape().1 {
                let meta = self.sheet.column_meta();
                chars_of(meta[sel].name.as_str())
            } else {
                self.say("no column under the cursor");
                return;
            }
        };
        let s = string_of(&name);
        match self.sheet.drop_column(s.as_str()) {
            Ok(()) => {
                self.clamp_selection();
                let m = concat(&concat(&chars_of("deleted column `"), &name), &chars_of("`"));
                self.say_chars(&m);
            },
            Err(err) => {
                let m = err.message();
                self.message = Some(m);
            },
        }
    }

    /// `:rename <new>` renames the active column; `:rename <old> <new>`
    /// renames by name.
    fn rename_column(&mut self, args: &Vec<Vec<char>>)
        requires
            old(self).wf(),
        ensures
            final(self).wf(),
            rename_command_post(*old(self), *final(self), views(args@)),
            final(self).mode == old(self).mode,
            final(self).command == old(self).command,
            same_input(*final(self), *old(self)),
    {
        let n = args.len();
        if n == 0 || n > 2 {
            self.say("usage: :rename [old] <new>");
            return;
        }
        let (old_name, new_name): (Vec<char>, Vec<char>) = if n == 2 {
            (args[0].clone(), args[1].clone())
        } else {
            let sel = self.viewport.sel_col;
            if sel < self.sheet.shape().1 {
                let meta = self.sheet.column_meta();
                (chars_of(meta[sel].name.as_str()), args[0].clone())
            } else {
                self.say("no column under the cursor");
                return;
            }
        };
        let o = string_of(&old_name);
        let w = string_of(&new_name);
        match self.sheet.rename_column(o.as_str(), w.as_str()) {
            Ok(()) => {
                let m = concat(
                    &concat(
                        &concat(&concat(&chars_of("renamed `"), &old_name), &chars_of("` \u{2192} `")),
                        &new_name,
                    ),
                    &chars_of("`"),
                );
                self.say_chars(&m);
            },
            Err(err) => {
                let m = err.message();
                self.message = Some(m);
            },
        }
    }
}


/// How typed text reads as a value of a column of type `dtype`. Blank text
/// is `Null` (the way to clear a cell); text and unknown columns take the
/// text verbatim; other types read the trimmed text and reject what does not
/// parse. `float_reading` is the `f64` reading of the trimmed text (its
/// display text), or `None` where it is no number.
pub open spec fn value_read(
    input: Seq<char>,
    dtype: DType,
    float_reading: Option<Seq<char>>,
    r: Result<Value, String>,
) -> bool {
    let t = trim(input);
    if t.len() == 0 {
        r == Ok::<Value, String>(Value::Null)
    } else {
        match dtype {
            DType::Bool => {
                let l = lower(t);
                if l == "true"@ || l == "t"@ || l == "1"@ || l == "yes"@ || l == "y"@ {
                    r == Ok::<Value, String>(Value::Bool(true))
                } else if l == "false"@ || l == "f"@ || l == "0"@ || l == "no"@ || l == "n"@ {
                    r == Ok::<Value, String>(Value::Bool(false))
                } else {
                    r matches Err(m) && m@ == "expected a boolean, got `"@ + t + "`"@
                }
            },
            DType::Int => match parsed_i64(t) {
                Some(v) => r == Ok::<Value, String>(Value::Int(v)),
                None => r matches Err(m) && m@ == "expected an integer, got `"@ + t + "`"@,
            },
            DType::Float => match float_reading {
                Some(x) => r matches Ok(Value::Float(f)) && f@ == x,
                None => r matches Err(m) && m@ == "expected a number, got `"@ + t + "`"@,
            },
            DType::Date => match date_of_text(t) {
                Some(d) => r == Ok::<Value, String>(Value::Date(d)),
                None => r matches Err(m) && m@ == "expected a date YYYY-MM-DD, got `"@ + t + "`"@,
            },
            DType::Datetime => match datetime_of_text(t) {
                Some(us) => r == Ok::<Value, String>(Value::Datetime(us)),
                None => r matches Err(m) && m@ == "expected a datetime YYYY-MM-DD HH:MM:SS, got `"@
                    + t + "`"@,
            },
            _ => r matches Ok(Value::Str(v)) && v@ == input,
        }
    }
}

fn bracketed(prefix: &str, t: &Vec<char>) -> (r: String)
    ensures
        r@ == prefix@ + t@ + "`"@,
{
    string_of(&concat(&concat(&chars_of(prefix), t), &chars_of("`")))
}

/// Parse typed text into a [`Value`] for a column of type `dtype`, as
/// [`value_read`] states.
pub fn parse_value(input: &str, dtype: DType, float_reading: Option<String>) -> (r: Result<Value, String>)
    ensures
        value_read(
            input@,
            dtype,
            match float_reading {
                Some(x) => Some(x@),
                None => None,
            },
            r,
        ),
{
    let t = trim_chars(&chars_of(input));
    if t.len() == 0 {
        return Ok(Value::Null);
    }
    match dtype {
        DType::Bool => {
            let l = to_lower(&t);
            if is_word(&l, "true") || is_word(&l, "t") || is_word(&l, "1") || is_word(&l, "yes")
                || is_word(&l, "y") {
                Ok(Value::Bool(true))
            } else if is_word(&l, "false") || is_word(&l, "f") || is_word(&l, "0") || is_word(
                &l,
                "no",
            ) || is_word(&l, "n") {
                Ok(Value::Bool(false))
            } else {
                Err(bracketed("expected a boolean, got `", &t))
            }
        },
        DType::Int => match parse_i64(&t) {
            Some(v) => Ok(Value::Int(v)),
            None => Err(bracketed("expected an integer, got `", &t)),
        },
        DType::Float => match float_reading {
            Some(x) => Ok(Value::Float(x)),
            None => Err(bracketed("expected a number, got `", &t)),
        },
        DType::Date => {
            let ts = string_of(&t);
            proof {
                crate::text::lemma_trim_idempotent(input@);
            }
            match parse_date(ts.as_str()) {
                Some(d) => Ok(Value::Date(d)),
                None => Err(bracketed("expected a date YYYY-MM-DD, got `", &t)),
            }
        },
        DType::Datetime => {
            let ts = string_of(&t);
            proof {
                crate::text::lemma_trim_idempotent(input@);
            }
            match parse_datetime(ts.as_str()) {
                Some(us) => Ok(Value::Datetime(us)),
                None => Err(bracketed("expected a datetime YYYY-MM-DD HH:MM:SS, got `", &t)),
            }
        },
        DType::Str | DType::Unknown => Ok(Value::Str(String::from_str(input))),
    }
}


/// The column type an edit is read as: the selected column's, or text past
/// the last column.
pub open spec fn edit_dtype(o: App) -> DType {
    if o.viewport.sel_col < o.ncols() {
        o.sheet.base().dtype_of(o.viewport.sel_col as int)
    } else {
        DType::Str
    }
}

/// The outcome of committing the edit buffer of `o`, read with `reading` as
/// the float reading of its trimmed text.
pub open spec fn commit_post(o: App, n: App, reading: Option<Seq<char>>) -> bool {
    &&& same_input_but_edit(n, o)
    &&& n.viewport == o.viewport
    &&& n.should_quit == o.should_quit
    &&& n.command == o.command
    &&& exists|r: Result<Value, String>|
            #![trigger value_read(o.edit@, edit_dtype(o), reading, r)]
            value_read(o.edit@, edit_dtype(o), reading, r) && match r {
                Ok(v) => {
                    &&& set_cell_post(o.sheet, n.sheet, o.viewport.sel_row, o.viewport.sel_col, v)
                    &&& n.mode == Mode::Normal
                    &&& n.edit@ == Seq::<char>::empty()
                    &&& n.message is None
                },
                Err(e) => {
                    &&& n.sheet == o.sheet
                    &&& n.mode == o.mode
                    &&& n.edit == o.edit
                    &&& n.message == Some(e)
                },
            }
}

/// The outcome of starting to edit the selected cell of `o`.
pub open spec fn begin_edit_post(o: App, n: App) -> bool {
    if o.nrows() == 0 || o.ncols() == 0 || o.viewport.sel_col >= o.ncols() {
        n == o
    } else {
        &&& n.edit@ == display_text(o.sheet.cell_value(o.viewport.sel_row, o.viewport.sel_col))
        &&& n.mode == Mode::Insert
        &&& n.message is None
        &&& n.sheet == o.sheet
        &&& n.viewport == o.viewport
        &&& n.command == o.command
    }
}

/// `n` differs from `o` at most in the sheet, viewport, mode, buffers,
/// message and quit flag.
pub open spec fn same_input_but_edit(n: App, o: App) -> bool {
    &&& n.source == o.source
    &&& n.pending_key == o.pending_key
    &&& n.page_rows == o.page_rows
    &&& n.page_cols == o.page_cols
    &&& n.grid == o.grid
}

impl App {
    /// Primary action on the selected cell: edit it, or on the append slot
    /// past the last column open an `:add ` command awaiting a name.
    pub fn activate(&mut self)
        requires
            old(self).wf(),
        ensures
            final(self).wf(),
            activate_post(*old(self), *final(self)),
    {
        if self.viewport.sel_col >= self.cols() {
            self.start_command("add ");
        } else {
            self.begin_edit();
        }
    }

    /// Start editing the selected cell, the buffer holding its current text.
    /// No change on an empty sheet or the append slot.
    pub fn begin_edit(&mut self)
        requires
            old(self).wf(),
        ensures
            final(self).wf(),
            begin_edit_post(*old(self), *final(self)),
            final(self).should_quit == old(self).should_quit,
            same_input_but_edit(*final(self), *old(self)),
    {
        let (rows, cols) = self.sheet.shape();
        if rows == 0 || cols == 0 || self.viewport.sel_col >= cols {
            return;
        }
        self.edit = self.sheet.cell(self.viewport.sel_row, self.viewport.sel_col).display();
        self.mode = Mode::Insert;
        self.message = None;
    }
}


impl App {
    /// Type `c` into the edit buffer.
    pub fn push_edit(&mut self, c: char)
        ensures
            push_edit_post(*old(self), *final(self), c),
    {
        push_char(&mut self.edit, c);
        self.message = None;
    }

    /// Delete the last character of the edit buffer.
    pub fn backspace_edit(&mut self)
        ensures
            backspace_edit_post(*old(self), *final(self)),
    {
        let _ = pop_char(&mut self.edit);
        self.message = None;
    }

    /// Clear the edit buffer but stay in Insert mode.
    pub fn clear_edit(&mut self)
        ensures
            clear_edit_post(*old(self), *final(self)),
    {
        self.edit = String::new();
        self.message = None;
    }

    /// Abandon the edit.
    pub fn cancel_edit(&mut self)
        ensures
            cancel_edit_post(*old(self), *final(self)),
    {
        self.mode = Mode::Normal;
        self.edit = String::new();
        self.message = None;
    }

    fn commit_with(&mut self, reading: Option<String>)
        requires
            old(self).wf(),
        ensures
            final(self).wf(),
            commit_post(
                *old(self),
                *final(self),
                match reading {
                    Some(x) => Some(x@),
                    None => None,
                },
            ),
    {
        let row = self.viewport.sel_row;
        let col = self.viewport.sel_col;
        let dtype = match self.sheet.dtype_at(col) {
            Some(d) => d,
            None => DType::Str,
        };
        let r = parse_value(self.edit.as_str(), dtype, reading);
        let ghost rg = r;
        match r {
            Ok(value) => {
                self.sheet.set_cell(row, col, value);
                self.mode = Mode::Normal;
                self.edit = String::new();
                self.message = None;
            },
            Err(err) => {
                self.message = Some(err);
            },
        }
        proof {
            let o = *old(self);
            assert(value_read(o.edit@, edit_dtype(o), match reading { Some(x) => Some(x@), None => None }, rg));
        }
    }

    /// Read the edit buffer as a value of the selected column's type and
    /// record it as that cell's edit, returning to Normal mode; on a reading
    /// error stay in Insert mode with the error as message. Past the last
    /// column the buffer is read as text. A non-blank edit of a
    /// float column asks for the float reading of its trimmed text
    /// ([`Action::ReadFloat`]) and changes nothing until [`commit_float`](Self::commit_float).
    pub fn commit_edit(&mut self) -> (a: Action)
        requires
            old(self).wf(),
        ensures
            final(self).wf(),
            commit_edit_post(*old(self), *final(self), a),
    {
        let col = self.viewport.sel_col;
        if col < self.cols() {
            let dtype = match self.sheet.dtype_at(col) {
                Some(d) => d,
                None => DType::Str,
            };
            if dtype == DType::Float {
                let t = trim_chars(&chars_of(self.edit.as_str()));
                if t.len() > 0 {
                    return Action::ReadFloat { text: string_of(&t) };
                }
            }
        }
        self.commit_with(None);
        Action::Nothing
    }

    /// Finish committing an edit of a float column with `reading`, the
    /// display text of the `f64` read from the trimmed buffer (`None` where
    /// it is no number).
    pub fn commit_float(&mut self, reading: Option<String>)
        requires
            old(self).wf(),
        ensures
            final(self).wf(),
            commit_post(
                *old(self),
                *final(self),
                match reading {
                    Some(x) => Some(x@),
                    None => None,
                },
            ),
    {
        self.commit_with(reading);
    }

    /// `aa`: insert a null row just below the cursor's frame row and move onto
    /// it. A row change clears any filter, so the cursor lands by frame row.
    pub fn add_row(&mut self)
        requires
            old(self).wf(),
        ensures
            final(self).wf(),
            add_row_post(*old(self), *final(self)),
    {
        if self.cols() == 0 {
            self.say("add a column first");
            return;
        }
        if self.sheet.shape_height() == usize::MAX {
            self.say("no room for another row");
            return;
        }
        let at = self.sheet.true_row(self.viewport.sel_row).saturating_add(1);
        match self.sheet.insert_row(at) {
            Ok(()) => {
                self.viewport.sel_row = at;
                self.clamp_selection();
                self.follow_row();
                self.say("added row");
            },
            Err(err) => {
                let m = err.message();
                self.message = Some(m);
            },
        }
    }

    /// `dd`: delete the row under the cursor (by its frame row; the filter is
    /// cleared, so the cursor is re-anchored there).
    pub fn delete_row(&mut self)
        requires
            old(self).wf(),
        ensures
            final(self).wf(),
            delete_row_post(*old(self), *final(self)),
    {
        if self.rows() == 0 {
            self.say("no rows to delete");
            return;
        }
        let t = self.sheet.true_row(self.viewport.sel_row);
        self.viewport.sel_row = t;
        match self.sheet.delete_row(t) {
            Ok(()) => {
                self.clamp_selection();
                self.follow_row();
                self.say("deleted row");
            },
            Err(err) => {
                let m = err.message();
                self.message = Some(m);
            },
        }
    }
}


/// The path `:w` writes to: the first argument, or the source file.
pub open spec fn write_path(o: App, args: Seq<Seq<char>>) -> Seq<char> {
    if args.len() > 0 {
        args[0]
    } else {
        o.source@
    }
}

/// The outcome of `:w`/`:wq` on `o`: a write request in the format the path's
/// extension names, or, for an unsupported extension, the failure message.
pub open spec fn write_command_post(o: App, n: App, args: Seq<Seq<char>>, quit_after: bool, a: Action) -> bool {
    let path = write_path(o, args);
    match format_of_extension(lowered_extension(path)) {
        Some(f) => {
            &&& a matches Action::Write { path: p, format, quit_after: q } && p@ == path && format == f
                && q == quit_after
            &&& n.sheet == o.sheet
            &&& n.viewport == o.viewport
            &&& n.should_quit == o.should_quit
            &&& n.message == o.message
        },
        None => {
            &&& a is Nothing
            &&& only_says(n, o, "write failed: "@ + ("unsupported format: "@ + lowered_extension(path)))
        },
    }
}

/// The outcome of the typed command of `o` (mode and buffer handling aside).
pub open spec fn command_post(o: App, n: App, a: Action) -> bool {
    let w = command_word(o.command@);
    let rest = command_rest(o.command@);
    let args = words(rest);
    if parsed_usize(w) is Some {
        a is Nothing && goto_post((App { mode: Mode::Normal, command: n.command, ..o }), n, parsed_usize(w)->0)
    } else if w.len() == 0 {
        &&& a is Nothing
        &&& n.sheet == o.sheet
        &&& n.viewport == o.viewport
        &&& n.should_quit == o.should_quit
        &&& n.message == o.message
    } else if w == "q"@ || w == "quit"@ {
        &&& a is Nothing
        &&& n.sheet == o.sheet
        &&& n.viewport == o.viewport
        &&& n.should_quit
        &&& n.message == o.message
    } else if w == "w"@ || w == "write"@ {
        write_command_post(o, n, args, false, a)
    } else if w == "wq"@ {
        write_command_post(o, n, args, true, a)
    } else if w == "add"@ {
        a is Nothing && add_command_post(o, n, args)
    } else if w == "delete"@ || w == "del"@ || w == "drop"@ {
        a is Nothing && delete_command_post(o, n, args)
    } else if w == "rename"@ || w == "ren"@ {
        a is Nothing && rename_command_post(o, n, args)
    } else if w == "eval"@ {
        match eval_parts(rest) {
            Some((name, expr)) if name.len() > 0 && expr.len() > 0 => {
                &&& a matches Action::Eval { name: nm, expr: ex } && nm@ == name && ex@ == expr
                &&& n.sheet == o.sheet
                &&& n.viewport == o.viewport
                &&& n.should_quit == o.should_quit
                &&& n.message == o.message
            },
            _ => a is Nothing && only_says(n, o, "usage: :eval <col> = <expr>"@),
        }
    } else if w == "filter"@ {
        if rest.len() == 0 {
            &&& a is Nothing
            &&& filter_post(o.sheet, n.sheet, None)
            &&& n.viewport == clamped(
                Viewport { sel_row: 0, row_offset: 0, ..o.viewport },
                n.nrows(),
                n.ncols(),
            )
            &&& n.should_quit == o.should_quit
            &&& says(n, "filter cleared"@)
        } else {
            &&& a matches Action::Filter { clause } && clause@ == rest
            &&& n.sheet == o.sheet
            &&& n.viewport == o.viewport
            &&& n.should_quit == o.should_quit
            &&& n.message == o.message
        }
    } else {
        a is Nothing && only_says(n, o, "unknown command: "@ + w)
    }
}

impl App {
    fn write_request(&mut self, args: &Vec<Vec<char>>, quit_after: bool) -> (a: Action)
        ensures
            write_command_post(*old(self), *final(self), views(args@), quit_after, a),
            final(self).mode == old(self).mode,
            final(self).command == old(self).command,
            same_input(*final(self), *old(self)),
    {
        let path = if args.len() > 0 {
            string_of(&args[0])
        } else {
            self.source.clone()
        };
        match Format::from_path(path.as_str()) {
            Ok(format) => Action::Write { path, format, quit_after },
            Err(err) => {
                let e = err.message();
                let m = concat(&chars_of("write failed: "), &chars_of(e.as_str()));
                assert(m@ == "write failed: "@ + error_text(err));
                self.say_chars(&m);
                Action::Nothing
            },
        }
    }

    /// Execute the typed command and return to Normal mode with an empty
    /// buffer. `:N` jumps to row N; `:q`/`:quit` quits; `:w [path]`/`:write`
    /// and `:wq` ask for a write; `:add`, `:delete`/`:del`/`:drop` and
    /// `:rename`/`:ren` change columns; `:eval <col> = <expr>` and
    /// `:filter <clause>` ask for an evaluation, and a bare `:filter`
    /// clears the filter. The full outcome is [`command_post`].
    pub fn run_command(&mut self) -> (a: Action)
        requires
            old(self).wf(),
        ensures
            final(self).wf(),
            final(self).mode == Mode::Normal,
            final(self).command@ == Seq::<char>::empty(),
            command_post(*old(self), *final(self), a),
            same_input(*final(self), *old(self)),
    {
        let input = chars_of(self.command.as_str());
        let ghost o = *self;
        self.mode = Mode::Normal;
        self.command = String::new();
        let t = trim_chars(&input);
        let i = find_space(&t);
        let cmd = slice_chars(&t, 0, i);
        let rest = if i < t.len() {
            trim_chars(&slice_chars(&t, i + 1, t.len()))
        } else {
            Vec::new()
        };
        proof {
            assert(cmd@ =~= command_word(o.command@));
            if i < t.len() {
                assert(t@.subrange(i + 1, t@.len() as int) =~= t@.skip(i + 1));
            }
            assert(rest@ =~= command_rest(o.command@));
        }
        let args = split_words(&rest);
        match parse_usize(&cmd) {
            Some(row) => {
                self.goto_row(row);
                return Action::Nothing;
            },
            None => {},
        }
        if cmd.len() == 0 {
            Action::Nothing
        } else if is_word(&cmd, "q") || is_word(&cmd, "quit") {
            self.quit();
            Action::Nothing
        } else if is_word(&cmd, "w") || is_word(&cmd, "write") {
            self.write_request(&args, false)
        } else if is_word(&cmd, "wq") {
            self.write_request(&args, true)
        } else if is_word(&cmd, "add") {
            self.add_column(&args);
            Action::Nothing
        } else if is_word(&cmd, "delete") || is_word(&cmd, "del") || is_word(&cmd, "drop") {
            self.delete_column(&args);
            Action::Nothing
        } else if is_word(&cmd, "rename") || is_word(&cmd, "ren") {
            self.rename_column(&args);
            Action::Nothing
        } else if is_word(&cmd, "eval") {
            self.eval_request(&rest)
        } else if is_word(&cmd, "filter") {
            if rest.len() == 0 {
                self.sheet.set_filter(None);
                self.viewport.sel_row = 0;
                self.viewport.row_offset = 0;
                self.clamp_selection();
                self.say("filter cleared");
                Action::Nothing
            } else {
                Action::Filter { clause: string_of(&rest) }
            }
        } else {
            let m = concat(&chars_of("unknown command: "), &cmd);
            self.say_chars(&m);
            Action::Nothing
        }
    }

    fn eval_request(&mut self, rest: &Vec<char>) -> (a: Action)
        ensures
            match eval_parts(rest@) {
                Some((name, expr)) if name.len() > 0 && expr.len() > 0 => {
                    &&& a matches Action::Eval { name: nm, expr: ex } && nm@ == name && ex@ == expr
                    &&& *final(self) == *old(self)
                },
                _ => a is Nothing && only_says(*final(self), *old(self), "usage: :eval <col> = <expr>"@),
            },
            final(self).mode == old(self).mode,
            final(self).command == old(self).command,
            same_input(*final(self), *old(self)),
    {
        let i = find_char(rest, '=');
        if i >= rest.len() {
            self.say("usage: :eval <col> = <expr>");
            return Action::Nothing;
        }
        let name = trim_chars(&slice_chars(rest, 0, i));
        let expr = trim_chars(&slice_chars(rest, i + 1, rest.len()));
        proof {
            assert(rest@.subrange(0, i as int) =~= rest@.take(i as int));
            assert(rest@.subrange(i + 1, rest@.len() as int) =~= rest@.skip(i + 1));
        }
        if name.len() == 0 || expr.len() == 0 {
            self.say("usage: :eval <col> = <expr>");
            return Action::Nothing;
        }
        Action::Eval { name: string_of(&name), expr: string_of(&expr) }
    }
}


impl App {
    /// Report the outcome of a requested write to `path`: a confirmation,
    /// and quitting when asked to; or the failure.
    pub fn finish_write(&mut self, path: &str, result: Result<(), Error>, quit_after: bool)
        ensures
            final(self).sheet == old(self).sheet,
            final(self).viewport == old(self).viewport,
            final(self).mode == old(self).mode,
            final(self).command == old(self).command,
            same_input(*final(self), *old(self)),
            match result {
                Ok(()) => says(*final(self), "wrote "@ + path@) && final(self).should_quit == (
                old(self).should_quit || quit_after),
                Err(e) => says(*final(self), "write failed: "@ + error_text(e))
                    && final(self).should_quit == old(self).should_quit,
            },
    {
        match result {
            Ok(()) => {
                let m = concat(&chars_of("wrote "), &chars_of(path));
                self.say_chars(&m);
                if quit_after {
                    self.quit();
                }
            },
            Err(err) => {
                let e = err.message();
                let m = concat(&chars_of("write failed: "), &chars_of(e.as_str()));
                self.say_chars(&m);
            },
        }
    }

    /// Store the outcome of a requested `:eval` of column `name`: the
    /// computed column (overwriting `name` or inserted at the cursor), with
    /// the cursor moved onto it; or the error.
    pub fn finish_eval(&mut self, name: &str, result: Result<Column, Error>)
        requires
            old(self).wf(),
        ensures
            final(self).wf(),
            final(self).mode == old(self).mode,
            final(self).command == old(self).command,
            same_input(*final(self), *old(self)),
            match result {
                Err(e) => only_says(*final(self), *old(self), error_text(e)),
                Ok(col) => if col.values@.len() != old(self).sheet.base().height {
                    only_says(
                        *final(self),
                        *old(self),
                        "expression must yield one value per row (got "@ + decimal(
                            col.values@.len(),
                        ) + ", need "@ + decimal(old(self).sheet.base().height as nat) + ")"@,
                    )
                } else {
                    &&& evaluated_column(
                        old(self).sheet,
                        final(self).sheet,
                        name@,
                        col.dtype,
                        col.values@,
                        old(self).viewport.sel_col,
                    )
                    &&& final(self).viewport == clamped(
                        Viewport {
                            sel_col: name_index(final(self).sheet.base(), name@) as usize,
                            ..old(self).viewport
                        },
                        final(self).nrows(),
                        final(self).ncols(),
                    )
                    &&& final(self).should_quit == old(self).should_quit
                    &&& says(*final(self), "evaluated `"@ + name@ + "`"@)
                },
            },
    {
        match result {
            Err(err) => {
                let m = err.message();
                self.message = Some(m);
            },
            Ok(col) => {
                let index = self.viewport.sel_col;
                match self.sheet.eval_column(name, col, index) {
                    Ok(()) => {
                        proof {
                            let f = self.sheet.base();
                            let w = old(self).ncols();
                            if old(self).sheet.base().has_name(name@) {
                                let k = name_index(old(self).sheet.base(), name@);
                                assert(0 <= k < f.ncols() && f.name_of(k) == name@);
                            } else {
                                let at = if index < w { index as int } else { w as int };
                                assert(0 <= at < f.ncols() && f.name_of(at) == name@);
                            }
                            assert(f.has_name(name@));
                        }
                        match self.sheet.column_index(name) {
                            Some(i) => {
                                self.viewport.sel_col = i;
                            },
                            None => {},
                        }
                        self.clamp_selection();
                        let m = join3("evaluated `", name, "`");
                        self.message = Some(m);
                    },
                    Err(err) => {
                        let m = err.message();
                        self.message = Some(m);
                    },
                }
            },
        }
    }

    /// Apply the outcome of a requested `:filter`: the per-row mask of the
    /// clause (showing the rows where it is true, selection back at the top);
    /// or the error.
    pub fn finish_filter(&mut self, result: Result<Vec<Option<bool>>, Error>)
        requires
            old(self).wf(),
        ensures
            final(self).wf(),
            final(self).mode == old(self).mode,
            final(self).command == old(self).command,
            same_input(*final(self), *old(self)),
            finish_filter_post(
                *old(self),
                *final(self),
                match result {
                    Ok(mask) => Ok(mask@),
                    Err(e) => Err(e),
                },
            ),
    {
        match result {
            Err(err) => {
                let m = err.message();
                self.message = Some(m);
            },
            Ok(mask) => {
                self.sheet.set_filter(Some(mask));
                self.viewport.sel_row = 0;
                self.viewport.row_offset = 0;
                self.clamp_selection();
                let n = self.rows();
                let m = concat(
                    &concat(&chars_of("filter: "), &decimal_of(n as u64)),
                    &chars_of(" rows"),
                );
                self.say_chars(&m);
            },
        }
    }

    /// A left click at screen cell `(x, y)`: select the cell under it, if the
    /// last rendered grid has one there.
    pub fn click(&mut self, x: u16, y: u16)
        ensures
            click_post(*old(self), *final(self), x, y),
    {
        let target = match &self.grid {
            Some(g) => if g.is_wf() {
                g.hit(x, y)
            } else {
                None
            },
            None => None,
        };
        match target {
            Some((r, c)) => {
                self.viewport.sel_row = r;
                self.viewport.sel_col = c;
                self.clamp_selection();
                self.follow_row();
                self.follow_col();
            },
            None => {},
        }
    }
}

/// Data rows that fit a grid of `height` lines below its two-line header.
pub open spec fn page_of(height: u16) -> usize {
    if height > 2 {
        (height - 2) as usize
    } else {
        0
    }
}

/// The text of the cell being edited in `o`, if it is in Insert mode.
pub open spec fn editing_of(o: App) -> Option<Seq<char>> {
    if o.mode == Mode::Insert {
        Some(o.edit@)
    } else {
        None
    }
}

impl App {
    /// Lay out the grid for one frame in `grid_area`, feeding the visible row
    /// and column counts and the grid's screen geometry back into the app:
    /// navigation needs them to keep the selection on screen, and mouse
    /// clicks are resolved against the geometry.
    pub fn lay_out(&mut self, grid_area: Area) -> (r: GridLayout)
        requires
            old(self).wf(),
            grid_area.y + 2 <= u16::MAX,
            window_len(old(self).viewport.row_offset, page_of(grid_area.height), old(self).nrows() as usize)
                > 0 ==> old(self).viewport.sel_row >= old(self).viewport.row_offset,
        ensures
            final(self).page_rows == page_of(grid_area.height),
            final(self).page_cols == r.geometry.cols@.len(),
            final(self).grid matches Some(g) && g.same_as(r.geometry),
            exists|s: Snapshot|
                #[trigger] viewed(s, old(self).sheet, old(self).viewport.row_offset, page_of(grid_area.height))
                    && laid_out(r, s, grid_area, old(self).viewport, editing_of(*old(self))),
            final(self).sheet == old(self).sheet,
            final(self).viewport == old(self).viewport,
            final(self).mode == old(self).mode,
            final(self).command == old(self).command,
            final(self).edit == old(self).edit,
            final(self).message == old(self).message,
            final(self).should_quit == old(self).should_quit,
            final(self).pending_key == old(self).pending_key,
            final(self).source == old(self).source,
    {
        // The header is two lines (name and type), so data rows = height - 2.
        self.page_rows = grid_area.height.saturating_sub(2) as usize;
        let snap = self.sheet.view(self.viewport.row_offset, self.page_rows);
        let editing = if self.mode == Mode::Insert {
            Some(self.edit.as_str())
        } else {
            None
        };
        assert(editing_text(editing) == editing_of(*old(self)));
        let r = layout(&snap, grid_area, &self.viewport, editing);
        self.page_cols = r.geometry.cols.len();
        self.grid = Some(r.geometry.copied());
        assert(viewed(snap, old(self).sheet, old(self).viewport.row_offset, page_of(grid_area.height)));
        r
    }
}

/// The outcome on `o` of an evaluated `:filter` clause: a refused clause
/// (`Err`) is reported and changes nothing else, the earlier filter staying
/// in force; a mask becomes the filter, with the selection back at the top.
pub open spec fn finish_filter_post(o: App, n: App, result: Result<Seq<Option<bool>>, Error>) -> bool {
    match result {
        Err(e) => only_says(n, o, error_text(e)),
        Ok(mask) => {
            &&& filter_post(o.sheet, n.sheet, Some(mask))
            &&& n.viewport == clamped(Viewport { sel_row: 0, row_offset: 0, ..o.viewport }, n.nrows(), n.ncols())
            &&& n.should_quit == o.should_quit
            &&& says(n, "filter: "@ + decimal(n.nrows()) + " rows"@)
        },
    }
}

/// A left click at `(x, y)` on `o`: the cell under it selected, if the last
/// rendered grid has one there, and the windows scrolled to follow it.
pub open spec fn click_post(o: App, n: App, x: u16, y: u16) -> bool {
    &&& same_input(n, o)
    &&& n.sheet == o.sheet
    &&& n.mode == o.mode
    &&& n.command == o.command
    &&& n.message == o.message
    &&& n.should_quit == o.should_quit
    &&& match o.grid {
        Some(g) if g.wf() && g.hit_spec(x, y) is Some => {
            let (r, c) = g.hit_spec(x, y)->0;
            let vp = clamped(Viewport { sel_row: r, sel_col: c, ..o.viewport }, o.nrows(), o.ncols());
            n.viewport == (Viewport {
                row_offset: follow(vp.sel_row, vp.row_offset, o.page_rows),
                col_offset: follow(vp.sel_col, vp.col_offset, o.page_cols),
                ..vp
            })
        },
        _ => n.viewport == o.viewport,
    }
}

/// Only the mode, the two buffers and the message may differ between `o`
/// and `n`.
pub open spec fn text_step(o: App, n: App) -> bool {
    &&& n.sheet == o.sheet
    &&& n.viewport == o.viewport
    &&& n.should_quit == o.should_quit
    &&& same_input_but_edit(n, o)
}

/// Entering Command mode with an empty buffer.
pub open spec fn enter_command_post(o: App, n: App) -> bool {
    &&& text_step(o, n)
    &&& n.mode == Mode::Command
    &&& n.command@ == Seq::<char>::empty()
    &&& n.message is None
    &&& n.edit == o.edit
}

/// Leaving Command mode, dropping the typed command.
pub open spec fn cancel_command_post(o: App, n: App) -> bool {
    &&& text_step(o, n)
    &&& n.mode == Mode::Normal
    &&& n.command@ == Seq::<char>::empty()
    &&& n.message == o.message
    &&& n.edit == o.edit
}

/// Typing `c` into the command buffer.
pub open spec fn push_command_post(o: App, n: App, c: char) -> bool {
    &&& text_step(o, n)
    &&& n.mode == o.mode
    &&& n.command@ == o.command@.push(c)
    &&& n.message == o.message
    &&& n.edit == o.edit
}

/// Deleting the last command character; past the start, cancelling.
pub open spec fn backspace_command_post(o: App, n: App) -> bool {
    &&& text_step(o, n)
    &&& n.message == o.message
    &&& n.edit == o.edit
    &&& if o.command@.len() > 0 {
        n.command@ == o.command@.drop_last() && n.mode == o.mode
    } else {
        n.command@ == Seq::<char>::empty() && n.mode == Mode::Normal
    }
}

/// Clearing the command buffer, staying in Command mode.
pub open spec fn clear_command_post(o: App, n: App) -> bool {
    &&& text_step(o, n)
    &&& n.mode == o.mode
    &&& n.command@ == Seq::<char>::empty()
    &&& n.message == o.message
    &&& n.edit == o.edit
}

/// Typing `c` into the edit buffer.
pub open spec fn push_edit_post(o: App, n: App, c: char) -> bool {
    &&& text_step(o, n)
    &&& n.mode == o.mode
    &&& n.command == o.command
    &&& n.edit@ == o.edit@.push(c)
    &&& n.message is None
}

/// Deleting the last character of the edit buffer.
pub open spec fn backspace_edit_post(o: App, n: App) -> bool {
    &&& text_step(o, n)
    &&& n.mode == o.mode
    &&& n.command == o.command
    &&& n.edit@ == if o.edit@.len() > 0 {
        o.edit@.drop_last()
    } else {
        o.edit@
    }
    &&& n.message is None
}

/// Clearing the edit buffer, staying in Insert mode.
pub open spec fn clear_edit_post(o: App, n: App) -> bool {
    &&& text_step(o, n)
    &&& n.mode == o.mode
    &&& n.command == o.command
    &&& n.edit@ == Seq::<char>::empty()
    &&& n.message is None
}

/// Abandoning the edit.
pub open spec fn cancel_edit_post(o: App, n: App) -> bool {
    &&& text_step(o, n)
    &&& n.mode == Mode::Normal
    &&& n.command == o.command
    &&& n.edit@ == Seq::<char>::empty()
    &&& n.message is None
}

/// The primary action on the selected cell of `o`.
pub open spec fn activate_post(o: App, n: App) -> bool {
    &&& n.should_quit == o.should_quit
    &&& same_input_but_edit(n, o)
    &&& if o.viewport.sel_col >= o.ncols() {
        &&& n.mode == Mode::Command
        &&& n.command@ == "add "@
        &&& n.message is None
        &&& n.sheet == o.sheet
        &&& n.viewport == o.viewport
        &&& n.edit == o.edit
        &&& n.pending_key == o.pending_key
    } else {
        begin_edit_post(o, n) && n.pending_key == o.pending_key
    }
}

/// Committing the edit buffer of `o`; for a float column, asking for the
/// float reading first.
pub open spec fn commit_edit_post(o: App, n: App, a: Action) -> bool {
    let t = trim(o.edit@);
    if o.viewport.sel_col < o.ncols() && edit_dtype(o) == DType::Float && t.len() > 0 {
        &&& n == o
        &&& a matches Action::ReadFloat { text } && text@ == t
    } else {
        &&& a is Nothing
        &&& commit_post(o, n, None)
        &&& n.pending_key == o.pending_key
    }
}

/// `aa` on `o`: a null row below the cursor's frame row, selected.
pub open spec fn add_row_post(o: App, n: App) -> bool {
    &&& n.mode == o.mode
    &&& n.command == o.command
    &&& same_input(n, o)
    &&& if o.ncols() == 0 {
        only_says(n, o, "add a column first"@)
    } else if o.sheet.base().height == usize::MAX {
        only_says(n, o, "no room for another row"@)
    } else {
        let t = o.sheet.true_row_of(o.viewport.sel_row);
        let at = if t < usize::MAX {
            (t + 1) as usize
        } else {
            t
        };
        let vp = clamped(Viewport { sel_row: at, ..o.viewport }, n.nrows(), n.ncols());
        &&& inserted_row(o.sheet, n.sheet, at)
        &&& n.viewport == (Viewport { row_offset: follow(vp.sel_row, vp.row_offset, o.page_rows), ..vp })
        &&& n.should_quit == o.should_quit
        &&& says(n, "added row"@)
    }
}

/// `dd` on `o`: the row under the cursor deleted by its frame row.
pub open spec fn delete_row_post(o: App, n: App) -> bool {
    &&& n.mode == o.mode
    &&& n.command == o.command
    &&& same_input(n, o)
    &&& if o.nrows() == 0 {
        only_says(n, o, "no rows to delete"@)
    } else {
        let t = o.sheet.true_row_of(o.viewport.sel_row);
        if t < o.sheet.base().height {
            let vp = clamped(Viewport { sel_row: t, ..o.viewport }, n.nrows(), n.ncols());
            &&& deleted_row(o.sheet, n.sheet, t)
            &&& n.viewport == (Viewport {
                row_offset: follow(vp.sel_row, vp.row_offset, o.page_rows),
                ..vp
            })
            &&& n.should_quit == o.should_quit
            &&& says(n, "deleted row"@)
        } else {
            &&& n.sheet == o.sheet
            &&& n.viewport == (Viewport { sel_row: t, ..o.viewport })
            &&& n.should_quit == o.should_quit
            &&& says(n, "no row "@ + decimal(t as nat))
        }
    }
}

} // verus!
