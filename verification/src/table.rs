//! Layout of the grid: which columns of a snapshot fit the screen from the
//! column offset on, how wide each is drawn, the text and style of every
//! header and data cell, and the screen geometry that mouse clicks are
//! resolved against.
//!
//! Columns are windowed here because the terminal table widget does not
//! scroll horizontally. Drawing the laid-out grid is left to the caller.

use vstd::prelude::*;
use crate::show::index_width;
use crate::text::{chars_of, decimal, decimal_of, string_of};
use crate::value::{display_text, dtype_label, Value};
use crate::view::Snapshot;
use crate::viewport::{sat16, ColSpan, GridGeometry, Viewport};

verus! {

/// Columns wider than this are clipped.
pub const MAX_COL_WIDTH: usize = 40;

/// Width of the trailing append slot past the real columns, drawn as a dim `+`.
pub const PHANTOM_WIDTH: u16 = 3;

/// Number of colours cycled over the columns.
pub const PALETTE_LEN: usize = 6;

/// Cells between adjacent columns (and after the row-index gutter).
pub const SPACING: u16 = 1;

/// The palette slot of absolute column `col`: stable across horizontal
/// scrolling, cycling so that adjacent columns differ.
pub fn column_color(col: usize) -> (r: usize)
    ensures
        r == col % PALETTE_LEN,
        r < PALETTE_LEN,
{
    col % PALETTE_LEN
}

/// Shown (dimmed) in place of a null cell.
pub open spec fn null_sentinel() -> Seq<char> {
    seq!['<', 'n', 'u', 'l', 'l', '>']
}

/// The screen rectangle the grid is laid out in.
#[derive(Debug, Clone, Copy, PartialEq, Eq, Structural)]
pub struct Area {
    pub x: u16,
    pub y: u16,
    pub width: u16,
    pub height: u16,
}

/// How a data cell is drawn.
#[derive(Debug, Clone, Copy, PartialEq, Eq, Structural)]
pub enum CellStyle {
    /// No style of its own (the append slot).
    Plain,
    /// Faded, like the type labels (a null cell).
    Dim,
    /// In the palette colour of the given slot.
    Colored(usize),
}

/// One data cell: its text and style.
#[derive(Debug)]
pub struct GridCell {
    pub text: String,
    pub style: CellStyle,
}

/// One header cell: the column name over its type label, in the column's
/// palette colour (`None` for the append slot, a dim `+`), tinted when the
/// column is selected.
#[derive(Debug)]
pub struct HeaderCell {
    pub name: String,
    pub label: String,
    pub color: Option<usize>,
    pub selected: bool,
}

/// One data row: its absolute index and its cells.
#[derive(Debug)]
pub struct GridRow {
    pub index: String,
    pub cells: Vec<GridCell>,
}

/// The laid-out grid.
#[derive(Debug)]
pub struct GridLayout {
    /// Width of the row-index gutter.
    pub gutter: u16,
    /// Width of each shown column, left to right.
    pub widths: Vec<u16>,
    pub header: Vec<HeaderCell>,
    pub rows: Vec<GridRow>,
    /// The selected data row within the shown rows, if any are shown.
    pub selected_row: Option<usize>,
    /// The selected column counted from the gutter (which is 0), if shown.
    pub selected_col: Option<usize>,
    /// Where everything landed on screen.
    pub geometry: GridGeometry,
}

/// The drawn width of a cell holding `v`.
pub open spec fn shown_width(v: Value) -> nat {
    if v is Null {
        null_sentinel().len()
    } else {
        display_text(v).len()
    }
}

/// The widest of column `c`'s name, its type label and its cells in the
/// first `k` rows of `snap`.
pub open spec fn widest_in(snap: Snapshot, c: int, k: nat) -> nat
    decreases k,
{
    if k == 0 {
        let n = snap.columns@[c].name@.len();
        let l = dtype_label(snap.columns@[c].dtype).len();
        if n > l {
            n
        } else {
            l
        }
    } else {
        let w = widest_in(snap, c, (k - 1) as nat);
        let row = snap.rows@[k - 1]@;
        let x = if c < row.len() {
            shown_width(row[c])
        } else {
            0
        };
        if x > w {
            x
        } else {
            w
        }
    }
}

/// The drawn width of column `c` of `snap`: its widest text between 1 and
/// [`MAX_COL_WIDTH`]; [`PHANTOM_WIDTH`] for the append slot.
pub open spec fn col_width(snap: Snapshot, c: int) -> u16 {
    if c >= snap.columns@.len() {
        PHANTOM_WIDTH
    } else {
        let w = widest_in(snap, c, snap.rows@.len());
        if w < 1 {
            1
        } else if w > MAX_COL_WIDTH {
            MAX_COL_WIDTH as u16
        } else {
            w as u16
        }
    }
}

/// How many columns from `c` up to `end` are shown when `used` cells of
/// `avail` are taken: each takes its width and a separator, and the first
/// is shown even where it does not fit.
pub open spec fn fitting(snap: Snapshot, avail: int, used: int, c: int, end: int, first: bool) -> nat
    decreases end - c,
{
    if c >= end {
        0
    } else {
        let needed = col_width(snap, c) + SPACING;
        if used + needed > avail && !first {
            0
        } else {
            1 + fitting(snap, avail, used + needed, c + 1, end, false)
        }
    }
}

/// The gutter width for `total` rows: that of the largest row index.
pub open spec fn gutter_width(total: usize) -> u16 {
    index_width(total) as u16
}

/// How many columns are shown from the column offset of `vp` on.
pub open spec fn shown_cols(snap: Snapshot, area: Area, vp: Viewport) -> nat {
    let g = gutter_width(snap.total_rows);
    fitting(snap, area.width as int, g + SPACING, vp.col_offset as int, snap.columns@.len() + 1int, true)
}

/// The screen x of the `i`th shown column from `first`, before capping.
pub open spec fn span_left(snap: Snapshot, start: int, first: int, i: nat) -> int
    decreases i,
{
    if i == 0 {
        start
    } else {
        span_left(snap, start, first, (i - 1) as nat) + col_width(snap, first + i - 1) + SPACING
    }
}

/// The header cell of column `c`: name, label, colour slot, selected.
pub open spec fn header_spec(snap: Snapshot, vp: Viewport, c: int) -> (Seq<char>, Seq<char>, Option<usize>, bool) {
    if c >= snap.columns@.len() {
        (seq!['+'], Seq::empty(), None, c == vp.sel_col)
    } else {
        (
            snap.columns@[c].name@,
            dtype_label(snap.columns@[c].dtype),
            Some((c % PALETTE_LEN as int) as usize),
            c == vp.sel_col,
        )
    }
}

/// The data cell of shown row `r`, column `c`: the edit buffer with a caret
/// where it is being edited, the null sentinel for a null, else the value's
/// display text; the append slot is blank.
pub open spec fn cell_spec(snap: Snapshot, vp: Viewport, editing: Option<Seq<char>>, r: int, c: int) -> (
    Seq<char>,
    CellStyle,
) {
    if c >= snap.columns@.len() {
        (Seq::empty(), CellStyle::Plain)
    } else {
        let row = snap.rows@[r]@;
        let editing_here = snap.row_offset + r == vp.sel_row && c == vp.sel_col && editing is Some;
        let is_null = if c < row.len() {
            row[c] is Null
        } else {
            true
        };
        let text = if editing_here {
            editing->0.push('▏')
        } else if is_null {
            null_sentinel()
        } else {
            display_text(row[c])
        };
        let style = if is_null && !editing_here {
            CellStyle::Dim
        } else {
            CellStyle::Colored((c % PALETTE_LEN as int) as usize)
        };
        (text, style)
    }
}

/// The drawn width of column `c` of `snap`.
pub fn col_width_of(snap: &Snapshot, c: usize) -> (r: u16)
    ensures
        r == col_width(*snap, c as int),
{
    let ncols = snap.columns.len();
    if c >= ncols {
        return PHANTOM_WIDTH;
    }
    let name_w = chars_of(snap.columns[c].name.as_str()).len();
    let label_w = chars_of(snap.columns[c].dtype.label()).len();
    let mut w = if name_w > label_w {
        name_w
    } else {
        label_w
    };
    let n = snap.rows.len();
    for k in 0..n
        invariant
            n == snap.rows@.len(),
            c < snap.columns@.len(),
            w == widest_in(*snap, c as int, k as nat),
    {
        if c < snap.rows[k].len() {
            let v = &snap.rows[k][c];
            let cell_w = if v.is_null() {
                6
            } else {
                chars_of(v.display().as_str()).len()
            };
            if cell_w > w {
                w = cell_w;
            }
        }
    }
    if w < 1 {
        1
    } else if w > MAX_COL_WIDTH {
        MAX_COL_WIDTH as u16
    } else {
        w as u16
    }
}

/// `g` holds the text and style `t`.
pub open spec fn cell_is(g: GridCell, t: (Seq<char>, CellStyle)) -> bool {
    g.text@ == t.0 && g.style == t.1
}

/// `h` holds the name, label, colour slot and selection `t`.
pub open spec fn header_is(h: HeaderCell, t: (Seq<char>, Seq<char>, Option<usize>, bool)) -> bool {
    h.name@ == t.0 && h.label@ == t.1 && h.color == t.2 && h.selected == t.3
}

/// The edit buffer's text, if a cell is being edited.
pub open spec fn editing_text(editing: Option<&str>) -> Option<Seq<char>> {
    match editing {
        Some(e) => Some(e@),
        None => None,
    }
}

proof fn lemma_fitting_bound(snap: Snapshot, avail: int, used: int, c: int, end: int, first: bool)
    ensures
        fitting(snap, avail, used, c, end, first) <= if c < end {
            end - c
        } else {
            0
        },
    decreases end - c,
{
    if c < end {
        let needed = col_width(snap, c) + SPACING;
        if !(used + needed > avail && !first) {
            lemma_fitting_bound(snap, avail, used + needed, c + 1, end, false);
        }
    }
}

fn count_shown(snap: &Snapshot, avail: u16, gutter: u16, first: usize) -> (r: usize)
    requires
        gutter <= 20,
    ensures
        r == fitting(*snap, avail as int, gutter + SPACING, first as int, snap.columns@.len() + 1int, true),
{
    let ncols = snap.columns.len();
    let mut used: u32 = gutter as u32 + 1;
    let mut visible: usize = 0;
    let mut c = first;
    let ghost start = gutter + SPACING;
    let ghost end = ncols + 1int;
    while c <= ncols
        invariant
            ncols == snap.columns@.len(),
            end == ncols + 1int,
            first <= c,
            visible == c - first,
            used <= 65535 + 100,
            used >= visible + 1,
            gutter <= 20,
            start == gutter + SPACING,
            visible == 0 ==> used == gutter + 1,
            fitting(*snap, avail as int, start, first as int, end, true) == visible + fitting(
                *snap,
                avail as int,
                used as int,
                c as int,
                end,
                visible == 0,
            ),
        decreases ncols - c,
    {
        let needed = col_width_of(snap, c) as u32 + 1;
        assert(1 <= col_width(*snap, c as int) <= 40);
        if used + needed > avail as u32 && visible > 0 {
            assert(fitting(*snap, avail as int, used as int, c as int, end, false) == 0);
            return visible;
        }
        used = used + needed;
        visible = visible + 1;
        if c == ncols {
            // The append slot was the last column.
            assert(fitting(*snap, avail as int, used as int, c + 1, end, false) == 0);
            return visible;
        }
        c = c + 1;
    }
    visible
}

fn cell_of(snap: &Snapshot, vp: &Viewport, editing: Option<&str>, r: usize, c: usize) -> (g: GridCell)
    requires
        r < snap.rows@.len(),
        snap.row_offset + snap.rows@.len() <= usize::MAX,
    ensures
        cell_is(g, cell_spec(*snap, *vp, editing_text(editing), r as int, c as int)),
{
    if c >= snap.columns.len() {
        return GridCell { text: String::new(), style: CellStyle::Plain };
    }
    let row = &snap.rows[r];
    let editing_here = snap.row_offset + r == vp.sel_row && c == vp.sel_col && editing.is_some();
    let is_null = if c < row.len() {
        row[c].is_null()
    } else {
        true
    };
    let text = if editing_here {
        match editing {
            Some(e) => {
                // The live buffer with a caret.
                let mut t = chars_of(e);
                t.push('▏');
                string_of(&t)
            },
            None => String::new(),
        }
    } else if is_null {
        let t = vec!['<', 'n', 'u', 'l', 'l', '>'];
        assert(t@ =~= null_sentinel());
        string_of(&t)
    } else {
        row[c].display()
    };
    let style = if is_null && !editing_here {
        CellStyle::Dim
    } else {
        CellStyle::Colored(column_color(c))
    };
    GridCell { text, style }
}

fn header_of(snap: &Snapshot, vp: &Viewport, c: usize) -> (h: HeaderCell)
    ensures
        header_is(h, header_spec(*snap, *vp, c as int)),
{
    if c >= snap.columns.len() {
        let plus = vec!['+'];
        assert(plus@ =~= seq!['+']);
        return HeaderCell { name: string_of(&plus), label: String::new(), color: None, selected: c == vp.sel_col };
    }
    HeaderCell {
        name: snap.columns[c].name.clone(),
        label: String::from_str(snap.columns[c].dtype.label()),
        color: Some(column_color(c)),
        selected: c == vp.sel_col,
    }
}

/// `r` is the layout of `snap` in `area` for the viewport `vp`, the cell
/// being edited holding `editing`.
pub open spec fn laid_out(r: GridLayout, snap: Snapshot, area: Area, vp: Viewport, editing: Option<Seq<char>>) -> bool {
    let n = shown_cols(snap, area, vp);
    let first = vp.col_offset as int;
    let g = gutter_width(snap.total_rows);
    &&& r.gutter == g
    &&& r.widths@.len() == n
    &&& forall|i: int| 0 <= i < n ==> #[trigger] r.widths@[i] == col_width(snap, first + i)
    &&& r.header@.len() == n
    &&& forall|i: int| 0 <= i < n ==> header_is(#[trigger] r.header@[i], header_spec(snap, vp, first + i))
    &&& r.rows@.len() == snap.rows@.len()
    &&& forall|k: int|
        0 <= k < r.rows@.len() ==> (#[trigger] r.rows@[k]).index@ == decimal((snap.row_offset + k) as nat)
            && r.rows@[k].cells@.len() == n
    &&& forall|k: int, i: int|
        0 <= k < r.rows@.len() && 0 <= i < n ==> cell_is(
            #[trigger] r.rows@[k].cells@[i],
            cell_spec(snap, vp, editing, k, first + i),
        )
    &&& r.selected_row == if snap.rows@.len() > 0 {
        Some((vp.sel_row - snap.row_offset) as usize)
    } else {
        None
    }
    &&& r.selected_col == if first <= vp.sel_col < first + n {
        Some((vp.sel_col - first + 1) as usize)
    } else {
        None
    }
    &&& r.geometry.data_top == area.y + 2
    &&& r.geometry.rows == snap.rows@.len()
    &&& r.geometry.row_offset == snap.row_offset
    &&& r.geometry.cols@.len() == n
    &&& forall|i: int|
        0 <= i < n ==> #[trigger] r.geometry.cols@[i] == (ColSpan {
            col: (first + i) as usize,
            x: sat16(span_left(snap, area.x + g + SPACING, first, i as nat)) as u16,
            width: col_width(snap, first + i),
        })
}

/// Lay out the grid of `snap` in `area` for the viewport `vp`: starting at
/// its column offset, as many columns (the append slot past the last
/// included) as fit the width, always at least one; `editing`, when given,
/// is the in-progress text of the selected cell, shown in place of its value
/// with a caret.
pub fn layout(snap: &Snapshot, area: Area, vp: &Viewport, editing: Option<&str>) -> (r: GridLayout)
    requires
        snap.row_offset + snap.rows@.len() <= usize::MAX,
        snap.rows@.len() > 0 ==> vp.sel_row >= snap.row_offset,
        area.y + 2 <= u16::MAX,
    ensures
        laid_out(r, *snap, area, *vp, editing_text(editing)),
{
    let ncols = snap.columns.len();
    let first = vp.col_offset;
    // The gutter shows the absolute row index, sized to the largest one.
    let digits = decimal_of(snap.total_rows.saturating_sub(1) as u64);
    proof {
        crate::text::lemma_decimal_len_u64(snap.total_rows.saturating_sub(1) as u64);
    }
    let gutter: u16 = if digits.len() > 1 {
        digits.len() as u16
    } else {
        1
    };
    let ghost n = shown_cols(*snap, area, *vp);
    let visible = count_shown(snap, area.width, gutter, first);
    proof {
        lemma_fitting_bound(*snap, area.width as int, gutter + SPACING, first as int, ncols + 1int, true);
    }
    assert(visible == n);

    let mut widths: Vec<u16> = Vec::new();
    let mut header: Vec<HeaderCell> = Vec::new();
    let mut cols: Vec<ColSpan> = Vec::new();
    let mut x: u16 = area.x.saturating_add(gutter).saturating_add(SPACING);
    let ghost start = area.x + gutter + SPACING;
    for i in 0..visible
        invariant
            visible == n,
            first + n <= ncols + 1 || n == 0,
            ncols == snap.columns@.len(),
            widths@.len() == i,
            header@.len() == i,
            cols@.len() == i,
            x == sat16(span_left(*snap, start, first as int, i as nat)),
            forall|j: int| 0 <= j < i ==> #[trigger] widths@[j] == col_width(*snap, first + j),
            forall|j: int| 0 <= j < i ==> header_is(#[trigger] header@[j], header_spec(*snap, *vp, first + j)),
            forall|j: int|
                0 <= j < i ==> #[trigger] cols@[j] == (ColSpan {
                    col: (first + j) as usize,
                    x: sat16(span_left(*snap, start, first as int, j as nat)) as u16,
                    width: col_width(*snap, first + j),
                }),
    {
        let c = first + i;
        let w = col_width_of(snap, c);
        widths.push(w);
        header.push(header_of(snap, vp, c));
        cols.push(ColSpan { col: c, x, width: w });
        x = x.saturating_add(w + SPACING);
    }

    let nrows = snap.rows.len();
    let mut rows: Vec<GridRow> = Vec::new();
    for k in 0..nrows
        invariant
            nrows == snap.rows@.len(),
            visible == n,
            first + n <= ncols + 1 || n == 0,
            snap.row_offset + snap.rows@.len() <= usize::MAX,
            rows@.len() == k,
            forall|j: int|
                0 <= j < k ==> (#[trigger] rows@[j]).index@ == decimal((snap.row_offset + j) as nat)
                    && rows@[j].cells@.len() == n,
            forall|j: int, i: int|
                0 <= j < k && 0 <= i < n ==> cell_is(
                    #[trigger] rows@[j].cells@[i],
                    cell_spec(*snap, *vp, editing_text(editing), j, first + i),
                ),
    {
        let mut cells: Vec<GridCell> = Vec::new();
        for i in 0..visible
            invariant
                k < snap.rows@.len(),
                visible == n,
                first + n <= ncols + 1 || n == 0,
                snap.row_offset + snap.rows@.len() <= usize::MAX,
                cells@.len() == i,
                forall|j: int|
                    0 <= j < i ==> cell_is(
                        #[trigger] cells@[j],
                        cell_spec(*snap, *vp, editing_text(editing), k as int, first + j),
                    ),
        {
            cells.push(cell_of(snap, vp, editing, k, first + i));
        }
        let index = string_of(&decimal_of((snap.row_offset + k) as u64));
        rows.push(GridRow { index, cells });
    }

    let selected_row = if nrows > 0 {
        Some(vp.sel_row - snap.row_offset)
    } else {
        None
    };
    let selected_col = if vp.sel_col >= first && vp.sel_col - first < visible {
        Some(vp.sel_col - first + 1)
    } else {
        None
    };
    let geometry = GridGeometry { data_top: area.y + 2, rows: nrows, row_offset: snap.row_offset, cols };
    GridLayout { gutter, widths, header, rows, selected_row, selected_col, geometry }
}

} // verus!
