//! Scroll offsets, selection, and the screen geometry of the rendered grid.
//!
//! The grid does not scroll columns by itself, so a column offset is tracked
//! and the columns that fit the available width are worked out here.

use vstd::prelude::*;

verus! {

/// Scroll offsets and the selected cell.
#[derive(Debug, Default, Clone, Copy)]
pub struct Viewport {
    pub row_offset: usize,
    pub col_offset: usize,
    pub sel_row: usize,
    pub sel_col: usize,
}

/// `x` capped at `u16::MAX` (the result of a saturating `u16` addition).
pub open spec fn sat16(x: int) -> int {
    if x > u16::MAX {
        u16::MAX as int
    } else {
        x
    }
}

/// How many of the widths `ws`, each followed by a one-cell separator and
/// accumulated with saturating `u16` additions from `used`, fit in `avail`.
pub open spec fn fit_count(ws: Seq<u16>, used: int, avail: int) -> nat
    decreases ws.len(),
{
    if ws.len() == 0 {
        0
    } else {
        let next = sat16(sat16(used + ws[0]) + 1);
        if next > avail {
            0
        } else {
            1 + fit_count(ws.drop_first(), next, avail)
        }
    }
}

impl Viewport {
    /// Given the visible width and per-column widths starting at
    /// `col_offset`, how many columns fit (each followed by a separator).
    pub fn visible_cols(&self, avail_width: u16, widths: &[u16]) -> (r: usize)
        ensures
            r == fit_count(
                if self.col_offset <= widths@.len() {
                    widths@.skip(self.col_offset as int)
                } else {
                    Seq::empty()
                },
                0,
                avail_width as int,
            ),
    {
        let n = widths.len();
        let mut used: u16 = 0;
        let mut count: usize = 0;
        let mut i = self.col_offset;
        let ghost all = if self.col_offset <= widths@.len() {
            widths@.skip(self.col_offset as int)
        } else {
            Seq::empty()
        };
        if i > n {
            return 0;
        }
        while i < n
            invariant
                n == widths@.len(),
                self.col_offset <= i <= n,
                count == i - self.col_offset,
                all == widths@.skip(self.col_offset as int),
                fit_count(all, 0, avail_width as int) == count + fit_count(
                    widths@.skip(i as int),
                    used as int,
                    avail_width as int,
                ),
            decreases n - i,
        {
            let w = widths[i];
            let next = used.saturating_add(w).saturating_add(1);
            assert(widths@.skip(i as int)[0] == w);
            assert(widths@.skip(i as int).drop_first() =~= widths@.skip(i + 1));
            if next > avail_width {
                return count;
            }
            used = next;
            count = count + 1;
            i = i + 1;
        }
        assert(widths@.skip(i as int) =~= Seq::<u16>::empty());
        count
    }
}

/// The horizontal extent of one rendered column on screen.
#[derive(Debug, Clone, Copy)]
pub struct ColSpan {
    /// Absolute column index.
    pub col: usize,
    /// Screen x of the column's left edge.
    pub x: u16,
    /// Rendered width in cells.
    pub width: u16,
}

/// Screen geometry of the most recently rendered grid, so that a mouse click
/// can be mapped to the cell under it.
#[derive(Debug, Default, Clone)]
pub struct GridGeometry {
    /// Screen y of the first data row (just below the two-line header).
    pub data_top: u16,
    /// Number of data rows currently on screen.
    pub rows: usize,
    /// Absolute index of the first visible row.
    pub row_offset: usize,
    /// One span per visible column (including the append slot), left to
    /// right in screen-x order.
    pub cols: Vec<ColSpan>,
}

/// Index of the first span of `cols` that covers screen column `x`, or
/// `cols.len()` when none does.
pub open spec fn span_at(cols: Seq<ColSpan>, x: u16) -> int
    decreases cols.len(),
{
    if cols.len() == 0 {
        0
    } else if cols[0].x <= x < cols[0].x + cols[0].width {
        0
    } else {
        1 + span_at(cols.drop_first(), x)
    }
}

proof fn lemma_span_at(cols: Seq<ColSpan>, x: u16, i: int)
    requires
        0 <= i <= cols.len(),
        forall|j: int| 0 <= j < i ==> !((#[trigger] cols[j]).x <= x < cols[j].x + cols[j].width),
        i == cols.len() || (cols[i].x <= x < cols[i].x + cols[i].width),
    ensures
        span_at(cols, x) == i,
    decreases i,
{
    if i > 0 {
        assert forall|j: int| 0 <= j < i - 1 implies !((#[trigger] cols.drop_first()[j]).x <= x
            < cols.drop_first()[j].x + cols.drop_first()[j].width) by {
            assert(cols.drop_first()[j] == cols[j + 1]);
        }
        lemma_span_at(cols.drop_first(), x, i - 1);
    }
}

impl GridGeometry {
    /// Its spans lie on screen and its rows can be numbered.
    pub open spec fn wf(&self) -> bool {
        &&& self.row_offset + self.rows <= usize::MAX
        &&& forall|i: int|
            0 <= i < self.cols@.len() ==> (#[trigger] self.cols@[i]).x + self.cols@[i].width
                <= u16::MAX
    }

    /// The `(row, col)` under the screen cell `(x, y)`: the data-row band
    /// `[data_top, data_top + rows)` and the first column span covering `x`.
    pub open spec fn hit_spec(&self, x: u16, y: u16) -> Option<(usize, usize)> {
        let k = span_at(self.cols@, x);
        if y < self.data_top || y - self.data_top >= self.rows || k >= self.cols@.len() {
            None
        } else {
            Some(((self.row_offset + (y - self.data_top)) as usize, self.cols@[k].col))
        }
    }

    /// Holds the same values as `o`.
    pub open spec fn same_as(&self, o: GridGeometry) -> bool {
        &&& self.data_top == o.data_top
        &&& self.rows == o.rows
        &&& self.row_offset == o.row_offset
        &&& self.cols@ == o.cols@
    }

    /// A copy of this geometry.
    pub fn copied(&self) -> (r: GridGeometry)
        ensures
            r.same_as(*self),
    {
        let mut cols: Vec<ColSpan> = Vec::new();
        let n = self.cols.len();
        for i in 0..n
            invariant
                n == self.cols@.len(),
                cols@ == self.cols@.take(i as int),
        {
            cols.push(self.cols[i]);
            assert(self.cols@.take(i + 1) =~= self.cols@.take(i as int).push(self.cols@[i as int]));
        }
        assert(self.cols@.take(n as int) =~= self.cols@);
        GridGeometry { data_top: self.data_top, rows: self.rows, row_offset: self.row_offset, cols }
    }

    /// Whether this geometry is well formed (see [`wf`](Self::wf)).
    pub fn is_wf(&self) -> (r: bool)
        ensures
            r == self.wf(),
    {
        if self.rows > usize::MAX - self.row_offset {
            return false;
        }
        let n = self.cols.len();
        for i in 0..n
            invariant
                n == self.cols@.len(),
                forall|j: int| 0 <= j < i ==> (#[trigger] self.cols@[j]).x + self.cols@[j].width <= u16::MAX,
        {
            if self.cols[i].x > u16::MAX - self.cols[i].width {
                return false;
            }
        }
        true
    }

    /// Map a screen click to the absolute `(row, col)` it lands on, or `None`
    /// if it falls on the header, the gutter, or empty padding past the data.
    pub fn hit(&self, x: u16, y: u16) -> (r: Option<(usize, usize)>)
        requires
            self.wf(),
        ensures
            r == self.hit_spec(x, y),
    {
        if y < self.data_top {
            return None;
        }
        let r = (y - self.data_top) as usize;
        if r >= self.rows {
            return None;
        }
        let n = self.cols.len();
        let mut i: usize = 0;
        while i < n
            invariant
                n == self.cols@.len(),
                self.wf(),
                i <= n,
                y >= self.data_top,
                r == y - self.data_top,
                r < self.rows,
                forall|j: int| 0 <= j < i ==> !((#[trigger] self.cols@[j]).x <= x < self.cols@[j].x
                    + self.cols@[j].width),
            decreases n - i,
        {
            let c = self.cols[i];
            if x >= c.x && x < c.x + c.width {
                proof {
                    lemma_span_at(self.cols@, x, i as int);
                }
                return Some((self.row_offset + r, c.col));
            }
            i = i + 1;
        }
        proof {
            lemma_span_at(self.cols@, x, n as int);
        }
        None
    }
}

} // verus!
