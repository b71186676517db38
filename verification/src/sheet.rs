//! A loaded file: a frame plus a pending-edit overlay and an optional filter.
//!
//! Cell edits live in the overlay; structural changes (adding or removing
//! columns and rows, computing a column) first bake the overlay into the frame
//! and then start a fresh one, so the overlay's indices never misalign. The
//! filter is a display map from shown rows to frame rows; it never changes data.

use vstd::prelude::*;
use crate::column::ColumnMeta;
use crate::edit::{CellAddr, EditOverlay};
use crate::error::Error;
use crate::frame::{Column, Frame};
use crate::text::{decimal, join3, string_of, concat, chars_of, decimal_of};
use crate::value::{cast_null, cast_to_is, cast_value, display_text, DType, Value};
use crate::view::Snapshot;

verus! {

/// The indices `i` with `mask[i] == Some(true)`, in increasing order.
pub open spec fn true_rows(mask: Seq<Option<bool>>) -> Seq<usize>
    decreases mask.len(),
{
    if mask.len() == 0 {
        Seq::empty()
    } else {
        let prev = true_rows(mask.drop_last());
        if mask.last() == Some(true) {
            prev.push((mask.len() - 1) as usize)
        } else {
            prev
        }
    }
}

/// `x` is the value at row `r`, column `c` of `f` with the edits `m`
/// applied, an edit cast into the column's type.
pub open spec fn applied_ok(m: Map<CellAddr, Value>, f: Frame, r: int, c: int, x: Value) -> bool {
    let a = CellAddr { row: r as usize, col: c as usize };
    if m.contains_key(a) {
        cast_to_is(m[a], f.dtype_of(c), x)
    } else {
        x == f.at(r, c)
    }
}

/// Whether every index in `rows` is below `h`.
fn rows_below(rows: &Vec<usize>, h: usize) -> (r: bool)
    ensures
        r == (forall|j: int| 0 <= j < rows@.len() ==> #[trigger] rows@[j] < h),
{
    let m = rows.len();
    for i in 0..m
        invariant
            m == rows@.len(),
            forall|j: int| 0 <= j < i ==> #[trigger] rows@[j] < h,
    {
        if rows[i] >= h {
            assert(!(rows@[i as int] < h));
            return false;
        }
    }
    true
}

/// `s` is the window of display rows `[offset, offset + len)` of `sheet`
/// (clamped to its shown rows), with the edit overlay applied.
pub open spec fn viewed(s: Snapshot, sheet: Sheet, offset: usize, len: usize) -> bool {
    &&& s.row_offset == offset
    &&& s.total_rows == sheet.visible()
    &&& s.columns@.len() == sheet.base().ncols()
    &&& forall|c: int|
        0 <= c < s.columns@.len() ==> (#[trigger] s.columns@[c]).name@ == sheet.base().name_of(c)
            && s.columns@[c].dtype == sheet.base().dtype_of(c)
    &&& s.rows@.len() == window_len(offset, len, sheet.visible() as usize)
    &&& forall|i: int| 0 <= i < s.rows@.len() ==> (#[trigger] s.rows@[i])@.len() == sheet.base().ncols()
    &&& forall|i: int, c: int|
        0 <= i < s.rows@.len() && 0 <= c < sheet.base().ncols() ==> #[trigger] s.rows@[i]@[c]
            == sheet.cell_value((offset + i) as usize, c as usize)
}

/// Number of rows a window `[offset, offset + len)` covers of `total` rows
/// (`offset.saturating_add(len).min(total).saturating_sub(offset)`).
pub open spec fn window_len(offset: usize, len: usize, total: usize) -> nat {
    let end = if offset + len > usize::MAX {
        usize::MAX as int
    } else {
        offset + len
    };
    let end = if end < total {
        end
    } else {
        total as int
    };
    if end > offset {
        (end - offset) as nat
    } else {
        0
    }
}

/// Per-column summary figures that the data layer computes: mean, standard
/// deviation and median (already formatted, blank where undefined), and the
/// minimum and maximum values.
#[derive(Debug, Clone)]
pub struct ColumnStats {
    pub mean: String,
    pub std: String,
    pub median: String,
    pub min: Value,
    pub max: Value,
}

/// A frame plus pending edits and an optional filter view.
#[derive(Debug)]
pub struct Sheet {
    frame: Frame,
    edits: EditOverlay,
    /// When `Some`, the frame rows that are shown, in order.
    filter: Option<Vec<usize>>,
}

impl Sheet {
    /// The frame the sheet holds, without pending edits.
    pub closed spec fn base(&self) -> Frame {
        self.frame
    }

    /// The pending edits, by frame address.
    pub closed spec fn overlay(&self) -> Map<CellAddr, Value> {
        self.edits@
    }

    /// The frame rows shown when a filter is active.
    pub closed spec fn shown(&self) -> Option<Seq<usize>> {
        match self.filter {
            Some(v) => Some(v@),
            None => None,
        }
    }

    /// The overlay is well formed.
    pub closed spec fn edits_wf(&self) -> bool {
        self.edits.wf()
    }

    /// Internal consistency: a well-formed frame and overlay, and a count of
    /// shown rows that fits a `usize`.
    pub open spec fn wf(&self) -> bool {
        self.base().wf() && self.edits_wf() && self.visible() <= usize::MAX
    }

    /// Every pending edit addresses an existing column.
    pub open spec fn edits_in_range(&self) -> bool {
        forall|a: CellAddr| #[trigger] self.overlay().contains_key(a) ==> a.col < self.base().ncols()
    }

    /// Number of rows shown: the filtered count, or the frame's height.
    pub open spec fn visible(&self) -> nat {
        match self.shown() {
            Some(rows) => rows.len(),
            None => self.base().height as nat,
        }
    }

    /// The frame row shown as display row `d`; past the filtered rows, the
    /// frame's height (a row that reads as null).
    pub open spec fn true_row_of(&self, d: usize) -> usize {
        match self.shown() {
            Some(rows) => if d < rows.len() {
                rows[d as int]
            } else {
                self.base().height
            },
            None => d,
        }
    }

    /// The value at frame row `r`, column `c` with pending edits applied
    /// (`Null` outside the frame, unless an edit is recorded there).
    pub open spec fn edited_at(&self, r: usize, c: usize) -> Value {
        let a = CellAddr { row: r, col: c };
        if self.overlay().contains_key(a) {
            self.overlay()[a]
        } else if r < self.base().height && c < self.base().ncols() {
            self.base().at(r as int, c as int)
        } else {
            Value::Null
        }
    }

    /// The value shown at display row `d`, column `c`.
    pub open spec fn cell_value(&self, d: usize, c: usize) -> Value {
        self.edited_at(self.true_row_of(d), c)
    }

    /// `x` is the value at frame row `r`, column `c` with the pending edit
    /// there baked in: the edit cast into the column's type
    /// ([`cast_to_is`]), else the frame's value (`Null` outside the frame).
    pub open spec fn baked_ok(&self, r: usize, c: usize, x: Value) -> bool {
        let a = CellAddr { row: r, col: c };
        if self.overlay().contains_key(a) {
            cast_to_is(self.overlay()[a], self.base().dtype_of(c as int), x)
        } else if r < self.base().height && c < self.base().ncols() {
            x == self.base().at(r as int, c as int)
        } else {
            x is Null
        }
    }

    /// Whether the value at frame row `r`, column `c` is null once the
    /// pending edits are baked in.
    pub open spec fn baked_null(&self, r: usize, c: usize) -> bool {
        let a = CellAddr { row: r, col: c };
        if self.overlay().contains_key(a) {
            cast_null(self.overlay()[a], self.base().dtype_of(c as int))
        } else if r < self.base().height && c < self.base().ncols() {
            self.base().at(r as int, c as int) is Null
        } else {
            true
        }
    }

    /// `f` is this sheet's frame with the pending edits baked in, each edit
    /// cast into its column's type.
    pub open spec fn is_baked(&self, f: Frame) -> bool {
        &&& f.wf()
        &&& f.same_columns(self.base())
        &&& f.height == self.base().height
        &&& forall|r: int, c: int|
            0 <= r < f.height && 0 <= c < f.ncols() ==> self.baked_ok(r as usize, c as usize, #[trigger] f.at(r, c))
    }

    /// Column `fc` of `f` is column `c` of this sheet, edits baked in.
    pub open spec fn baked_column(&self, f: Frame, fc: int, c: int) -> bool {
        &&& f.name_of(fc) == self.base().name_of(c)
        &&& f.dtype_of(fc) == self.base().dtype_of(c)
        &&& forall|r: int| 0 <= r < f.height ==> self.baked_ok(r as usize, c as usize, #[trigger] f.at(r, fc))
    }

    /// A sheet over the frame `frame`, with no edits and no filter.
    pub fn new(frame: Frame) -> (r: Sheet)
        requires
            frame.wf(),
        ensures
            r.wf(),
            r.base() == frame,
            r.overlay() == Map::<CellAddr, Value>::empty(),
            r.shown() is None,
    {
        Sheet { frame, edits: EditOverlay::new(), filter: None }
    }

    /// `(rows, cols)`. Rows reflect the active filter (visible count).
    pub fn shape(&self) -> (r: (usize, usize))
        ensures
            r.0 == self.visible(),
            r.1 == self.base().ncols(),
    {
        (self.visible_rows(), self.frame.width())
    }

    /// Index of the column named `name`, if there is one.
    pub fn column_index(&self, name: &str) -> (r: Option<usize>)
        requires
            self.wf(),
        ensures
            match r {
                Some(c) => c < self.base().ncols() && self.base().name_of(c as int) == name@
                    && c == name_index(self.base(), name@),
                None => !self.base().has_name(name@),
            },
    {
        let r = self.frame.get_column_index(name);
        proof {
            if let Some(c) = r {
                lemma_name_index(self.base(), c as int);
            }
        }
        r
    }

    /// Number of rows of the frame (whatever the filter shows).
    pub fn shape_height(&self) -> (r: usize)
        ensures
            r == self.base().height,
    {
        self.frame.height
    }

    /// The pending edits, for direct changes.
    pub fn edits_mut(&mut self) -> (r: &mut EditOverlay)
        ensures
            r@ == old(self).overlay(),
            r.wf() == old(self).edits_wf(),
            final(self).overlay() == final(r)@,
            final(self).base() == old(self).base(),
            final(self).shown() == old(self).shown(),
            final(self).edits_wf() == final(r).wf(),
    {
        &mut self.edits
    }

    /// Whether a filter is active.
    pub fn is_filtered(&self) -> (r: bool)
        ensures
            r == (self.shown() is Some),
    {
        self.filter.is_some()
    }

    fn visible_rows(&self) -> (r: usize)
        ensures
            r == self.visible(),
    {
        match &self.filter {
            Some(rows) => rows.len(),
            None => self.frame.height,
        }
    }

    /// Map a display-row index to its true frame-row index (identity when
    /// unfiltered). Past the filtered rows yields the frame's height, a row
    /// that reads as `Null`.
    pub fn true_row(&self, display: usize) -> (r: usize)
        ensures
            r == self.true_row_of(display),
    {
        match &self.filter {
            Some(rows) => if display < rows.len() {
                rows[display]
            } else {
                self.frame.height
            },
            None => display,
        }
    }

    /// The value at display `(row, col)`, overlay edit taking precedence.
    /// Out-of-range indices yield `Value::Null`.
    pub fn cell(&self, row: usize, col: usize) -> (r: Value)
        requires
            self.wf(),
        ensures
            r == self.cell_value(row, col),
    {
        let abs_row = self.true_row(row);
        match self.edits.get(CellAddr::new(abs_row, col)) {
            Some(edited) => edited.copied(),
            None => self.frame.get(abs_row, col),
        }
    }

    /// The metadata (name and type) of every column, in order.
    pub fn column_meta(&self) -> (r: Vec<ColumnMeta>)
        ensures
            r@.len() == self.base().ncols(),
            forall|c: int|
                0 <= c < r@.len() ==> (#[trigger] r@[c]).name@ == self.base().name_of(c) && r@[c].dtype
                    == self.base().dtype_of(c),
    {
        let n = self.frame.columns.len();
        let mut out: Vec<ColumnMeta> = Vec::new();
        for c in 0..n
            invariant
                n == self.base().ncols(),
                out@.len() == c,
                forall|k: int|
                    0 <= k < c ==> (#[trigger] out@[k]).name@ == self.base().name_of(k) && out@[k].dtype
                        == self.base().dtype_of(k),
        {
            out.push(
                ColumnMeta {
                    name: self.frame.columns[c].name.clone(),
                    dtype: self.frame.columns[c].dtype,
                },
            );
        }
        out
    }

    /// Logical type of column `col`, if it exists.
    pub fn dtype_at(&self, col: usize) -> (r: Option<DType>)
        ensures
            r == if col < self.base().ncols() {
                Some(self.base().dtype_of(col as int))
            } else {
                None
            },
    {
        if col < self.frame.columns.len() {
            Some(self.frame.columns[col].dtype)
        } else {
            None
        }
    }

    /// A render-ready window of display rows `[offset, offset + len)` (clamped
    /// to the shown rows) with the overlay applied on top of the frame's values.
    pub fn view(&self, offset: usize, len: usize) -> (r: Snapshot)
        requires
            self.wf(),
        ensures
            viewed(r, *self, offset, len),
    {
        let total_rows = self.visible_rows();
        let columns = self.column_meta();
        let ncols = self.frame.columns.len();
        let end0 = offset.saturating_add(len);
        let end = if end0 < total_rows {
            end0
        } else {
            total_rows
        };
        let mut rows: Vec<Vec<Value>> = Vec::new();
        let mut d = offset;
        while d < end
            invariant
                self.wf(),
                offset <= d <= end || (d == offset && end < offset),
                ncols == self.base().ncols(),
                end <= total_rows,
                rows@.len() == d - offset,
                forall|i: int| 0 <= i < rows@.len() ==> (#[trigger] rows@[i])@.len() == ncols,
                forall|i: int, c: int|
                    0 <= i < rows@.len() && 0 <= c < ncols ==> #[trigger] rows@[i]@[c]
                        == self.cell_value((offset + i) as usize, c as usize),
            decreases end - d,
        {
            let mut row: Vec<Value> = Vec::new();
            for c in 0..ncols
                invariant
                    self.wf(),
                    ncols == self.base().ncols(),
                    row@.len() == c,
                    forall|k: int|
                        0 <= k < c ==> #[trigger] row@[k] == self.cell_value(d, k as usize),
            {
                row.push(self.cell(d, c));
            }
            rows.push(row);
            d = d + 1;
        }
        Snapshot { columns, row_offset: offset, total_rows, rows }
    }

    /// Set an overlay edit at display `(row, col)`, mapped to the true frame
    /// row so it persists correctly under an active filter.
    pub fn set_cell(&mut self, row: usize, col: usize, value: Value)
        requires
            old(self).wf(),
        ensures
            final(self).wf(),
            set_cell_post(*old(self), *final(self), row, col, value),
    {
        let abs_row = self.true_row(row);
        self.edits.set(CellAddr::new(abs_row, col), value);
    }

    /// The frame with the overlay applied (used on save and before structural
    /// changes), each edit cast into its column's type. Edits past the
    /// frame's last row or column are ignored.
    pub fn materialize(&self) -> (r: Result<Frame, Error>)
        requires
            self.wf(),
        ensures
            r matches Ok(f) && self.is_baked(f),
    {
        let mut f = self.frame.copied();
        let entries = self.edits.iter();
        let n = entries.len();
        let h = self.frame.height;
        let w = self.frame.columns.len();
        for i in 0..n
            invariant
                n == entries@.len(),
                h == self.base().height,
                w == f.ncols(),
                self.wf(),
                crate::edit::entries_map(entries@) == self.overlay(),
                forall|j: int|
                    0 <= j < entries@.len() ==> self.overlay().contains_key((#[trigger] entries@[j]).0),
                f.wf(),
                f.same_columns(self.base()),
                f.height == h,
                forall|r: int, c: int|
                    0 <= r < h && 0 <= c < f.ncols() ==> applied_ok(
                        crate::edit::entries_map(entries@.take(i as int)),
                        self.base(),
                        r,
                        c,
                        #[trigger] f.at(r, c),
                    ),
        {
            let (a, v) = &entries[i];
            let ghost m = crate::edit::entries_map(entries@.take(i as int));
            let ghost m2 = crate::edit::entries_map(entries@.take(i + 1));
            assert(entries@.take(i + 1).drop_last() =~= entries@.take(i as int));
            assert(entries@.take(i + 1).last() == entries@[i as int]);
            assert(m2 == m.insert(*a, *v));
            let ghost f0 = f;
            if a.row < h && a.col < w {
                assert(self.overlay().contains_key(entries@[i as int].0));
                let d = self.frame.columns[a.col].dtype;
                f.set_value(a.row, a.col, cast_value(v, d));
            }
            assert forall|r: int, c: int| 0 <= r < h && 0 <= c < f.ncols() implies applied_ok(
                m2,
                self.base(),
                r,
                c,
                #[trigger] f.at(r, c),
            ) by {
                let x = CellAddr { row: r as usize, col: c as usize };
                if x == *a {
                    assert(a.row < h);
                } else {
                    assert(applied_ok(m, self.base(), r, c, f0.at(r, c)));
                }
            }
        }
        assert(entries@.take(n as int) =~= entries@);
        assert forall|r: int, c: int|
            0 <= r < f.height && 0 <= c < f.ncols() implies self.baked_ok(
            r as usize,
            c as usize,
            #[trigger] f.at(r, c),
        ) by {
            assert(applied_ok(self.overlay(), self.base(), r, c, f.at(r, c)));
        }
        Ok(f)
    }

    proof fn lemma_true_rows_bound(mask: Seq<Option<bool>>)
        ensures
            forall|i: int| 0 <= i < true_rows(mask).len() ==> #[trigger] true_rows(mask)[i] < mask.len(),
        decreases mask.len(),
    {
        if mask.len() > 0 {
            let prev = true_rows(mask.drop_last());
            Self::lemma_true_rows_bound(mask.drop_last());
            assert forall|i: int| 0 <= i < true_rows(mask).len() implies #[trigger] true_rows(mask)[i]
                < mask.len() by {
                if i < prev.len() {
                    assert(true_rows(mask)[i] == prev[i]);
                }
            }
        }
    }

    /// Like [`materialize`](Self::materialize), but restricted to the shown
    /// rows when a filter is active, so saving a filtered view writes just
    /// the subset. An error where a filtered row lies past the frame's end.
    pub fn materialize_view(&self) -> (r: Result<Frame, Error>)
        requires
            self.wf(),
        ensures
            match self.shown() {
                None => r matches Ok(f) && self.is_baked(f),
                Some(rows) => if forall|i: int| 0 <= i < rows.len() ==> #[trigger] rows[i] < self.base().height {
                    r matches Ok(f) && f.wf() && f.same_columns(self.base()) && f.height == rows.len()
                        && forall|i: int, c: int|
                        0 <= i < f.height && 0 <= c < f.ncols() ==> self.baked_ok(
                            rows[i],
                            c as usize,
                            #[trigger] f.at(i, c),
                        )
                } else {
                    r matches Err(Error::Backend(_))
                },
            },
    {
        let df = match self.materialize() {
            Ok(f) => f,
            Err(e) => return Err(e),
        };
        match &self.filter {
            None => Ok(df),
            Some(rows) => {
                assert(self.shown() == Some(rows@));
                if !rows_below(rows, df.height) {
                    return Err(Error::Backend(String::from_str("row index out of bounds")));
                }
                let out = df.take_rows(rows);
                assert forall|i: int, c: int| 0 <= i < out.height && 0 <= c < out.ncols() implies self.baked_ok(
                    rows@[i],
                    c as usize,
                    #[trigger] out.at(i, c),
                ) by {
                    assert(rows@[i] < df.height);
                    assert(out.at(i, c) == df.at(rows@[i] as int, c));
                    assert(self.baked_ok(rows@[i], c as usize, df.at(rows@[i] as int, c)));
                }
                assert(out.wf() && out.same_columns(self.base()) && out.height == rows@.len());
                Ok(out)
            },
        }
    }

    /// Insert a new all-null column named `name` of `dtype` (an unmodelled type stored
    /// as text) at column `index`
    /// (clamped to `[0, width]`). Pending edits are baked into the frame first
    /// and the overlay is reset, so its column indices cannot misalign with
    /// the shifted columns. An error, changing nothing, where the name is taken.
    pub fn add_column(&mut self, name: &str, dtype: DType, index: usize) -> (r: Result<(), Error>)
        requires
            old(self).wf(),
        ensures
            final(self).wf(),
            old(self).base().has_name(name@) ==> {
                &&& r matches Err(Error::Other(m)) && m@ == "column `"@ + name@ + "` already exists"@
                &&& *final(self) == *old(self)
            },
            !old(self).base().has_name(name@) ==> r is Ok && added_column(
                *old(self),
                *final(self),
                name@,
                dtype,
                index,
            ),
    {
        let mut df = match self.materialize() {
            Ok(f) => f,
            Err(e) => return Err(e),
        };
        match df.get_column_index(name) {
            Some(c) => {
                assert(df.dtype_of(c as int) == self.base().dtype_of(c as int));
                assert(self.base().name_of(c as int) == name@);
                return Err(Error::Other(join3("column `", name, "` already exists")));
            },
            None => {
                assert forall|c: int| 0 <= c < self.base().ncols() implies self.base().name_of(c) != name@ by {
                    assert(df.dtype_of(c) == self.base().dtype_of(c));
                }
            },
        }
        let h = df.height;
        // An unmodelled type is stored as text, the most permissive for editing.
        let stored = if dtype == DType::Unknown {
            DType::Str
        } else {
            dtype
        };
        let col = Column::nulls(String::from_str(name), stored, h);
        let w = df.width();
        let at = if index < w {
            index
        } else {
            w
        };
        let ghost baked = df;
        df.insert_column(at, col);
        self.frame = df;
        self.edits = EditOverlay::new();
        proof {
            let s = *self;
            assert(s.base() == df);
            assert forall|c: int| 0 <= c < at implies #[trigger] old(self).baked_column(df, c, c) by {
                assert(baked.dtype_of(c) == old(self).base().dtype_of(c));
                assert forall|r: int| 0 <= r < df.height implies old(self).baked_ok(r as usize, c as usize, #[trigger] df.at(r, c)) by {
                    assert(df.columns@[c] == baked.columns@[c]);
                    assert(old(self).baked_ok(r as usize, c as usize, baked.at(r, c)));
                }
            }
            assert forall|c: int| at <= c < old(self).base().ncols() implies #[trigger] old(self).baked_column(
                df,
                c + 1,
                c,
            ) by {
                assert(baked.dtype_of(c) == old(self).base().dtype_of(c));
                assert forall|r: int| 0 <= r < df.height implies old(self).baked_ok(r as usize, c as usize, #[trigger] df.at(r, c + 1)) by {
                    assert(df.columns@[c + 1] == baked.columns@[c]);
                    assert(old(self).baked_ok(r as usize, c as usize, baked.at(r, c)));
                }
            }
            assert(s.overlay() =~= Map::<CellAddr, Value>::empty());
        }
        Ok(())
    }

    /// Drop the column named `name`, baking pending edits into the frame and
    /// resetting the overlay first. An error, changing nothing, where no
    /// column has that name.
    pub fn drop_column(&mut self, name: &str) -> (r: Result<(), Error>)
        requires
            old(self).wf(),
        ensures
            final(self).wf(),
            !old(self).base().has_name(name@) ==> {
                &&& r matches Err(Error::Other(m)) && m@ == "no column `"@ + name@ + "`"@
                &&& *final(self) == *old(self)
            },
            old(self).base().has_name(name@) ==> r is Ok && dropped_column(
                *old(self),
                *final(self),
                name@,
            ),
    {
        let mut df = match self.materialize() {
            Ok(f) => f,
            Err(e) => return Err(e),
        };
        let k = match df.get_column_index(name) {
            Some(k) => k,
            None => {
                assert forall|c: int| 0 <= c < self.base().ncols() implies self.base().name_of(c)
                    != name@ by {
                    assert(df.dtype_of(c) == self.base().dtype_of(c));
                }
                return Err(Error::Other(join3("no column `", name, "`")));
            },
        };
        let ghost baked = df;
        proof {
            assert(df.dtype_of(k as int) == self.base().dtype_of(k as int));
            lemma_name_index(self.base(), k as int);
        }
        df.remove_column(k);
        self.frame = df;
        self.edits = EditOverlay::new();
        proof {
            let s = *self;
            assert forall|c: int| 0 <= c < k implies #[trigger] old(self).baked_column(df, c, c) by {
                assert(baked.dtype_of(c) == old(self).base().dtype_of(c));
                assert forall|r: int| 0 <= r < df.height implies old(self).baked_ok(r as usize, c as usize, #[trigger] df.at(r, c)) by {
                    assert(df.columns@[c] == baked.columns@[c]);
                    assert(old(self).baked_ok(r as usize, c as usize, baked.at(r, c)));
                }
            }
            assert forall|c: int| k <= c < df.ncols() implies #[trigger] old(self).baked_column(
                df,
                c,
                c + 1,
            ) by {
                assert(baked.dtype_of(c + 1) == old(self).base().dtype_of(c + 1));
                assert forall|r: int| 0 <= r < df.height implies old(self).baked_ok(r as usize, (c + 1) as usize, #[trigger] df.at(r, c)) by {
                    assert(df.columns@[c] == baked.columns@[c + 1]);
                    assert(old(self).baked_ok(r as usize, (c + 1) as usize, baked.at(r, c + 1)));
                }
            }
            assert(s.overlay() =~= Map::<CellAddr, Value>::empty());
        }
        Ok(())
    }

    /// Insert an all-null row at `index` (clamped to `[0, height]`), baking
    /// pending edits first and resetting the overlay; row indices shift, so
    /// the filter is cleared. An error, changing nothing, where the frame has
    /// no columns.
    pub fn insert_row(&mut self, index: usize) -> (r: Result<(), Error>)
        requires
            old(self).wf(),
            old(self).base().height < usize::MAX,
        ensures
            final(self).wf(),
            old(self).base().ncols() == 0 ==> {
                &&& r matches Err(Error::Other(m)) && m@ == "add a column before adding rows"@
                &&& *final(self) == *old(self)
            },
            old(self).base().ncols() > 0 ==> r is Ok && inserted_row(*old(self), *final(self), index),
    {
        let df = match self.materialize() {
            Ok(f) => f,
            Err(e) => return Err(e),
        };
        if df.width() == 0 {
            return Err(Error::Other(String::from_str("add a column before adding rows")));
        }
        let at = if index < df.height {
            index
        } else {
            df.height
        };
        let out = df.with_null_row(at);
        self.frame = out;
        self.edits = EditOverlay::new();
        self.filter = None;
        proof {
            let s = *self;
            assert(s.overlay() =~= Map::<CellAddr, Value>::empty());
            assert forall|r: int, c: int| 0 <= r < out.height && 0 <= c < out.ncols() implies if r < at {
                old(self).baked_ok(r as usize, c as usize, #[trigger] out.at(r, c))
            } else if r == at {
                out.at(r, c) is Null
            } else {
                old(self).baked_ok((r - 1) as usize, c as usize, out.at(r, c))
            } by {
                if r < at {
                    assert(old(self).baked_ok(r as usize, c as usize, df.at(r, c)));
                } else if r > at {
                    assert(old(self).baked_ok((r - 1) as usize, c as usize, df.at(r - 1, c)));
                }
            }
        }
        Ok(())
    }

    /// Drop the row at `index`, baking pending edits first and resetting the
    /// overlay; row indices shift, so the filter is cleared. An error,
    /// changing nothing, where there is no such row.
    pub fn delete_row(&mut self, index: usize) -> (r: Result<(), Error>)
        requires
            old(self).wf(),
        ensures
            final(self).wf(),
            index >= old(self).base().height ==> {
                &&& r matches Err(Error::Other(m)) && m@ == "no row "@ + decimal(index as nat)
                &&& *final(self) == *old(self)
            },
            index < old(self).base().height ==> r is Ok && deleted_row(*old(self), *final(self), index),
    {
        let df = match self.materialize() {
            Ok(f) => f,
            Err(e) => return Err(e),
        };
        if index >= df.height {
            let m = string_of(&concat(&chars_of("no row "), &decimal_of(index as u64)));
            return Err(Error::Other(m));
        }
        let out = df.without_row(index);
        self.frame = out;
        self.edits = EditOverlay::new();
        self.filter = None;
        proof {
            let s = *self;
            assert(s.overlay() =~= Map::<CellAddr, Value>::empty());
            assert forall|r: int, c: int| 0 <= r < out.height && 0 <= c < out.ncols() implies if r < index {
                old(self).baked_ok(r as usize, c as usize, #[trigger] out.at(r, c))
            } else {
                old(self).baked_ok((r + 1) as usize, c as usize, out.at(r, c))
            } by {
                if r < index {
                    assert(old(self).baked_ok(r as usize, c as usize, df.at(r, c)));
                } else {
                    assert(old(self).baked_ok((r + 1) as usize, c as usize, df.at(r + 1, c)));
                }
            }
        }
        Ok(())
    }

    /// Store a computed column under `name`: the result of evaluating an
    /// expression against the frame with pending edits baked in. Where `name`
    /// exists the column is overwritten in place (taking the computed type);
    /// otherwise it is inserted at `index` (clamped to `[0, width]`). Pending
    /// edits are baked in and the overlay reset. An error, changing nothing,
    /// where the computed column does not hold one value per row.
    pub fn eval_column(&mut self, name: &str, computed: Column, index: usize) -> (r: Result<(), Error>)
        requires
            old(self).wf(),
        ensures
            final(self).wf(),
            computed.values@.len() != old(self).base().height ==> {
                &&& r matches Err(Error::Other(m)) && m@ == "expression must yield one value per row (got "@
                    + decimal(computed.values@.len()) + ", need "@ + decimal(
                    old(self).base().height as nat,
                ) + ")"@
                &&& *final(self) == *old(self)
            },
            computed.values@.len() == old(self).base().height ==> r is Ok && evaluated_column(
                *old(self),
                *final(self),
                name@,
                computed.dtype,
                computed.values@,
                index,
            ),
    {
        let mut df = match self.materialize() {
            Ok(f) => f,
            Err(e) => return Err(e),
        };
        let n = computed.values.len();
        if n != df.height {
            let m = string_of(
                &concat(
                    &concat(
                        &concat(
                            &concat(
                                &chars_of("expression must yield one value per row (got "),
                                &decimal_of(n as u64),
                            ),
                            &chars_of(", need "),
                        ),
                        &decimal_of(df.height as u64),
                    ),
                    &chars_of(")"),
                ),
            );
            return Err(Error::Other(m));
        }
        let ghost baked = df;
        let col = Column { name: String::from_str(name), dtype: computed.dtype, values: computed.values };
        match df.get_column_index(name) {
            Some(k) => {
                proof {
                    assert(df.dtype_of(k as int) == self.base().dtype_of(k as int));
                    lemma_name_index(self.base(), k as int);
                }
                df.replace_column(k, col);
                self.frame = df;
                self.edits = EditOverlay::new();
                proof {
                    let s = *self;
                    assert(s.overlay() =~= Map::<CellAddr, Value>::empty());
                    assert forall|c: int| 0 <= c < df.ncols() && c != k implies #[trigger] old(
                        self,
                    ).baked_column(df, c, c) by {
                        assert(baked.dtype_of(c) == old(self).base().dtype_of(c));
                        assert forall|r: int| 0 <= r < df.height implies old(self).baked_ok(r as usize, c as usize, #[trigger] df.at(r, c)) by {
                            assert(df.columns@[c] == baked.columns@[c]);
                            assert(old(self).baked_ok(r as usize, c as usize, baked.at(r, c)));
                        }
                    }
                }
            },
            None => {
                assert forall|c: int| 0 <= c < self.base().ncols() implies self.base().name_of(c)
                    != name@ by {
                    assert(df.dtype_of(c) == self.base().dtype_of(c));
                }
                let w = df.width();
                let at = if index < w {
                    index
                } else {
                    w
                };
                df.insert_column(at, col);
                self.frame = df;
                self.edits = EditOverlay::new();
                proof {
                    let s = *self;
                    assert(s.overlay() =~= Map::<CellAddr, Value>::empty());
                    assert forall|c: int| 0 <= c < at implies #[trigger] old(self).baked_column(df, c, c) by {
                        assert(baked.dtype_of(c) == old(self).base().dtype_of(c));
                        assert forall|r: int| 0 <= r < df.height implies old(self).baked_ok(r as usize, c as usize, #[trigger] df.at(r, c)) by {
                            assert(df.columns@[c] == baked.columns@[c]);
                            assert(old(self).baked_ok(r as usize, c as usize, baked.at(r, c)));
                        }
                    }
                    assert forall|c: int| at <= c < old(self).base().ncols() implies #[trigger] old(
                        self,
                    ).baked_column(df, c + 1, c) by {
                        assert(baked.dtype_of(c) == old(self).base().dtype_of(c));
                        assert forall|r: int| 0 <= r < df.height implies old(self).baked_ok(r as usize, c as usize, #[trigger] df.at(r, c + 1)) by {
                            assert(df.columns@[c + 1] == baked.columns@[c]);
                            assert(old(self).baked_ok(r as usize, c as usize, baked.at(r, c)));
                        }
                    }
                }
            },
        }
        Ok(())
    }

    /// Rename column `old` to `new`. Position and data are unchanged, so the
    /// overlay (keyed by column index) stays valid and is kept. An error,
    /// changing nothing, where `old` does not exist or `new` names another
    /// column.
    pub fn rename_column(&mut self, old_name: &str, new_name: &str) -> (r: Result<(), Error>)
        requires
            old(self).wf(),
        ensures
            final(self).wf(),
            final(self).edits_in_range() == old(self).edits_in_range(),
            !old(self).base().has_name(old_name@) ==> {
                &&& r matches Err(Error::Other(m)) && m@ == "no column `"@ + old_name@ + "`"@
                &&& *final(self) == *old(self)
            },
            old(self).base().has_name(old_name@) && old_name@ != new_name@ && old(self).base().has_name(new_name@) ==> {
                &&& r matches Err(Error::Other(m)) && m@ == "column `"@ + new_name@ + "` already exists"@
                &&& *final(self) == *old(self)
            },
            old(self).base().has_name(old_name@) && (old_name@ == new_name@ || !old(self).base().has_name(new_name@))
                ==> r is Ok && renamed_column(*old(self), *final(self), old_name@, new_name@),
    {
        let k = match self.frame.get_column_index(old_name) {
            Some(k) => k,
            None => return Err(Error::Other(join3("no column `", old_name, "`"))),
        };
        proof {
            lemma_name_index(self.base(), k as int);
        }
        match self.frame.get_column_index(new_name) {
            Some(j) => {
                if j != k {
                    return Err(Error::Other(join3("column `", new_name, "` already exists")));
                }
            },
            None => {},
        }
        assert forall|c: int| 0 <= c < self.base().ncols() && c != k implies self.base().name_of(c)
            != new_name@ by {
            if self.base().name_of(c) == new_name@ {
                assert(self.base().has_name(new_name@));
            }
        }
        self.frame.rename_at(k, String::from_str(new_name));
        assert(self.overlay() == old(self).overlay());
        assert(self.base().ncols() == old(self).base().ncols());
        Ok(())
    }

    /// Set or clear the filter view: `Some(mask)` shows exactly the frame
    /// rows `i` where `mask[i]` is `Some(true)`, in order; `None` clears it.
    /// The mask is the value of a boolean expression evaluated against the
    /// whole frame (pending edits baked in), so a filter is never layered on a
    /// previous one. Data and pending edits are untouched.
    pub fn set_filter(&mut self, mask: Option<Vec<Option<bool>>>)
        requires
            old(self).wf(),
        ensures
            final(self).wf(),
            filter_post(
                *old(self),
                *final(self),
                match mask {
                    None => None,
                    Some(m) => Some(m@),
                },
            ),
    {
        match mask {
            None => {
                self.filter = None;
                assert(self.visible() == self.base().height);
            },
            Some(m) => {
                let n = m.len();
                let mut rows: Vec<usize> = Vec::new();
                for i in 0..n
                    invariant
                        n == m@.len(),
                        rows@ == true_rows(m@.take(i as int)),
                        rows@.len() <= i,
                {
                    assert(m@.take(i + 1).drop_last() =~= m@.take(i as int));
                    if m[i] == Some(true) {
                        rows.push(i);
                    }
                }
                assert(m@.take(n as int) =~= m@);
                self.filter = Some(rows);
            },
        }
    }

    fn null_count_of(df: &Frame, c: usize, Ghost(s): Ghost<Sheet>) -> (r: usize)
        requires
            df.wf(),
            s.is_baked(*df),
            c < df.ncols(),
        ensures
            r == nulls_in(s, c as int, df.height as int),
            r <= df.height,
    {
        let h = df.height;
        let mut count: usize = 0;
        for i in 0..h
            invariant
                h == df.height,
                df.wf(),
                s.is_baked(*df),
                c < df.ncols(),
                count <= i,
                count == nulls_in(s, c as int, i as int),
        {
            assert(s.baked_ok(i, c, df.at(i as int, c as int)));
            proof {
                if s.overlay().contains_key(CellAddr { row: i, col: c }) {
                    crate::value::lemma_cast_null(
                    s.overlay()[CellAddr { row: i, col: c }],
                    s.base().dtype_of(c as int),
                        df.at(i as int, c as int),
                    );
                }
            }
            if df.columns[c].values[i].is_null() {
                count = count + 1;
            }
        }
        count
    }

    /// A summary sheet, one row per statistic (count, null_count, mean, std,
    /// min, median, max) under a leading `statistic` column, and one text
    /// column per source column. Counts are taken here from the frame with
    /// pending edits baked in; `stats[c]` supplies the other figures of
    /// column `c`. Mean, std and median are left blank for date and datetime
    /// columns. An error where a source column is itself named `statistic`.
    pub fn describe(&self, stats: &Vec<ColumnStats>) -> (r: Result<Sheet, Error>)
        requires
            self.wf(),
            stats@.len() == self.base().ncols(),
        ensures
            self.base().has_name("statistic"@) ==> r matches Err(Error::Backend(_)),
            !self.base().has_name("statistic"@) ==> (r matches Ok(out) && out.wf()
                && out.shown() is None && out.overlay() == Map::<CellAddr, Value>::empty()
                && described(*self, stats@, out.base())),
    {
        let df = match self.materialize() {
            Ok(f) => f,
            Err(e) => return Err(e),
        };
        match df.get_column_index("statistic") {
            Some(k) => {
                assert(df.dtype_of(k as int) == self.base().dtype_of(k as int));
                assert(self.base().name_of(k as int) == "statistic"@);
                return Err(
                    Error::Backend(
                        String::from_str("column with name 'statistic' has more than one occurrence"),
                    ),
                );
            },
            None => {
                assert forall|c: int| 0 <= c < self.base().ncols() implies self.base().name_of(c)
                    != "statistic"@ by {
                    assert(df.dtype_of(c) == self.base().dtype_of(c));
                }
            },
        }
        let w = df.width();
        let mut labels: Vec<Value> = Vec::new();
        labels.push(Value::Str(String::from_str("count")));
        labels.push(Value::Str(String::from_str("null_count")));
        labels.push(Value::Str(String::from_str("mean")));
        labels.push(Value::Str(String::from_str("std")));
        labels.push(Value::Str(String::from_str("min")));
        labels.push(Value::Str(String::from_str("median")));
        labels.push(Value::Str(String::from_str("max")));
        let mut cols: Vec<Column> = Vec::new();
        cols.push(Column { name: String::from_str("statistic"), dtype: DType::Str, values: labels });
        for c in 0..w
            invariant
                w == df.ncols(),
                df.wf(),
                self.is_baked(df),
                stats@.len() == w,
                cols@.len() == c + 1,
                cols@[0].name@ == "statistic"@,
                cols@[0].dtype == DType::Str,
                cols@[0].values@.len() == 7,
                forall|i: int| 0 <= i < 7 ==> is_text(#[trigger] cols@[0].values@[i], stat_label(i)),
                forall|k: int|
                    0 <= k < c ==> (#[trigger] cols@[k + 1]).name@ == self.base().name_of(k)
                        && cols@[k + 1].dtype == DType::Str && cols@[k + 1].values@.len() == 7,
                forall|k: int, i: int|
                    0 <= k < c && 0 <= i < 7 ==> is_text(#[trigger] cols@[k + 1].values@[i], stat_text(*self, stats@[k], k, i)),
        {
            let nulls = Self::null_count_of(&df, c, Ghost(*self));
            let h = df.height;
            assert(df.dtype_of(c as int) == self.base().dtype_of(c as int));
            let temporal = df.columns[c].dtype.is_temporal();
            let st = &stats[c];
            let mut values: Vec<Value> = Vec::new();
            values.push(Value::Str(string_of(&decimal_of((h - nulls) as u64))));
            values.push(Value::Str(string_of(&decimal_of(nulls as u64))));
            values.push(Value::Str(if temporal { String::new() } else { st.mean.clone() }));
            values.push(Value::Str(if temporal { String::new() } else { st.std.clone() }));
            values.push(Value::Str(st.min.display()));
            values.push(Value::Str(if temporal { String::new() } else { st.median.clone() }));
            values.push(Value::Str(st.max.display()));
            cols.push(Column { name: df.columns[c].name.clone(), dtype: DType::Str, values });
        }
        let _ = cols.len();
        let f = Frame { columns: cols, height: 7 };
        assert forall|k: int| 1 <= k < f.columns@.len() implies f.columns@[k].name@ == self.base().name_of(k - 1)
            && f.columns@[k].values@.len() == 7 && f.columns@[k].dtype == DType::Str by {
            assert(cols@[(k - 1) + 1].name@ == self.base().name_of(k - 1));
        }
        assert forall|i: int, j: int| 0 <= i < f.columns@.len() && 0 <= j < f.columns@.len() && i != j
            implies f.columns@[i].name@ != f.columns@[j].name@ by {
            if i == 0 {
                assert(self.base().name_of(j - 1) != "statistic"@);
            } else if j == 0 {
                assert(self.base().name_of(i - 1) != "statistic"@);
            } else {
                assert(self.base().columns@[i - 1].name@ != self.base().columns@[j - 1].name@);
            }
        }
        assert(f.wf());
        Ok(Sheet::new(f))
    }
}

/// The type a new column of type `dtype` is stored with: an unmodelled type
/// is stored as text, the most permissive for later editing.
pub open spec fn stored_type(dtype: DType) -> DType {
    if dtype == DType::Unknown {
        DType::Str
    } else {
        dtype
    }
}

/// `after` is `before` with a null column `name` of type `dtype` (as
/// [`stored_type`] stores it) inserted at `index` (clamped to the width),
/// pending edits baked in, no pending edits left, and the filter kept.
pub open spec fn added_column(before: Sheet, after: Sheet, name: Seq<char>, dtype: DType, index: usize) -> bool {
    let w = before.base().ncols();
    let at = if index < w {
        index as int
    } else {
        w as int
    };
    let f = after.base();
    &&& after.shown() == before.shown()
    &&& after.overlay() == Map::<CellAddr, Value>::empty()
    &&& f.height == before.base().height
    &&& f.ncols() == w + 1
    &&& f.name_of(at) == name
    &&& f.dtype_of(at) == stored_type(dtype)
    &&& forall|r: int, c: int| 0 <= r < f.height && c == at ==> #[trigger] f.at(r, c) is Null
    &&& forall|c: int| 0 <= c < at ==> #[trigger] before.baked_column(f, c, c)
    &&& forall|fc: int, c: int| at <= c < w && fc == c + 1 ==> #[trigger] before.baked_column(f, fc, c)
}

} // verus!

verus! {

/// `after` is `before` with the column `values` of type `dtype` stored under
/// `name`: in place of the column so named, else inserted at `index`
/// (clamped to the width); pending edits baked in, no pending edits left, the
/// filter kept.
pub open spec fn evaluated_column(
    before: Sheet,
    after: Sheet,
    name: Seq<char>,
    dtype: DType,
    values: Seq<Value>,
    index: usize,
) -> bool {
    let w = before.base().ncols();
    let f = after.base();
    &&& after.shown() == before.shown()
    &&& after.overlay() == Map::<CellAddr, Value>::empty()
    &&& f.height == before.base().height
    &&& if before.base().has_name(name) {
        let k = name_index(before.base(), name);
        &&& f.ncols() == w
        &&& f.name_of(k) == name
        &&& f.dtype_of(k) == dtype
        &&& f.columns@[k].values@ == values
        &&& forall|c: int| 0 <= c < w && c != k ==> #[trigger] before.baked_column(f, c, c)
    } else {
        let at = if index < w {
            index as int
        } else {
            w as int
        };
        &&& f.ncols() == w + 1
        &&& f.name_of(at) == name
        &&& f.dtype_of(at) == dtype
        &&& f.columns@[at].values@ == values
        &&& forall|c: int| 0 <= c < at ==> #[trigger] before.baked_column(f, c, c)
        &&& forall|fc: int, c: int| at <= c < w && fc == c + 1 ==> #[trigger] before.baked_column(f, fc, c)
    }
}

/// `after` is `before` with the column named `old` renamed to `new`; every
/// column keeps its position, type and values, and edits and filter are kept.
pub open spec fn renamed_column(before: Sheet, after: Sheet, old: Seq<char>, new: Seq<char>) -> bool {
    let k = name_index(before.base(), old);
    let f = after.base();
    let b = before.base();
    &&& after.shown() == before.shown()
    &&& after.overlay() == before.overlay()
    &&& f.wf()
    &&& f.height == b.height
    &&& f.ncols() == b.ncols()
    &&& f.name_of(k) == new
    &&& forall|c: int| 0 <= c < b.ncols() && c != k ==> #[trigger] f.name_of(c) == b.name_of(c)
    &&& forall|c: int|
        0 <= c < b.ncols() ==> #[trigger] f.dtype_of(c) == b.dtype_of(c) && f.columns@[c].values@
            == b.columns@[c].values@
}

/// `after` is `before` with `value` recorded as the edit of the frame cell
/// shown at display `(row, col)`.
pub open spec fn set_cell_post(before: Sheet, after: Sheet, row: usize, col: usize, value: Value) -> bool {
    &&& after.base() == before.base()
    &&& after.shown() == before.shown()
    &&& after.overlay() == before.overlay().insert(CellAddr { row: before.true_row_of(row), col }, value)
}

/// `after` is `before` with the filter set from `mask` (`None` clears it):
/// the shown rows are those where the mask is `Some(true)`.
pub open spec fn filter_post(before: Sheet, after: Sheet, mask: Option<Seq<Option<bool>>>) -> bool {
    &&& after.base() == before.base()
    &&& after.overlay() == before.overlay()
    &&& after.shown() == match mask {
        None => None,
        Some(m) => Some(true_rows(m)),
    }
}

/// `v` is a text value holding `t`.
pub open spec fn is_text(v: Value, t: Seq<char>) -> bool {
    match v {
        Value::Str(s) => s@ == t,
        _ => false,
    }
}

/// The label of row `i` of the summary sheet.
pub open spec fn stat_label(i: int) -> Seq<char> {
    if i == 0 {
        "count"@
    } else if i == 1 {
        "null_count"@
    } else if i == 2 {
        "mean"@
    } else if i == 3 {
        "std"@
    } else if i == 4 {
        "min"@
    } else if i == 5 {
        "median"@
    } else {
        "max"@
    }
}

/// Number of nulls among the first `n` values of column `c` of `s`, edits
/// applied.
pub open spec fn nulls_in(s: Sheet, c: int, n: int) -> nat
    decreases n,
{
    if n <= 0 {
        0
    } else {
        nulls_in(s, c, n - 1) + if s.baked_null((n - 1) as usize, c as usize) {
            1nat
        } else {
            0nat
        }
    }
}

/// The text in row `i` of the summary column of source column `c`.
pub open spec fn stat_text(s: Sheet, st: ColumnStats, c: int, i: int) -> Seq<char> {
    let h = s.base().height as int;
    let nulls = nulls_in(s, c, h);
    let temporal = s.base().dtype_of(c) == DType::Date || s.base().dtype_of(c) == DType::Datetime;
    if i == 0 {
        decimal((h - nulls) as nat)
    } else if i == 1 {
        decimal(nulls)
    } else if i == 2 {
        if temporal {
            Seq::empty()
        } else {
            st.mean@
        }
    } else if i == 3 {
        if temporal {
            Seq::empty()
        } else {
            st.std@
        }
    } else if i == 4 {
        display_text(st.min)
    } else if i == 5 {
        if temporal {
            Seq::empty()
        } else {
            st.median@
        }
    } else {
        display_text(st.max)
    }
}

/// `f` is the summary sheet of `s` with the supplied figures `stats`.
pub open spec fn described(s: Sheet, stats: Seq<ColumnStats>, f: Frame) -> bool {
    let w = s.base().ncols();
    &&& f.height == 7
    &&& f.ncols() == w + 1
    &&& f.name_of(0) == "statistic"@
    &&& forall|c: int| 0 <= c <= w ==> #[trigger] f.dtype_of(c) == DType::Str
    &&& forall|i: int| 0 <= i < 7 ==> is_text(#[trigger] f.at(i, 0), stat_label(i))
    &&& forall|c: int| 0 <= c < w ==> #[trigger] f.name_of(c + 1) == s.base().name_of(c)
    &&& forall|i: int, c: int|
        0 <= i < 7 && 0 <= c < w ==> is_text(#[trigger] f.at(i, c + 1), stat_text(s, stats[c], c, i))
}

/// The index of the column named `n` in `f` (meaningful where there is one).
pub open spec fn name_index(f: Frame, n: Seq<char>) -> int {
    choose|c: int| 0 <= c < f.ncols() && f.name_of(c) == n
}

proof fn lemma_name_index(f: Frame, k: int)
    requires
        f.wf(),
        0 <= k < f.ncols(),
    ensures
        name_index(f, f.name_of(k)) == k,
{
    let n = f.name_of(k);
    assert(0 <= k < f.ncols() && f.name_of(k) == n);
    let c = name_index(f, n);
    if c != k {
        assert(f.columns@[c].name@ != f.columns@[k].name@);
    }
}

/// `after` is `before` without the column named `name`, pending edits baked
/// in, no pending edits left, and the filter kept.
pub open spec fn dropped_column(before: Sheet, after: Sheet, name: Seq<char>) -> bool {
    let k = name_index(before.base(), name);
    let f = after.base();
    &&& after.shown() == before.shown()
    &&& after.overlay() == Map::<CellAddr, Value>::empty()
    &&& f.height == before.base().height
    &&& f.ncols() + 1 == before.base().ncols()
    &&& forall|c: int| 0 <= c < k ==> #[trigger] before.baked_column(f, c, c)
    &&& forall|fc: int, c: int| k <= fc < f.ncols() && c == fc + 1 ==> #[trigger] before.baked_column(f, fc, c)
}

/// `after` is `before` with a null row inserted at `index` (clamped to the
/// height), pending edits baked in, no pending edits left, and no filter.
pub open spec fn inserted_row(before: Sheet, after: Sheet, index: usize) -> bool {
    let h = before.base().height;
    let at = if index < h {
        index as int
    } else {
        h as int
    };
    let f = after.base();
    &&& after.shown() is None
    &&& after.overlay() == Map::<CellAddr, Value>::empty()
    &&& f.wf()
    &&& f.same_columns(before.base())
    &&& f.height == h + 1
    &&& forall|r: int, c: int|
        0 <= r < f.height && 0 <= c < f.ncols() ==> if r < at {
            before.baked_ok(r as usize, c as usize, #[trigger] f.at(r, c))
        } else if r == at {
            f.at(r, c) is Null
        } else {
            before.baked_ok((r - 1) as usize, c as usize, f.at(r, c))
        }
}

/// `after` is `before` without row `index`, pending edits baked in, no
/// pending edits left, and no filter.
pub open spec fn deleted_row(before: Sheet, after: Sheet, index: usize) -> bool {
    let f = after.base();
    &&& after.shown() is None
    &&& after.overlay() == Map::<CellAddr, Value>::empty()
    &&& f.wf()
    &&& f.same_columns(before.base())
    &&& f.height + 1 == before.base().height
    &&& forall|r: int, c: int|
        0 <= r < f.height && 0 <= c < f.ncols() ==> if r < index {
            before.baked_ok(r as usize, c as usize, #[trigger] f.at(r, c))
        } else {
            before.baked_ok((r + 1) as usize, c as usize, f.at(r, c))
        }
}

} // verus!
