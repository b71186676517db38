//! An in-memory data frame: named, typed columns of equal length.
//!
//! This is the table a file is read into. Its values are the library's own
//! `Value`s; reading and writing files converts to and from them.

use vstd::prelude::*;
use crate::error::Error;
use crate::text::{chars_of, is_word};
use crate::value::{DType, Value};

verus! {

/// One named, typed column of values.
#[derive(Debug, Clone)]
pub struct Column {
    pub name: String,
    pub dtype: DType,
    pub values: Vec<Value>,
}

impl Column {
    /// A column of `len` nulls.
    pub fn nulls(name: String, dtype: DType, len: usize) -> (r: Column)
        ensures
            r.name@ == name@,
            r.dtype == dtype,
            r.values@.len() == len,
            forall|i: int| 0 <= i < len ==> (#[trigger] r.values@[i]) is Null,
    {
        let mut values: Vec<Value> = Vec::new();
        for i in 0..len
            invariant
                values@.len() == i,
                forall|j: int| 0 <= j < i ==> (#[trigger] values@[j]) is Null,
        {
            values.push(Value::Null);
        }
        Column { name, dtype, values }
    }

    /// A copy of this column.
    pub fn copied(&self) -> (r: Column)
        ensures
            r.name@ == self.name@,
            r.dtype == self.dtype,
            r.values@ == self.values@,
    {
        let n = self.values.len();
        let mut values: Vec<Value> = Vec::new();
        for i in 0..n
            invariant
                n == self.values@.len(),
                values@ == self.values@.take(i as int),
        {
            values.push(self.values[i].copied());
            assert(values@ =~= self.values@.take(i + 1));
        }
        assert(values@ =~= self.values@);
        Column { name: self.name.clone(), dtype: self.dtype, values }
    }
}

/// A table of columns that all hold `height` values.
#[derive(Debug, Clone)]
pub struct Frame {
    pub columns: Vec<Column>,
    pub height: usize,
}

impl Frame {
    /// Every column holds `height` values and no two columns share a name.
    pub open spec fn wf(&self) -> bool {
        &&& self.columns@.len() <= usize::MAX
        &&& forall|c: int|
            0 <= c < self.columns@.len() ==> (#[trigger] self.columns@[c]).values@.len()
                == self.height
        &&& forall|i: int, j: int|
            0 <= i < self.columns@.len() && 0 <= j < self.columns@.len() && i != j
                ==> self.columns@[i].name@ != self.columns@[j].name@
    }

    /// Number of columns.
    pub open spec fn ncols(&self) -> nat {
        self.columns@.len()
    }

    /// The value at row `r`, column `c`.
    pub open spec fn at(&self, r: int, c: int) -> Value {
        self.columns@[c].values@[r]
    }

    /// The name of column `c`.
    pub open spec fn name_of(&self, c: int) -> Seq<char> {
        self.columns@[c].name@
    }

    /// The type of column `c`.
    pub open spec fn dtype_of(&self, c: int) -> DType {
        self.columns@[c].dtype
    }

    /// Whether some column is named `name`.
    pub open spec fn has_name(&self, name: Seq<char>) -> bool {
        exists|c: int| 0 <= c < self.columns@.len() && self.name_of(c) == name
    }

    /// Same columns (names and types, in order) as `o`.
    pub open spec fn same_columns(&self, o: Frame) -> bool {
        &&& self.ncols() == o.ncols()
        &&& forall|c: int|
            0 <= c < self.ncols() ==> self.name_of(c) == o.name_of(c) && #[trigger] self.dtype_of(c)
                == o.dtype_of(c)
    }

    /// Same height and the same values, cell by cell, as `o`.
    pub open spec fn same_values(&self, o: Frame) -> bool {
        &&& self.height == o.height
        &&& self.ncols() == o.ncols()
        &&& forall|r: int, c: int|
            0 <= r < self.height && 0 <= c < self.ncols() ==> #[trigger] self.at(r, c) == o.at(r, c)
    }

    /// `o` holds exactly this frame's content.
    pub open spec fn same_frame(&self, o: Frame) -> bool {
        self.same_columns(o) && self.same_values(o)
    }

    /// A frame with no columns and no rows.
    pub fn empty() -> (r: Frame)
        ensures
            r.wf(),
            r.ncols() == 0,
            r.height == 0,
    {
        Frame { columns: Vec::new(), height: 0 }
    }

    /// A frame of `height` rows from `columns`; an error where a column's length
    /// differs from `height` or two columns share a name.
    pub fn new(height: usize, columns: Vec<Column>) -> (r: Result<Frame, Error>)
        ensures
            match r {
                Ok(f) => f.wf() && f.height == height && f.columns@ == columns@,
                Err(_) => !(Frame { columns, height }).wf(),
            },
    {
        let n = columns.len();
        for c in 0..n
            invariant
                n == columns@.len(),
                forall|k: int| 0 <= k < c ==> (#[trigger] columns@[k]).values@.len() == height,
                forall|i: int, j: int|
                    0 <= i < c && 0 <= j < c && i != j ==> columns@[i].name@ != columns@[j].name@,
        {
            if columns[c].values.len() != height {
                return Err(Error::Other(String::from_str("column lengths differ")));
            }
            for k in 0..c
                invariant
                    n == columns@.len(),
                    c < n,
                    forall|j: int| 0 <= j < k ==> columns@[j].name@ != columns@[c as int].name@,
            {
                if columns[k].name == columns[c].name {
                    return Err(Error::Other(String::from_str("duplicate column name")));
                }
            }
        }
        Ok(Frame { columns, height })
    }

    /// Number of columns.
    pub fn width(&self) -> (r: usize)
        ensures
            r == self.ncols(),
    {
        self.columns.len()
    }

    /// Index of the column named `name`, if there is one.
    pub fn get_column_index(&self, name: &str) -> (r: Option<usize>)
        requires
            self.wf(),
        ensures
            match r {
                Some(c) => c < self.ncols() && self.name_of(c as int) == name@,
                None => !self.has_name(name@),
            },
    {
        let target = chars_of(name);
        let n = self.columns.len();
        for c in 0..n
            invariant
                n == self.columns@.len(),
                target@ == name@,
                forall|k: int| 0 <= k < c ==> self.name_of(k) != name@,
        {
            if is_word(&chars_of(self.columns[c].name.as_str()), name) {
                return Some(c);
            }
        }
        None
    }

    /// The value at row `r`, column `c`, or `Null` out of range.
    pub fn get(&self, r: usize, c: usize) -> (v: Value)
        requires
            self.wf(),
        ensures
            v == if r < self.height && c < self.ncols() {
                self.at(r as int, c as int)
            } else {
                Value::Null
            },
    {
        if c < self.columns.len() && r < self.height {
            self.columns[c].values[r].copied()
        } else {
            Value::Null
        }
    }

    /// A copy of this frame.
    pub fn copied(&self) -> (r: Frame)
        requires
            self.wf(),
        ensures
            r.wf(),
            r.same_frame(*self),
    {
        let n = self.columns.len();
        let mut cols: Vec<Column> = Vec::new();
        for c in 0..n
            invariant
                n == self.columns@.len(),
                self.wf(),
                cols@.len() == c,
                forall|k: int|
                    0 <= k < c ==> (#[trigger] cols@[k]).name@ == self.name_of(k) && cols@[k].dtype
                        == self.dtype_of(k) && cols@[k].values@ == self.columns@[k].values@,
        {
            cols.push(self.columns[c].copied());
        }
        Frame { columns: cols, height: self.height }
    }

    /// Overwrite the value at row `r`, column `c`.
    pub fn set_value(&mut self, r: usize, c: usize, v: Value)
        requires
            old(self).wf(),
            r < old(self).height,
            c < old(self).ncols(),
        ensures
            final(self).wf(),
            final(self).same_columns(*old(self)),
            final(self).height == old(self).height,
            forall|r2: int, c2: int|
                0 <= r2 < old(self).height && 0 <= c2 < old(self).ncols() ==> #[trigger] final(self).at(r2, c2) == if r2 == r && c2 == c {
                    v
                } else {
                    old(self).at(r2, c2)
                },
    {
        let ghost before = *self;
        let mut col = self.columns.remove(c);
        col.values.set(r, v);
        self.columns.insert(c, col);
        assert forall|k: int| 0 <= k < self.columns@.len() && k != c implies self.columns@[k]
            == before.columns@[k] by {
            if k < c {
                assert(self.columns@[k] == before.columns@[k]);
            } else {
                assert(self.columns@[k] == before.columns@[k]);
            }
        }
    }

    /// Insert `col` as column `at`, shifting later columns right.
    pub fn insert_column(&mut self, at: usize, col: Column)
        requires
            old(self).wf(),
            at <= old(self).ncols(),
            col.values@.len() == old(self).height,
            !old(self).has_name(col.name@),
        ensures
            final(self).wf(),
            final(self).height == old(self).height,
            final(self).columns@ == old(self).columns@.insert(at as int, col),
    {
        let ghost before = *self;
        self.columns.insert(at, col);
        let _ = self.columns.len();
        assert forall|i: int, j: int|
            0 <= i < self.columns@.len() && 0 <= j < self.columns@.len() && i != j implies self.columns@[i].name@
            != self.columns@[j].name@ by {
            if i == at {
                let jj = if j < at { j } else { j - 1 };
                assert(self.columns@[j] == before.columns@[jj]);
                assert(before.name_of(jj) != col.name@);
            } else if j == at {
                let ii = if i < at { i } else { i - 1 };
                assert(self.columns@[i] == before.columns@[ii]);
                assert(before.name_of(ii) != col.name@);
            } else {
                let ii = if i < at { i } else { i - 1 };
                let jj = if j < at { j } else { j - 1 };
                assert(self.columns@[i] == before.columns@[ii]);
                assert(self.columns@[j] == before.columns@[jj]);
            }
        }
    }

    /// Remove column `at`, shifting later columns left.
    pub fn remove_column(&mut self, at: usize)
        requires
            old(self).wf(),
            at < old(self).ncols(),
        ensures
            final(self).wf(),
            final(self).height == old(self).height,
            final(self).columns@ == old(self).columns@.remove(at as int),
    {
        let ghost before = *self;
        let _ = self.columns.remove(at);
        assert forall|i: int, j: int|
            0 <= i < self.columns@.len() && 0 <= j < self.columns@.len() && i != j implies self.columns@[i].name@
            != self.columns@[j].name@ by {
            let ii = if i < at { i } else { i + 1 };
            let jj = if j < at { j } else { j + 1 };
            assert(self.columns@[i] == before.columns@[ii]);
            assert(self.columns@[j] == before.columns@[jj]);
        }
    }

    /// Replace column `at` by `col`, which carries the same name.
    pub fn replace_column(&mut self, at: usize, col: Column)
        requires
            old(self).wf(),
            at < old(self).ncols(),
            col.values@.len() == old(self).height,
            col.name@ == old(self).name_of(at as int),
        ensures
            final(self).wf(),
            final(self).height == old(self).height,
            final(self).columns@ == old(self).columns@.update(at as int, col),
    {
        let ghost before = *self;
        let _ = self.columns.remove(at);
        self.columns.insert(at, col);
        assert(self.columns@ =~= before.columns@.update(at as int, col));
    }

    /// Give column `at` the name `name`.
    pub fn rename_at(&mut self, at: usize, name: String)
        requires
            old(self).wf(),
            at < old(self).ncols(),
            forall|c: int| 0 <= c < old(self).ncols() && c != at ==> old(self).name_of(c) != name@,
        ensures
            final(self).wf(),
            final(self).height == old(self).height,
            final(self).ncols() == old(self).ncols(),
            final(self).name_of(at as int) == name@,
            forall|c: int|
                0 <= c < old(self).ncols() && c != at ==> #[trigger] final(self).name_of(c)
                    == old(self).name_of(c),
            forall|c: int|
                0 <= c < old(self).ncols() ==> #[trigger] final(self).dtype_of(c) == old(self).dtype_of(c) && final(self).columns@[c].values@ == old(self).columns@[c].values@,
    {
        let ghost before = *self;
        let old_col = self.columns.remove(at);
        let col = Column { name, dtype: old_col.dtype, values: old_col.values };
        self.columns.insert(at, col);
        assert(self.columns@ =~= before.columns@.update(at as int, col));
        assert forall|i: int, j: int|
            0 <= i < self.columns@.len() && 0 <= j < self.columns@.len() && i != j implies self.columns@[i].name@
            != self.columns@[j].name@ by {
            if i == at {
                assert(before.name_of(j) != name@);
            } else if j == at {
                assert(before.name_of(i) != name@);
            }
        }
    }

    /// This frame with a row of nulls inserted before row `at`.
    pub fn with_null_row(&self, at: usize) -> (r: Frame)
        requires
            self.wf(),
            at <= self.height,
            self.height < usize::MAX,
        ensures
            r.wf(),
            r.same_columns(*self),
            r.height == self.height + 1,
            forall|row: int, c: int|
                0 <= row < r.height && 0 <= c < r.ncols() ==> #[trigger] r.at(row, c) == if row
                    < at {
                    self.at(row, c)
                } else if row == at {
                    Value::Null
                } else {
                    self.at(row - 1, c)
                },
    {
        let n = self.columns.len();
        let mut cols: Vec<Column> = Vec::new();
        for c in 0..n
            invariant
                n == self.columns@.len(),
                self.wf(),
                at <= self.height,
                cols@.len() == c,
                forall|k: int|
                    0 <= k < c ==> (#[trigger] cols@[k]).name@ == self.name_of(k) && cols@[k].dtype
                        == self.dtype_of(k) && cols@[k].values@ == self.columns@[k].values@.insert(
                        at as int,
                        Value::Null,
                    ),
        {
            let mut col = self.columns[c].copied();
            col.values.insert(at, Value::Null);
            cols.push(col);
        }
        Frame { columns: cols, height: self.height + 1 }
    }

    /// This frame without row `at`.
    pub fn without_row(&self, at: usize) -> (r: Frame)
        requires
            self.wf(),
            at < self.height,
        ensures
            r.wf(),
            r.same_columns(*self),
            r.height == self.height - 1,
            forall|row: int, c: int|
                0 <= row < r.height && 0 <= c < r.ncols() ==> #[trigger] r.at(row, c) == if row
                    < at {
                    self.at(row, c)
                } else {
                    self.at(row + 1, c)
                },
    {
        let n = self.columns.len();
        let mut cols: Vec<Column> = Vec::new();
        for c in 0..n
            invariant
                n == self.columns@.len(),
                self.wf(),
                at < self.height,
                cols@.len() == c,
                forall|k: int|
                    0 <= k < c ==> (#[trigger] cols@[k]).name@ == self.name_of(k) && cols@[k].dtype
                        == self.dtype_of(k) && cols@[k].values@ == self.columns@[k].values@.remove(
                        at as int,
                    ),
        {
            let mut col = self.columns[c].copied();
            let _ = col.values.remove(at);
            cols.push(col);
        }
        Frame { columns: cols, height: self.height - 1 }
    }

    /// The rows `rows[0]`, `rows[1]`, ... of this frame, in that order.
    pub fn take_rows(&self, rows: &Vec<usize>) -> (r: Frame)
        requires
            self.wf(),
            forall|i: int| 0 <= i < rows@.len() ==> #[trigger] rows@[i] < self.height,
        ensures
            r.wf(),
            r.same_columns(*self),
            r.height == rows@.len(),
            forall|row: int, c: int|
                0 <= row < r.height && 0 <= c < r.ncols() ==> #[trigger] r.at(row, c) == self.at(
                    rows@[row] as int,
                    c,
                ),
    {
        let n = self.columns.len();
        let m = rows.len();
        let mut cols: Vec<Column> = Vec::new();
        for c in 0..n
            invariant
                n == self.columns@.len(),
                m == rows@.len(),
                self.wf(),
                forall|i: int| 0 <= i < rows@.len() ==> #[trigger] rows@[i] < self.height,
                cols@.len() == c,
                forall|k: int|
                    0 <= k < c ==> (#[trigger] cols@[k]).name@ == self.name_of(k) && cols@[k].dtype
                        == self.dtype_of(k) && cols@[k].values@.len() == m && forall|i: int|
                        0 <= i < m ==> #[trigger] cols@[k].values@[i] == self.at(rows@[i] as int, k),
        {
            let mut values: Vec<Value> = Vec::new();
            for i in 0..m
                invariant
                    n == self.columns@.len(),
                    c < n,
                    m == rows@.len(),
                    self.wf(),
                    forall|i: int| 0 <= i < rows@.len() ==> #[trigger] rows@[i] < self.height,
                    values@.len() == i,
                    forall|j: int|
                        0 <= j < i ==> #[trigger] values@[j] == self.at(rows@[j] as int, c as int),
            {
                values.push(self.columns[c].values[rows[i]].copied());
            }
            cols.push(
                Column { name: self.columns[c].name.clone(), dtype: self.columns[c].dtype, values },
            );
        }
        Frame { columns: cols, height: m }
    }
}

} // verus!
