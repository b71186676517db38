//! Printing a sheet as a plain-text table: the head and/or tail rows of a
//! file (`show`), or every row (`describe`'s statistics).
//!
//! The table is returned as its lines, for the caller to print.

use vstd::prelude::*;
use crate::column::ColumnMeta;
use crate::sheet::{window_len, Sheet};
use crate::text::{
    chars_of, concat, decimal, decimal_of, push_repeated, repeated, string_of, trim_end,
    trim_end_chars,
};
use crate::value::display_text;

verus! {

/// Columns wider than this are truncated with an ellipsis.
pub const MAX_COL_WIDTH: usize = 40;

/// One printed line below the header: a row with its absolute index and the
/// display text of its cells, or the gap (`…`) between head and tail.
#[derive(Debug)]
pub enum Line {
    Row(usize, Vec<String>),
    Gap,
}

/// A line as plain values: `Some((index, cells))` for a row, `None` for the
/// gap.
pub type LineView = Option<(usize, Seq<Seq<char>>)>;

/// The texts of `cells`.
pub open spec fn texts(cells: Seq<String>) -> Seq<Seq<char>> {
    cells.map_values(|s: String| s@)
}

/// The plain view of `l`.
pub open spec fn line_view(l: Line) -> LineView {
    match l {
        Line::Row(i, cells) => Some((i, texts(cells@))),
        Line::Gap => None,
    }
}

/// `s` cut to `width` characters, its last kept character replaced by `…`
/// when anything was cut.
pub open spec fn truncated(s: Seq<char>, width: nat) -> Seq<char> {
    if s.len() <= width {
        s
    } else if width == 0 {
        Seq::empty()
    } else {
        s.take(width - 1).push('…')
    }
}

/// `s` padded with spaces on the right to `width` characters.
pub open spec fn padded(s: Seq<char>, width: nat) -> Seq<char> {
    if s.len() < width {
        s + repeated(' ', (width - s.len()) as nat)
    } else {
        s
    }
}

/// The `c`th cell of `cells`, blank past the last.
pub open spec fn cell_or_blank(cells: Seq<Seq<char>>, c: int) -> Seq<char> {
    if 0 <= c < cells.len() {
        cells[c]
    } else {
        Seq::empty()
    }
}

/// The first `k` cells of a printed row, each after two spaces, cut and
/// padded to its column's width.
pub open spec fn cells_text(widths: Seq<usize>, cells: Seq<Seq<char>>, k: nat) -> Seq<char>
    decreases k,
{
    if k == 0 {
        Seq::empty()
    } else {
        let w = widths[k - 1] as nat;
        cells_text(widths, cells, (k - 1) as nat) + seq![' ', ' '] + padded(
            truncated(cell_or_blank(cells, k - 1), w),
            w,
        )
    }
}

/// A printed row: the index padded to `idx_w`, then the cells; trailing
/// white space dropped.
pub open spec fn row_line(idx_w: nat, idx: Seq<char>, widths: Seq<usize>, cells: Seq<Seq<char>>) -> Seq<char> {
    trim_end(padded(idx, idx_w) + cells_text(widths, cells, widths.len()))
}

/// `s` cut to `width` characters with an ellipsis when it is longer.
pub fn truncate(s: &str, width: usize) -> (r: String)
    ensures
        r@ == truncated(s@, width as nat),
{
    let cs = chars_of(s);
    if cs.len() <= width {
        return string_of(&cs);
    }
    if width == 0 {
        return String::new();
    }
    let mut t: Vec<char> = Vec::new();
    let mut i: usize = 0;
    while i + 1 < width
        invariant
            0 < width < cs@.len(),
            i < width,
            t@ == cs@.take(i as int),
        decreases width - i,
    {
        t.push(cs[i]);
        assert(cs@.take(i + 1) =~= cs@.take(i as int).push(cs@[i as int]));
        i = i + 1;
    }
    t.push('…');
    string_of(&t)
}

/// `s` padded with spaces to `width` characters.
pub fn pad(s: &str, width: usize) -> (r: String)
    ensures
        r@ == padded(s@, width as nat),
{
    let mut cs = chars_of(s);
    let len = cs.len();
    if len < width {
        push_repeated(&mut cs, ' ', width - len);
    }
    string_of(&cs)
}

/// One printed row: `idx` padded to `idx_w`, then each cell after two
/// spaces, cut and padded to its width; trailing white space dropped.
pub fn print_row(idx_w: usize, idx: &str, widths: &[usize], cells: &[String]) -> (r: String)
    ensures
        r@ == row_line(idx_w as nat, idx@, widths@, texts(cells@)),
{
    let mut out = chars_of(pad(idx, idx_w).as_str());
    let ghost head = out@;
    let n = widths.len();
    for c in 0..n
        invariant
            n == widths@.len(),
            out@ == head + cells_text(widths@, texts(cells@), c as nat),
    {
        let w = widths[c];
        let cell = if c < cells.len() {
            cells[c].as_str()
        } else {
            ""
        };
        proof {
            reveal_strlit("");
            assert(cell@ == cell_or_blank(texts(cells@), c as int));
        }
        out.push(' ');
        out.push(' ');
        let piece = pad(truncate(cell, w).as_str(), w);
        out = concat(&out, &chars_of(piece.as_str()));
        assert(head + cells_text(widths@, texts(cells@), (c + 1) as nat) =~= head
            + cells_text(widths@, texts(cells@), c as nat) + seq![' ', ' '] + piece@);
    }
    string_of(&trim_end_chars(&out))
}

/// The names of `cols`.
pub open spec fn names_of(cols: Seq<ColumnMeta>) -> Seq<Seq<char>> {
    cols.map_values(|m: ColumnMeta| m.name@)
}

/// The plain views of `lines`.
pub open spec fn line_views(lines: Seq<Line>) -> Seq<LineView> {
    lines.map_values(|l: Line| line_view(l))
}

/// The width of column `c` in line `l` (nothing for the gap).
pub open spec fn cell_width_in(l: LineView, c: int) -> nat {
    match l {
        Some((_, cells)) => if 0 <= c < cells.len() {
            cells[c].len()
        } else {
            0
        },
        None => 0,
    }
}

/// The widest of column `c`'s name and its cells in the first `k` lines.
pub open spec fn widest(names: Seq<Seq<char>>, lines: Seq<LineView>, c: int, k: nat) -> nat
    decreases k,
{
    if k == 0 {
        names[c].len()
    } else {
        let w = widest(names, lines, c, (k - 1) as nat);
        let x = cell_width_in(lines[k - 1], c);
        if x > w {
            x
        } else {
            w
        }
    }
}

/// The printed width of each column: its widest text, at most
/// [`MAX_COL_WIDTH`].
pub open spec fn print_widths(names: Seq<Seq<char>>, lines: Seq<LineView>) -> Seq<usize> {
    Seq::new(
        names.len(),
        |c: int|
            {
                let w = widest(names, lines, c, lines.len());
                if w < MAX_COL_WIDTH {
                    w as usize
                } else {
                    MAX_COL_WIDTH
                }
            },
    )
}

/// The width of the index gutter: that of the largest row index, at least one.
pub open spec fn index_width(total: usize) -> nat {
    let d = decimal(if total > 0 {
        (total - 1) as nat
    } else {
        0
    });
    if d.len() > 1 {
        d.len()
    } else {
        1
    }
}

/// A printed line below the header.
pub open spec fn body_line(idx_w: nat, widths: Seq<usize>, ncols: nat, l: LineView) -> Seq<char> {
    match l {
        None => row_line(idx_w, seq!['…'], widths, Seq::new(ncols, |c: int| seq!['…'])),
        Some((i, cells)) => row_line(idx_w, decimal(i as nat), widths, cells),
    }
}

/// The closing line: the row and column counts.
pub open spec fn summary_line(total: usize, ncols: nat) -> Seq<char> {
    decimal(total as nat) + " rows × "@ + decimal(ncols) + " cols"@
}

/// The printed table: a header of the column names, a rule, the lines, a
/// blank line and the summary.
pub open spec fn table_text(names: Seq<Seq<char>>, lines: Seq<LineView>, total: usize) -> Seq<Seq<char>> {
    let widths = print_widths(names, lines);
    let idx_w = index_width(total);
    seq![
        row_line(idx_w, seq!['#'], widths, names),
        row_line(
            idx_w,
            repeated('-', idx_w),
            widths,
            Seq::new(widths.len(), |c: int| repeated('-', widths[c] as nat)),
        ),
    ] + Seq::new(lines.len(), |i: int| body_line(idx_w, widths, names.len(), lines[i])) + seq![
        Seq::empty(),
        summary_line(total, names.len()),
    ]
}

fn print_widths_of(cols: &[ColumnMeta], lines: &[Line]) -> (r: Vec<usize>)
    ensures
        r@ == print_widths(names_of(cols@), line_views(lines@)),
{
    let ghost names = names_of(cols@);
    let ghost lv = line_views(lines@);
    let ncols = cols.len();
    let mut widths: Vec<usize> = Vec::new();
    for c in 0..ncols
        invariant
            ncols == cols@.len(),
            names == names_of(cols@),
            widths@.len() == c,
            forall|k: int| 0 <= k < c ==> widths@[k] == widest(names, lv, k, 0),
    {
        widths.push(chars_of(cols[c].name.as_str()).len());
    }
    let nl = lines.len();
    for k in 0..nl
        invariant
            ncols == cols@.len(),
            nl == lines@.len(),
            names == names_of(cols@),
            lv == line_views(lines@),
            widths@.len() == ncols,
            forall|c: int| 0 <= c < ncols ==> widths@[c] == widest(names, lv, c, k as nat),
    {
        match &lines[k] {
            Line::Row(_, cells) => {
                assert(lv[k as int] == Some((lines@[k as int]->0, texts(cells@))));
                for c in 0..ncols
                    invariant
                        ncols == cols@.len(),
                        names == names_of(cols@),
                        lv == line_views(lines@),
                        lv[k as int] == Some((lines@[k as int]->0, texts(cells@))),
                        k < lines@.len(),
                        widths@.len() == ncols,
                        forall|j: int| 0 <= j < c ==> widths@[j] == widest(names, lv, j, (k + 1) as nat),
                        forall|j: int| c <= j < ncols ==> widths@[j] == widest(names, lv, j, k as nat),
                {
                    if c < cells.len() {
                        let x = chars_of(cells[c].as_str()).len();
                        if x > widths[c] {
                            widths.set(c, x);
                        }
                    }
                }
            },
            Line::Gap => {},
        }
    }
    for c in 0..ncols
        invariant
            ncols == cols@.len(),
            names == names_of(cols@),
            widths@.len() == ncols,
            forall|j: int| 0 <= j < c ==> widths@[j] == print_widths(names, lv)[j],
            forall|j: int| c <= j < ncols ==> widths@[j] == widest(names, lv, j, lv.len()),
    {
        if widths[c] > MAX_COL_WIDTH {
            widths.set(c, MAX_COL_WIDTH);
        }
    }
    assert(widths@ =~= print_widths(names, lv));
    widths
}

/// The table of `cols` over `lines`, `total` being the sheet's row count
/// (which sizes the index gutter and closes the table).
pub fn print_table(cols: &[ColumnMeta], lines: &[Line], total: usize) -> (r: Vec<String>)
    ensures
        texts(r@) == table_text(names_of(cols@), line_views(lines@), total),
{
    let ghost names = names_of(cols@);
    let ghost lv = line_views(lines@);
    let ncols = cols.len();
    let widths = print_widths_of(cols, lines);
    let ghost ws = widths@;
    let d = decimal_of(total.saturating_sub(1) as u64);
    let idx_w = if d.len() > 1 {
        d.len()
    } else {
        1
    };
    let mut out: Vec<String> = Vec::new();

    let mut header: Vec<String> = Vec::new();
    for c in 0..ncols
        invariant
            ncols == cols@.len(),
            names == names_of(cols@),
            header@.len() == c,
            forall|j: int| 0 <= j < c ==> (#[trigger] header@[j])@ == names[j],
    {
        header.push(cols[c].name.clone());
    }
    assert(texts(header@) =~= names);
    out.push(print_row(idx_w, "#", widths.as_slice(), header.as_slice()));

    let mut rule: Vec<String> = Vec::new();
    for c in 0..ncols
        invariant
            ncols == widths@.len(),
            rule@.len() == c,
            forall|j: int| 0 <= j < c ==> (#[trigger] rule@[j])@ == repeated('-', widths@[j] as nat),
    {
        let mut dashes: Vec<char> = Vec::new();
        push_repeated(&mut dashes, '-', widths[c]);
        assert(dashes@ =~= repeated('-', widths@[c as int] as nat));
        rule.push(string_of(&dashes));
    }
    let mut idx_dashes: Vec<char> = Vec::new();
    push_repeated(&mut idx_dashes, '-', idx_w);
    assert(idx_dashes@ =~= repeated('-', idx_w as nat));
    assert(texts(rule@) =~= Seq::new(ws.len(), |c: int| repeated('-', ws[c] as nat)));
    out.push(print_row(idx_w, string_of(&idx_dashes).as_str(), widths.as_slice(), rule.as_slice()));
    proof {
        reveal_strlit("#");
        assert("#"@ =~= seq!['#']);
    }

    let nl = lines.len();
    for k in 0..nl
        invariant
            ncols == cols@.len(),
            nl == lines@.len(),
            names == names_of(cols@),
            lv == line_views(lines@),
            ws == widths@,
            ws == print_widths(names, lv),
            idx_w as nat == index_width(total),
            out@.len() == 2 + k,
            texts(out@).take(2) == table_text(names, lv, total).take(2),
            forall|i: int|
                0 <= i < k ==> (#[trigger] out@[2 + i])@ == body_line(idx_w as nat, ws, ncols as nat, lv[i]),
    {
        match &lines[k] {
            Line::Gap => {
                let mut dots: Vec<String> = Vec::new();
                for c in 0..ncols
                    invariant
                        dots@.len() == c,
                        forall|j: int| 0 <= j < c ==> (#[trigger] dots@[j])@ == seq!['…'],
                {
                    let mut e: Vec<char> = Vec::new();
                    e.push('…');
                    dots.push(string_of(&e));
                }
                assert(texts(dots@) =~= Seq::new(ncols as nat, |c: int| seq!['…']));
                let mut e: Vec<char> = Vec::new();
                e.push('…');
                let line = print_row(idx_w, string_of(&e).as_str(), widths.as_slice(), dots.as_slice());
                out.push(line);
            },
            Line::Row(idx, cells) => {
                let line = print_row(
                    idx_w,
                    string_of(&decimal_of(*idx as u64)).as_str(),
                    widths.as_slice(),
                    cells.as_slice(),
                );
                out.push(line);
            },
        }
        assert(texts(out@).take(2) =~= texts(out@.take(2)));
    }
    out.push(String::new());
    let summary = concat(
        &concat(&concat(&decimal_of(total as u64), &chars_of(" rows × ")), &decimal_of(ncols as u64)),
        &chars_of(" cols"),
    );
    proof {
        reveal_strlit(" rows × ");
        reveal_strlit(" cols");
    }
    out.push(string_of(&summary));
    proof {
        let t = table_text(names, lv, total);
        let o = texts(out@);
        assert(o.len() == t.len());
        assert forall|i: int| 0 <= i < o.len() implies o[i] == t[i] by {
            if i < 2 {
                assert(o.take(2)[i] == t.take(2)[i]);
            } else if i < 2 + nl {
                assert(out@[2 + (i - 2)]@ == body_line(idx_w as nat, ws, ncols as nat, lv[i - 2]));
            }
        }
        assert(o =~= t);
    }
    out
}

/// The row range(s) to print for `head`/`tail` over `total` rows: a head
/// range, and a tail range only where head and tail leave a gap between
/// them (they collapse into one block where they meet or overlap). Neither
/// given falls back to the first ten rows.
pub open spec fn ranges_for(head: Option<usize>, tail: Option<usize>, total: usize) -> (
    std::ops::Range<usize>,
    Option<std::ops::Range<usize>>,
) {
    let head_end = match head {
        Some(h) => Some(if h < total { h } else { total }),
        None => None,
    };
    let tail_start = match tail {
        Some(t) => Some((total - if t < total { t } else { total }) as usize),
        None => None,
    };
    match (head_end, tail_start) {
        (Some(he), Some(ts)) => if he < ts {
            (0..he, Some(ts..total))
        } else {
            (0..total, None)
        },
        (Some(he), None) => (0..he, None),
        (None, Some(ts)) => (ts..total, None),
        (None, None) => (0..if total < 10 { total } else { 10 }, None),
    }
}

/// Resolve `head`/`tail` into the row range(s) to print ([`ranges_for`]).
pub fn resolve_ranges(head: Option<usize>, tail: Option<usize>, total: usize) -> (r: (
    std::ops::Range<usize>,
    Option<std::ops::Range<usize>>,
))
    ensures
        r == ranges_for(head, tail, total),
        r.0.start <= r.0.end <= total,
        r.1 matches Some(t) ==> r.0.end < t.start <= t.end == total,
{
    let head_end = match head {
        Some(h) => Some(if h < total { h } else { total }),
        None => None,
    };
    let tail_start = match tail {
        Some(t) => Some(total - if t < total { t } else { total }),
        None => None,
    };
    match (head_end, tail_start) {
        (Some(he), Some(ts)) => if he < ts {
            (0..he, Some(ts..total))
        } else {
            (0..total, None)
        },
        (Some(he), None) => (0..he, None),
        (None, Some(ts)) => (ts..total, None),
        // Neither bound given: the first ten rows.
        (None, None) => (0..if total < 10 { total } else { 10 }, None),
    }
}

/// The printed lines of `sheet`'s shown rows `[start, end)`: each with its
/// index and the display text of its cells.
pub open spec fn rows_in(sheet: Sheet, start: usize, end: usize) -> Seq<LineView> {
    Seq::new(
        window_len(start, (end - start) as usize, sheet.visible() as usize),
        |j: int|
            Some(
                (
                    (start + j) as usize,
                    Seq::new(
                        sheet.base().ncols(),
                        |c: int| display_text(sheet.cell_value((start + j) as usize, c as usize)),
                    ),
                ),
            ),
    )
}

/// The names of `sheet`'s columns.
pub open spec fn sheet_names(sheet: Sheet) -> Seq<Seq<char>> {
    Seq::new(sheet.base().ncols(), |c: int| sheet.base().name_of(c))
}

/// The lines `show` prints for `sheet` with `head`/`tail`.
pub open spec fn shown_lines(sheet: Sheet, head: Option<usize>, tail: Option<usize>) -> Seq<LineView> {
    let (h, t) = ranges_for(head, tail, sheet.visible() as usize);
    rows_in(sheet, h.start, h.end) + match t {
        Some(t) => seq![None] + rows_in(sheet, t.start, t.end),
        None => Seq::empty(),
    }
}

fn rows_for(sheet: &Sheet, start: usize, end: usize) -> (r: Vec<Line>)
    requires
        sheet.wf(),
        start <= end,
    ensures
        line_views(r@) == rows_in(*sheet, start, end),
{
    let snap = sheet.view(start, end - start);
    let ghost want = rows_in(*sheet, start, end);
    let ncols = snap.columns.len();
    let n = snap.rows.len();
    let mut out: Vec<Line> = Vec::new();
    for j in 0..n
        invariant
            n == snap.rows@.len() == want.len(),
            ncols == sheet.base().ncols(),
            snap.row_offset == start,
            want == rows_in(*sheet, start, end),
            forall|i: int| 0 <= i < snap.rows@.len() ==> (#[trigger] snap.rows@[i])@.len() == sheet.base().ncols(),
            forall|i: int, c: int|
                0 <= i < snap.rows@.len() && 0 <= c < sheet.base().ncols() ==> #[trigger] snap.rows@[i]@[c]
                    == sheet.cell_value((start + i) as usize, c as usize),
            out@.len() == j,
            forall|i: int| 0 <= i < j ==> line_view(#[trigger] out@[i]) == want[i],
    {
        let row = &snap.rows[j];
        let mut cells: Vec<String> = Vec::new();
        for c in 0..ncols
            invariant
                ncols == sheet.base().ncols() == row@.len(),
                forall|c: int| 0 <= c < ncols ==> #[trigger] row@[c]
                    == sheet.cell_value((start + j) as usize, c as usize),
                cells@.len() == c,
                forall|k: int|
                    0 <= k < c ==> (#[trigger] cells@[k])@ == display_text(
                        sheet.cell_value((start + j) as usize, k as usize),
                    ),
        {
            cells.push(row[c].display());
        }
        assert(texts(cells@) =~= Seq::new(
            ncols as nat,
            |c: int| display_text(sheet.cell_value((start + j) as usize, c as usize)),
        ));
        out.push(Line::Row(start + j, cells));
    }
    assert(line_views(out@) =~= want);
    out
}

/// The table `show` prints for `sheet`: the rows `head`/`tail` select
/// ([`resolve_ranges`]), with a gap line between head and tail where they do
/// not meet.
pub fn run(sheet: &Sheet, head: Option<usize>, tail: Option<usize>) -> (r: Vec<String>)
    requires
        sheet.wf(),
    ensures
        texts(r@) == table_text(sheet_names(*sheet), shown_lines(*sheet, head, tail), sheet.visible() as usize),
{
    let total = sheet.shape().0;
    let cols = sheet.column_meta();
    let (head_range, tail_range) = resolve_ranges(head, tail, total);
    let mut lines = rows_for(sheet, head_range.start, head_range.end);
    let ghost first = lines@;
    match tail_range {
        Some(t) => {
            // A second range only exists where there is a gap between head and tail.
            lines.push(Line::Gap);
            let mut rest = rows_for(sheet, t.start, t.end);
            let ghost tail_lines = rest@;
            lines.append(&mut rest);
            assert(line_views(lines@) =~= line_views(first) + seq![None] + line_views(tail_lines));
        },
        None => {},
    }
    assert(names_of(cols@) =~= sheet_names(*sheet));
    assert(line_views(lines@) =~= shown_lines(*sheet, head, tail));
    print_table(cols.as_slice(), lines.as_slice(), total)
}

/// The table of every shown row of `sheet` (used by `describe`).
pub fn print_sheet(sheet: &Sheet) -> (r: Vec<String>)
    requires
        sheet.wf(),
    ensures
        texts(r@) == table_text(sheet_names(*sheet), rows_in(*sheet, 0, sheet.visible() as usize), sheet.visible() as usize),
{
    let total = sheet.shape().0;
    let cols = sheet.column_meta();
    let lines = rows_for(sheet, 0, total);
    assert(names_of(cols@) =~= sheet_names(*sheet));
    print_table(cols.as_slice(), lines.as_slice(), total)
}

} // verus!
