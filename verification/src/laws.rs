//! Properties of a sheet that span several operations.

use vstd::prelude::*;
use crate::edit::CellAddr;
use crate::frame::Frame;
use crate::sheet::{
    added_column, deleted_row, dropped_column, filter_post, inserted_row, name_index,
    renamed_column, set_cell_post, true_rows, Sheet,
};
use crate::value::{DType, Value};
use crate::app::{
    backspace_command_post, backspace_edit_post, clamped, down_post, follow, push_command_post,
    push_edit_post, right_post, up_post, App, Mode,
};
use crate::event::{key_post, mouse_post, KeyPress, MouseEvent};
use crate::app::{command_post, command_word, dtype_named, finish_filter_post, only_says, says, Action};
use crate::error::{error_text, Error};
use crate::value::dtype_label;
use crate::text::lower;
use crate::text::parsed_usize;
use crate::show::{padded, ranges_for, truncated};
use crate::table::{col_width, fitting, shown_cols, span_left, Area, SPACING};
use crate::view::Snapshot;
use crate::viewport::Viewport;

verus! {

/// A cell reads back the value just written to it, and a write changes no
/// other cell: after `set_cell(row, col, v)`, `cell(row, col)` is `v`, and a
/// cell shown from another frame address reads as before.
pub proof fn law_cell_reads_back_its_edit(before: Sheet, after: Sheet, row: usize, col: usize, v: Value)
    requires
        set_cell_post(before, after, row, col, v),
    ensures
        after.cell_value(row, col) == v,
        forall|r: usize, c: usize|
            (before.true_row_of(r) != before.true_row_of(row) || c != col) ==> #[trigger] after.cell_value(
                r,
                c,
            ) == before.cell_value(r, c),
{
}

/// Setting or clearing a filter never changes data: every frame address
/// reads as before, and the frame with edits baked in is the same.
pub proof fn law_filter_changes_no_data(before: Sheet, after: Sheet, mask: Option<Seq<Option<bool>>>)
    requires
        filter_post(before, after, mask),
    ensures
        forall|r: usize, c: usize| #[trigger] after.edited_at(r, c) == before.edited_at(r, c),
        forall|f: Frame| #[trigger] after.is_baked(f) == before.is_baked(f),
{
}

/// A filter is evaluated fresh, never layered: two sheets that hold the same
/// data show the same rows after the same filter, whatever filters they had.
pub proof fn law_filter_is_not_layered(
    a: Sheet,
    b: Sheet,
    a2: Sheet,
    b2: Sheet,
    mask: Seq<Option<bool>>,
)
    requires
        a.base() == b.base(),
        a.overlay() == b.overlay(),
        filter_post(a, a2, Some(mask)),
        filter_post(b, b2, Some(mask)),
    ensures
        a2.shown() == b2.shown(),
        forall|d: usize, c: usize| #[trigger] a2.cell_value(d, c) == b2.cell_value(d, c),
{
}

/// The rows a mask selects are exactly those where it is `Some(true)`, each
/// once, in increasing order.
pub proof fn law_filter_selects_true_rows(mask: Seq<Option<bool>>)
    requires
        mask.len() <= usize::MAX,
    ensures
        forall|i: int, j: int|
            0 <= i < j < true_rows(mask).len() ==> #[trigger] true_rows(mask)[i] < #[trigger] true_rows(
                mask,
            )[j],
        forall|i: int| 0 <= i < true_rows(mask).len() ==> mask[#[trigger] true_rows(mask)[i] as int] == Some(true) && true_rows(mask)[i] < mask.len(),
        forall|k: int| 0 <= k < mask.len() && mask[k] == Some(true) ==> #[trigger] true_rows(mask).contains(k as usize),
    decreases mask.len(),
{
    if mask.len() > 0 {
        let prev = true_rows(mask.drop_last());
        law_filter_selects_true_rows(mask.drop_last());
        let t = true_rows(mask);
        let n = mask.len() - 1;
        assert forall|i: int| 0 <= i < prev.len() implies prev[i] < n && mask[prev[i] as int] == Some(true) by {
            assert(mask.drop_last()[prev[i] as int] == mask[prev[i] as int]);
        }
        assert forall|i: int| 0 <= i < t.len() implies t[i] < mask.len() && mask[#[trigger] t[i] as int] == Some(true) by {
            if i < prev.len() {
                assert(t[i] == prev[i]);
            }
        }
        assert forall|i: int, j: int| 0 <= i < j < t.len() implies #[trigger] t[i] < #[trigger] t[j] by {
            assert(t[i] == prev[i]);
            if j < prev.len() {
                assert(t[j] == prev[j]);
                assert(prev[i] < prev[j]);
            }
        }
        assert forall|k: int| 0 <= k < mask.len() && mask[k] == Some(true) implies #[trigger] t.contains(k as usize) by {
            if k < n {
                assert(mask.drop_last()[k] == mask[k]);
                assert(prev.contains(k as usize));
                let i = choose|i: int| 0 <= i < prev.len() && prev[i] == k as usize;
                assert(t[i] == prev[i]);
            } else {
                assert(t[t.len() - 1] == k as usize);
            }
        }
    }
}

/// Edits made while filtered apply to the underlying rows: a value written at
/// a shown row reads back at that row's frame index once the filter is
/// cleared.
pub proof fn law_filtered_edit_reaches_true_row(
    before: Sheet,
    edited: Sheet,
    cleared: Sheet,
    row: usize,
    col: usize,
    v: Value,
)
    requires
        set_cell_post(before, edited, row, col, v),
        filter_post(edited, cleared, None),
    ensures
        cleared.cell_value(before.true_row_of(row), col) == v,
{
}

/// With no pending edits, baking the overlay in gives back the frame itself.
pub proof fn law_no_edits_bake_to_the_frame(s: Sheet, f: Frame)
    requires
        s.base().wf(),
        s.overlay() == Map::<CellAddr, Value>::empty(),
        s.is_baked(f),
    ensures
        f.same_frame(s.base()),
{
}

/// Inserting a row and then deleting the row at the same index gives back
/// the frame with the earlier pending edits baked in.
pub proof fn law_insert_then_delete_row(before: Sheet, mid: Sheet, after: Sheet, index: usize)
    requires
        before.base().wf(),
        index <= before.base().height,
        inserted_row(before, mid, index),
        deleted_row(mid, after, index),
    ensures
        before.is_baked(after.base()),
{
    let f = after.base();
    let m = mid.base();
    assert forall|r: int, c: int| 0 <= r < f.height && 0 <= c < f.ncols() implies before.baked_ok(
        r as usize,
        c as usize,
        #[trigger] f.at(r, c),
    ) by {
        let a = CellAddr { row: r as usize, col: c as usize };
        assert(!mid.overlay().contains_key(a));
        if r < index {
            assert(mid.baked_ok(r as usize, c as usize, f.at(r, c)));
            assert(f.at(r, c) == m.at(r, c));
            assert(before.baked_ok(r as usize, c as usize, m.at(r, c)));
        } else {
            let a1 = CellAddr { row: (r + 1) as usize, col: c as usize };
            assert(!mid.overlay().contains_key(a1));
            assert(mid.baked_ok((r + 1) as usize, c as usize, f.at(r, c)));
            assert(f.at(r, c) == m.at(r + 1, c));
            assert(before.baked_ok(r as usize, c as usize, m.at(r + 1, c)));
        }
    }
    assert forall|c: int| 0 <= c < f.ncols() implies f.name_of(c) == before.base().name_of(c) && #[trigger] f.dtype_of(c) == before.base().dtype_of(c) by {
        assert(m.dtype_of(c) == before.base().dtype_of(c));
    }
}

/// Adding a column and then dropping it by name gives back the frame with the
/// earlier pending edits baked in.
pub proof fn law_add_then_drop_column(
    before: Sheet,
    mid: Sheet,
    after: Sheet,
    name: Seq<char>,
    dtype: DType,
    index: usize,
)
    requires
        before.base().wf(),
        mid.base().wf(),
        after.base().wf(),
        !before.base().has_name(name),
        added_column(before, mid, name, dtype, index),
        dropped_column(mid, after, name),
    ensures
        before.is_baked(after.base()),
{
    let w = before.base().ncols();
    let at = if index < w {
        index as int
    } else {
        w as int
    };
    let m = mid.base();
    let f = after.base();
    assert(name_index(m, name) == at) by {
        let k = name_index(m, name);
        assert(0 <= at < m.ncols() && m.name_of(at) == name);
        if k != at {
            assert(m.columns@[k].name@ != m.columns@[at].name@);
        }
    }
    assert forall|c: int| 0 <= c < f.ncols() implies f.name_of(c) == before.base().name_of(c) && #[trigger] f.dtype_of(c) == before.base().dtype_of(c) by {
        if c < at {
            assert(mid.baked_column(f, c, c));
            assert(before.baked_column(m, c, c));
        } else {
            assert(mid.baked_column(f, c, c + 1));
            assert(before.baked_column(m, c + 1, c));
        }
    }
    assert forall|r: int, c: int| 0 <= r < f.height && 0 <= c < f.ncols() implies before.baked_ok(
        r as usize,
        c as usize,
        #[trigger] f.at(r, c),
    ) by {
        if c < at {
            assert(mid.baked_column(f, c, c));
            assert(before.baked_column(m, c, c));
            assert(!mid.overlay().contains_key(CellAddr { row: r as usize, col: c as usize }));
            assert(mid.baked_ok(r as usize, c as usize, f.at(r, c)));
            assert(f.at(r, c) == m.at(r, c));
            assert(before.baked_ok(r as usize, c as usize, m.at(r, c)));
        } else {
            assert(mid.baked_column(f, c, c + 1));
            assert(before.baked_column(m, c + 1, c));
            assert(!mid.overlay().contains_key(CellAddr { row: r as usize, col: (c + 1) as usize }));
            assert(mid.baked_ok(r as usize, (c + 1) as usize, f.at(r, c)));
            assert(f.at(r, c) == m.at(r, c + 1));
            assert(before.baked_ok(r as usize, c as usize, m.at(r, c + 1)));
        }
    }
}

/// Renaming a column and renaming it back gives back the same frame, with
/// edits and filter kept throughout.
pub proof fn law_rename_round_trip(before: Sheet, mid: Sheet, after: Sheet, old: Seq<char>, new: Seq<char>)
    requires
        before.base().wf(),
        before.base().has_name(old),
        renamed_column(before, mid, old, new),
        renamed_column(mid, after, new, old),
    ensures
        after.base().same_frame(before.base()),
        after.overlay() == before.overlay(),
        after.shown() == before.shown(),
{
    let b = before.base();
    let m = mid.base();
    let f = after.base();
    let k = name_index(b, old);
    assert(0 <= k < b.ncols() && b.name_of(k) == old);
    assert(name_index(m, new) == k) by {
        let j = name_index(m, new);
        assert(0 <= k < m.ncols() && m.name_of(k) == new);
        if j != k {
            assert(m.columns@[j].name@ != m.columns@[k].name@);
        }
    }
    assert forall|c: int| 0 <= c < f.ncols() implies f.name_of(c) == b.name_of(c) && #[trigger] f.dtype_of(c) == b.dtype_of(c) by {
        assert(m.dtype_of(c) == b.dtype_of(c));
        if c != k {
            assert(m.name_of(c) == b.name_of(c));
            assert(f.name_of(c) == m.name_of(c));
        }
    }
    assert forall|r: int, c: int| 0 <= r < f.height && 0 <= c < f.ncols() implies #[trigger] f.at(r, c)
        == b.at(r, c) by {
        assert(m.dtype_of(c) == b.dtype_of(c));
        assert(f.dtype_of(c) == m.dtype_of(c));
    }
}

/// Scrolling to follow the selection keeps it in the window: the new offset
/// is at most the selection and, for a window of `page > 0` rows, the
/// selection lies within `page` rows of it; a selection already in the
/// window leaves the offset where it was.
pub proof fn law_follow_keeps_selection_in_window(sel: usize, offset: usize, page: usize)
    ensures
        follow(sel, offset, page) <= sel,
        page > 0 ==> sel < follow(sel, offset, page) + page,
        offset <= sel < offset + page ==> follow(sel, offset, page) == offset,
{
}

/// After the sheet's shape changes, the selection is pulled back in range:
/// onto an existing row (row 0 of an empty sheet), at most onto the append
/// slot past the last column, with both offsets at most the selection.
pub proof fn law_clamped_selection_in_range(vp: Viewport, rows: nat, cols: nat)
    requires
        rows <= usize::MAX,
        cols <= usize::MAX,
    ensures
        clamped(vp, rows, cols).sel_col <= cols,
        rows > 0 ==> clamped(vp, rows, cols).sel_row < rows,
        rows == 0 ==> clamped(vp, rows, cols).sel_row == 0,
        clamped(vp, rows, cols).row_offset <= clamped(vp, rows, cols).sel_row,
        clamped(vp, rows, cols).col_offset <= clamped(vp, rows, cols).sel_col,
{
}

/// Moving down never leaves the last row, moving up never passes the first,
/// and moving right stops on the append slot past the last column.
pub proof fn law_moves_stay_in_bounds(o: App, down: App, up: App, right: App, k: usize)
    requires
        o.wf(),
        down_post(o, down, k),
        up_post(o, up, k),
        right_post(o, right),
    ensures
        o.nrows() > 0 ==> down.viewport.sel_row < o.nrows(),
        o.nrows() > 0 && o.viewport.sel_row < o.nrows() ==> o.viewport.sel_row <= down.viewport.sel_row,
        up.viewport.sel_row <= o.viewport.sel_row,
        right.viewport.sel_col <= o.ncols(),
        o.viewport.sel_col < o.ncols() ==> right.viewport.sel_col == o.viewport.sel_col + 1,
{
}

/// Quitting is gated behind a command: no key in Normal or Insert mode, and
/// no mouse event, sets the quit flag.
pub proof fn law_only_a_command_quits(o: App, n: App, key: KeyPress, a: Action, m: App, ev: MouseEvent)
    requires
        o.mode != Mode::Command,
        key_post(o, n, key, a),
        mouse_post(o, m, ev),
    ensures
        n.should_quit == o.should_quit,
        m.should_quit == o.should_quit,
{
}

/// While a cell is being edited or a command typed, the mouse changes
/// nothing, so a stray click cannot discard the work in progress.
pub proof fn law_mouse_ignored_outside_normal_mode(o: App, n: App, ev: MouseEvent)
    requires
        o.mode != Mode::Normal,
        mouse_post(o, n, ev),
    ensures
        n == o,
{
}

/// Head and tail that meet or overlap collapse into one block of every row;
/// ones that leave rows between them print both blocks, with the gap marked.
pub proof fn law_head_and_tail_ranges(h: usize, t: usize, total: usize)
    ensures
        h + t >= total ==> ranges_for(Some(h), Some(t), total) == (0..total, None::<std::ops::Range<usize>>),
        h + t < total ==> ranges_for(Some(h), Some(t), total) == (0..h, Some(((total - t) as usize)..total)),
{
}

/// Every printed cell takes exactly its column's width: cut with an ellipsis
/// when longer, padded with spaces when shorter.
pub proof fn law_printed_cell_fills_its_width(s: Seq<char>, w: nat)
    ensures
        padded(truncated(s, w), w).len() == w,
        s.len() <= w ==> padded(truncated(s, w), w).take(s.len() as int) == s,
{
    let t = truncated(s, w);
    if s.len() <= w {
        assert(padded(t, w).take(s.len() as int) =~= s);
    }
}

proof fn lemma_span_left_shift(snap: Snapshot, start: int, first: int, i: nat)
    ensures
        span_left(snap, start, first, i + 1) == span_left(
            snap,
            start + col_width(snap, first) + SPACING,
            first + 1,
            i,
        ),
    decreases i,
{
    let start2 = start + col_width(snap, first) + SPACING;
    if i == 0 {
        assert(span_left(snap, start, first, 1) == span_left(snap, start, first, 0) + col_width(snap, first)
            + SPACING);
    } else {
        lemma_span_left_shift(snap, start, first, (i - 1) as nat);
        assert(span_left(snap, start, first, i + 1) == span_left(snap, start, first, i) + col_width(
            snap,
            first + i,
        ) + SPACING);
        assert(span_left(snap, start2, first + 1, i) == span_left(snap, start2, first + 1, (i - 1) as nat)
            + col_width(snap, first + 1 + i - 1) + SPACING);
    }
}

proof fn lemma_fitting_fits(snap: Snapshot, avail: int, used: int, c: int, end: int, first: bool)
    ensures
        ({
            let m = fitting(snap, avail, used, c, end, first);
            (m >= 2 || (m >= 1 && !first)) ==> span_left(snap, used, c, m) <= avail
        }),
        c < end ==> fitting(snap, avail, used, c, end, first) >= if first {
            1int
        } else {
            0
        },
    decreases end - c,
{
    if c < end {
        let needed = col_width(snap, c) + SPACING;
        if !(used + needed > avail && !first) {
            lemma_fitting_fits(snap, avail, used + needed, c + 1, end, false);
            let m = fitting(snap, avail, used, c, end, first);
            if m >= 1 {
                lemma_span_left_shift(snap, used, c, (m - 1) as nat);
            }
        }
    }
}

/// The grid always shows at least one column from the column offset (where
/// there is one), and the columns it shows fit the width — each with its
/// separator after the row-index gutter — unless a lone first column is
/// wider than the screen.
pub proof fn law_shown_columns_fit(snap: Snapshot, area: Area, vp: Viewport)
    ensures
        vp.col_offset <= snap.columns@.len() ==> shown_cols(snap, area, vp) >= 1,
        ({
            let g = crate::table::gutter_width(snap.total_rows);
            shown_cols(snap, area, vp) >= 2 ==> span_left(snap, g + SPACING, vp.col_offset as int, shown_cols(snap, area, vp))
                <= area.width
        }),
{
    let g = crate::table::gutter_width(snap.total_rows);
    lemma_fitting_fits(snap, area.width as int, g + SPACING, vp.col_offset as int, snap.columns@.len() + 1int, true);
}

/// Backspace undoes typing: a character typed into the command buffer or the
/// edit buffer and then deleted leaves the buffer, the mode and the data as
/// they were.
pub proof fn law_backspace_undoes_typing(o: App, m: App, n: App, e: App, f: App, c: char)
    requires
        push_command_post(o, m, c),
        backspace_command_post(m, n),
        push_edit_post(o, e, c),
        backspace_edit_post(e, f),
    ensures
        n.command@ == o.command@,
        n.mode == o.mode,
        n.sheet == o.sheet,
        n.viewport == o.viewport,
        f.edit@ == o.edit@,
        f.mode == o.mode,
        f.sheet == o.sheet,
        f.viewport == o.viewport,
{
    assert(o.command@.push(c).drop_last() =~= o.command@);
    assert(o.edit@.push(c).drop_last() =~= o.edit@);
}

/// A command that is neither a row number nor a known command word is
/// reported as unknown and changes nothing else: no data, no selection, no
/// quitting, and no outside work.
pub proof fn law_unknown_command_is_reported(o: App, n: App, a: Action)
    requires
        command_post(o, n, a),
        parsed_usize(command_word(o.command@)) is None,
        ({
            let w = command_word(o.command@);
            &&& w.len() > 0
            &&& w != "q"@ && w != "quit"@ && w != "w"@ && w != "write"@ && w != "wq"@
            &&& w != "add"@ && w != "delete"@ && w != "del"@ && w != "drop"@
            &&& w != "rename"@ && w != "ren"@ && w != "eval"@ && w != "filter"@
        }),
    ensures
        a is Nothing,
        says(n, "unknown command: "@ + command_word(o.command@)),
        n.sheet == o.sheet,
        n.viewport == o.viewport,
        n.should_quit == o.should_quit,
{
}

/// A refused filter clause changes no data and no view: the sheet, with the
/// filter already in force, and the selection stay as they were, and the
/// error is reported.
pub proof fn law_refused_filter_keeps_the_view(o: App, n: App, e: Error)
    requires
        finish_filter_post(o, n, Err(e)),
    ensures
        n.sheet == o.sheet,
        n.sheet.shown() == o.sheet.shown(),
        n.viewport == o.viewport,
        says(n, error_text(e)),
{
}

/// Every column type's label reads back as that type in `:add`; the label of
/// an unmodelled type (`?`) names none.
pub proof fn law_type_labels_read_back(d: DType)
    ensures
        d != DType::Unknown ==> dtype_named(dtype_label(d)) == Some(d),
        dtype_named(dtype_label(DType::Unknown)) is None,
{
    reveal_strlit("bool");
    reveal_strlit("int");
    reveal_strlit("float");
    reveal_strlit("str");
    reveal_strlit("date");
    reveal_strlit("datetime");
    reveal_strlit("?");
    reveal_strlit("string");
    reveal_strlit("text");
    reveal_strlit("utf8");
    reveal_strlit("integer");
    reveal_strlit("i64");
    reveal_strlit("f64");
    reveal_strlit("double");
    reveal_strlit("number");
    reveal_strlit("boolean");
    reveal_strlit("timestamp");
    assert(lower("bool"@) =~= "bool"@);
    assert(lower("int"@) =~= "int"@);
    assert(lower("float"@) =~= "float"@);
    assert(lower("str"@) =~= "str"@);
    assert(lower("date"@) =~= "date"@);
    assert(lower("datetime"@) =~= "datetime"@);
    assert(lower("?"@) =~= "?"@);
    // Labels differ from the other names of their length at their first or
    // second character.
    assert("bool"@[0] != "text"@[0] && "bool"@[0] != "utf8"@[0]);
    assert("int"@[0] != "str"@[0] && "int"@[1] != "i64"@[1] && "int"@[0] != "f64"@[0]);
    assert("date"@[0] != "text"@[0] && "date"@[0] != "utf8"@[0] && "date"@[0] != "bool"@[0]);
}

} // verus!
