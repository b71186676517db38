use tabl::column::ColumnMeta;
use tabl::table::{col_width_of, column_color, layout, Area, CellStyle, PALETTE_LEN};
use tabl::value::{DType, Value};
use tabl::view::Snapshot;
use tabl::viewport::{ColSpan, GridGeometry, Viewport};

fn snapshot(names: &[(&str, DType)], rows: Vec<Vec<Value>>) -> Snapshot {
    Snapshot {
        columns: names
            .iter()
            .map(|(n, d)| ColumnMeta { name: n.to_string(), dtype: *d })
            .collect(),
        row_offset: 0,
        total_rows: rows.len(),
        rows,
    }
}

fn viewport() -> Viewport {
    Viewport { row_offset: 0, col_offset: 0, sel_row: 0, sel_col: 0 }
}

#[test]
fn column_color_cycles() {
    assert_ne!(column_color(0), column_color(1));
    // Wraps back to the start after a full palette.
    assert_eq!(column_color(0), column_color(PALETTE_LEN));
}

#[test]
fn column_width_is_the_widest_text_clamped() {
    let long = "x".repeat(50);
    let snap = snapshot(
        &[("a", DType::Int), ("name", DType::Str), ("t", DType::Str), ("n", DType::Int)],
        vec![vec![
            Value::Int(123456),
            Value::Str("ab".to_string()),
            Value::Str(long),
            Value::Null,
        ]],
    );
    assert_eq!(col_width_of(&snap, 0), 6); // the cell
    assert_eq!(col_width_of(&snap, 1), 4); // the name
    assert_eq!(col_width_of(&snap, 2), 40); // clamped
    assert_eq!(col_width_of(&snap, 3), 6); // the null sentinel
    assert_eq!(col_width_of(&snap, 4), 3); // the append slot
}

#[test]
fn layout_windows_columns_to_the_width() {
    // Five int columns, each three wide plus a separator, after a one-wide
    // gutter and its separator: 2 + 4 * k cells for k columns.
    let names: Vec<(&str, DType)> = ["a", "b", "c", "d", "e"].iter().map(|n| (*n, DType::Int)).collect();
    let snap = snapshot(&names, vec![(0..5).map(Value::Int).collect()]);
    let area = Area { x: 0, y: 0, width: 14, height: 5 };
    let l = layout(&snap, area, &viewport(), None);
    assert_eq!(l.widths.len(), 3); // 2 + 12 = 14 fits, a fourth would not
    let spans: Vec<(usize, u16, u16)> = l.geometry.cols.iter().map(|s| (s.col, s.x, s.width)).collect();
    assert_eq!(spans, vec![(0, 2, 3), (1, 6, 3), (2, 10, 3)]);

    // Scrolled to the last column, the append slot follows it.
    let vp = Viewport { col_offset: 4, sel_col: 4, ..viewport() };
    let l = layout(&snap, area, &vp, None);
    let cols: Vec<usize> = l.geometry.cols.iter().map(|s| s.col).collect();
    assert_eq!(cols, vec![4, 5]);
    assert_eq!(l.header[1].name, "+");
    assert_eq!(l.header[1].color, None);
    assert_eq!(l.selected_col, Some(1));

    // Too narrow for anything: one column is still shown.
    let l = layout(&snap, Area { x: 0, y: 0, width: 1, height: 5 }, &viewport(), None);
    assert_eq!(l.widths.len(), 1);
}

#[test]
fn layout_shows_the_edit_buffer_with_a_caret() {
    let snap = snapshot(&[("a", DType::Int)], vec![vec![Value::Int(1)], vec![Value::Null]]);
    let area = Area { x: 0, y: 0, width: 40, height: 6 };
    let l = layout(&snap, area, &viewport(), Some("42"));
    assert_eq!(l.rows[0].cells[0].text, "42▏");
    assert_eq!(l.rows[0].cells[0].style, CellStyle::Colored(0));
    assert_eq!(l.rows[1].cells[0].text, "<null>");
    assert_eq!(l.rows[1].cells[0].style, CellStyle::Dim);
    assert_eq!(l.geometry.data_top, 2);
    assert_eq!(l.geometry.rows, 2);
}

#[test]
fn visible_cols_counts_columns_that_fit() {
    let vp = viewport();
    assert_eq!(vp.visible_cols(10, &[3, 3, 3]), 2);
    assert_eq!(vp.visible_cols(12, &[3, 3, 3]), 3);
    assert_eq!(vp.visible_cols(2, &[3]), 0);
    let vp = Viewport { col_offset: 2, ..viewport() };
    assert_eq!(vp.visible_cols(10, &[9, 9, 3]), 1);
    let vp = Viewport { col_offset: 9, ..viewport() };
    assert_eq!(vp.visible_cols(10, &[3]), 0);
}

#[test]
fn grid_hit_maps_clicks_to_cells() {
    let g = GridGeometry {
        data_top: 2,
        rows: 3,
        row_offset: 10,
        cols: vec![ColSpan { col: 4, x: 2, width: 3 }, ColSpan { col: 5, x: 6, width: 3 }],
    };
    assert_eq!(g.hit(2, 2), Some((10, 4)));
    assert_eq!(g.hit(8, 4), Some((12, 5)));
    assert_eq!(g.hit(5, 3), None); // the separator
    assert_eq!(g.hit(2, 1), None); // the header
    assert_eq!(g.hit(2, 5), None); // past the data
    assert_eq!(g.hit(0, 3), None); // the gutter
}
