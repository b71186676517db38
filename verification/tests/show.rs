use tabl::frame::{Column, Frame};
use tabl::sheet::Sheet;
use tabl::show::{pad, print_row, print_sheet, print_table, resolve_ranges, run, truncate, Line};
use tabl::column::ColumnMeta;
use tabl::value::{DType, Value};

fn int_col(name: &str, vals: &[i64]) -> Column {
    Column {
        name: name.to_string(),
        dtype: DType::Int,
        values: vals.iter().map(|v| Value::Int(*v)).collect(),
    }
}

fn sheet_of(cols: Vec<Column>) -> Sheet {
    let h = cols.first().map(|c| c.values.len()).unwrap_or(0);
    Sheet::new(Frame::new(h, cols).unwrap())
}

#[test]
fn truncate_cuts_with_an_ellipsis() {
    assert_eq!(truncate("hello", 10), "hello");
    assert_eq!(truncate("hello", 5), "hello");
    assert_eq!(truncate("hello", 4), "hel…");
    assert_eq!(truncate("hello", 1), "…");
    assert_eq!(truncate("hello", 0), "");
    assert_eq!(truncate("héllo wörld", 6), "héllo…");
}

#[test]
fn pad_fills_to_the_width() {
    assert_eq!(pad("ab", 4), "ab  ");
    assert_eq!(pad("abcd", 2), "abcd");
    assert_eq!(pad("", 3), "   ");
    // Every printed cell takes exactly its width.
    for s in ["", "x", "a longer text than the width"] {
        assert_eq!(pad(&truncate(s, 5), 5).chars().count(), 5);
    }
}

#[test]
fn resolve_ranges_head_tail_and_gap() {
    // Neither given: the first ten rows.
    assert_eq!(resolve_ranges(None, None, 100), (0..10, None));
    assert_eq!(resolve_ranges(None, None, 4), (0..4, None));
    // Head alone, tail alone.
    assert_eq!(resolve_ranges(Some(3), None, 100), (0..3, None));
    assert_eq!(resolve_ranges(None, Some(3), 100), (97..100, None));
    assert_eq!(resolve_ranges(Some(300), None, 100), (0..100, None));
    // Both with a gap between them.
    assert_eq!(resolve_ranges(Some(2), Some(3), 100), (0..2, Some(97..100)));
    // Both meeting or overlapping: one block of every row.
    assert_eq!(resolve_ranges(Some(60), Some(40), 100), (0..100, None));
    assert_eq!(resolve_ranges(Some(70), Some(70), 100), (0..100, None));
}

#[test]
fn print_row_pads_cells_and_drops_trailing_space() {
    let cells = vec!["1".to_string(), "abcdef".to_string()];
    assert_eq!(print_row(2, "7", &[3, 4], &cells), "7   1    abc…");
    // Missing cells print blank.
    assert_eq!(print_row(1, "#", &[2, 2], &["x".to_string()]), "#  x");
}

#[test]
fn print_table_lays_out_header_rule_rows_gap_and_summary() {
    let cols = vec![
        ColumnMeta { name: "id".to_string(), dtype: DType::Int },
        ColumnMeta { name: "name".to_string(), dtype: DType::Str },
    ];
    let lines = vec![
        Line::Row(0, vec!["1".to_string(), "alice".to_string()]),
        Line::Gap,
        Line::Row(11, vec!["12".to_string(), "bob".to_string()]),
    ];
    let out = print_table(&cols, &lines, 12);
    assert_eq!(
        out,
        vec![
            "#   id  name",
            "--  --  -----",
            "0   1   alice",
            "…   …   …",
            "11  12  bob",
            "",
            "12 rows × 2 cols",
        ]
    );
}

#[test]
fn run_prints_head_and_tail_with_a_gap() {
    let sheet = sheet_of(vec![int_col("a", &[10, 11, 12, 13, 14])]);
    let out = run(&sheet, Some(1), Some(1));
    assert_eq!(out, vec!["#  a", "-  --", "0  10", "…  …", "4  14", "", "5 rows × 1 cols"]);
    // Head and tail that meet print every row once.
    let out = run(&sheet, Some(3), Some(2));
    assert_eq!(out.len(), 2 + 5 + 2);
}

#[test]
fn print_sheet_prints_every_row() {
    let sheet = sheet_of(vec![int_col("a", &[1, 2]), int_col("bee", &[3, 4])]);
    let out = print_sheet(&sheet);
    assert_eq!(out, vec!["#  a  bee", "-  -  ---", "0  1  3", "1  2  4", "", "2 rows × 2 cols"]);
}
