use tabl::edit::CellAddr;
use tabl::frame::{Column, Frame};
use tabl::sheet::{ColumnStats, Sheet};
use tabl::value::{format_date, parse_date, DType, Value};

fn int_col(name: &str, vals: &[i64]) -> Column {
    Column {
        name: name.to_string(),
        dtype: DType::Int,
        values: vals.iter().map(|v| Value::Int(*v)).collect(),
    }
}

fn str_col(name: &str, vals: &[&str]) -> Column {
    Column {
        name: name.to_string(),
        dtype: DType::Str,
        values: vals.iter().map(|v| Value::Str(v.to_string())).collect(),
    }
}

fn sheet_of(cols: Vec<Column>) -> Sheet {
    let h = cols.first().map(|c| c.values.len()).unwrap_or(0);
    Sheet::new(Frame::new(h, cols).unwrap())
}

fn mask(bits: &[bool]) -> Vec<Option<bool>> {
    bits.iter().map(|b| Some(*b)).collect()
}

#[test]
fn view_maps_values_and_overlay_wins() {
    let mut sheet = sheet_of(vec![int_col("a", &[1, 2, 3]), str_col("b", &["x", "y", "z"])]);

    let snap = sheet.view(0, 2);
    assert_eq!(snap.total_rows, 3);
    assert_eq!(snap.rows.len(), 2);
    assert_eq!(snap.rows[0][0], Value::Int(1));
    assert_eq!(snap.rows[1][1], Value::Str("y".into()));

    // A windowed read past the end clamps rather than panicking.
    let tail = sheet.view(2, 10);
    assert_eq!(tail.rows.len(), 1);
    assert_eq!(tail.row_offset, 2);

    // An overlay edit shadows the underlying frame value.
    sheet.edits_mut().set(CellAddr::new(0, 0), Value::Int(99));
    assert_eq!(sheet.view(0, 1).rows[0][0], Value::Int(99));
}

#[test]
fn materialize_applies_overlay() {
    let mut sheet = sheet_of(vec![int_col("a", &[1, 2, 3]), str_col("b", &["x", "y", "z"])]);

    // No edits: unchanged frame.
    let out = sheet.materialize().unwrap();
    assert_eq!((out.height, out.columns.len()), (3, 2));

    sheet.edits_mut().set(CellAddr::new(0, 0), Value::Int(99));
    sheet.edits_mut().set(CellAddr::new(2, 1), Value::Str("zz".into()));

    let out = sheet.materialize().unwrap();
    let a = out.get_column_index("a").unwrap();
    let b = out.get_column_index("b").unwrap();
    assert_eq!(out.get(0, a), Value::Int(99));
    assert_eq!(out.get(2, b), Value::Str("zz".into()));
    // Types are preserved through the rebuild.
    assert_eq!(out.columns[a].dtype, DType::Int);
}

#[test]
fn add_and_drop_columns() {
    let mut sheet = sheet_of(vec![int_col("a", &[1, 2]), str_col("b", &["x", "y"])]);

    // Insert a null str column at the front.
    sheet.add_column("c", DType::Str, 0).unwrap();
    assert_eq!(sheet.shape(), (2, 3));
    assert_eq!(sheet.column_meta()[0].name, "c");
    assert_eq!(sheet.column_meta()[0].dtype, DType::Str);
    assert!(sheet.cell(0, 0).is_null());

    // A duplicate name is rejected.
    assert!(sheet.add_column("a", DType::Int, 0).is_err());

    // Drop it again.
    sheet.drop_column("c").unwrap();
    assert_eq!(sheet.shape(), (2, 2));
    assert!(sheet.drop_column("nope").is_err());
}

#[test]
fn structural_ops_bake_pending_edits() {
    let mut sheet = sheet_of(vec![int_col("a", &[1, 2])]);

    // A pending edit on column 0, then an insert at the front that shifts
    // column 0 to index 1.
    sheet.edits_mut().set(CellAddr::new(0, 0), Value::Int(99));
    sheet.add_column("z", DType::Int, 0).unwrap();

    // The edit was baked into the shifted column, not left at the old index.
    assert_eq!(sheet.column_meta()[1].name, "a");
    assert_eq!(sheet.cell(0, 1), Value::Int(99));
}

#[test]
fn insert_and_delete_rows() {
    let mut sheet = sheet_of(vec![int_col("a", &[1, 2, 3]), str_col("b", &["x", "y", "z"])]);

    sheet.insert_row(1).unwrap();
    assert_eq!(sheet.shape(), (4, 2));
    assert_eq!(sheet.cell(0, 0), Value::Int(1));
    assert!(sheet.cell(1, 0).is_null()); // the new null row
    assert_eq!(sheet.cell(2, 0), Value::Int(2)); // shifted down

    sheet.delete_row(0).unwrap();
    assert_eq!(sheet.shape(), (3, 2));
    assert!(sheet.cell(0, 0).is_null()); // the inserted row is now first

    assert!(sheet.delete_row(99).is_err());
}

#[test]
fn filter_is_a_temporary_view_with_true_row_edits() {
    let mut sheet = sheet_of(vec![int_col("a", &[1, 2, 3, 4]), int_col("b", &[10, 20, 30, 40])]);

    // Even `a` (`a % 2 = 0`): rows 1 (a=2) and 3 (a=4).
    sheet.set_filter(Some(mask(&[false, true, false, true])));
    assert!(sheet.is_filtered());
    assert_eq!(sheet.shape(), (2, 2));
    assert_eq!(sheet.cell(0, 0), Value::Int(2)); // display row 0 -> true row 1
    assert_eq!(sheet.cell(1, 0), Value::Int(4)); // display row 1 -> true row 3
    assert_eq!(sheet.true_row(1), 3);

    // Editing display row 0 writes the true row (1); it survives in the full
    // frame once the filter is cleared.
    sheet.set_cell(0, 1, Value::Int(99));
    sheet.set_filter(None);
    assert!(!sheet.is_filtered());
    assert_eq!(sheet.shape(), (4, 2));
    assert_eq!(sheet.cell(1, 1), Value::Int(99));

    // Re-filtering (`a > 2`) is fresh against the full frame, never layered.
    sheet.set_filter(Some(mask(&[false, false, true, true])));
    assert_eq!(sheet.shape(), (2, 2));
}

#[test]
fn materialize_view_writes_only_filtered_rows() {
    let mut sheet = sheet_of(vec![int_col("a", &[1, 2, 3, 4])]);

    // Unfiltered: the full frame.
    assert_eq!(sheet.materialize_view().unwrap().height, 4);

    // `a > 2`.
    sheet.set_filter(Some(mask(&[false, false, true, true])));
    let view = sheet.materialize_view().unwrap();
    assert_eq!(view.height, 2);
    assert_eq!(view.get(0, 0), Value::Int(3));
    assert_eq!(view.get(1, 0), Value::Int(4));

    // The full frame is untouched (a filter is a view, not a mutation).
    assert_eq!(sheet.materialize().unwrap().height, 4);
}

#[test]
fn dates_are_first_class() {
    let mut sheet = sheet_of(vec![str_col("d", &["2026-01-02", "2026-03-04"])]);

    // `DATE(d)`: the string column read as dates is recognised as a date type.
    let days: Vec<Value> = ["2026-01-02", "2026-03-04"]
        .iter()
        .map(|s| Value::Date(parse_date(s).unwrap()))
        .collect();
    let computed = Column { name: "d".to_string(), dtype: DType::Date, values: days };
    sheet.eval_column("d", computed, 0).unwrap();
    assert_eq!(sheet.dtype_at(0), Some(DType::Date));
    assert_eq!(sheet.cell(0, 0).display(), "2026-01-02");

    // Editing a date cell and materializing keeps the column a real date.
    let days = parse_date("2030-12-31").unwrap();
    sheet.set_cell(0, 0, Value::Date(days));
    assert_eq!(sheet.cell(0, 0).display(), "2030-12-31");

    let out = sheet.materialize().unwrap();
    assert_eq!(out.columns[0].dtype, DType::Date);

    // A fresh `date` column is a real date too.
    sheet.add_column("born", DType::Date, 1).unwrap();
    assert_eq!(sheet.dtype_at(1), Some(DType::Date));
}

#[test]
fn rename_column_keeps_position_and_data() {
    let mut sheet = sheet_of(vec![int_col("a", &[1, 2]), int_col("b", &[3, 4])]);

    sheet.rename_column("a", "x").unwrap();
    assert_eq!(sheet.column_meta()[0].name, "x");
    assert_eq!(sheet.cell(0, 0), Value::Int(1)); // data intact, position 0

    assert!(sheet.rename_column("nope", "y").is_err()); // unknown source
    assert!(sheet.rename_column("x", "b").is_err()); // target already exists
}

#[test]
fn describe_produces_a_stats_sheet() {
    let sheet = sheet_of(vec![int_col("a", &[1, 2, 3]), int_col("b", &[10, 20, 30])]);

    let figures = |mean: &str, std: &str, median: &str, min: i64, max: i64| ColumnStats {
        mean: mean.to_string(),
        std: std.to_string(),
        median: median.to_string(),
        min: Value::Int(min),
        max: Value::Int(max),
    };
    let stats = vec![figures("2", "1", "2", 1, 3), figures("20", "10", "20", 10, 30)];
    let described = sheet.describe(&stats).unwrap();
    // The first column labels the statistic; the source columns follow.
    let names: Vec<_> = described.column_meta().into_iter().map(|c| c.name).collect();
    assert!(names.iter().any(|n| n == "a"));
    assert!(names.iter().any(|n| n == "b"));
    assert!(described.shape().0 >= 1); // at least one statistic row
}

#[test]
fn row_ops_bake_pending_edits() {
    let mut sheet = sheet_of(vec![int_col("a", &[1, 2])]);

    sheet.edits_mut().set(CellAddr::new(1, 0), Value::Int(99));
    sheet.insert_row(0).unwrap(); // a null row on top shifts the rest down

    assert!(sheet.cell(0, 0).is_null());
    assert_eq!(sheet.cell(2, 0), Value::Int(99)); // the edit followed its row
}

#[test]
fn describe_reports_each_statistic_by_name() {
    let sheet = sheet_of(vec![int_col("a", &[1, 2, 3])]);
    let stats = vec![ColumnStats {
        mean: "2".to_string(),
        std: "1".to_string(),
        median: "2".to_string(),
        min: Value::Int(1),
        max: Value::Int(3),
    }];
    let d = sheet.describe(&stats).unwrap();
    assert_eq!(d.shape(), (7, 2));
    let labels: Vec<String> = (0..7).map(|r| d.cell(r, 0).display()).collect();
    assert_eq!(labels, vec!["count", "null_count", "mean", "std", "min", "median", "max"]);
    let figures: Vec<String> = (0..7).map(|r| d.cell(r, 1).display()).collect();
    assert_eq!(figures, vec!["3", "0", "2", "1", "1", "2", "3"]);
}

#[test]
fn describe_refuses_a_column_named_statistic() {
    let sheet = sheet_of(vec![int_col("statistic", &[1])]);
    let stats = vec![ColumnStats {
        mean: String::new(),
        std: String::new(),
        median: String::new(),
        min: Value::Null,
        max: Value::Null,
    }];
    assert!(sheet.describe(&stats).is_err());
}

#[test]
fn frame_new_refuses_ragged_or_duplicate_columns() {
    assert!(Frame::new(2, vec![int_col("a", &[1, 2]), int_col("b", &[1])]).is_err());
    assert!(Frame::new(1, vec![int_col("a", &[1]), int_col("a", &[2])]).is_err());
    assert!(Frame::new(1, vec![int_col("a", &[1]), int_col("b", &[2])]).is_ok());
}

#[test]
fn add_column_past_the_end_appends() {
    let mut sheet = sheet_of(vec![int_col("a", &[1])]);
    sheet.add_column("z", DType::Bool, 99).unwrap();
    assert_eq!(sheet.column_meta()[1].name, "z");
    assert_eq!(sheet.dtype_at(1), Some(DType::Bool));
    assert_eq!(sheet.dtype_at(2), None);
}

#[test]
fn eval_overwrites_in_place_and_checks_length() {
    let mut sheet = sheet_of(vec![int_col("a", &[1, 2]), int_col("b", &[3, 4])]);
    sheet.eval_column("b", int_col("b", &[30, 40]), 0).unwrap();
    assert_eq!(sheet.shape(), (2, 2));
    assert_eq!(sheet.column_meta()[1].name, "b");
    assert_eq!(sheet.cell(1, 1), Value::Int(40));
    // A result of the wrong length is refused and changes nothing.
    assert!(sheet.eval_column("c", int_col("c", &[1]), 0).is_err());
    assert_eq!(sheet.shape(), (2, 2));
}

#[test]
fn filter_then_row_change_clears_the_filter() {
    let mut sheet = sheet_of(vec![int_col("a", &[1, 2, 3])]);
    sheet.set_filter(Some(mask(&[false, true, true])));
    assert_eq!(sheet.shape(), (2, 1));
    sheet.insert_row(0).unwrap();
    assert!(!sheet.is_filtered());
    assert_eq!(sheet.shape(), (4, 1));
}

#[test]
fn out_of_range_cells_read_as_null() {
    let sheet = sheet_of(vec![int_col("a", &[1])]);
    assert!(sheet.cell(5, 0).is_null());
    assert!(sheet.cell(0, 5).is_null());
    assert_eq!(format_date(0), "1970-01-01");
}

#[test]
fn insert_then_delete_row_gives_back_the_data() {
    let mut sheet = sheet_of(vec![int_col("a", &[1, 2, 3])]);
    sheet.edits_mut().set(CellAddr::new(2, 0), Value::Int(30));
    sheet.insert_row(1).unwrap();
    sheet.delete_row(1).unwrap();
    let out = sheet.materialize().unwrap();
    let values: Vec<Value> = (0..3).map(|r| out.get(r, 0)).collect();
    assert_eq!(values, vec![Value::Int(1), Value::Int(2), Value::Int(30)]);
}

#[test]
fn add_then_drop_column_gives_back_the_data() {
    let mut sheet = sheet_of(vec![int_col("a", &[1, 2]), str_col("b", &["x", "y"])]);
    sheet.add_column("tmp", DType::Float, 1).unwrap();
    sheet.drop_column("tmp").unwrap();
    let names: Vec<String> = sheet.column_meta().into_iter().map(|c| c.name).collect();
    assert_eq!(names, vec!["a", "b"]);
    assert_eq!(sheet.cell(1, 1), Value::Str("y".into()));
}

#[test]
fn rename_and_back_is_the_same_sheet() {
    let mut sheet = sheet_of(vec![int_col("a", &[1, 2]), int_col("b", &[3, 4])]);
    sheet.set_filter(Some(mask(&[false, true])));
    sheet.set_cell(0, 0, Value::Int(20));
    sheet.rename_column("a", "x").unwrap();
    sheet.rename_column("x", "a").unwrap();
    assert!(sheet.is_filtered());
    assert_eq!(sheet.column_meta()[0].name, "a");
    assert_eq!(sheet.cell(0, 0), Value::Int(20));
    assert_eq!(sheet.cell(0, 1), Value::Int(4));
}

#[test]
fn filter_changes_no_data() {
    let mut sheet = sheet_of(vec![int_col("a", &[1, 2, 3])]);
    sheet.set_cell(2, 0, Value::Int(9));
    let before = sheet.materialize().unwrap();
    sheet.set_filter(Some(mask(&[true, false, true])));
    let after = sheet.materialize().unwrap();
    let read = |f: &Frame| (0..3).map(|r| f.get(r, 0)).collect::<Vec<_>>();
    assert_eq!(read(&before), read(&after));
}

fn bool_col(name: &str, vals: &[bool]) -> Column {
    Column {
        name: name.to_string(),
        dtype: DType::Bool,
        values: vals.iter().map(|v| Value::Bool(*v)).collect(),
    }
}

#[test]
fn eval_adds_overwrites_and_typechecks() {
    let mut sheet = sheet_of(vec![int_col("a", &[1, 2, 3]), int_col("b", &[10, 20, 30])]);

    // A new column at index 0 (the cursor), computed from the others
    // (`a * 2 + b`).
    sheet.eval_column("c", int_col("c", &[12, 24, 36]), 0).unwrap();
    assert_eq!(sheet.shape(), (3, 3));
    assert_eq!(sheet.column_meta()[0].name, "c"); // inserted at the index
    assert_eq!(sheet.cell(0, 0), Value::Int(12)); // 1*2 + 10

    // Overwriting an existing column keeps its position (`a * 10`, read from
    // the values before the evaluation).
    sheet.eval_column("a", int_col("a", &[10, 20, 30]), 0).unwrap();
    assert_eq!(sheet.shape(), (3, 3));
    let a = sheet.column_meta().iter().position(|c| c.name == "a").unwrap();
    assert_eq!(sheet.cell(0, a), Value::Int(10));

    // A comparison (`b > 15`) yields a boolean column.
    sheet.eval_column("big", bool_col("big", &[false, true, true]), 0).unwrap();
    let meta = sheet.column_meta();
    let big = meta.iter().position(|c| c.name == "big").unwrap();
    assert_eq!(meta[big].dtype, DType::Bool);
    assert_eq!(sheet.cell(0, big), Value::Bool(false)); // b=10 is not > 15
    assert_eq!(sheet.cell(1, big), Value::Bool(true)); // b=20 is > 15
}

#[test]
fn add_column_of_unknown_type_is_text() {
    let mut sheet = sheet_of(vec![int_col("a", &[1])]);
    sheet.add_column("u", DType::Unknown, 1).unwrap();
    assert_eq!(sheet.column_meta()[1].dtype, DType::Str);
    assert_eq!(sheet.dtype_at(1), Some(DType::Str));
}

#[test]
fn materialize_casts_edits_into_the_column_type() {
    let mut sheet = sheet_of(vec![
        str_col("s", &["x", "y", "z"]),
        int_col("i", &[1, 2, 3]),
        Column {
            name: "f".to_string(),
            dtype: DType::Float,
            values: vec![Value::Float("0.5".to_string()); 3],
        },
        bool_col("b", &[true, true, true]),
    ]);
    sheet.set_cell(0, 0, Value::Int(99));
    sheet.set_cell(1, 0, Value::Bool(true));
    sheet.set_cell(0, 1, Value::Bool(true));
    sheet.set_cell(1, 1, Value::Str("12.7".to_string()));
    sheet.set_cell(2, 1, Value::Str("x".to_string()));
    sheet.set_cell(0, 2, Value::Int(5));
    sheet.set_cell(1, 2, Value::Str("1.5".to_string()));
    sheet.set_cell(0, 3, Value::Int(0));
    sheet.set_cell(1, 3, Value::Float("2.5".to_string()));
    // An edit reads back as typed until it is baked in.
    assert_eq!(sheet.cell(0, 0), Value::Int(99));

    let f = sheet.materialize().unwrap();
    assert_eq!(f.get(0, 0), Value::Str("99".to_string()));
    assert_eq!(f.get(1, 0), Value::Str("true".to_string()));
    assert_eq!(f.get(0, 1), Value::Int(1));
    assert_eq!(f.get(1, 1), Value::Int(12));
    assert_eq!(f.get(2, 1), Value::Null);
    assert_eq!(f.get(0, 2), Value::Float("5".to_string()));
    assert_eq!(f.get(1, 2), Value::Null);
    assert_eq!(f.get(0, 3), Value::Bool(false));
    assert_eq!(f.get(1, 3), Value::Bool(true));

    // A structural change bakes the cast values in.
    sheet.insert_row(3).unwrap();
    assert_eq!(sheet.cell(0, 0), Value::Str("99".to_string()));
    assert_eq!(sheet.cell(0, 1), Value::Int(1));
}

#[test]
fn temporal_edits_cast_between_dates_and_datetimes() {
    let day = 86_400_000_000i64;
    let mut sheet = sheet_of(vec![
        Column { name: "d".to_string(), dtype: DType::Date, values: vec![Value::Date(0); 2] },
        Column { name: "t".to_string(), dtype: DType::Datetime, values: vec![Value::Datetime(0); 2] },
    ]);
    sheet.set_cell(0, 0, Value::Datetime(2 * day + 5));
    sheet.set_cell(1, 0, Value::Datetime(-1));
    sheet.set_cell(0, 1, Value::Date(3));
    sheet.set_cell(1, 1, Value::Int(7));
    let f = sheet.materialize().unwrap();
    assert_eq!(f.get(0, 0), Value::Date(2));
    assert_eq!(f.get(1, 0), Value::Date(-1));
    assert_eq!(f.get(0, 1), Value::Datetime(3 * day));
    assert_eq!(f.get(1, 1), Value::Datetime(7));
}

#[test]
fn rename_keeps_edits_past_the_last_column() {
    let mut sheet = sheet_of(vec![int_col("a", &[1])]);
    sheet.edits_mut().set(CellAddr::new(0, 5), Value::Int(9));
    sheet.rename_column("a", "b").unwrap();
    assert_eq!(sheet.column_meta()[0].name, "b");
    assert_eq!(sheet.cell(0, 5), Value::Int(9));
}
