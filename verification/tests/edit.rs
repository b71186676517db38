use tabl::edit::{CellAddr, EditOverlay};
use tabl::value::Value;

#[test]
fn overlay_sets_reads_and_clears_cells() {
    let mut edits = EditOverlay::new();
    assert!(edits.is_empty());
    edits.set(CellAddr::new(1, 2), Value::Int(5));
    edits.set(CellAddr::new(0, 0), Value::Str("a".to_string()));
    // A second write to the same cell replaces the first.
    edits.set(CellAddr::new(1, 2), Value::Int(6));
    assert_eq!(edits.get(CellAddr::new(1, 2)), Some(&Value::Int(6)));
    assert_eq!(edits.get(CellAddr::new(2, 1)), None);
    assert_eq!(edits.iter().len(), 2);

    edits.clear_cell(CellAddr::new(1, 2));
    assert_eq!(edits.get(CellAddr::new(1, 2)), None);
    assert!(!edits.is_empty());
    edits.clear_cell(CellAddr::new(0, 0));
    assert!(edits.is_empty());
    // Clearing a cell without an edit changes nothing.
    edits.clear_cell(CellAddr::new(9, 9));
    assert!(edits.is_empty());
}
