use prettytable::cell::Cell;
use prettytable::row::Row;

fn row_of(words: &[&str]) -> Row {
    let mut cells: Vec<Cell> = Vec::new();
    for w in words {
        cells.push(Cell::new(&w.to_string()));
    }
    Row::new(cells)
}

#[test]
fn row_default_empty() {
    let row1 = Row::default();
    assert_eq!(row1.len(), 0);
    assert!(row1.is_empty());
}

#[test]
fn get_add_set_cell() {
    let mut row = row_of(&["foo", "bar", "foobar"]);
    assert_eq!(row.len(), 3);
    assert!(row.get_mut_cell(12).is_none());
    let c1 = row.get_mut_cell(0).unwrap().clone();
    assert_eq!(c1.get_content(), "foo");

    let c1 = Cell::new(&"baz".to_string());
    assert!(row.set_cell(c1.clone(), 1000).is_err());
    assert!(row.set_cell(c1.clone(), 0).is_ok());
    assert_eq!(row.get_cell(0).unwrap().get_content(), "baz");

    row.add_cell(c1.clone());
    assert_eq!(row.len(), 4);
    assert_eq!(row.get_cell(3).unwrap().get_content(), "baz");
}

#[test]
fn insert_cell() {
    let mut row = row_of(&["foo", "bar", "foobar"]);
    assert_eq!(row.len(), 3);
    let cell = Cell::new(&"baz".to_string());
    row.insert_cell(1000, cell.clone());
    assert_eq!(row.len(), 4);
    assert_eq!(row.get_cell(3).unwrap().get_content(), "baz");
    row.insert_cell(1, cell.clone());
    assert_eq!(row.len(), 5);
    assert_eq!(row.get_cell(1).unwrap().get_content(), "baz");
}

#[test]
fn remove_cell() {
    let mut row = row_of(&["foo", "bar", "foobar"]);
    assert_eq!(row.len(), 3);
    row.remove_cell(1000);
    assert_eq!(row.len(), 3);
    row.remove_cell(1);
    assert_eq!(row.len(), 2);
    assert_eq!(row.get_cell(0).unwrap().get_content(), "foo");
    assert_eq!(row.get_cell(1).unwrap().get_content(), "foobar");
}

#[test]
fn row_height_is_max_cell_height_min_one() {
    // A row with one three-line cell and two one-line cells is three lines
    // tall; a row with no cell still occupies one line.
    let mut row = row_of(&["one", "two"]);
    row.add_cell(Cell::new(&"a\nb\nc".to_string()));
    assert_eq!(row.get_height(), 3);
    let empty = Row::empty();
    assert_eq!(empty.get_height(), 1);
}

#[test]
fn cell_width_zero_past_end() {
    let row = row_of(&["abc", "de"]);
    assert_eq!(row.get_cell_width(0), 3);
    assert_eq!(row.get_cell_width(1), 2);
    assert_eq!(row.get_cell_width(2), 0);
    assert_eq!(row.get_cell_width(100), 0);
}
