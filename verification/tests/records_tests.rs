use prettytable::cell::Cell;
use prettytable::row::Row;
use prettytable::Table;

fn row_of(words: &[&str]) -> Row {
    let mut cells: Vec<Cell> = Vec::new();
    for w in words {
        cells.push(Cell::new(&w.to_string()));
    }
    Row::new(cells)
}

fn test_table() -> Table {
    let mut table = Table::new();
    table.add_row(row_of(&["ABC", "DEFG", "HIJKLMN"]));
    table.add_row(row_of(&["foobar", "bar", "foo"]));
    table.add_row(row_of(&["foobar2", "bar2", "foo2"]));
    table
}

#[test]
fn to_records_exports_rows_in_order() {
    let records = test_table().to_records();
    assert_eq!(records.len(), 3);
    assert_eq!(records[0], vec!["ABC".to_string(), "DEFG".to_string(), "HIJKLMN".to_string()]);
    assert_eq!(records[1], vec!["foobar".to_string(), "bar".to_string(), "foo".to_string()]);
    assert_eq!(records[2], vec!["foobar2".to_string(), "bar2".to_string(), "foo2".to_string()]);
}

#[test]
fn to_records_exports_titles_first() {
    let mut table = test_table();
    table.set_titles(row_of(&["h1", "h2", "h3"]));
    let records = table.to_records();
    assert_eq!(records.len(), 4);
    assert_eq!(records[0], vec!["h1".to_string(), "h2".to_string(), "h3".to_string()]);
}

#[test]
fn records_round_trip_renders_identically() {
    let table = test_table();
    let rebuilt = Table::from_records(&table.to_records());
    assert_eq!(
        rebuilt.to_string().replace("\r\n", "\n"),
        table.to_string().replace("\r\n", "\n")
    );
}

#[test]
fn from_records_keeps_multiline_fields() {
    let records = vec![vec!["a\nb".to_string(), "c".to_string()]];
    let table = Table::from_records(&records);
    assert_eq!(table.len(), 1);
    assert_eq!(table.get_row(0).unwrap().get_cell(0).unwrap().get_content(), "a\nb");
    let exported = table.to_records();
    assert_eq!(exported, records);
}
