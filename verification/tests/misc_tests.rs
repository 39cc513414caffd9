use prettytable::cell::Cell;
use prettytable::cell_content::{CellContent, CellLines};
use prettytable::format::{format_default, TableFormat};
use prettytable::row::Row;
use prettytable::terminal::term_error_to_io_error;
use prettytable::Table;

fn row_of(words: &[&str]) -> Row {
    let mut cells: Vec<Cell> = Vec::new();
    for w in words {
        cells.push(Cell::new(&w.to_string()));
    }
    Row::new(cells)
}

#[test]
fn cell_lines_content_capability() {
    let c = CellLines::new("one\ntwo");
    assert_eq!(c.get_height(), 2);
    assert_eq!(c.get_width(), 3);
    assert_eq!(c.get_lines(), vec!["one".to_string(), "two".to_string()]);
    let empty = CellLines::new("");
    assert_eq!(empty.get_height(), 1);
    assert_eq!(empty.get_width(), 0);
}

#[test]
fn string_content_capability() {
    let s = "привет\npair".to_string();
    assert_eq!(s.get_height(), 2);
    assert_eq!(s.get_width(), 6);
}

#[test]
fn nested_table_as_content() {
    let mut inner = Table::new();
    inner.add_row(row_of(&["x"]));
    assert_eq!(inner.get_height(), 3);
    assert_eq!(inner.get_width(), 5);
    let mut outer = Table::new();
    let mut cells: Vec<Cell> = Vec::new();
    cells.push(Cell::new(&inner));
    outer.add_row(Row::new(cells));
    let out = "\
+-------+
| +---+ |
| | x | |
| +---+ |
+-------+
";
    assert_eq!(outer.to_string().replace("\r\n", "\n"), out);
}

#[test]
fn format_builder_matches_default_preset() {
    let built: TableFormat = prettytable::format::FormatBuilder::new()
        .column_separator('|')
        .borders('|')
        .separators(
            &[
                prettytable::format::LinePosition::Top,
                prettytable::format::LinePosition::Intern,
                prettytable::format::LinePosition::Bottom,
            ],
            prettytable::format::LineSeparator::new('-', '+', '+', '+'),
        )
        .separators(
            &[prettytable::format::LinePosition::Title],
            prettytable::format::LineSeparator::new('=', '+', '+', '+'),
        )
        .padding(1, 1)
        .build();
    let mut t1 = Table::new();
    t1.add_row(row_of(&["a", "b"]));
    t1.set_titles(row_of(&["t1", "t2"]));
    let mut t2 = Table::new();
    t2.add_row(row_of(&["a", "b"]));
    t2.set_titles(row_of(&["t1", "t2"]));
    t2.set_format(built);
    assert_eq!(t1.to_string(), t2.to_string());
    let _ = format_default();
}

#[test]
fn empty_table_renders_only_rules() {
    let table = Table::new();
    assert_eq!(table.to_string().replace("\r\n", "\n"), "++\n++\n");
}

#[test]
fn term_error_io_passes_through() {
    let inner = std::io::Error::new(std::io::ErrorKind::UnexpectedEof, "closed");
    let e = term_error_to_io_error(term::Error::Io(inner));
    assert_eq!(e.kind(), std::io::ErrorKind::UnexpectedEof);
}

#[test]
fn term_error_other_is_wrapped() {
    let e = term_error_to_io_error(term::Error::NotSupported);
    assert_eq!(e.kind(), std::io::ErrorKind::Other);
}

#[test]
fn styled_chunks_cover_plain_rendering() {
    // The styled rendering is the plain rendering cut into fragments: the
    // chunk texts concatenate to exactly the plain text, and the cell
    // fragments carry the cells' style attributes.
    let mut table = Table::new();
    let mut cells: Vec<Cell> = Vec::new();
    cells.push(Cell::new(&"x".to_string()).style_spec("Frb"));
    cells.push(Cell::new(&"y".to_string()));
    table.add_row(Row::new(cells));
    let chunks = table.render_chunks();
    let mut concatenated = String::new();
    let mut styled_with_attrs = 0;
    for c in &chunks {
        concatenated.push_str(&c.text);
        if c.styled && !c.styles.is_empty() {
            styled_with_attrs += 1;
        }
    }
    assert_eq!(concatenated, table.to_string());
    assert_eq!(styled_with_attrs, 1);
}
