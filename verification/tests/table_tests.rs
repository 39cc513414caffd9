use prettytable::cell::Cell;
use prettytable::format::{
    format_clean, format_default, format_no_colsep, format_no_linesep, FormatBuilder,
    LinePosition, LineSeparator,
};
use prettytable::row::Row;
use prettytable::{Slice, Table};

fn row_of(words: &[&str]) -> Row {
    let mut cells: Vec<Cell> = Vec::new();
    for w in words {
        cells.push(Cell::new(&w.to_string()));
    }
    Row::new(cells)
}

#[test]
fn table() {
    let mut table = Table::new();
    table.add_row(row_of(&["a", "bc", "def"]));
    table.add_row(row_of(&["def", "bc", "a"]));
    table.set_titles(row_of(&["t1", "t2", "t3"]));
    let out = "\
+-----+----+-----+
| t1  | t2 | t3  |
+=====+====+=====+
| a   | bc | def |
+-----+----+-----+
| def | bc | a   |
+-----+----+-----+
";
    assert_eq!(table.to_string().replace("\r\n", "\n"), out);
    table.unset_titles();
    let out = "\
+-----+----+-----+
| a   | bc | def |
+-----+----+-----+
| def | bc | a   |
+-----+----+-----+
";
    assert_eq!(table.to_string().replace("\r\n", "\n"), out);
}

#[test]
fn index() {
    let mut table = Table::new();
    table.add_row(row_of(&["a", "bc", "def"]));
    table.add_row(row_of(&["def", "bc", "a"]));
    table.set_titles(row_of(&["t1", "t2", "t3"]));
    assert_eq!(table.get_row(1).unwrap().get_cell(1).unwrap().get_content(), "bc");

    table.set_element(&"newval".to_string(), 1, 1).unwrap();
    assert_eq!(table.get_row(1).unwrap().get_cell(1).unwrap().get_content(), "newval");

    let out = "\
+-----+--------+-----+
| t1  | t2     | t3  |
+=====+========+=====+
| a   | bc     | def |
+-----+--------+-----+
| def | newval | a   |
+-----+--------+-----+
";
    assert_eq!(table.to_string().replace("\r\n", "\n"), out);
}

#[test]
fn table_size() {
    let mut table = Table::new();
    assert!(table.is_empty());
    assert!(table.as_slice().is_empty());
    assert_eq!(table.len(), 0);
    assert_eq!(table.as_slice().len(), 0);
    assert_eq!(table.get_column_num(), 0);
    assert_eq!(table.as_slice().get_column_num(), 0);
    table.add_empty_row();
    assert!(!table.is_empty());
    assert!(!table.as_slice().is_empty());
    assert_eq!(table.len(), 1);
    assert_eq!(table.as_slice().len(), 1);
    assert_eq!(table.get_column_num(), 0);
    assert_eq!(table.as_slice().get_column_num(), 0);
    table.rows[0].add_cell(Cell::default());
    assert_eq!(table.get_column_num(), 1);
    assert_eq!(table.as_slice().get_column_num(), 1);
}

#[test]
fn get_row() {
    let mut table = Table::new();
    table.add_row(row_of(&["a", "bc", "def"]));
    table.add_row(row_of(&["def", "bc", "a"]));
    assert!(table.get_row(12).is_none());
    assert!(table.get_row(1).is_some());
    assert_eq!(table.get_row(1).unwrap().get_cell(0).unwrap().get_content(), "def");
    assert!(table.get_mut_row(12).is_none());
    assert!(table.get_mut_row(1).is_some());
    table.get_mut_row(1).unwrap().add_cell(Cell::new(&"z".to_string()));
    assert_eq!(table.get_row(1).unwrap().get_cell(3).unwrap().get_content(), "z");
}

#[test]
fn add_empty_row() {
    let mut table = Table::new();
    assert_eq!(table.len(), 0);
    table.add_empty_row();
    assert_eq!(table.len(), 1);
    assert_eq!(table.get_row(0).unwrap().len(), 0);
}

#[test]
fn remove_row() {
    let mut table = Table::new();
    table.add_row(row_of(&["a", "bc", "def"]));
    table.add_row(row_of(&["def", "bc", "a"]));
    table.remove_row(12);
    assert_eq!(table.len(), 2);
    table.remove_row(0);
    assert_eq!(table.len(), 1);
    assert_eq!(table.get_row(0).unwrap().get_cell(0).unwrap().get_content(), "def");
}

#[test]
fn insert_row() {
    let mut table = Table::new();
    table.add_row(row_of(&["a", "bc", "def"]));
    table.add_row(row_of(&["def", "bc", "a"]));
    table.insert_row(12, row_of(&["1", "2", "3"]));
    assert_eq!(table.len(), 3);
    assert_eq!(table.get_row(2).unwrap().get_cell(1).unwrap().get_content(), "2");
    table.insert_row(1, row_of(&["3", "4", "5"]));
    assert_eq!(table.len(), 4);
    assert_eq!(table.get_row(1).unwrap().get_cell(1).unwrap().get_content(), "4");
    assert_eq!(table.get_row(2).unwrap().get_cell(1).unwrap().get_content(), "bc");
}

#[test]
fn set_element() {
    let mut table = Table::new();
    table.add_row(row_of(&["a", "bc", "def"]));
    table.add_row(row_of(&["def", "bc", "a"]));
    assert!(table.set_element(&"foo".to_string(), 12, 12).is_err());
    assert!(table.set_element(&"foo".to_string(), 1, 1).is_ok());
    assert_eq!(table.get_row(1).unwrap().get_cell(1).unwrap().get_content(), "foo");
}

#[test]
fn no_linesep() {
    let mut table = Table::new();
    table.set_format(format_no_linesep());
    table.add_row(row_of(&["a", "bc", "def"]));
    table.add_row(row_of(&["def", "bc", "a"]));
    table.set_titles(row_of(&["t1", "t2", "t3"]));
    assert_eq!(table.get_row(1).unwrap().get_cell(1).unwrap().get_content(), "bc");

    table.set_element(&"newval".to_string(), 1, 1).unwrap();
    assert_eq!(table.get_row(1).unwrap().get_cell(1).unwrap().get_content(), "newval");

    let out = "\
+-----+--------+-----+
| t1  | t2     | t3  |
| a   | bc     | def |
| def | newval | a   |
+-----+--------+-----+
";
    assert_eq!(table.to_string().replace("\r\n", "\n"), out);
}

#[test]
fn no_colsep() {
    let mut table = Table::new();
    table.set_format(format_no_colsep());
    table.add_row(row_of(&["a", "bc", "def"]));
    table.add_row(row_of(&["def", "bc", "a"]));
    table.set_titles(row_of(&["t1", "t2", "t3"]));
    assert_eq!(table.get_row(1).unwrap().get_cell(1).unwrap().get_content(), "bc");

    table.set_element(&"newval".to_string(), 1, 1).unwrap();
    assert_eq!(table.get_row(1).unwrap().get_cell(1).unwrap().get_content(), "newval");

    let out = "\
------------------
 t1   t2      t3 \n\
==================
 a    bc      def \n\
------------------
 def  newval  a \n\
------------------
";
    println!("{}", out);
    println!("____");
    println!("{}", table.to_string().replace("\r\n", "\n"));
    assert_eq!(table.to_string().replace("\r\n", "\n"), out);
}

#[test]
fn clean() {
    let mut table = Table::new();
    table.set_format(format_clean());
    table.add_row(row_of(&["a", "bc", "def"]));
    table.add_row(row_of(&["def", "bc", "a"]));
    table.set_titles(row_of(&["t1", "t2", "t3"]));
    assert_eq!(table.get_row(1).unwrap().get_cell(1).unwrap().get_content(), "bc");

    table.set_element(&"newval".to_string(), 1, 1).unwrap();
    assert_eq!(table.get_row(1).unwrap().get_cell(1).unwrap().get_content(), "newval");

    let out = "\
\u{0020}t1   t2      t3 \n\
\u{0020}a    bc      def \n\
\u{0020}def  newval  a \n\
";
    println!("{}", out);
    println!("____");
    println!("{}", table.to_string().replace("\r\n", "\n"));
    assert_eq!(out, table.to_string().replace("\r\n", "\n"));
}

#[test]
fn padding() {
    let mut table = Table::new();
    let mut format = format_default();
    format.padding(2, 2);
    table.set_format(format);
    table.add_row(row_of(&["a", "bc", "def"]));
    table.add_row(row_of(&["def", "bc", "a"]));
    table.set_titles(row_of(&["t1", "t2", "t3"]));
    assert_eq!(table.get_row(1).unwrap().get_cell(1).unwrap().get_content(), "bc");

    table.set_element(&"newval".to_string(), 1, 1).unwrap();
    assert_eq!(table.get_row(1).unwrap().get_cell(1).unwrap().get_content(), "newval");

    let out = "\
+-------+----------+-------+
|  t1   |  t2      |  t3   |
+=======+==========+=======+
|  a    |  bc      |  def  |
+-------+----------+-------+
|  def  |  newval  |  a    |
+-------+----------+-------+
";
    println!("{}", out);
    println!("____");
    println!("{}", table.to_string().replace("\r\n", "\n"));
    assert_eq!(out, table.to_string().replace("\r\n", "\n"));
}

#[test]
fn indent() {
    let mut table = Table::new();
    table.add_row(row_of(&["a", "bc", "def"]));
    table.add_row(row_of(&["def", "bc", "a"]));
    table.set_titles(row_of(&["t1", "t2", "t3"]));
    let mut format = table.get_format();
    format.indent(8);
    table.set_format(format);
    let out = "        +-----+----+-----+
        | t1  | t2 | t3  |
        +=====+====+=====+
        | a   | bc | def |
        +-----+----+-----+
        | def | bc | a   |
        +-----+----+-----+
";
    assert_eq!(table.to_string().replace("\r\n", "\n"), out);
}

#[test]
fn slices() {
    let mut table = Table::new();
    table.set_titles(row_of(&["t1", "t2", "t3"]));
    table.add_row(row_of(&["0", "0", "0"]));
    table.add_row(row_of(&["1", "1", "1"]));
    table.add_row(row_of(&["2", "2", "2"]));
    table.add_row(row_of(&["3", "3", "3"]));
    table.add_row(row_of(&["4", "4", "4"]));
    table.add_row(row_of(&["5", "5", "5"]));
    let out = "\
+----+----+----+
| t1 | t2 | t3 |
+====+====+====+
| 1  | 1  | 1  |
+----+----+----+
| 2  | 2  | 2  |
+----+----+----+
| 3  | 3  | 3  |
+----+----+----+
";
    let slice = table.slice(..);
    let slice = slice.slice(1..);
    let slice = slice.slice(..3);
    assert_eq!(out, slice.to_string().replace("\r\n", "\n"));
    assert_eq!(out, table.slice(1..4).to_string().replace("\r\n", "\n"));
}

#[test]
fn test_unicode_separators() {
    let mut table = Table::new();
    table.set_format(
        FormatBuilder::new()
            .column_separator('│')
            .borders('│')
            .separators(&[LinePosition::Top], LineSeparator::new('─', '┬', '┌', '┐'))
            .separators(&[LinePosition::Intern], LineSeparator::new('─', '┼', '├', '┤'))
            .separators(&[LinePosition::Bottom], LineSeparator::new('─', '┴', '└', '┘'))
            .padding(1, 1)
            .build(),
    );
    table.add_row(row_of(&["1", "1", "1"]));
    table.add_row(row_of(&["2", "2", "2"]));
    table.set_titles(row_of(&["t1", "t2", "t3"]));
    let out = "\
┌────┬────┬────┐
│ t1 │ t2 │ t3 │
├────┼────┼────┤
│ 1  │ 1  │ 1  │
├────┼────┼────┤
│ 2  │ 2  │ 2  │
└────┴────┴────┘
";
    println!("{}", out);
    println!("____");
    println!("{}", table.to_string().replace("\r\n", "\n"));
    assert_eq!(out, table.to_string().replace("\r\n", "\n"));
}

#[test]
fn ragged_rows_render() {
    // A row shorter than another contributes width zero at the missing
    // columns and is padded with empty placeholder cells.
    let mut table = Table::new();
    table.add_row(row_of(&["a", "bc", "def"]));
    table.add_row(row_of(&["x"]));
    assert_eq!(table.get_column_num(), 3);
    let out = "\
+---+----+-----+
| a | bc | def |
+---+----+-----+
| x |    |     |
+---+----+-----+
";
    assert_eq!(table.to_string().replace("\r\n", "\n"), out);
}

#[test]
fn render_reflects_mutation_immediately() {
    // Replacing a cell with wider content widens the column on the very
    // next render, with no cache to reset.
    let mut table = Table::new();
    table.add_row(row_of(&["a", "b"]));
    let before = "\
+---+---+
| a | b |
+---+---+
";
    assert_eq!(table.to_string().replace("\r\n", "\n"), before);
    table.set_element(&"wider".to_string(), 0, 0).unwrap();
    let after = "\
+-------+---+
| wider | b |
+-------+---+
";
    assert_eq!(table.to_string().replace("\r\n", "\n"), after);
}

#[test]
fn multiline_row_renders_all_lines() {
    let mut table = Table::new();
    let mut cells: Vec<Cell> = Vec::new();
    cells.push(Cell::new(&"a\nb".to_string()));
    cells.push(Cell::new(&"c".to_string()));
    table.add_row(Row::new(cells));
    let out = "\
+---+---+
| a | c |
| b |   |
+---+---+
";
    assert_eq!(table.to_string().replace("\r\n", "\n"), out);
}

#[test]
fn title_wider_than_rows_sets_column_width() {
    // The title row takes part in the column width and column count.
    let mut table = Table::new();
    table.set_titles(row_of(&["header", "t2"]));
    table.add_row(row_of(&["a"]));
    assert_eq!(table.get_column_num(), 2);
    let out = "\
+--------+----+
| header | t2 |
+========+====+
| a      |    |
+--------+----+
";
    assert_eq!(table.to_string().replace("\r\n", "\n"), out);
}
