use prettytable::cell::Cell;
use prettytable::cell_content::CellLines;
use prettytable::format::Alignment;
use prettytable::style::{Attr, Color};

#[test]
fn get_content() {
    let cell = Cell::new(&"test".to_string());
    assert_eq!(cell.get_content(), "test");
}

#[test]
fn print_ascii() {
    let ascii_cell = Cell::new(&"hello".to_string());
    assert_eq!(ascii_cell.get_width(), 5);

    let mut out = String::new();
    ascii_cell.print(&mut out, 0, 10, false);
    assert_eq!(out, "hello     ");
}

#[test]
fn print_unicode() {
    let unicode_cell = Cell::new(&"привет".to_string());
    assert_eq!(unicode_cell.get_width(), 6);

    let mut out = String::new();
    unicode_cell.print(&mut out, 0, 10, false);
    assert_eq!(out, "привет    ");
}

#[test]
fn print_cjk() {
    let unicode_cell = Cell::new(&"由系统自动更新".to_string());
    assert_eq!(unicode_cell.get_width(), 14);
    let mut out = String::new();
    unicode_cell.print(&mut out, 0, 20, false);
    assert_eq!(out, "由系统自动更新      ");
}

#[test]
fn align_left() {
    let cell = Cell::new_align(&"test".to_string(), Alignment::LEFT);
    let mut out = String::new();
    cell.print(&mut out, 0, 10, false);
    assert_eq!(out, "test      ");
}

#[test]
fn align_center() {
    let cell = Cell::new_align(&"test".to_string(), Alignment::CENTER);
    let mut out = String::new();
    cell.print(&mut out, 0, 10, false);
    assert_eq!(out, "   test   ");
}

#[test]
fn align_right() {
    let cell = Cell::new_align(&"test".to_string(), Alignment::RIGHT);
    let mut out = String::new();
    cell.print(&mut out, 0, 10, false);
    assert_eq!(out, "      test");
}

#[test]
fn align_center_odd_deficit() {
    // A deficit that does not split evenly puts the smaller half on the
    // left: width 4 in a column of 7 leaves one space left, two right.
    let cell = Cell::new_align(&"test".to_string(), Alignment::CENTER);
    let mut out = String::new();
    cell.print(&mut out, 0, 7, false);
    assert_eq!(out, " test  ");
}

#[test]
fn style_spec() {
    let mut cell = Cell::new(&"test".to_string()).style_spec("FrBBbuic");
    assert_eq!(cell.style.len(), 5);
    assert!(cell.style.contains(&Attr::Underline(true)));
    assert!(cell.style.contains(&Attr::Italic(true)));
    assert!(cell.style.contains(&Attr::Bold));
    assert!(cell.style.contains(&Attr::ForegroundColor(Color::Red)));
    assert!(cell.style.contains(&Attr::BackgroundColor(Color::BrightBlue)));
    assert_eq!(cell.align, Alignment::CENTER);

    cell = cell.style_spec("FDBwr");
    assert_eq!(cell.style.len(), 2);
    assert!(cell.style.contains(&Attr::ForegroundColor(Color::BrightBlack)));
    assert!(cell.style.contains(&Attr::BackgroundColor(Color::White)));
    assert_eq!(cell.align, Alignment::RIGHT);

    // Test with invalid specifier chars
    cell = cell.clone();
    cell = cell.style_spec("FzBr");
    assert!(cell.style.contains(&Attr::BackgroundColor(Color::Red)));
    assert_eq!(cell.style.len(), 1);
    cell = cell.style_spec("zzz");
    assert!(cell.style.is_empty());
}

#[test]
fn reset_style() {
    let mut cell = Cell::new(&"test".to_string())
        .with_style(Attr::ForegroundColor(Color::BrightBlack))
        .with_style(Attr::BackgroundColor(Color::White));
    cell.align(Alignment::RIGHT);

    assert_eq!(cell.style.len(), 2);
    assert_eq!(cell.align, Alignment::RIGHT);
    cell.reset_style();
    assert_eq!(cell.style.len(), 0);
    assert_eq!(cell.align, Alignment::LEFT);
}

#[test]
fn default_empty_cell() {
    let cell = Cell::default();
    assert_eq!(cell.align, Alignment::LEFT);
    assert!(cell.style.is_empty());
    assert_eq!(cell.get_content(), "");
    assert_eq!(cell.get_height(), 1);
    assert_eq!(cell.get_width(), 0);
}

#[test]
fn multiline_content_dimensions() {
    let content = CellLines::new("a\nbb\nccc");
    let cell = Cell::new(&content);
    assert_eq!(cell.get_height(), 3);
    assert_eq!(cell.get_width(), 3);
    assert_eq!(cell.get_content(), "a\nbb\nccc");
}

#[test]
fn print_line_past_height_is_blank() {
    let cell = Cell::new(&"ab".to_string());
    let mut out = String::new();
    cell.print(&mut out, 5, 4, false);
    assert_eq!(out, "    ");
    let mut out2 = String::new();
    cell.print(&mut out2, 5, 4, true);
    assert_eq!(out2, "");
}

#[test]
fn print_content_wider_than_column() {
    // Content wider than the requested width is written whole, without
    // padding and without truncation.
    let cell = Cell::new(&"abcdef".to_string());
    let mut out = String::new();
    cell.print(&mut out, 0, 2, false);
    assert_eq!(out, "abcdef");
}

#[test]
fn align_center_skip_right_fill() {
    // Skipping the trailing fill drops only the right half of a centered
    // deficit; the left half stays.
    let cell = Cell::new_align(&"test".to_string(), Alignment::CENTER);
    let mut out = String::new();
    cell.print(&mut out, 0, 10, true);
    assert_eq!(out, "   test");
}
