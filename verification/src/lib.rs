//! A formatted and aligned table printer: computes per-column widths and
//! per-row heights from cell contents, and renders a bordered character grid
//! with configurable separators, padding and indentation, styled cell
//! fragments for terminal output, zero-copy row-range slices, and a
//! record-oriented import and export.

use vstd::prelude::*;
use vstd::string::StrSliceExecFns;

pub mod cell;
pub mod cell_content;
pub mod format;
pub mod laws;
pub mod render;
pub mod row;
pub mod style;
pub mod terminal;
pub mod utils;

use crate::cell::{Cell, CellView};
use crate::cell_content::{CellContent, CellLines, join_lines, split_lines, wf_lines};
use crate::format::{Alignment, LinePosition, TableFormat, format_default, spec_format_default};
use crate::render::{
    Chunk, cell_width_at, chunk_views, col_width_rows, push_chunks_text,
    push_sep_chunks, render, row_chunks, row_len_max, rows_chunks, sep_chunks, spec_col_widths,
    spec_column_count, spec_column_width, table_chunks, TableView,
};
use crate::row::Row;
use crate::utils::{lines_width, nat_max, nat_widths};

verus! {

/// An owned printable table: a format, an optional title row, and the data
/// rows in order.
#[derive(Debug)]
pub struct Table {
    pub format: TableFormat,
    pub titles: Option<Row>,
    pub rows: Vec<Row>,
}

impl View for Table {
    type V = TableView;

    open spec fn view(&self) -> TableView {
        TableView {
            format: self.format,
            titles: match self.titles {
                Option::Some(r) => Option::Some(r@),
                Option::None => Option::None,
            },
            rows: self.rows@.map_values(|r: Row| r@),
        }
    }
}

/// A borrowed, read-only view of a contiguous row range of a table, sharing
/// the table's format and title.
#[derive(Debug)]
pub struct TableSlice<'a> {
    pub table: &'a Table,
    pub start: usize,
    pub end: usize,
}

impl<'a> View for TableSlice<'a> {
    type V = TableView;

    open spec fn view(&self) -> TableView {
        TableView {
            format: self.table.format,
            titles: match self.table.titles {
                Option::Some(r) => Option::Some(r@),
                Option::None => Option::None,
            },
            rows: self.table@.rows.subrange(self.start as int, self.end as int),
        }
    }
}

impl<'a> TableSlice<'a> {
    /// A slice is well-formed when its range lies inside its table.
    pub open spec fn wf(self) -> bool {
        self.start <= self.end <= self.table@.rows.len()
    }

    /// The number of rows in the slice.
    pub fn len(&self) -> (n: usize)
        requires
            self.wf(),
        ensures
            n == self@.rows.len(),
    {
        self.end - self.start
    }

    /// Whether the slice holds no row.
    pub fn is_empty(&self) -> (r: bool)
        requires
            self.wf(),
        ensures
            r == (self@.rows.len() == 0),
    {
        self.end == self.start
    }

    /// The row at an index within the slice, or nothing past its end.
    pub fn get_row(&self, row: usize) -> (r: Option<&Row>)
        requires
            self.wf(),
        ensures
            match r {
                Option::Some(x) => row < self@.rows.len() && x@ == self@.rows[row as int],
                Option::None => row >= self@.rows.len(),
            },
    {
        if row < self.end - self.start {
            Some(&self.table.rows[self.start + row])
        } else {
            None
        }
    }

    /// The number of columns: the longest row, the title row included when
    /// one is set.
    pub fn get_column_num(&self) -> (n: usize)
        requires
            self.wf(),
        ensures
            n == spec_column_count(self@),
    {
        let mut cnum: usize = 0;
        let m = self.end - self.start;
        let mut i: usize = 0;
        while i < m
            invariant
                i <= m,
                self.wf(),
                m == self@.rows.len(),
                cnum == row_len_max(self@.rows, i as nat),
            decreases m - i,
        {
            let l = self.table.rows[self.start + i].len();
            if l > cnum {
                cnum = l;
            }
            i = i + 1;
        }
        match &self.table.titles {
            Some(t) => {
                let l = t.len();
                if l > cnum {
                    cnum = l;
                }
            },
            None => {},
        }
        cnum
    }

    /// The width of one column: the widest cell there over every row of the
    /// slice and the title row when present; a row too short to reach the
    /// column contributes zero.
    fn get_column_width(&self, col_idx: usize) -> (w: usize)
        requires
            self.wf(),
        ensures
            w == spec_column_width(self@, col_idx as nat),
    {
        let mut width: usize = match &self.table.titles {
            Some(t) => t.get_cell_width(col_idx),
            None => 0,
        };
        let m = self.end - self.start;
        let mut i: usize = 0;
        let ghost title_w: nat = match self@.titles {
            Option::Some(tr) => cell_width_at(tr, col_idx as nat),
            Option::None => 0nat,
        };
        while i < m
            invariant
                i <= m,
                self.wf(),
                m == self@.rows.len(),
                title_w == match self@.titles {
                    Option::Some(tr) => cell_width_at(tr, col_idx as nat),
                    Option::None => 0nat,
                },
                width == nat_max(col_width_rows(self@.rows, col_idx as nat, i as nat), title_w),
            decreases m - i,
        {
            let l = self.table.rows[self.start + i].get_cell_width(col_idx);
            if l > width {
                width = l;
            }
            i = i + 1;
        }
        width
    }

    /// The widths of all columns, recomputed from the current contents.
    fn get_all_column_width(&self) -> (r: Vec<usize>)
        requires
            self.wf(),
        ensures
            nat_widths(r@) == spec_col_widths(self@),
    {
        let colnum = self.get_column_num();
        let mut col_width: Vec<usize> = Vec::new();
        let mut i: usize = 0;
        while i < colnum
            invariant
                i <= colnum,
                self.wf(),
                colnum == spec_column_count(self@),
                col_width@.len() == i,
                forall|j: int|
                    0 <= j < i ==> (#[trigger] col_width@[j]) as nat == spec_column_width(
                        self@,
                        j as nat,
                    ),
            decreases colnum - i,
        {
            let w = self.get_column_width(i);
            col_width.push(w);
            i = i + 1;
        }
        proof {
            assert(nat_widths(col_width@) =~= spec_col_widths(self@));
        }
        col_width
    }

    /// The rendered chunks of the whole slice: the top rule, the title row
    /// and its rule when a title is set, every data row with interior rules
    /// between rows, and the bottom rule; cell fragments carry their styles.
    pub fn render_chunks(&self) -> (r: Vec<Chunk>)
        requires
            self.wf(),
        ensures
            chunk_views(r@) == table_chunks(self@),
    {
        let ghost t = self@;
        let col_width = self.get_all_column_width();
        let ghost widths = nat_widths(col_width@);
        let mut chunks: Vec<Chunk> = Vec::new();
        push_sep_chunks(&mut chunks, &self.table.format, &col_width, LinePosition::Top);
        let ghost part_top = sep_chunks(t.format, widths, LinePosition::Top);
        proof {
            assert(chunk_views(chunks@) =~= part_top);
        }
        match &self.table.titles {
            Some(title) => {
                title.render_chunks(&mut chunks, &self.table.format, &col_width);
                push_sep_chunks(&mut chunks, &self.table.format, &col_width, LinePosition::Title);
            },
            None => {},
        }
        let ghost part_title = match t.titles {
            Option::Some(tr) => row_chunks(tr, t.format, widths) + sep_chunks(
                t.format,
                widths,
                LinePosition::Title,
            ),
            Option::None => Seq::<crate::render::ChunkView>::empty(),
        };
        proof {
            assert(chunk_views(chunks@) =~= part_top + part_title);
        }
        let m = self.end - self.start;
        let mut i: usize = 0;
        while i < m
            invariant
                i <= m,
                self.wf(),
                t == self@,
                m == t.rows.len(),
                widths == nat_widths(col_width@),
                part_top == sep_chunks(t.format, widths, LinePosition::Top),
                part_title == match t.titles {
                    Option::Some(tr) => row_chunks(tr, t.format, widths) + sep_chunks(
                        t.format,
                        widths,
                        LinePosition::Title,
                    ),
                    Option::None => Seq::<crate::render::ChunkView>::empty(),
                },
                chunk_views(chunks@) == part_top + part_title + rows_chunks(
                    t.rows,
                    t.format,
                    widths,
                    i as nat,
                ),
            decreases m - i,
        {
            if i > 0 {
                push_sep_chunks(&mut chunks, &self.table.format, &col_width, LinePosition::Intern);
            }
            self.table.rows[self.start + i].render_chunks(
                &mut chunks,
                &self.table.format,
                &col_width,
            );
            i = i + 1;
            proof {
                assert(t.rows[i - 1] == self.table.rows@[self.start + i - 1]@);
                assert(chunk_views(chunks@) =~= part_top + part_title + rows_chunks(
                    t.rows,
                    t.format,
                    widths,
                    i as nat,
                ));
            }
        }
        push_sep_chunks(&mut chunks, &self.table.format, &col_width, LinePosition::Bottom);
        proof {
            assert(widths =~= spec_col_widths(t));
            assert(chunk_views(chunks@) =~= table_chunks(t));
        }
        chunks
    }

    /// Appends the plain rendering of the whole slice to `out`.
    pub fn print(&self, out: &mut String)
        requires
            self.wf(),
        ensures
            final(out)@ == old(out)@ + render(self@),
    {
        let chunks = self.render_chunks();
        push_chunks_text(out, &chunks);
    }

    /// The plain rendering of the whole slice as one string.
    pub fn to_string(&self) -> (r: String)
        requires
            self.wf(),
        ensures
            r@ == render(self@),
    {
        let mut out = String::new();
        self.print(&mut out);
        proof {
            assert(out@ =~= render(self@));
        }
        out
    }
}

impl Table {
    /// Creates an empty table with the default format.
    pub fn new() -> (r: Table)
        ensures
            r@.rows == Seq::<Seq<CellView>>::empty(),
            r@.titles is None,
            r@.format == spec_format_default(),
    {
        let r = Table::init(Vec::new());
        proof {
            assert(r@.rows =~= Seq::<Seq<CellView>>::empty());
        }
        r
    }

    /// Creates a table holding the given rows, with the default format and
    /// no title.
    pub fn init(rows: Vec<Row>) -> (r: Table)
        ensures
            r@.rows == rows@.map_values(|x: Row| x@),
            r@.titles is None,
            r@.format == spec_format_default(),
    {
        Table { rows, titles: None, format: format_default() }
    }

    /// Replaces the table's format.
    pub fn set_format(&mut self, format: TableFormat)
        ensures
            final(self)@ == (TableView { format, ..old(self)@ }),
    {
        self.format = format;
        proof {
            assert(self@ =~~= (TableView { format, ..old(self)@ }));
        }
    }

    /// The table's format.
    pub fn get_format(&self) -> (r: TableFormat)
        ensures
            r == self@.format,
    {
        self.format
    }

    /// The whole table as a borrowed slice of all its rows.
    pub fn as_slice<'a>(&'a self) -> (r: TableSlice<'a>)
        ensures
            r.wf(),
            r@ == self@,
    {
        let r = TableSlice { table: self, start: 0, end: self.rows.len() };
        proof {
            assert(r@.rows =~= self@.rows);
            assert(r@ =~~= self@);
        }
        r
    }

    /// The number of columns: the longest row, the title row included when
    /// one is set.
    pub fn get_column_num(&self) -> (n: usize)
        ensures
            n == spec_column_count(self@),
    {
        self.as_slice().get_column_num()
    }

    /// The number of rows.
    pub fn len(&self) -> (n: usize)
        ensures
            n == self@.rows.len(),
    {
        self.rows.len()
    }

    /// Whether the table holds no row.
    pub fn is_empty(&self) -> (r: bool)
        ensures
            r == (self@.rows.len() == 0),
    {
        self.rows.len() == 0
    }

    /// Sets the title row.
    pub fn set_titles(&mut self, titles: Row)
        ensures
            final(self)@ == (TableView { titles: Option::Some(titles@), ..old(self)@ }),
    {
        let ghost tv = titles@;
        self.titles = Some(titles);
        proof {
            assert(self@ =~~= (TableView { titles: Option::Some(tv), ..old(self)@ }));
        }
    }

    /// Removes the title row.
    pub fn unset_titles(&mut self)
        ensures
            final(self)@ == (TableView { titles: Option::None, ..old(self)@ }),
    {
        self.titles = None;
        proof {
            assert(self@ =~~= (TableView { titles: Option::None, ..old(self)@ }));
        }
    }

    /// A mutable borrow of the row at an index, or nothing past the end;
    /// what the caller writes through the borrow lands at that index.
    pub fn get_mut_row(&mut self, row: usize) -> (r: Option<&mut Row>)
        ensures
            match r {
                Option::Some(x) => row < old(self).rows@.len() && *x == old(self).rows@[row as int]
                    && final(self).rows@ == old(self).rows@.update(row as int, *final(x))
                    && final(self).format == old(self).format && final(self).titles == old(
                    self,
                ).titles,
                Option::None => row >= old(self).rows@.len() && *final(self) == *old(self),
            },
    {
        if row < self.rows.len() {
            Some(&mut self.rows[row])
        } else {
            None
        }
    }

    /// The row at an index, or nothing past the end.
    pub fn get_row(&self, row: usize) -> (r: Option<&Row>)
        ensures
            match r {
                Option::Some(x) => row < self@.rows.len() && x@ == self@.rows[row as int],
                Option::None => row >= self@.rows.len(),
            },
    {
        if row < self.rows.len() {
            Some(&self.rows[row])
        } else {
            None
        }
    }

    /// Appends a row at the end of the table.
    pub fn add_row(&mut self, row: Row)
        ensures
            final(self)@ == (TableView { rows: old(self)@.rows.push(row@), ..old(self)@ }),
    {
        let ghost rv = row@;
        self.rows.push(row);
        proof {
            assert(self@.rows =~= old(self)@.rows.push(rv));
            assert(self@ =~~= (TableView { rows: old(self)@.rows.push(rv), ..old(self)@ }));
        }
    }

    /// Appends an empty row at the end of the table.
    pub fn add_empty_row(&mut self)
        ensures
            final(self)@ == (TableView {
                rows: old(self)@.rows.push(Seq::<CellView>::empty()),
                ..old(self)@
            }),
    {
        self.add_row(Row::default());
    }

    /// Inserts a row at an index; an index past the end appends instead of
    /// failing.
    pub fn insert_row(&mut self, index: usize, row: Row)
        ensures
            index < old(self)@.rows.len() ==> final(self)@ == (TableView {
                rows: old(self)@.rows.insert(index as int, row@),
                ..old(self)@
            }),
            index >= old(self)@.rows.len() ==> final(self)@ == (TableView {
                rows: old(self)@.rows.push(row@),
                ..old(self)@
            }),
    {
        if index < self.rows.len() {
            let ghost rv = row@;
            self.rows.insert(index, row);
            proof {
                assert(self@.rows =~= old(self)@.rows.insert(index as int, rv));
                assert(self@ =~~= (TableView {
                    rows: old(self)@.rows.insert(index as int, rv),
                    ..old(self)@
                }));
            }
        } else {
            self.add_row(row);
        }
    }

    /// Removes the row at an index; an index past the end is a silent no-op.
    pub fn remove_row(&mut self, index: usize)
        ensures
            index < old(self)@.rows.len() ==> final(self)@ == (TableView {
                rows: old(self)@.rows.remove(index as int),
                ..old(self)@
            }),
            index >= old(self)@.rows.len() ==> final(self)@ == old(self)@,
    {
        if index < self.rows.len() {
            self.rows.remove(index);
            proof {
                assert(self@.rows =~= old(self)@.rows.remove(index as int));
                assert(self@ =~~= (TableView {
                    rows: old(self)@.rows.remove(index as int),
                    ..old(self)@
                }));
            }
        }
    }

    /// Replaces one cell of the table with new left-aligned, unstyled
    /// content; a row or column the table does not reach is a recoverable
    /// failure and changes nothing.
    pub fn set_element<T: CellContent>(
        &mut self,
        element: &T,
        column: usize,
        row: usize,
    ) -> (r: Result<(), &'static str>)
        ensures
            row < old(self)@.rows.len() && column < old(self)@.rows[row as int].len() ==> r is Ok
                && final(self)@ == (TableView {
                rows: old(self)@.rows.update(
                    row as int,
                    old(self)@.rows[row as int].update(
                        column as int,
                        (CellView {
                            lines: element.lines_view(),
                            align: Alignment::LEFT,
                            style: Seq::<crate::style::Attr>::empty(),
                        }),
                    ),
                ),
                ..old(self)@
            }),
            !(row < old(self)@.rows.len() && column < old(self)@.rows[row as int].len()) ==> r
                is Err && final(self)@ == old(self)@,
    {
        if row >= self.rows.len() {
            return Err("Cannot find row");
        }
        let cell = Cell::new(element);
        let mut rowline = self.rows.remove(row);
        let res = rowline.set_cell(cell, column);
        self.rows.insert(row, rowline);
        proof {
            if column < old(self)@.rows[row as int].len() {
                assert(self@.rows =~= old(self)@.rows.update(
                    row as int,
                    old(self)@.rows[row as int].update(
                        column as int,
                        (CellView {
                            lines: element.lines_view(),
                            align: Alignment::LEFT,
                            style: Seq::<crate::style::Attr>::empty(),
                        }),
                    ),
                ));
                assert(self@ =~~= (TableView { rows: self@.rows, ..old(self)@ }));
            } else {
                assert(self@.rows =~= old(self)@.rows);
                assert(self@ =~~= old(self)@);
            }
        }
        res
    }

    /// The rendered chunks of the whole table.
    pub fn render_chunks(&self) -> (r: Vec<Chunk>)
        ensures
            chunk_views(r@) == table_chunks(self@),
    {
        self.as_slice().render_chunks()
    }

    /// Appends the plain rendering of the whole table to `out`.
    pub fn print(&self, out: &mut String)
        ensures
            final(out)@ == old(out)@ + render(self@),
    {
        self.as_slice().print(out)
    }

    /// The plain rendering of the whole table as one string.
    pub fn to_string(&self) -> (r: String)
        ensures
            r@ == render(self@),
    {
        self.as_slice().to_string()
    }
}

/// The full-range marker type of std, declared so that `..` can be a slicing
/// argument. Relies on `core::ops::RangeFull` having no fields.
#[verifier::external_type_specification]
pub struct ExRangeFull(core::ops::RangeFull);

/// The from-range type of std, declared so that `a..` can be a slicing
/// argument. Relies on `core::ops::RangeFrom` holding its public `start`.
#[verifier::external_type_specification]
#[verifier::reject_recursive_types(Idx)]
pub struct ExRangeFrom<Idx>(core::ops::RangeFrom<Idx>);

/// The to-range type of std, declared so that `..b` can be a slicing
/// argument. Relies on `core::ops::RangeTo` holding its public `end`.
#[verifier::external_type_specification]
#[verifier::reject_recursive_types(Idx)]
pub struct ExRangeTo<Idx>(core::ops::RangeTo<Idx>);

/// Trait implemented by the types that can be sliced into a borrowed,
/// read-only view of a contiguous row range.
pub trait Slice<'a, E> {
    /// Whether the argument denotes a row range that lies inside `self`.
    spec fn slice_ok(&'a self, arg: &E) -> bool;

    /// The view of the slice the argument denotes.
    spec fn sliced(&'a self, arg: &E) -> TableView;

    /// Borrows the denoted row range, sharing the format and the title; the
    /// range must lie inside `self`.
    fn slice(&'a self, arg: E) -> (r: TableSlice<'a>)
        requires
            self.slice_ok(&arg),
        ensures
            r.wf(),
            r@ == self.sliced(&arg),
    ;
}

impl<'a> Slice<'a, core::ops::Range<usize>> for Table {
    open spec fn slice_ok(&'a self, arg: &core::ops::Range<usize>) -> bool {
        arg.start <= arg.end <= self@.rows.len()
    }

    open spec fn sliced(&'a self, arg: &core::ops::Range<usize>) -> TableView {
        TableView { rows: self@.rows.subrange(arg.start as int, arg.end as int), ..self@ }
    }

    fn slice(&'a self, arg: core::ops::Range<usize>) -> (r: TableSlice<'a>) {
        let r = TableSlice { table: self, start: arg.start, end: arg.end };
        proof {
            assert(r@ =~~= self.sliced(&arg));
        }
        r
    }
}

impl<'a> Slice<'a, core::ops::RangeFrom<usize>> for Table {
    open spec fn slice_ok(&'a self, arg: &core::ops::RangeFrom<usize>) -> bool {
        arg.start <= self@.rows.len()
    }

    open spec fn sliced(&'a self, arg: &core::ops::RangeFrom<usize>) -> TableView {
        TableView {
            rows: self@.rows.subrange(arg.start as int, self@.rows.len() as int),
            ..self@
        }
    }

    fn slice(&'a self, arg: core::ops::RangeFrom<usize>) -> (r: TableSlice<'a>) {
        let r = TableSlice { table: self, start: arg.start, end: self.rows.len() };
        proof {
            assert(r@ =~~= self.sliced(&arg));
        }
        r
    }
}

impl<'a> Slice<'a, core::ops::RangeTo<usize>> for Table {
    open spec fn slice_ok(&'a self, arg: &core::ops::RangeTo<usize>) -> bool {
        arg.end <= self@.rows.len()
    }

    open spec fn sliced(&'a self, arg: &core::ops::RangeTo<usize>) -> TableView {
        TableView { rows: self@.rows.subrange(0, arg.end as int), ..self@ }
    }

    fn slice(&'a self, arg: core::ops::RangeTo<usize>) -> (r: TableSlice<'a>) {
        let r = TableSlice { table: self, start: 0, end: arg.end };
        proof {
            assert(r@ =~~= self.sliced(&arg));
        }
        r
    }
}

impl<'a> Slice<'a, core::ops::RangeFull> for Table {
    open spec fn slice_ok(&'a self, arg: &core::ops::RangeFull) -> bool {
        true
    }

    open spec fn sliced(&'a self, arg: &core::ops::RangeFull) -> TableView {
        self@
    }

    fn slice(&'a self, arg: core::ops::RangeFull) -> (r: TableSlice<'a>) {
        self.as_slice()
    }
}

impl<'a> Slice<'a, core::ops::Range<usize>> for TableSlice<'a> {
    open spec fn slice_ok(&'a self, arg: &core::ops::Range<usize>) -> bool {
        self.wf() && arg.start <= arg.end <= self@.rows.len()
    }

    open spec fn sliced(&'a self, arg: &core::ops::Range<usize>) -> TableView {
        TableView { rows: self@.rows.subrange(arg.start as int, arg.end as int), ..self@ }
    }

    fn slice(&'a self, arg: core::ops::Range<usize>) -> (r: TableSlice<'a>) {
        let r = TableSlice {
            table: self.table,
            start: self.start + arg.start,
            end: self.start + arg.end,
        };
        proof {
            assert(r@.rows =~= self@.rows.subrange(arg.start as int, arg.end as int));
            assert(r@ =~~= self.sliced(&arg));
        }
        r
    }
}

impl<'a> Slice<'a, core::ops::RangeFrom<usize>> for TableSlice<'a> {
    open spec fn slice_ok(&'a self, arg: &core::ops::RangeFrom<usize>) -> bool {
        self.wf() && arg.start <= self@.rows.len()
    }

    open spec fn sliced(&'a self, arg: &core::ops::RangeFrom<usize>) -> TableView {
        TableView {
            rows: self@.rows.subrange(arg.start as int, self@.rows.len() as int),
            ..self@
        }
    }

    fn slice(&'a self, arg: core::ops::RangeFrom<usize>) -> (r: TableSlice<'a>) {
        let r = TableSlice { table: self.table, start: self.start + arg.start, end: self.end };
        proof {
            assert(r@.rows =~= self@.rows.subrange(arg.start as int, self@.rows.len() as int));
            assert(r@ =~~= self.sliced(&arg));
        }
        r
    }
}

impl<'a> Slice<'a, core::ops::RangeTo<usize>> for TableSlice<'a> {
    open spec fn slice_ok(&'a self, arg: &core::ops::RangeTo<usize>) -> bool {
        self.wf() && arg.end <= self@.rows.len()
    }

    open spec fn sliced(&'a self, arg: &core::ops::RangeTo<usize>) -> TableView {
        TableView { rows: self@.rows.subrange(0, arg.end as int), ..self@ }
    }

    fn slice(&'a self, arg: core::ops::RangeTo<usize>) -> (r: TableSlice<'a>) {
        let r = TableSlice { table: self.table, start: self.start, end: self.start + arg.end };
        proof {
            assert(r@.rows =~= self@.rows.subrange(0, arg.end as int));
            assert(r@ =~~= self.sliced(&arg));
        }
        r
    }
}

impl<'a> Slice<'a, core::ops::RangeFull> for TableSlice<'a> {
    open spec fn slice_ok(&'a self, arg: &core::ops::RangeFull) -> bool {
        self.wf()
    }

    open spec fn sliced(&'a self, arg: &core::ops::RangeFull) -> TableView {
        self@
    }

    fn slice(&'a self, arg: core::ops::RangeFull) -> (r: TableSlice<'a>) {
        TableSlice { table: self.table, start: self.start, end: self.end }
    }
}

/// The record a row exports: one field per cell, the cell's lines joined by
/// line breaks.
pub open spec fn record_of_row(r: Seq<CellView>) -> Seq<Seq<char>> {
    r.map_values(|c: CellView| join_lines(c.lines))
}

/// The records a table exports: the title row first when present, then one
/// record per data row.
pub open spec fn spec_to_records(t: TableView) -> Seq<Seq<Seq<char>>> {
    let body = t.rows.map_values(|r: Seq<CellView>| record_of_row(r));
    match t.titles {
        Option::Some(tr) => seq![record_of_row(tr)] + body,
        Option::None => body,
    }
}

/// The cell an imported field becomes: its text split at line breaks,
/// left-aligned, without style.
pub open spec fn cell_of_field(s: Seq<char>) -> CellView {
    CellView {
        lines: split_lines(s),
        align: Alignment::LEFT,
        style: Seq::<crate::style::Attr>::empty(),
    }
}

/// The row an imported record becomes: one cell per field.
pub open spec fn row_of_record(rec: Seq<Seq<char>>) -> Seq<CellView> {
    rec.map_values(|f: Seq<char>| cell_of_field(f))
}

/// The table imported records become: one row per record, the default
/// format, and no title unless the caller sets one afterwards.
pub open spec fn spec_from_records(recs: Seq<Seq<Seq<char>>>) -> TableView {
    TableView {
        format: spec_format_default(),
        titles: Option::None,
        rows: recs.map_values(|rec: Seq<Seq<char>>| row_of_record(rec)),
    }
}

/// Exports one row as a record: one field per cell, the cell's lines joined
/// by line breaks.
fn row_to_record(r: &Row) -> (rec: Vec<String>)
    ensures
        rec.deep_view() == record_of_row(r@),
{
    let mut rec: Vec<String> = Vec::new();
    let n = r.len();
    let mut j: usize = 0;
    while j < n
        invariant
            j <= n,
            n == r@.len(),
            rec@.len() == j,
            forall|k: int| 0 <= k < j ==> (#[trigger] rec@[k])@ == join_lines(r@[k].lines),
        decreases n - j,
    {
        let c = r.get_cell(j).unwrap();
        rec.push(c.get_content());
        j = j + 1;
    }
    proof {
        assert(rec.deep_view() =~= record_of_row(r@));
    }
    rec
}

/// Imports one record as a row: one left-aligned, unstyled cell per field.
fn record_to_row(rec: &Vec<String>) -> (r: Row)
    ensures
        r@ == row_of_record(rec.deep_view()),
{
    let mut cells: Vec<Cell> = Vec::new();
    let n = rec.len();
    let mut j: usize = 0;
    while j < n
        invariant
            j <= n,
            n == rec@.len(),
            cells@.len() == j,
            forall|k: int| 0 <= k < j ==> (#[trigger] cells@[k])@ == cell_of_field(rec@[k]@),
        decreases n - j,
    {
        let content = CellLines::new(rec[j].as_str());
        cells.push(Cell::new(&content));
        proof {
            assert(cells@.last()@ =~~= cell_of_field(rec@[j as int]@));
        }
        j = j + 1;
    }
    let r = Row::new(cells);
    proof {
        assert(r@ =~= row_of_record(rec.deep_view()));
    }
    r
}

impl<'a> TableSlice<'a> {
    /// Exports the slice as records: the title row first when one is set,
    /// then one record per row, one field per cell.
    pub fn to_records(&self) -> (r: Vec<Vec<String>>)
        requires
            self.wf(),
        ensures
            r.deep_view() == spec_to_records(self@),
    {
        let ghost t = self@;
        let mut records: Vec<Vec<String>> = Vec::new();
        let ghost tlen: int = match t.titles {
            Option::Some(tr) => 1int,
            Option::None => 0int,
        };
        match &self.table.titles {
            Some(title) => {
                records.push(row_to_record(title));
            },
            None => {},
        }
        let m = self.end - self.start;
        let mut i: usize = 0;
        while i < m
            invariant
                i <= m,
                self.wf(),
                t == self@,
                m == t.rows.len(),
                tlen == match t.titles {
                    Option::Some(tr) => 1int,
                    Option::None => 0int,
                },
                records@.len() == tlen + i,
                records.deep_view() =~= spec_to_records(t).take(tlen + i),
            decreases m - i,
        {
            records.push(row_to_record(&self.table.rows[self.start + i]));
            i = i + 1;
            proof {
                assert(t.rows[i - 1] == self.table.rows@[self.start + i - 1]@);
                assert(records.deep_view() =~= spec_to_records(t).take(tlen + i));
            }
        }
        proof {
            assert(spec_to_records(t).take(tlen + m) =~= spec_to_records(t));
        }
        records
    }
}

impl Table {
    /// Exports the table as records: the title row first when one is set,
    /// then one record per row, one field per cell.
    pub fn to_records(&self) -> (r: Vec<Vec<String>>)
        ensures
            r.deep_view() == spec_to_records(self@),
    {
        self.as_slice().to_records()
    }

    /// Imports records as a table: one row per record, one left-aligned,
    /// unstyled cell per field, the default format, and no title.
    pub fn from_records(records: &Vec<Vec<String>>) -> (r: Table)
        ensures
            r@ == spec_from_records(records.deep_view()),
    {
        let mut rows: Vec<Row> = Vec::new();
        let n = records.len();
        let mut i: usize = 0;
        while i < n
            invariant
                i <= n,
                n == records@.len(),
                rows@.len() == i,
                forall|k: int|
                    0 <= k < i ==> (#[trigger] rows@[k])@ == row_of_record(records@[k].deep_view()),
            decreases n - i,
        {
            rows.push(record_to_row(&records[i]));
            i = i + 1;
        }
        let r = Table::init(rows);
        proof {
            assert(r@ =~~= spec_from_records(records.deep_view()));
        }
        r
    }
}

/// A text without its final line terminator, when it has one.
pub open spec fn strip_final_newline(s: Seq<char>) -> Seq<char> {
    if s.len() > 0 && s.last() == '\n' {
        s.drop_last()
    } else {
        s
    }
}

impl Table {
    /// The table's plain rendering as owned content lines, the final line
    /// terminator dropped.
    fn rendered_content(&self) -> (c: CellLines)
        ensures
            c@ == split_lines(strip_final_newline(render(self@))),
    {
        let text = self.to_string();
        let n = text.as_str().unicode_len();
        let stripped: &str = if n > 0 && text.as_str().get_char(n - 1) == '\n' {
            let s = text.as_str().substring_char(0, n - 1);
            proof {
                assert(s@ =~= strip_final_newline(render(self@)));
            }
            s
        } else {
            text.as_str()
        };
        CellLines::new(stripped)
    }
}

impl CellContent for Table {
    /// A table used as cell content contributes its plain rendering, split
    /// into display lines, without the final line terminator.
    open spec fn lines_view(&self) -> Seq<Seq<char>> {
        split_lines(strip_final_newline(render(self@)))
    }

    fn get_width(&self) -> (w: usize)
        ensures
            w == lines_width(self.lines_view()),
    {
        self.rendered_content().get_width()
    }

    fn get_height(&self) -> (h: usize)
        ensures
            h == self.lines_view().len(),
            h >= 1,
    {
        proof {
            crate::cell_content::lemma_split_wf(strip_final_newline(render(self@)));
        }
        self.rendered_content().get_height()
    }

    fn get_lines(&self) -> (v: Vec<String>)
        ensures
            v.deep_view() == self.lines_view(),
            wf_lines(self.lines_view()),
    {
        proof {
            crate::cell_content::lemma_split_wf(strip_final_newline(render(self@)));
        }
        self.rendered_content().get_lines()
    }
}

} // verus!
