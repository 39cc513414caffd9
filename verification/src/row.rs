//! An ordered sequence of cells spanning one horizontal slice of a table.

use vstd::prelude::*;
use crate::cell::{Cell, CellView};
use crate::format::{ColumnPosition, TableFormat};
use crate::render::{
    cell_width_at, chunk_views, chunks_text, col_chunks, line_cols_chunks, plain_chunk,
    push_chunks_text, push_plain, row_chunks, row_height, row_line_chunks, row_lines_chunks,
    Chunk,
};
use crate::utils::{nat_widths, push_repeated, spaces};

verus! {

/// A table row: the cells of one horizontal slice, in column order.
#[derive(Debug)]
pub struct Row {
    pub cells: Vec<Cell>,
}

impl View for Row {
    type V = Seq<CellView>;

    open spec fn view(&self) -> Seq<CellView> {
        self.cells@.map_values(|c: Cell| c@)
    }
}

impl Row {
    /// Builds a row backed by the given cells.
    pub fn new(cells: Vec<Cell>) -> (r: Row)
        ensures
            r@ == cells@.map_values(|c: Cell| c@),
    {
        Row { cells }
    }

    /// Builds a row with no cell.
    pub fn empty() -> (r: Row)
        ensures
            r@ == Seq::<CellView>::empty(),
    {
        let r = Row { cells: Vec::new() };
        proof {
            assert(r@ =~= Seq::<CellView>::empty());
        }
        r
    }

    /// The number of cells in this row.
    pub fn len(&self) -> (n: usize)
        ensures
            n == self@.len(),
    {
        self.cells.len()
    }

    /// Whether the row has no cell.
    pub fn is_empty(&self) -> (r: bool)
        ensures
            r == (self@.len() == 0),
    {
        self.cells.len() == 0
    }

    /// The height of the row: its tallest cell, and at least one line, so
    /// that an empty row still occupies one printed line.
    pub fn get_height(&self) -> (h: usize)
        ensures
            h == row_height(self@),
            h >= 1,
    {
        let mut height: usize = 1;
        let n = self.cells.len();
        let mut i: usize = 0;
        proof {
            assert(self@.take(0) =~= Seq::<CellView>::empty());
        }
        while i < n
            invariant
                i <= n,
                n == self@.len(),
                self@ == self.cells@.map_values(|c: Cell| c@),
                height == row_height(self@.take(i as int)),
                height >= 1,
            decreases n - i,
        {
            let h = self.cells[i].get_height();
            if h > height {
                height = h;
            }
            i = i + 1;
            proof {
                let t = self@.take(i as int);
                assert(t.drop_last() =~= self@.take(i - 1));
                assert(t.last() == self@[i - 1]);
                assert(height == row_height(t));
            }
        }
        proof {
            assert(self@.take(n as int) =~= self@);
        }
        height
    }

    /// The width this row asks of a column: its cell's width there, or zero
    /// where the row has no such column.
    pub fn get_cell_width(&self, column: usize) -> (w: usize)
        ensures
            w == cell_width_at(self@, column as nat),
    {
        if column < self.cells.len() {
            self.cells[column].get_width()
        } else {
            0
        }
    }

    /// The cell at an index, or nothing past the end.
    pub fn get_cell(&self, idx: usize) -> (r: Option<&Cell>)
        ensures
            match r {
                Option::Some(c) => idx < self@.len() && c@ == self@[idx as int],
                Option::None => idx >= self@.len(),
            },
    {
        if idx < self.cells.len() {
            Some(&self.cells[idx])
        } else {
            None
        }
    }

    /// A mutable borrow of the cell at an index, or nothing past the end;
    /// what the caller writes through the borrow lands at that index.
    pub fn get_mut_cell(&mut self, idx: usize) -> (r: Option<&mut Cell>)
        ensures
            match r {
                Option::Some(c) => idx < old(self).cells@.len() && *c == old(self).cells@[idx as int]
                    && final(self).cells@ == old(self).cells@.update(idx as int, *final(c)),
                Option::None => idx >= old(self).cells@.len() && *final(self) == *old(self),
            },
    {
        if idx < self.cells.len() {
            Some(&mut self.cells[idx])
        } else {
            None
        }
    }

    /// Replaces the cell at a column; a column the row does not reach is a
    /// recoverable failure and changes nothing.
    pub fn set_cell(&mut self, cell: Cell, column: usize) -> (r: Result<(), &'static str>)
        ensures
            column < old(self)@.len() ==> r is Ok && final(self)@ == old(self)@.update(
                column as int,
                cell@,
            ),
            column >= old(self)@.len() ==> r is Err && final(self)@ == old(self)@,
    {
        if column >= self.cells.len() {
            return Err("Cannot find cell");
        }
        self.cells[column] = cell;
        proof {
            assert(self@ =~= old(self)@.update(column as int, cell@));
        }
        Ok(())
    }

    /// Appends a cell at the end of the row.
    pub fn add_cell(&mut self, cell: Cell)
        ensures
            final(self)@ == old(self)@.push(cell@),
    {
        self.cells.push(cell);
        proof {
            assert(self@ =~= old(self)@.push(cell@));
        }
    }

    /// Inserts a cell at an index; an index past the end appends instead of
    /// failing.
    pub fn insert_cell(&mut self, index: usize, cell: Cell)
        ensures
            index < old(self)@.len() ==> final(self)@ == old(self)@.insert(index as int, cell@),
            index >= old(self)@.len() ==> final(self)@ == old(self)@.push(cell@),
    {
        if index < self.cells.len() {
            self.cells.insert(index, cell);
            proof {
                assert(self@ =~= old(self)@.insert(index as int, cell@));
            }
        } else {
            self.add_cell(cell);
        }
    }

    /// Removes the cell at an index; an index past the end is a silent
    /// no-op.
    pub fn remove_cell(&mut self, index: usize)
        ensures
            index < old(self)@.len() ==> final(self)@ == old(self)@.remove(index as int),
            index >= old(self)@.len() ==> final(self)@ == old(self)@,
    {
        if index < self.cells.len() {
            self.cells.remove(index);
            proof {
                assert(self@ =~= old(self)@.remove(index as int));
            }
        }
    }

    /// Appends the chunks of one display line of this row: indent and left
    /// border, then for every column its paddings and cell fragment, then
    /// the right border and the line terminator.
    fn render_line(
        &self,
        chunks: &mut Vec<Chunk>,
        format: &TableFormat,
        col_width: &Vec<usize>,
        i: usize,
    )
        ensures
            chunk_views(final(chunks)@) == chunk_views(old(chunks)@) + row_line_chunks(
                self@,
                *format,
                nat_widths(col_width@),
                i as nat,
            ),
    {
        let ghost widths = nat_widths(col_width@);
        let mut head = String::new();
        push_repeated(&mut head, ' ', format.get_indent());
        format.print_column_separator(&mut head, ColumnPosition::Left);
        let ghost headv = head@;
        push_plain(chunks, head);
        let ghost hseq = chunk_views(chunks@);
        proof {
            assert(headv =~= spaces(format.indent as nat) + crate::format::opt_char_text(
                format.lborder,
            ));
            assert(hseq =~= chunk_views(old(chunks)@) + seq![plain_chunk(headv)]);
        }
        let n = col_width.len();
        let mut j: usize = 0;
        while j < n
            invariant
                j <= n,
                n == col_width@.len(),
                widths == nat_widths(col_width@),
                hseq == chunk_views(old(chunks)@) + seq![plain_chunk(headv)],
                headv == spaces(format.indent as nat) + crate::format::opt_char_text(
                    format.lborder,
                ),
                chunk_views(chunks@) == hseq + line_cols_chunks(
                    self@,
                    *format,
                    widths,
                    i as nat,
                    j as nat,
                ),
            decreases n - j,
        {
            let ghost p0 = chunk_views(chunks@);
            let mut lpad = String::new();
            push_repeated(&mut lpad, ' ', format.pad_left);
            let ghost lpadv = lpad@;
            push_plain(chunks, lpad);

            let skip_r_fill = j + 1 == n && format.get_column_separator(
                ColumnPosition::Right,
            ).is_none();
            let mut text = String::new();
            let styled_chunk: Chunk;
            match self.get_cell(j) {
                Some(c) => {
                    c.print(&mut text, i, col_width[j], skip_r_fill);
                    let cc = c.clone();
                    styled_chunk = Chunk { text, styles: cc.style, styled: true };
                },
                None => {
                    let c = Cell::default();
                    c.print(&mut text, i, col_width[j], skip_r_fill);
                    let styles: Vec<crate::style::Attr> = Vec::new();
                    styled_chunk = Chunk { text, styles, styled: true };
                },
            }
            let ghost stylev = styled_chunk@;
            chunks.push(styled_chunk);

            let mut rpad = String::new();
            push_repeated(&mut rpad, ' ', format.pad_right);
            if j + 1 < n {
                format.print_column_separator(&mut rpad, ColumnPosition::Intern);
            }
            let ghost rpadv = rpad@;
            push_plain(chunks, rpad);

            proof {
                let cols = col_chunks(self@, *format, widths, i as nat, j as nat);
                assert(plain_chunk(lpadv) =~~= cols[0]);
                assert(stylev =~~= cols[1]);
                assert(plain_chunk(rpadv) =~~= cols[2]);
                assert(chunk_views(chunks@) =~= p0.push(plain_chunk(lpadv)).push(stylev).push(
                    plain_chunk(rpadv),
                ));
                assert(p0.push(plain_chunk(lpadv)).push(stylev).push(plain_chunk(rpadv)) =~= p0
                    + cols);
                assert(chunk_views(chunks@) =~= hseq + line_cols_chunks(
                    self@,
                    *format,
                    widths,
                    i as nat,
                    (j + 1) as nat,
                ));
            }
            j = j + 1;
        }
        let mut tail = String::new();
        format.print_column_separator(&mut tail, ColumnPosition::Right);
        tail.push('\n');
        let ghost tailv = tail@;
        push_plain(chunks, tail);
        proof {
            assert(tailv =~= crate::format::opt_char_text(format.rborder) + crate::format::newline());
            assert(chunk_views(chunks@) =~= chunk_views(old(chunks)@) + row_line_chunks(
                self@,
                *format,
                widths,
                i as nat,
            ));
        }
    }

    /// Appends all the chunks of this row: one group of chunks per display
    /// line, up to the row's height.
    pub fn render_chunks(
        &self,
        chunks: &mut Vec<Chunk>,
        format: &TableFormat,
        col_width: &Vec<usize>,
    )
        ensures
            chunk_views(final(chunks)@) == chunk_views(old(chunks)@) + row_chunks(
                self@,
                *format,
                nat_widths(col_width@),
            ),
    {
        let ghost widths = nat_widths(col_width@);
        let m = self.get_height();
        let mut i: usize = 0;
        proof {
            assert(chunk_views(chunks@) =~= chunk_views(old(chunks)@) + row_lines_chunks(
                self@,
                *format,
                widths,
                0,
            ));
        }
        while i < m
            invariant
                i <= m,
                m == row_height(self@),
                widths == nat_widths(col_width@),
                chunk_views(chunks@) == chunk_views(old(chunks)@) + row_lines_chunks(
                    self@,
                    *format,
                    widths,
                    i as nat,
                ),
            decreases m - i,
        {
            self.render_line(chunks, format, col_width, i);
            i = i + 1;
            proof {
                assert(chunk_views(chunks@) =~= chunk_views(old(chunks)@) + row_lines_chunks(
                    self@,
                    *format,
                    widths,
                    i as nat,
                ));
            }
        }
    }

    /// Appends the plain text of this row to `out`: every display line with
    /// indent, borders, paddings and separators, each line terminated.
    pub fn print(&self, out: &mut String, format: &TableFormat, col_width: &Vec<usize>)
        ensures
            final(out)@ == old(out)@ + chunks_text(
                row_chunks(self@, *format, nat_widths(col_width@)),
            ),
    {
        let mut chunks: Vec<Chunk> = Vec::new();
        self.render_chunks(&mut chunks, format, col_width);
        proof {
            assert(chunk_views(chunks@) =~= row_chunks(self@, *format, nat_widths(col_width@)));
        }
        push_chunks_text(out, &chunks);
    }
}

impl Clone for Row {
    /// A clone carries the same cells.
    fn clone(&self) -> (r: Row)
        ensures
            r@ == self@,
    {
        let mut cells: Vec<Cell> = Vec::new();
        let n = self.cells.len();
        let mut i: usize = 0;
        while i < n
            invariant
                i <= n,
                n == self.cells@.len(),
                cells@.len() == i,
                forall|k: int| 0 <= k < i ==> (#[trigger] cells@[k])@ == self.cells@[k]@,
            decreases n - i,
        {
            cells.push(self.cells[i].clone());
            i = i + 1;
        }
        let r = Row { cells };
        proof {
            assert(r@ =~= self@);
        }
        r
    }
}

impl Default for Row {
    /// The default row has no cell.
    fn default() -> (r: Row)
        ensures
            r@ == Seq::<CellView>::empty(),
    {
        Row::empty()
    }
}

} // verus!
