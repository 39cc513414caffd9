//! One styled, aligned, content-bearing unit at a row/column intersection.

use vstd::prelude::*;
use crate::cell_content::{CellContent, CellLines, line_at, join_lines, wf_lines};
use crate::format::Alignment;
use crate::style::{Attr, color_of, parsed_style, style_run, style_start, style_step};
use crate::utils::{aligned, lines_width, print_align};

verus! {

/// The mathematical value of a cell: its display lines, its alignment and
/// its style attributes.
#[verifier::ext_equal]
pub struct CellView {
    pub lines: Seq<Seq<char>>,
    pub align: Alignment,
    pub style: Seq<Attr>,
}

/// A table cell: owns its content lines, an alignment, and a list of style
/// attributes applied at every styled print.
#[derive(Debug)]
pub struct Cell {
    pub content: CellLines,
    pub align: Alignment,
    pub style: Vec<Attr>,
}

impl View for Cell {
    type V = CellView;

    open spec fn view(&self) -> CellView {
        CellView { lines: self.content@, align: self.align, style: self.style@ }
    }
}

impl Cell {
    /// Builds a cell from any content, with the given alignment and no style.
    pub fn new_align<T: CellContent>(content: &T, align: Alignment) -> (r: Cell)
        ensures
            r@.lines == content.lines_view(),
            r@.align == align,
            r@.style == Seq::<Attr>::empty(),
            wf_lines(r@.lines),
    {
        let lines = content.get_lines();
        let r = Cell { content: CellLines::from_lines(lines), align, style: Vec::new() };
        proof {
            assert(r@.style =~= Seq::<Attr>::empty());
        }
        r
    }

    /// Builds a cell from any content, left-aligned and without style.
    pub fn new<T: CellContent>(content: &T) -> (r: Cell)
        ensures
            r@.lines == content.lines_view(),
            r@.align == Alignment::LEFT,
            r@.style == Seq::<Attr>::empty(),
            wf_lines(r@.lines),
    {
        Cell::new_align(content, Alignment::LEFT)
    }

    /// Sets the cell's alignment.
    pub fn align(&mut self, align: Alignment)
        ensures
            final(self)@ == (CellView { align, ..old(self)@ }),
    {
        self.align = align;
    }

    /// Appends one style attribute.
    pub fn style(&mut self, attr: Attr)
        ensures
            final(self)@ == (CellView { style: old(self)@.style.push(attr), ..old(self)@ }),
    {
        self.style.push(attr);
    }

    /// Appends one style attribute; can be chained.
    pub fn with_style(self, attr: Attr) -> (r: Cell)
        ensures
            r@ == (CellView { style: self@.style.push(attr), ..self@ }),
    {
        let mut c = self;
        c.style(attr);
        c
    }

    /// Drops every style attribute and resets the alignment to the default.
    pub fn reset_style(&mut self)
        ensures
            final(self)@ == (CellView {
                align: Alignment::LEFT,
                style: Seq::<Attr>::empty(),
                ..old(self)@
            }),
    {
        self.style = Vec::new();
        self.align = Alignment::LEFT;
        proof {
            assert(self@.style =~= Seq::<Attr>::empty());
        }
    }

    /// Resets the cell's style and alignment, then applies the style-spec
    /// string from left to right: the result depends on the string alone.
    pub fn style_spec(self, spec_str: &str) -> (r: Cell)
        ensures
            r@.lines == self@.lines,
            r@.style == parsed_style(spec_str@).style,
            r@.align == parsed_style(spec_str@).align,
    {
        let mut cell = self;
        cell.reset_style();
        let mut foreground = false;
        let mut background = false;
        let n = spec_str.unicode_len();
        let mut i: usize = 0;
        proof {
            assert(spec_str@.take(0) =~= Seq::<char>::empty());
        }
        while i < n
            invariant
                i <= n,
                n == spec_str@.len(),
                cell@.lines == self@.lines,
                cell@.style == style_run(style_start(), spec_str@.take(i as int)).style,
                cell@.align == style_run(style_start(), spec_str@.take(i as int)).align,
                foreground == style_run(style_start(), spec_str@.take(i as int)).fg,
                background == style_run(style_start(), spec_str@.take(i as int)).bg,
            decreases n - i,
        {
            let ghost st = style_run(style_start(), spec_str@.take(i as int));
            let c = spec_str.get_char(i);
            if foreground || background {
                match color_of(c) {
                    Some(color) => {
                        if foreground {
                            cell.style(Attr::ForegroundColor(color));
                        } else {
                            cell.style(Attr::BackgroundColor(color));
                        }
                    },
                    None => {
                        // An unknown color code cancels the announcement
                        // without adding a style and without any error.
                    },
                }
                foreground = false;
                background = false;
            } else {
                match c {
                    'F' => foreground = true,
                    'B' => background = true,
                    'b' => cell.style(Attr::Bold),
                    'i' => cell.style(Attr::Italic(true)),
                    'u' => cell.style(Attr::Underline(true)),
                    'c' => cell.align(Alignment::CENTER),
                    'l' => cell.align(Alignment::LEFT),
                    'r' => cell.align(Alignment::RIGHT),
                    _ => {
                        // Unknown directives are silently ignored.
                    },
                }
            }
            i = i + 1;
            proof {
                assert(spec_str@.take(i as int) =~= spec_str@.take(i - 1).push(spec_str@[i - 1]));
                crate::style::lemma_style_run_snoc(style_start(), spec_str@.take(i - 1), c);
                assert(style_run(style_start(), spec_str@.take(i as int)) == style_step(st, c));
            }
        }
        proof {
            assert(spec_str@.take(n as int) =~= spec_str@);
        }
        cell
    }

    /// The number of display lines of the cell's content.
    pub fn get_height(&self) -> (h: usize)
        ensures
            h == self@.lines.len(),
            h >= 1,
    {
        self.content.get_height()
    }

    /// The display width of the cell: the widest of its content lines.
    pub fn get_width(&self) -> (w: usize)
        ensures
            w == lines_width(self@.lines),
    {
        self.content.get_width()
    }

    /// The full content of the cell as one text, lines joined by breaks.
    pub fn get_content(&self) -> (r: String)
        ensures
            r@ == join_lines(self@.lines),
    {
        self.content.get_content()
    }

    /// Appends one display line of the cell to `out`, padded with spaces to
    /// the column width according to the cell's alignment; a line index past
    /// the content gives a blank line of that width. `skip_right_fill` drops
    /// the trailing padding.
    pub fn print(&self, out: &mut String, idx: usize, col_width: usize, skip_right_fill: bool)
        ensures
            final(out)@ == old(out)@ + aligned(
                self@.align,
                line_at(self@.lines, idx as nat),
                ' ',
                col_width as nat,
                skip_right_fill,
            ),
    {
        let line = self.content.line_or_empty(idx);
        print_align(out, self.align, line, ' ', col_width, skip_right_fill);
    }
}

impl Clone for Cell {
    /// A clone carries the same lines, alignment and style.
    fn clone(&self) -> (r: Cell)
        ensures
            r@ == self@,
    {
        let mut style: Vec<Attr> = Vec::new();
        let n = self.style.len();
        let mut i: usize = 0;
        while i < n
            invariant
                i <= n,
                n == self.style@.len(),
                style@ == self.style@.take(i as int),
            decreases n - i,
        {
            style.push(self.style[i]);
            i = i + 1;
            proof {
                assert(style@ =~= self.style@.take(i as int));
            }
        }
        proof {
            assert(self.style@.take(n as int) =~= self.style@);
        }
        Cell { content: self.content.clone(), align: self.align, style }
    }
}

impl Default for Cell {
    /// The default cell: one empty line, left-aligned, without style.
    fn default() -> (r: Cell)
        ensures
            r@.lines == seq![Seq::<char>::empty()],
            r@.align == Alignment::LEFT,
            r@.style == Seq::<Attr>::empty(),
    {
        let r = Cell { content: CellLines::default(), align: Alignment::LEFT, style: Vec::new() };
        proof {
            assert(r@.style =~= Seq::<Attr>::empty());
        }
        r
    }
}

} // verus!
