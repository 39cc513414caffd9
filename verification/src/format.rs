//! Position-keyed description of a table's borders, separators, padding and
//! indentation, and the rendering of one horizontal separator line.

use vstd::prelude::*;
use crate::utils::{spaces, repeated, push_repeated};

verus! {

/// Horizontal alignment of a cell's content inside its column.
#[derive(Clone, Copy, Debug, PartialEq, Eq, Structural)]
pub enum Alignment {
    LEFT,
    CENTER,
    RIGHT,
}

/// Where a horizontal separator line stands in the grid.
#[derive(Clone, Copy, Debug, PartialEq, Eq, Structural)]
pub enum LinePosition {
    Top,
    Title,
    Intern,
    Bottom,
}

/// Where a vertical separator character stands in a printed line.
#[derive(Clone, Copy, Debug, PartialEq, Eq, Structural)]
pub enum ColumnPosition {
    Left,
    Intern,
    Right,
}

/// The four characters of one horizontal separator line: the fill, the
/// crossing drawn under a column separator, and the two end characters.
#[derive(Clone, Copy, Debug)]
pub struct LineSeparator {
    pub line: char,
    pub junc: char,
    pub ljunc: char,
    pub rjunc: char,
}

impl LineSeparator {
    /// Builds a separator from its fill, crossing, left-end and right-end
    /// characters.
    pub fn new(line: char, junc: char, ljunc: char, rjunc: char) -> (r: LineSeparator)
        ensures
            r == (LineSeparator { line, junc, ljunc, rjunc }),
    {
        LineSeparator { line, junc, ljunc, rjunc }
    }
}

/// Borders, separators, padding and indentation of a whole table.
#[derive(Clone, Copy, Debug)]
pub struct TableFormat {
    /// Separator between two adjacent columns, if any.
    pub csep: Option<char>,
    /// Left border of the grid, if any.
    pub lborder: Option<char>,
    /// Right border of the grid, if any.
    pub rborder: Option<char>,
    /// Line drawn above the whole grid, if any.
    pub top_sep: Option<LineSeparator>,
    /// Line drawn under the title row, if any; when unset, the separator
    /// drawn between rows is used there too.
    pub title_sep: Option<LineSeparator>,
    /// Line drawn between two data rows, if any.
    pub intern_sep: Option<LineSeparator>,
    /// Line drawn under the whole grid, if any.
    pub bottom_sep: Option<LineSeparator>,
    /// Spaces between the left edge of a cell and its content.
    pub pad_left: usize,
    /// Spaces between the content of a cell and its right edge.
    pub pad_right: usize,
    /// Spaces prefixed to every printed line.
    pub indent: usize,
}

/// The text a present-or-absent single separator character contributes.
pub open spec fn opt_char_text(oc: Option<char>) -> Seq<char> {
    match oc {
        Option::Some(c) => seq![c],
        Option::None => Seq::empty(),
    }
}

/// The line terminator.
pub open spec fn newline() -> Seq<char> {
    seq!['\n']
}

/// The fill of a separator line over the first `n` columns: for each column
/// its width plus both paddings copies of the fill character, with the
/// crossing character after every column but the last when a column
/// separator is present.
pub open spec fn sep_cols_text(
    sep: LineSeparator,
    widths: Seq<nat>,
    lpad: nat,
    rpad: nat,
    has_csep: bool,
    n: nat,
) -> Seq<char>
    decreases n,
{
    if n == 0 || n > widths.len() {
        Seq::empty()
    } else {
        sep_cols_text(sep, widths, lpad, rpad, has_csep, (n - 1) as nat) + repeated(
            sep.line,
            (widths[n - 1] + lpad + rpad) as nat,
        ) + (if has_csep && n < widths.len() {
            seq![sep.junc]
        } else {
            Seq::empty()
        })
    }
}

/// One whole separator line: indent, the left end when a left border exists,
/// the fill over all columns, the right end when a right border exists, and
/// the line terminator.
pub open spec fn sep_line_text(sep: LineSeparator, f: TableFormat, widths: Seq<nat>) -> Seq<char> {
    spaces(f.indent as nat) + (if f.lborder is Some {
        seq![sep.ljunc]
    } else {
        Seq::empty()
    }) + sep_cols_text(
        sep,
        widths,
        f.pad_left as nat,
        f.pad_right as nat,
        f.csep is Some,
        widths.len(),
    ) + (if f.rborder is Some {
        seq![sep.rjunc]
    } else {
        Seq::empty()
    }) + newline()
}

/// The text printed for a separator position: a whole line when the format
/// has a separator there, nothing at all otherwise.
pub open spec fn line_sep_text(f: TableFormat, widths: Seq<nat>, pos: LinePosition) -> Seq<char> {
    match f.spec_line_sep(pos) {
        Option::Some(sep) => sep_line_text(sep, f, widths),
        Option::None => Seq::empty(),
    }
}

/// The format with the separator at one line position replaced.
pub open spec fn with_separator(f: TableFormat, pos: LinePosition, sep: LineSeparator) -> TableFormat {
    match pos {
        LinePosition::Top => TableFormat { top_sep: Option::Some(sep), ..f },
        LinePosition::Title => TableFormat { title_sep: Option::Some(sep), ..f },
        LinePosition::Intern => TableFormat { intern_sep: Option::Some(sep), ..f },
        LinePosition::Bottom => TableFormat { bottom_sep: Option::Some(sep), ..f },
    }
}

/// The format with the separator replaced at each of the listed positions.
pub open spec fn with_separators(
    f: TableFormat,
    positions: Seq<LinePosition>,
    sep: LineSeparator,
) -> TableFormat
    decreases positions.len(),
{
    if positions.len() == 0 {
        f
    } else {
        with_separator(with_separators(f, positions.drop_last(), sep), positions.last(), sep)
    }
}

impl TableFormat {
    /// The separator drawn at a line position: under the title, an unset
    /// separator falls back to the one drawn between rows.
    pub open spec fn spec_line_sep(self, pos: LinePosition) -> Option<LineSeparator> {
        match pos {
            LinePosition::Top => self.top_sep,
            LinePosition::Title => match self.title_sep {
                Option::Some(s) => Option::Some(s),
                Option::None => self.intern_sep,
            },
            LinePosition::Intern => self.intern_sep,
            LinePosition::Bottom => self.bottom_sep,
        }
    }

    /// The separator character configured at a column position.
    pub open spec fn spec_col_sep(self, pos: ColumnPosition) -> Option<char> {
        match pos {
            ColumnPosition::Left => self.lborder,
            ColumnPosition::Intern => self.csep,
            ColumnPosition::Right => self.rborder,
        }
    }

    /// A format with no separator anywhere, no padding and no indent.
    pub open spec fn spec_empty() -> TableFormat {
        TableFormat {
            csep: Option::None,
            lborder: Option::None,
            rborder: Option::None,
            top_sep: Option::None,
            title_sep: Option::None,
            intern_sep: Option::None,
            bottom_sep: Option::None,
            pad_left: 0,
            pad_right: 0,
            indent: 0,
        }
    }

    /// Creates a format with no separator anywhere, no padding and no indent.
    pub fn new() -> (r: TableFormat)
        ensures
            r == TableFormat::spec_empty(),
    {
        TableFormat {
            csep: None,
            lborder: None,
            rborder: None,
            top_sep: None,
            title_sep: None,
            intern_sep: None,
            bottom_sep: None,
            pad_left: 0,
            pad_right: 0,
            indent: 0,
        }
    }

    /// Sets the spaces added on each side of every cell's content.
    pub fn padding(&mut self, left: usize, right: usize)
        ensures
            *final(self) == (TableFormat { pad_left: left, pad_right: right, ..*old(self) }),
    {
        self.pad_left = left;
        self.pad_right = right;
    }

    /// Sets the left margin prefixed to every printed line.
    pub fn indent(&mut self, width: usize)
        ensures
            *final(self) == (TableFormat { indent: width, ..*old(self) }),
    {
        self.indent = width;
    }

    /// The left margin prefixed to every printed line.
    pub fn get_indent(&self) -> (r: usize)
        ensures
            r == self.indent,
    {
        self.indent
    }

    /// The spaces added on each side of every cell's content.
    pub fn get_padding(&self) -> (r: (usize, usize))
        ensures
            r == (self.pad_left, self.pad_right),
    {
        (self.pad_left, self.pad_right)
    }

    /// Sets the separator between two adjacent columns.
    pub fn column_separator(&mut self, separator: char)
        ensures
            *final(self) == (TableFormat { csep: Option::Some(separator), ..*old(self) }),
    {
        self.csep = Some(separator);
    }

    /// Sets both outer borders to the same character.
    pub fn borders(&mut self, border: char)
        ensures
            *final(self) == (TableFormat {
                lborder: Option::Some(border),
                rborder: Option::Some(border),
                ..*old(self)
            }),
    {
        self.lborder = Some(border);
        self.rborder = Some(border);
    }

    /// Sets the separator line at one position.
    pub fn separator(&mut self, what: LinePosition, separator: LineSeparator)
        ensures
            *final(self) == with_separator(*old(self), what, separator),
    {
        match what {
            LinePosition::Top => self.top_sep = Some(separator),
            LinePosition::Title => self.title_sep = Some(separator),
            LinePosition::Intern => self.intern_sep = Some(separator),
            LinePosition::Bottom => self.bottom_sep = Some(separator),
        }
    }

    /// Sets the same separator line at each of the listed positions.
    pub fn separators(&mut self, what: &[LinePosition], separator: LineSeparator)
        ensures
            *final(self) == with_separators(*old(self), what@, separator),
    {
        let n = what.len();
        let mut i: usize = 0;
        while i < n
            invariant
                i <= n,
                n == what@.len(),
                *self == with_separators(*old(self), what@.take(i as int), separator),
            decreases n - i,
        {
            let pos = what[i];
            self.separator(pos, separator);
            i = i + 1;
            proof {
                assert(what@.take(i as int).drop_last() =~= what@.take(i - 1));
                assert(what@.take(i as int).last() == what@[i - 1]);
            }
        }
        proof {
            assert(what@.take(n as int) =~= what@);
        }
    }

    /// The separator line drawn at a line position, if any: under the
    /// title, an unset separator falls back to the one drawn between rows.
    pub fn get_line_separator(&self, pos: LinePosition) -> (r: Option<LineSeparator>)
        ensures
            r == self.spec_line_sep(pos),
    {
        match pos {
            LinePosition::Top => self.top_sep,
            LinePosition::Title => match self.title_sep {
                Some(s) => Some(s),
                None => self.intern_sep,
            },
            LinePosition::Intern => self.intern_sep,
            LinePosition::Bottom => self.bottom_sep,
        }
    }

    /// The separator character at a column position, if one is configured.
    pub fn get_column_separator(&self, pos: ColumnPosition) -> (r: Option<char>)
        ensures
            r == self.spec_col_sep(pos),
    {
        match pos {
            ColumnPosition::Left => self.lborder,
            ColumnPosition::Intern => self.csep,
            ColumnPosition::Right => self.rborder,
        }
    }

    /// Appends the separator character for a column position, or nothing when
    /// none is configured there.
    pub fn print_column_separator(&self, out: &mut String, pos: ColumnPosition)
        ensures
            final(out)@ == old(out)@ + opt_char_text(self.spec_col_sep(pos)),
    {
        match self.get_column_separator(pos) {
            Some(c) => {
                out.push(c);
                proof {
                    assert(out@ =~= old(out)@ + opt_char_text(self.spec_col_sep(pos)));
                }
            },
            None => {
                proof {
                    assert(out@ =~= old(out)@ + opt_char_text(self.spec_col_sep(pos)));
                }
            },
        }
    }

    /// Appends one whole separator line for the given position, or nothing at
    /// all when the format has no separator there.
    #[verifier::rlimit(60)]
    pub fn print_line_separator(&self, out: &mut String, col_width: &Vec<usize>, pos: LinePosition)
        ensures
            final(out)@ == old(out)@ + line_sep_text(*self, crate::utils::nat_widths(col_width@), pos),
    {
        let sep_opt: &Option<LineSeparator> = match pos {
            LinePosition::Top => &self.top_sep,
            LinePosition::Title => if self.title_sep.is_some() {
                &self.title_sep
            } else {
                &self.intern_sep
            },
            LinePosition::Intern => &self.intern_sep,
            LinePosition::Bottom => &self.bottom_sep,
        };
        match sep_opt {
            Some(sep) => {
                let ghost widths = crate::utils::nat_widths(col_width@);
                push_repeated(out, ' ', self.indent);
                if self.lborder.is_some() {
                    out.push(sep.ljunc);
                }
                push_sep_cols(out, *sep, col_width, self.pad_left, self.pad_right, self.csep.is_some());
                if self.rborder.is_some() {
                    out.push(sep.rjunc);
                }
                out.push('\n');
                proof {
                    assert(out@ =~= old(out)@ + line_sep_text(*self, widths, pos));
                }
            },
            None => {
                proof {
                    assert(out@ =~= old(out)@ + line_sep_text(
                        *self,
                        crate::utils::nat_widths(col_width@),
                        pos,
                    ));
                }
            },
        }
    }
}

/// Appends the fill of one separator line over all columns: the width of each
/// column plus both paddings copies of the fill character, with the crossing
/// character between columns when a column separator is present.
fn push_sep_cols(
    out: &mut String,
    sep: LineSeparator,
    col_width: &Vec<usize>,
    lpad: usize,
    rpad: usize,
    has_csep: bool,
)
    ensures
        final(out)@ == old(out)@ + sep_cols_text(
            sep,
            crate::utils::nat_widths(col_width@),
            lpad as nat,
            rpad as nat,
            has_csep,
            col_width@.len(),
        ),
{
    let ghost widths = crate::utils::nat_widths(col_width@);
    let n = col_width.len();
    let mut j: usize = 0;
    proof {
        assert(out@ =~= old(out)@ + sep_cols_text(sep, widths, lpad as nat, rpad as nat, has_csep, 0));
    }
    while j < n
        invariant
            j <= n,
            n == col_width@.len(),
            widths == crate::utils::nat_widths(col_width@),
            out@ == old(out)@ + sep_cols_text(sep, widths, lpad as nat, rpad as nat, has_csep, j as nat),
        decreases n - j,
    {
        push_repeated(out, sep.line, col_width[j]);
        push_repeated(out, sep.line, lpad);
        push_repeated(out, sep.line, rpad);
        if has_csep && j + 1 < n {
            out.push(sep.junc);
        }
        j = j + 1;
        proof {
            assert(repeated(sep.line, (widths[j - 1] + lpad + rpad) as nat) =~= repeated(
                sep.line,
                col_width@[j - 1] as nat,
            ) + repeated(sep.line, lpad as nat) + repeated(sep.line, rpad as nat));
            assert(out@ =~= old(out)@ + sep_cols_text(
                sep,
                widths,
                lpad as nat,
                rpad as nat,
                has_csep,
                j as nat,
            ));
        }
    }
}

/// A fluent builder around `TableFormat`.
pub struct FormatBuilder {
    pub format: TableFormat,
}

impl FormatBuilder {
    /// Starts from the empty format.
    pub fn new() -> (r: FormatBuilder)
        ensures
            r.format == TableFormat::spec_empty(),
    {
        FormatBuilder { format: TableFormat::new() }
    }

    /// Sets the spaces added on each side of every cell's content.
    pub fn padding(self, left: usize, right: usize) -> (r: FormatBuilder)
        ensures
            r.format == (TableFormat { pad_left: left, pad_right: right, ..self.format }),
    {
        let mut f = self.format;
        f.padding(left, right);
        FormatBuilder { format: f }
    }

    /// Sets the separator between two adjacent columns.
    pub fn column_separator(self, separator: char) -> (r: FormatBuilder)
        ensures
            r.format == (TableFormat { csep: Option::Some(separator), ..self.format }),
    {
        let mut f = self.format;
        f.column_separator(separator);
        FormatBuilder { format: f }
    }

    /// Sets both outer borders to the same character.
    pub fn borders(self, border: char) -> (r: FormatBuilder)
        ensures
            r.format == (TableFormat {
                lborder: Option::Some(border),
                rborder: Option::Some(border),
                ..self.format
            }),
    {
        let mut f = self.format;
        f.borders(border);
        FormatBuilder { format: f }
    }

    /// Sets the separator line at one position.
    pub fn separator(self, what: LinePosition, separator: LineSeparator) -> (r: FormatBuilder)
        ensures
            r.format == with_separator(self.format, what, separator),
    {
        let mut f = self.format;
        f.separator(what, separator);
        FormatBuilder { format: f }
    }

    /// Sets the same separator line at each of the listed positions.
    pub fn separators(self, what: &[LinePosition], separator: LineSeparator) -> (r: FormatBuilder)
        ensures
            r.format == with_separators(self.format, what@, separator),
    {
        let mut f = self.format;
        f.separators(what, separator);
        FormatBuilder { format: f }
    }

    /// Sets the left margin prefixed to every printed line.
    pub fn indent(self, width: usize) -> (r: FormatBuilder)
        ensures
            r.format == (TableFormat { indent: width, ..self.format }),
    {
        let mut f = self.format;
        f.indent(width);
        FormatBuilder { format: f }
    }

    /// Hands the finished format out.
    pub fn build(self) -> (r: TableFormat)
        ensures
            r == self.format,
    {
        self.format
    }
}

/// The default box-drawing format: `|` separators and borders, `-`/`+` rules
/// above, below and between rows, and a `=`/`+` rule under the title.
pub open spec fn spec_format_default() -> TableFormat {
    TableFormat {
        csep: Option::Some('|'),
        lborder: Option::Some('|'),
        rborder: Option::Some('|'),
        top_sep: Option::Some(LineSeparator { line: '-', junc: '+', ljunc: '+', rjunc: '+' }),
        title_sep: Option::Some(LineSeparator { line: '=', junc: '+', ljunc: '+', rjunc: '+' }),
        intern_sep: Option::Some(LineSeparator { line: '-', junc: '+', ljunc: '+', rjunc: '+' }),
        bottom_sep: Option::Some(LineSeparator { line: '-', junc: '+', ljunc: '+', rjunc: '+' }),
        pad_left: 1,
        pad_right: 1,
        indent: 0,
    }
}

/// Builds the default box-drawing format.
pub fn format_default() -> (r: TableFormat)
    ensures
        r == spec_format_default(),
{
    TableFormat {
        csep: Some('|'),
        lborder: Some('|'),
        rborder: Some('|'),
        top_sep: Some(LineSeparator::new('-', '+', '+', '+')),
        title_sep: Some(LineSeparator::new('=', '+', '+', '+')),
        intern_sep: Some(LineSeparator::new('-', '+', '+', '+')),
        bottom_sep: Some(LineSeparator::new('-', '+', '+', '+')),
        pad_left: 1,
        pad_right: 1,
        indent: 0,
    }
}

/// Builds the format with column separators and borders but no rule between
/// rows or under the title: only the top and bottom rules remain.
pub fn format_no_linesep() -> (r: TableFormat)
    ensures
        r == (TableFormat {
            title_sep: Option::None,
            intern_sep: Option::None,
            ..spec_format_default()
        }),
{
    TableFormat {
        csep: Some('|'),
        lborder: Some('|'),
        rborder: Some('|'),
        top_sep: Some(LineSeparator::new('-', '+', '+', '+')),
        title_sep: None,
        intern_sep: None,
        bottom_sep: Some(LineSeparator::new('-', '+', '+', '+')),
        pad_left: 1,
        pad_right: 1,
        indent: 0,
    }
}

/// Builds the format with horizontal rules but neither column separators nor
/// borders.
pub fn format_no_colsep() -> (r: TableFormat)
    ensures
        r == (TableFormat {
            csep: Option::None,
            lborder: Option::None,
            rborder: Option::None,
            top_sep: Option::Some(LineSeparator { line: '-', junc: '-', ljunc: '-', rjunc: '-' }),
            title_sep: Option::Some(LineSeparator { line: '=', junc: '=', ljunc: '=', rjunc: '=' }),
            intern_sep: Option::Some(LineSeparator { line: '-', junc: '-', ljunc: '-', rjunc: '-' }),
            bottom_sep: Option::Some(LineSeparator { line: '-', junc: '-', ljunc: '-', rjunc: '-' }),
            pad_left: 1,
            pad_right: 1,
            indent: 0,
        }),
{
    TableFormat {
        csep: None,
        lborder: None,
        rborder: None,
        top_sep: Some(LineSeparator::new('-', '-', '-', '-')),
        title_sep: Some(LineSeparator::new('=', '=', '=', '=')),
        intern_sep: Some(LineSeparator::new('-', '-', '-', '-')),
        bottom_sep: Some(LineSeparator::new('-', '-', '-', '-')),
        pad_left: 1,
        pad_right: 1,
        indent: 0,
    }
}

/// Builds the whitespace-only format: no separator anywhere, one space of
/// padding on each side.
pub fn format_clean() -> (r: TableFormat)
    ensures
        r == (TableFormat { pad_left: 1, pad_right: 1, ..TableFormat::spec_empty() }),
{
    TableFormat {
        csep: None,
        lborder: None,
        rborder: None,
        top_sep: None,
        title_sep: None,
        intern_sep: None,
        bottom_sep: None,
        pad_left: 1,
        pad_right: 1,
        indent: 0,
    }
}

} // verus!
