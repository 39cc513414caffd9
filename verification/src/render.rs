//! The rendered form of a table: a sequence of chunks, each a piece of text
//! that is either grid frame or one styled cell fragment. The plain rendering
//! is the concatenation of the chunk texts.

use vstd::prelude::*;
use vstd::string::StringExecFns;
use crate::cell::CellView;
use crate::cell_content::line_at;
use crate::format::{
    LinePosition, TableFormat, line_sep_text, newline, opt_char_text, sep_line_text,
};
use crate::style::Attr;
use crate::utils::{aligned, lines_width, nat_max, spaces};

verus! {

/// The mathematical value of one output chunk: its text, and for a cell
/// fragment the style attributes to apply around it.
#[verifier::ext_equal]
pub struct ChunkView {
    pub text: Seq<char>,
    pub styles: Seq<Attr>,
    pub styled: bool,
}

/// One piece of rendered output: grid frame text, or one cell fragment
/// together with the styles to apply around it on a style-capable sink.
#[derive(Debug)]
pub struct Chunk {
    pub text: String,
    pub styles: Vec<Attr>,
    pub styled: bool,
}

impl View for Chunk {
    type V = ChunkView;

    open spec fn view(&self) -> ChunkView {
        ChunkView { text: self.text@, styles: self.styles@, styled: self.styled }
    }
}

/// The chunk views of a chunk vector.
pub open spec fn chunk_views(cs: Seq<Chunk>) -> Seq<ChunkView> {
    cs.map_values(|c: Chunk| c@)
}

/// A frame chunk: bare text, no style.
pub open spec fn plain_chunk(text: Seq<char>) -> ChunkView {
    ChunkView { text, styles: Seq::empty(), styled: false }
}

/// The concatenated text of a chunk sequence.
pub open spec fn chunks_text(cs: Seq<ChunkView>) -> Seq<char>
    decreases cs.len(),
{
    if cs.len() == 0 {
        Seq::empty()
    } else {
        cs[0].text + chunks_text(cs.drop_first())
    }
}

/// The text of a single chunk.
pub proof fn lemma_chunks_text_one(c: ChunkView)
    ensures
        chunks_text(seq![c]) == c.text,
{
    assert(seq![c].drop_first() =~= Seq::<ChunkView>::empty());
    assert(chunks_text(seq![c].drop_first()) == Seq::<char>::empty());
    assert(c.text + Seq::<char>::empty() =~= c.text);
}

/// Chunk text distributes over concatenation.
pub proof fn lemma_chunks_text_concat(a: Seq<ChunkView>, b: Seq<ChunkView>)
    ensures
        chunks_text(a + b) == chunks_text(a) + chunks_text(b),
    decreases a.len(),
{
    if a.len() == 0 {
        assert(a + b =~= b);
        assert(chunks_text(a) + chunks_text(b) =~= chunks_text(b));
    } else {
        assert((a + b).drop_first() =~= a.drop_first() + b);
        lemma_chunks_text_concat(a.drop_first(), b);
        assert(chunks_text(a + b) =~= chunks_text(a) + chunks_text(b));
    }
}

/// The empty placeholder standing for a cell a short row does not have.
pub open spec fn empty_cell_view() -> CellView {
    CellView { lines: Seq::empty(), align: crate::format::Alignment::LEFT, style: Seq::empty() }
}

/// The cell of a row at a column, or the empty placeholder past its end.
pub open spec fn cell_at(r: Seq<CellView>, j: nat) -> CellView {
    if j < r.len() {
        r[j as int]
    } else {
        empty_cell_view()
    }
}

/// Whether the trailing padding is dropped at a column: only at the last
/// one, and only when the grid has no right border.
pub open spec fn skip_right_fill_at(f: TableFormat, ncols: nat, j: nat) -> bool {
    j + 1 == ncols && f.rborder is None
}

/// The text of one cell fragment: the cell's display line at `i`, padded to
/// the column width by the cell's alignment.
pub open spec fn cell_text(c: CellView, i: nat, width: nat, skip: bool) -> Seq<char> {
    aligned(c.align, line_at(c.lines, i), ' ', width, skip)
}

/// The three chunks of one column in one display line: left padding, the
/// cell fragment carrying the cell's styles, and right padding followed by
/// the column separator everywhere but after the last column.
pub open spec fn col_chunks(
    r: Seq<CellView>,
    f: TableFormat,
    widths: Seq<nat>,
    i: nat,
    j: nat,
) -> Seq<ChunkView> {
    let c = cell_at(r, j);
    seq![
        plain_chunk(spaces(f.pad_left as nat)),
        ChunkView {
            text: cell_text(c, i, widths[j as int], skip_right_fill_at(f, widths.len(), j)),
            styles: c.style,
            styled: true,
        },
        plain_chunk(
            spaces(f.pad_right as nat) + (if j + 1 < widths.len() {
                opt_char_text(f.csep)
            } else {
                Seq::empty()
            }),
        ),
    ]
}

/// The chunks of the first `n` columns of one display line.
pub open spec fn line_cols_chunks(
    r: Seq<CellView>,
    f: TableFormat,
    widths: Seq<nat>,
    i: nat,
    n: nat,
) -> Seq<ChunkView>
    decreases n,
{
    if n == 0 {
        Seq::empty()
    } else {
        line_cols_chunks(r, f, widths, i, (n - 1) as nat) + col_chunks(
            r,
            f,
            widths,
            i,
            (n - 1) as nat,
        )
    }
}

/// The chunks of one whole display line of a row: indent and left border,
/// every column, then right border and the line terminator.
pub open spec fn row_line_chunks(
    r: Seq<CellView>,
    f: TableFormat,
    widths: Seq<nat>,
    i: nat,
) -> Seq<ChunkView> {
    seq![plain_chunk(spaces(f.indent as nat) + opt_char_text(f.lborder))] + line_cols_chunks(
        r,
        f,
        widths,
        i,
        widths.len(),
    ) + seq![plain_chunk(opt_char_text(f.rborder) + newline())]
}

/// The height of a row: its tallest cell, and at least one line, so that an
/// empty row still occupies one printed line.
pub open spec fn row_height(r: Seq<CellView>) -> nat
    decreases r.len(),
{
    if r.len() == 0 {
        1
    } else {
        nat_max(row_height(r.drop_last()), r.last().lines.len())
    }
}

/// The chunks of the first `m` display lines of a row.
pub open spec fn row_lines_chunks(
    r: Seq<CellView>,
    f: TableFormat,
    widths: Seq<nat>,
    m: nat,
) -> Seq<ChunkView>
    decreases m,
{
    if m == 0 {
        Seq::empty()
    } else {
        row_lines_chunks(r, f, widths, (m - 1) as nat) + row_line_chunks(
            r,
            f,
            widths,
            (m - 1) as nat,
        )
    }
}

/// All the chunks of one row: every display line up to the row's height.
pub open spec fn row_chunks(r: Seq<CellView>, f: TableFormat, widths: Seq<nat>) -> Seq<ChunkView> {
    row_lines_chunks(r, f, widths, row_height(r))
}

/// The mathematical value of a table or of a slice of one: a format, an
/// optional title row, and the data rows in order.
#[verifier::ext_equal]
pub struct TableView {
    pub format: TableFormat,
    pub titles: Option<Seq<CellView>>,
    pub rows: Seq<Seq<CellView>>,
}

/// The longest length among the first `n` rows.
pub open spec fn row_len_max(rows: Seq<Seq<CellView>>, n: nat) -> nat
    decreases n,
{
    if n == 0 || n > rows.len() {
        0
    } else {
        nat_max(row_len_max(rows, (n - 1) as nat), rows[n - 1].len())
    }
}

/// The number of columns of a table: the longest row, the title row
/// included when present.
pub open spec fn spec_column_count(t: TableView) -> nat {
    let rows_max = row_len_max(t.rows, t.rows.len());
    match t.titles {
        Option::Some(tr) => nat_max(rows_max, tr.len()),
        Option::None => rows_max,
    }
}

/// The width a row asks of a column: its cell's width there, or zero where
/// the row is too short.
pub open spec fn cell_width_at(r: Seq<CellView>, j: nat) -> nat {
    if j < r.len() {
        lines_width(r[j as int].lines)
    } else {
        0
    }
}

/// The widest cell at column `j` among the first `n` rows.
pub open spec fn col_width_rows(rows: Seq<Seq<CellView>>, j: nat, n: nat) -> nat
    decreases n,
{
    if n == 0 || n > rows.len() {
        0
    } else {
        nat_max(col_width_rows(rows, j, (n - 1) as nat), cell_width_at(rows[n - 1], j))
    }
}

/// The width of a column: the widest cell there over every row and the
/// title row when present; absent cells contribute zero.
pub open spec fn spec_column_width(t: TableView, j: nat) -> nat {
    let w = col_width_rows(t.rows, j, t.rows.len());
    match t.titles {
        Option::Some(tr) => nat_max(w, cell_width_at(tr, j)),
        Option::None => w,
    }
}

/// The widths of every column, recomputed from the current contents.
pub open spec fn spec_col_widths(t: TableView) -> Seq<nat> {
    Seq::new(spec_column_count(t), |j: int| spec_column_width(t, j as nat))
}

/// The chunks of one separator position: a single frame chunk holding the
/// whole line when the format draws one there, nothing otherwise.
pub open spec fn sep_chunks(f: TableFormat, widths: Seq<nat>, pos: LinePosition) -> Seq<ChunkView> {
    match f.spec_line_sep(pos) {
        Option::Some(sep) => seq![plain_chunk(sep_line_text(sep, f, widths))],
        Option::None => Seq::empty(),
    }
}

/// The chunks of the first `n` data rows, an interior separator before each
/// row but the first.
pub open spec fn rows_chunks(
    rows: Seq<Seq<CellView>>,
    f: TableFormat,
    widths: Seq<nat>,
    n: nat,
) -> Seq<ChunkView>
    decreases n,
{
    if n == 0 || n > rows.len() {
        Seq::empty()
    } else {
        rows_chunks(rows, f, widths, (n - 1) as nat) + (if n > 1 {
            sep_chunks(f, widths, LinePosition::Intern)
        } else {
            Seq::empty()
        }) + row_chunks(rows[n - 1], f, widths)
    }
}

/// All the chunks of a table: the top rule, the title row and its rule when
/// a title is set, the data rows with interior rules between them, and the
/// bottom rule. Column widths are recomputed from the current contents.
pub open spec fn table_chunks(t: TableView) -> Seq<ChunkView> {
    let widths = spec_col_widths(t);
    sep_chunks(t.format, widths, LinePosition::Top) + (match t.titles {
        Option::Some(tr) => row_chunks(tr, t.format, widths) + sep_chunks(
            t.format,
            widths,
            LinePosition::Title,
        ),
        Option::None => Seq::empty(),
    }) + rows_chunks(t.rows, t.format, widths, t.rows.len()) + sep_chunks(
        t.format,
        widths,
        LinePosition::Bottom,
    )
}

/// The plain rendering of a table: the concatenated text of all its chunks.
pub open spec fn render(t: TableView) -> Seq<char> {
    chunks_text(table_chunks(t))
}

/// Appends a frame chunk holding the given text.
pub fn push_plain(chunks: &mut Vec<Chunk>, text: String)
    ensures
        chunk_views(final(chunks)@) == chunk_views(old(chunks)@).push(plain_chunk(text@)),
{
    let c = Chunk { text, styles: Vec::new(), styled: false };
    proof {
        assert(c@.styles =~= Seq::<Attr>::empty());
    }
    chunks.push(c);
    proof {
        assert(chunk_views(chunks@) =~= chunk_views(old(chunks)@).push(plain_chunk(c@.text)));
    }
}

/// Appends the chunks of one separator position: one frame chunk holding
/// the whole separator line when the format draws one there, nothing
/// otherwise.
pub fn push_sep_chunks(
    chunks: &mut Vec<Chunk>,
    f: &TableFormat,
    col_width: &Vec<usize>,
    pos: LinePosition,
)
    ensures
        chunk_views(final(chunks)@) == chunk_views(old(chunks)@) + sep_chunks(
            *f,
            crate::utils::nat_widths(col_width@),
            pos,
        ),
{
    let ghost widths = crate::utils::nat_widths(col_width@);
    if f.get_line_separator(pos).is_some() {
        let mut text = String::new();
        f.print_line_separator(&mut text, col_width, pos);
        push_plain(chunks, text);
        proof {
            assert(chunk_views(chunks@) =~~= chunk_views(old(chunks)@) + sep_chunks(
                *f,
                widths,
                pos,
            ));
        }
    } else {
        proof {
            assert(chunk_views(chunks@) =~= chunk_views(old(chunks)@) + sep_chunks(
                *f,
                widths,
                pos,
            ));
        }
    }
}

/// Appends the texts of all chunks, in order, to `out`.
pub fn push_chunks_text(out: &mut String, chunks: &Vec<Chunk>)
    ensures
        final(out)@ == old(out)@ + chunks_text(chunk_views(chunks@)),
{
    let n = chunks.len();
    let mut k: usize = 0;
    proof {
        assert(out@ =~= old(out)@ + chunks_text(chunk_views(chunks@).take(0)));
    }
    while k < n
        invariant
            k <= n,
            n == chunks@.len(),
            out@ == old(out)@ + chunks_text(chunk_views(chunks@).take(k as int)),
        decreases n - k,
    {
        out.append(chunks[k].text.as_str());
        k = k + 1;
        proof {
            let cv = chunk_views(chunks@);
            assert(cv.take(k as int) =~= cv.take(k - 1) + seq![cv[k - 1]]);
            lemma_chunks_text_concat(cv.take(k - 1), seq![cv[k - 1]]);
            lemma_chunks_text_one(cv[k - 1]);
            assert(out@ =~= old(out)@ + chunks_text(cv.take(k as int)));
        }
    }
    proof {
        assert(chunk_views(chunks@).take(n as int) =~= chunk_views(chunks@));
    }
}

} // verus!
