//! Laws of the rendering pipeline, proved once for every table: the plain
//! rendering ignores style attributes, slicing composes, and exporting to
//! records then importing reconstructs a table that renders identically.

use vstd::prelude::*;
use crate::cell::CellView;
use crate::cell_content::{lemma_split_join, wf_lines};
use crate::format::{Alignment, LinePosition, spec_format_default, TableFormat};
use crate::render::{
    cell_at, cell_text, cell_width_at, chunks_text, col_chunks, col_width_rows,
    lemma_chunks_text_concat, line_cols_chunks, render, row_chunks, row_height, row_len_max,
    row_line_chunks, row_lines_chunks, rows_chunks, sep_chunks, spec_col_widths,
    spec_column_count, spec_column_width, table_chunks, ChunkView, TableView,
};
use crate::utils::{aligned, char_width, display_width, lines_width, nat_max, repeated, spaces};
use crate::{cell_of_field, record_of_row, row_of_record, spec_from_records, spec_to_records};

verus! {

/// A string whose characters are each two columns wide is twice as wide as
/// it is long.
pub proof fn lemma_uniform_wide_width(s: Seq<char>)
    requires
        forall|k: int| 0 <= k < s.len() ==> char_width(#[trigger] s[k]) == 2,
    ensures
        display_width(s) == 2 * s.len(),
    decreases s.len(),
{
    if s.len() == 0 {
    } else {
        assert forall|k: int| 0 <= k < s.drop_first().len() implies char_width(
            #[trigger] s.drop_first()[k],
        ) == 2 by {
            assert(s.drop_first()[k] == s[k + 1]);
        }
        lemma_uniform_wide_width(s.drop_first());
        assert(char_width(s[0]) == 2);
    }
}

/// Left alignment puts the whole deficit after the content: a line that
/// fits leaves exactly the deficit as trailing spaces.
pub proof fn lemma_left_align_trailing(text: Seq<char>, size: nat)
    requires
        display_width(text) <= size,
    ensures
        aligned(Alignment::LEFT, text, ' ', size, false) == text + spaces(
            (size - display_width(text)) as nat,
        ),
{
    assert(aligned(Alignment::LEFT, text, ' ', size, false) =~= text + spaces(
        (size - display_width(text)) as nat,
    ));
}

/// Taking a sub-range of a sub-range of a table's rows is the same as
/// taking the composed sub-range directly, so the two slices render
/// identically.
pub proof fn lemma_slice_compose(t: TableView, a: int, b: int, c: int, d: int)
    requires
        0 <= a <= b <= t.rows.len(),
        0 <= c <= d <= b - a,
    ensures
        ({
            let outer = TableView { rows: t.rows.subrange(a, b), ..t };
            let inner = TableView { rows: outer.rows.subrange(c, d), ..outer };
            let direct = TableView { rows: t.rows.subrange(a + c, a + d), ..t };
            inner == direct && render(inner) == render(direct)
        }),
{
    let outer = TableView { rows: t.rows.subrange(a, b), ..t };
    let inner = TableView { rows: outer.rows.subrange(c, d), ..outer };
    let direct = TableView { rows: t.rows.subrange(a + c, a + d), ..t };
    assert(outer.rows.subrange(c, d) =~= t.rows.subrange(a + c, a + d));
    assert(inner =~~= direct);
}

/// Two cells that carry the same lines and alignment, whatever their
/// styles.
pub open spec fn same_plain_cell(a: CellView, b: CellView) -> bool {
    a.lines == b.lines && a.align == b.align
}

/// Two rows equal up to cell styles.
pub open spec fn same_plain_row(a: Seq<CellView>, b: Seq<CellView>) -> bool {
    a.len() == b.len() && forall|j: int|
        0 <= j < a.len() ==> same_plain_cell(#[trigger] a[j], #[trigger] b[j])
}

/// Two row sequences equal up to cell styles.
pub open spec fn same_plain_rows(a: Seq<Seq<CellView>>, b: Seq<Seq<CellView>>) -> bool {
    a.len() == b.len() && forall|i: int|
        0 <= i < a.len() ==> same_plain_row(#[trigger] a[i], #[trigger] b[i])
}

/// Two tables equal up to cell styles: same format, titles present
/// together and equal up to styles, rows equal up to styles.
pub open spec fn same_plain_table(a: TableView, b: TableView) -> bool {
    &&& a.format == b.format
    &&& match (a.titles, b.titles) {
        (Option::Some(x), Option::Some(y)) => same_plain_row(x, y),
        (Option::None, Option::None) => true,
        _ => false,
    }
    &&& same_plain_rows(a.rows, b.rows)
}

/// Two chunk sequences whose texts agree position by position.
pub open spec fn same_texts(x: Seq<ChunkView>, y: Seq<ChunkView>) -> bool {
    x.len() == y.len() && forall|k: int|
        0 <= k < x.len() ==> (#[trigger] x[k]).text == (#[trigger] y[k]).text
}

/// Chunk sequences with the same texts concatenate to the same text.
pub proof fn lemma_chunks_text_same(x: Seq<ChunkView>, y: Seq<ChunkView>)
    requires
        same_texts(x, y),
    ensures
        chunks_text(x) == chunks_text(y),
    decreases x.len(),
{
    if x.len() == 0 {
    } else {
        assert(x[0].text == y[0].text);
        assert forall|k: int| 0 <= k < x.drop_first().len() implies (#[trigger] x.drop_first()[
            k
        ]).text == (#[trigger] y.drop_first()[k]).text by {
            assert(x.drop_first()[k] == x[k + 1]);
            assert(y.drop_first()[k] == y[k + 1]);
        }
        lemma_chunks_text_same(x.drop_first(), y.drop_first());
    }
}

/// Same texts is preserved by concatenation.
pub proof fn lemma_same_texts_concat(
    x1: Seq<ChunkView>,
    y1: Seq<ChunkView>,
    x2: Seq<ChunkView>,
    y2: Seq<ChunkView>,
)
    requires
        same_texts(x1, y1),
        same_texts(x2, y2),
    ensures
        same_texts(x1 + x2, y1 + y2),
{
    assert forall|k: int| 0 <= k < (x1 + x2).len() implies (#[trigger] (x1 + x2)[k]).text == (
    #[trigger] (y1 + y2)[k]).text by {
        if k < x1.len() {
            assert((x1 + x2)[k] == x1[k]);
            assert((y1 + y2)[k] == y1[k]);
        } else {
            assert((x1 + x2)[k] == x2[k - x1.len()]);
            assert((y1 + y2)[k] == y2[k - x1.len()]);
        }
    }
}

/// Every chunk sequence has the same texts as itself.
pub proof fn lemma_same_texts_refl(x: Seq<ChunkView>)
    ensures
        same_texts(x, x),
{
}

/// Rows equal up to styles ask the same width of every column.
pub proof fn lemma_col_width_rows_same(
    ra: Seq<Seq<CellView>>,
    rb: Seq<Seq<CellView>>,
    j: nat,
    n: nat,
)
    requires
        same_plain_rows(ra, rb),
    ensures
        col_width_rows(ra, j, n) == col_width_rows(rb, j, n),
    decreases n,
{
    if n == 0 || n > ra.len() {
    } else {
        lemma_col_width_rows_same(ra, rb, j, (n - 1) as nat);
        assert(same_plain_row(ra[n - 1], rb[n - 1]));
        if j < ra[n - 1].len() {
            assert(same_plain_cell(ra[n - 1][j as int], rb[n - 1][j as int]));
        }
    }
}

/// Rows equal up to styles have the same lengths everywhere.
pub proof fn lemma_row_len_max_same(ra: Seq<Seq<CellView>>, rb: Seq<Seq<CellView>>, n: nat)
    requires
        same_plain_rows(ra, rb),
    ensures
        row_len_max(ra, n) == row_len_max(rb, n),
    decreases n,
{
    if n == 0 || n > ra.len() {
    } else {
        lemma_row_len_max_same(ra, rb, (n - 1) as nat);
        assert(same_plain_row(ra[n - 1], rb[n - 1]));
    }
}

/// Tables equal up to styles have the same column widths.
pub proof fn lemma_col_widths_same(a: TableView, b: TableView)
    requires
        same_plain_table(a, b),
    ensures
        spec_col_widths(a) == spec_col_widths(b),
{
    lemma_row_len_max_same(a.rows, b.rows, a.rows.len());
    match (a.titles, b.titles) {
        (Option::Some(x), Option::Some(y)) => {
            assert(spec_column_count(a) == spec_column_count(b));
        },
        _ => {},
    }
    assert forall|j: int| 0 <= j < spec_column_count(a) implies #[trigger] spec_column_width(
        a,
        j as nat,
    ) == spec_column_width(b, j as nat) by {
        lemma_col_width_rows_same(a.rows, b.rows, j as nat, a.rows.len());
        match (a.titles, b.titles) {
            (Option::Some(x), Option::Some(y)) => {
                if (j as nat) < x.len() {
                    assert(same_plain_cell(x[j], y[j]));
                }
            },
            _ => {},
        }
    }
    assert(spec_col_widths(a) =~= spec_col_widths(b));
}

/// Rows equal up to styles have the same height.
pub proof fn lemma_row_height_same(a: Seq<CellView>, b: Seq<CellView>)
    requires
        same_plain_row(a, b),
    ensures
        row_height(a) == row_height(b),
    decreases a.len(),
{
    if a.len() == 0 {
    } else {
        assert forall|j: int| 0 <= j < a.drop_last().len() implies same_plain_cell(
            #[trigger] a.drop_last()[j],
            #[trigger] b.drop_last()[j],
        ) by {
            assert(a.drop_last()[j] == a[j]);
            assert(b.drop_last()[j] == b[j]);
        }
        lemma_row_height_same(a.drop_last(), b.drop_last());
        assert(same_plain_cell(a.last(), b.last()));
    }
}

/// The three chunks of one column have the same texts for rows equal up to
/// styles.
pub proof fn lemma_col_chunks_same(
    ra: Seq<CellView>,
    rb: Seq<CellView>,
    f: TableFormat,
    widths: Seq<nat>,
    i: nat,
    j: nat,
)
    requires
        same_plain_row(ra, rb),
    ensures
        same_texts(col_chunks(ra, f, widths, i, j), col_chunks(rb, f, widths, i, j)),
{
    let ca = cell_at(ra, j);
    let cb = cell_at(rb, j);
    if j < ra.len() {
        assert(same_plain_cell(ra[j as int], rb[j as int]));
    }
    assert(cell_text(ca, i, widths[j as int], crate::render::skip_right_fill_at(f, widths.len(), j))
        == cell_text(cb, i, widths[j as int], crate::render::skip_right_fill_at(
        f,
        widths.len(),
        j,
    )));
    let x = col_chunks(ra, f, widths, i, j);
    let y = col_chunks(rb, f, widths, i, j);
    assert(x[0].text == y[0].text);
    assert(x[1].text == y[1].text);
    assert(x[2].text == y[2].text);
}

/// The chunks of the first columns of one display line have the same texts
/// for rows equal up to styles.
pub proof fn lemma_line_cols_same(
    ra: Seq<CellView>,
    rb: Seq<CellView>,
    f: TableFormat,
    widths: Seq<nat>,
    i: nat,
    n: nat,
)
    requires
        same_plain_row(ra, rb),
    ensures
        same_texts(line_cols_chunks(ra, f, widths, i, n), line_cols_chunks(rb, f, widths, i, n)),
    decreases n,
{
    if n == 0 {
    } else {
        lemma_line_cols_same(ra, rb, f, widths, i, (n - 1) as nat);
        lemma_col_chunks_same(ra, rb, f, widths, i, (n - 1) as nat);
        lemma_same_texts_concat(
            line_cols_chunks(ra, f, widths, i, (n - 1) as nat),
            line_cols_chunks(rb, f, widths, i, (n - 1) as nat),
            col_chunks(ra, f, widths, i, (n - 1) as nat),
            col_chunks(rb, f, widths, i, (n - 1) as nat),
        );
    }
}

/// One whole display line has the same texts for rows equal up to styles.
pub proof fn lemma_row_line_same(
    ra: Seq<CellView>,
    rb: Seq<CellView>,
    f: TableFormat,
    widths: Seq<nat>,
    i: nat,
)
    requires
        same_plain_row(ra, rb),
    ensures
        same_texts(row_line_chunks(ra, f, widths, i), row_line_chunks(rb, f, widths, i)),
{
    lemma_line_cols_same(ra, rb, f, widths, i, widths.len());
    let head = seq![
        crate::render::plain_chunk(
            spaces(f.indent as nat) + crate::format::opt_char_text(f.lborder),
        ),
    ];
    let tail = seq![
        crate::render::plain_chunk(
            crate::format::opt_char_text(f.rborder) + crate::format::newline(),
        ),
    ];
    lemma_same_texts_refl(head);
    lemma_same_texts_refl(tail);
    lemma_same_texts_concat(
        head,
        head,
        line_cols_chunks(ra, f, widths, i, widths.len()),
        line_cols_chunks(rb, f, widths, i, widths.len()),
    );
    lemma_same_texts_concat(
        head + line_cols_chunks(ra, f, widths, i, widths.len()),
        head + line_cols_chunks(rb, f, widths, i, widths.len()),
        tail,
        tail,
    );
}

/// The first display lines of a row have the same texts for rows equal up
/// to styles.
pub proof fn lemma_row_lines_same(
    ra: Seq<CellView>,
    rb: Seq<CellView>,
    f: TableFormat,
    widths: Seq<nat>,
    m: nat,
)
    requires
        same_plain_row(ra, rb),
    ensures
        same_texts(row_lines_chunks(ra, f, widths, m), row_lines_chunks(rb, f, widths, m)),
    decreases m,
{
    if m == 0 {
    } else {
        lemma_row_lines_same(ra, rb, f, widths, (m - 1) as nat);
        lemma_row_line_same(ra, rb, f, widths, (m - 1) as nat);
        lemma_same_texts_concat(
            row_lines_chunks(ra, f, widths, (m - 1) as nat),
            row_lines_chunks(rb, f, widths, (m - 1) as nat),
            row_line_chunks(ra, f, widths, (m - 1) as nat),
            row_line_chunks(rb, f, widths, (m - 1) as nat),
        );
    }
}

/// A whole row's chunks have the same texts for rows equal up to styles.
pub proof fn lemma_row_chunks_same(
    ra: Seq<CellView>,
    rb: Seq<CellView>,
    f: TableFormat,
    widths: Seq<nat>,
)
    requires
        same_plain_row(ra, rb),
    ensures
        same_texts(row_chunks(ra, f, widths), row_chunks(rb, f, widths)),
{
    lemma_row_height_same(ra, rb);
    lemma_row_lines_same(ra, rb, f, widths, row_height(ra));
}

/// The chunks of the first data rows have the same texts for row sequences
/// equal up to styles.
pub proof fn lemma_rows_chunks_same(
    ra: Seq<Seq<CellView>>,
    rb: Seq<Seq<CellView>>,
    f: TableFormat,
    widths: Seq<nat>,
    n: nat,
)
    requires
        same_plain_rows(ra, rb),
    ensures
        same_texts(rows_chunks(ra, f, widths, n), rows_chunks(rb, f, widths, n)),
    decreases n,
{
    if n == 0 || n > ra.len() {
    } else {
        lemma_rows_chunks_same(ra, rb, f, widths, (n - 1) as nat);
        assert(same_plain_row(ra[n - 1], rb[n - 1]));
        lemma_row_chunks_same(ra[n - 1], rb[n - 1], f, widths);
        let sep = if n > 1 {
            sep_chunks(f, widths, LinePosition::Intern)
        } else {
            Seq::<ChunkView>::empty()
        };
        lemma_same_texts_refl(sep);
        lemma_same_texts_concat(
            rows_chunks(ra, f, widths, (n - 1) as nat),
            rows_chunks(rb, f, widths, (n - 1) as nat),
            sep,
            sep,
        );
        lemma_same_texts_concat(
            rows_chunks(ra, f, widths, (n - 1) as nat) + sep,
            rows_chunks(rb, f, widths, (n - 1) as nat) + sep,
            row_chunks(ra[n - 1], f, widths),
            row_chunks(rb[n - 1], f, widths),
        );
    }
}

/// The plain rendering ignores style attributes: two tables equal up to
/// cell styles render to the same text. Styled printing differs from plain
/// printing only in the attributes applied around cell fragments.
pub proof fn lemma_render_same_plain(a: TableView, b: TableView)
    requires
        same_plain_table(a, b),
    ensures
        render(a) == render(b),
{
    lemma_col_widths_same(a, b);
    let widths = spec_col_widths(a);
    let f = a.format;
    let top = sep_chunks(f, widths, LinePosition::Top);
    let bottom = sep_chunks(f, widths, LinePosition::Bottom);
    let title_a = match a.titles {
        Option::Some(tr) => row_chunks(tr, f, widths) + sep_chunks(f, widths, LinePosition::Title),
        Option::None => Seq::<ChunkView>::empty(),
    };
    let title_b = match b.titles {
        Option::Some(tr) => row_chunks(tr, f, widths) + sep_chunks(f, widths, LinePosition::Title),
        Option::None => Seq::<ChunkView>::empty(),
    };
    lemma_same_texts_refl(top);
    lemma_same_texts_refl(bottom);
    match (a.titles, b.titles) {
        (Option::Some(x), Option::Some(y)) => {
            lemma_row_chunks_same(x, y, f, widths);
            lemma_same_texts_refl(sep_chunks(f, widths, LinePosition::Title));
            lemma_same_texts_concat(
                row_chunks(x, f, widths),
                row_chunks(y, f, widths),
                sep_chunks(f, widths, LinePosition::Title),
                sep_chunks(f, widths, LinePosition::Title),
            );
        },
        _ => {
            lemma_same_texts_refl(title_a);
        },
    }
    lemma_rows_chunks_same(a.rows, b.rows, f, widths, a.rows.len());
    lemma_same_texts_concat(top, top, title_a, title_b);
    lemma_same_texts_concat(
        top + title_a,
        top + title_b,
        rows_chunks(a.rows, f, widths, a.rows.len()),
        rows_chunks(b.rows, f, widths, b.rows.len()),
    );
    lemma_same_texts_concat(
        top + title_a + rows_chunks(a.rows, f, widths, a.rows.len()),
        top + title_b + rows_chunks(b.rows, f, widths, b.rows.len()),
        bottom,
        bottom,
    );
    lemma_chunks_text_same(table_chunks(a), table_chunks(b));
}

/// Exporting a table to records and importing them back reconstructs a
/// table whose plain rendering is identical. This holds of tables in the
/// default format, without a title, whose cells are all left-aligned and
/// hold well-formed lines: the import gives every cell the default
/// alignment and the default format, and a title record would come back as
/// a data row.
pub proof fn lemma_records_round_trip(t: TableView)
    requires
        t.titles is None,
        t.format == spec_format_default(),
        forall|i: int, j: int|
            0 <= i < t.rows.len() && 0 <= j < t.rows[i].len() ==> (#[trigger] t.rows[i][j]).align
                == Alignment::LEFT && wf_lines(t.rows[i][j].lines),
    ensures
        render(spec_from_records(spec_to_records(t))) == render(t),
{
    let t2 = spec_from_records(spec_to_records(t));
    assert(t2.rows.len() == t.rows.len());
    assert forall|i: int| 0 <= i < t.rows.len() implies same_plain_row(
        #[trigger] t2.rows[i],
        t.rows[i],
    ) by {
        assert(t2.rows[i] == row_of_record(record_of_row(t.rows[i])));
        assert(t2.rows[i].len() == t.rows[i].len());
        assert forall|j: int| 0 <= j < t.rows[i].len() implies same_plain_cell(
            #[trigger] t2.rows[i][j],
            #[trigger] t.rows[i][j],
        ) by {
            assert(t2.rows[i][j] == cell_of_field(
                crate::cell_content::join_lines(t.rows[i][j].lines),
            ));
            lemma_split_join(t.rows[i][j].lines);
        }
    }
    lemma_render_same_plain(t2, t);
}

/// The width a column gets accounts for every row's cell in it.
pub proof fn lemma_col_width_rows_bound(rows: Seq<Seq<CellView>>, j: nat, n: nat, k: int)
    requires
        0 <= k < n,
        n <= rows.len(),
    ensures
        col_width_rows(rows, j, n) >= cell_width_at(rows[k], j),
    decreases n,
{
    if k < n - 1 {
        lemma_col_width_rows_bound(rows, j, (n - 1) as nat, k);
    }
}

/// Mutation leaves no stale width behind: when one cell is replaced, the
/// very next render's width for that column already accounts for the new
/// content, with no cache to reset, because widths are recomputed from the
/// current view alone.
pub proof fn lemma_width_reflects_replacement(t: TableView, i: int, j: int, c: CellView)
    requires
        0 <= i < t.rows.len(),
        0 <= j < t.rows[i].len(),
    ensures
        ({
            let t2 = TableView { rows: t.rows.update(i, t.rows[i].update(j, c)), ..t };
            spec_column_width(t2, j as nat) >= lines_width(c.lines)
        }),
{
    let t2 = TableView { rows: t.rows.update(i, t.rows[i].update(j, c)), ..t };
    lemma_col_width_rows_bound(t2.rows, j as nat, t2.rows.len(), i);
    assert(cell_width_at(t2.rows[i], j as nat) == lines_width(c.lines));
}

} // verus!
