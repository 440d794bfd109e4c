//! Helpers that pages use to lay out tabular data as fixed-width text.

use vstd::prelude::*;
use vstd::string::*;

use crate::table::TableError;
use crate::text::{
    cell_text, ellipsis, filled, formatted_cells, joined, lemma_cell_text_len,
    lemma_joined_take_step, pad_right, rows_text, sum_widths, title_line, total_width,
    truncate_with_ellipse,
};

verus! {

/// True when any character of `text` is a carriage return.
fn contains_cr(text: &str) -> (r: bool)
    ensures
        r == exists|i: int| 0 <= i < text@.len() && text@[i] == '\r',
{
    let n = text.unicode_len();
    let mut i: usize = 0;
    while i < n
        invariant
            i <= n,
            n == text@.len(),
            forall|j: int| 0 <= j < i ==> text@[j] != '\r',
        decreases n - i,
    {
        if text.get_char(i) == '\r' {
            return true;
        }
        i = i + 1;
    }
    false
}

/// Formats one cell for a column: text that fits is left-justified and padded
/// with spaces to `width`; a column of three or fewer characters that cannot
/// hold the text is filled with dots; otherwise the first `width - 3`
/// characters are kept and `"..."` is appended. The result is always exactly
/// `width` characters.
pub fn get_column_string(text: &str, width: usize) -> (r: String)
    ensures
        r@ == cell_text(text@, width as nat),
        r@.len() == width,
{
    proof {
        lemma_cell_text_len(text@, width as nat);
    }
    let n = text.unicode_len();
    if n <= width {
        let mut r = text.to_owned();
        proof {
            reveal_strlit(" ");
        }
        crate::text::append_fill(&mut r, " ", width - n);
        proof {
            assert(r@ =~= pad_right(text@, width as nat));
        }
        r
    } else if width <= 3 {
        let mut r = String::new();
        proof {
            reveal_strlit(".");
        }
        crate::text::append_fill(&mut r, ".", width);
        proof {
            assert(r@ =~= filled('.', width as nat));
        }
        r
    } else {
        let keep = width - 3;
        if text.is_ascii() && !contains_cr(text) {
            let r = truncate_with_ellipse(text, keep);
            r
        } else {
            let mut r = text.substring_char(0, keep).to_owned();
            r.append("...");
            proof {
                reveal_strlit("...");
                assert(r@ =~= text@.subrange(0, keep as int) + ellipsis());
            }
            r
        }
    }
}

/// One rendered table line: the given cells, each formatted for its column
/// by the cell rule, joined by a single `|`.
pub(crate) fn format_row_cells(cells: &Vec<String>, widths: &Vec<usize>) -> (r: String)
    requires
        cells@.len() == widths@.len(),
    ensures
        r@ == joined(formatted_cells(cells.deep_view(), widths@)),
{
    let ghost goal = formatted_cells(cells.deep_view(), widths@);
    let mut r = String::new();
    let mut i: usize = 0;
    assert(goal.take(0) =~= Seq::<Seq<char>>::empty());
    while i < cells.len()
        invariant
            i <= cells@.len(),
            cells@.len() == widths@.len(),
            goal == formatted_cells(cells.deep_view(), widths@),
            r@ == joined(goal.take(i as int)),
        decreases cells@.len() - i,
    {
        if i > 0 {
            r.append("|");
        }
        let c = get_column_string(cells[i].as_str(), widths[i]);
        r.append(c.as_str());
        proof {
            reveal_strlit("|");
            lemma_joined_take_step(goal, i as int);
            assert(cells.deep_view()[i as int] == cells@[i as int]@);
            assert(goal[i as int] == cell_text(cells@[i as int]@, widths@[i as int] as nat));
            assert(r@ =~= joined(goal.take(i as int + 1)));
        }
        i = i + 1;
    }
    proof {
        assert(goal.take(cells@.len() as int) =~= goal);
    }
    r
}

/// The text that a drawn table shows: the centered title line, then the
/// header line, then one line per row, every line newline-terminated and
/// every cell formatted for its column by the cell rule.
pub open spec fn draw_table_text(
    title: Seq<char>,
    headers: Seq<Seq<char>>,
    rows: Seq<Seq<Seq<char>>>,
    widths: Seq<usize>,
) -> Seq<char> {
    title_line(title, widths) + seq!['\n'] + joined(formatted_cells(headers, widths)) + seq!['\n']
        + rows_text(rows, widths)
}

/// Lays the given tabular data out as fixed-width text: fails with
/// `ColumnCountMismatch` when the width list or any row disagrees with the
/// header count, and otherwise returns exactly the table text of the data.
pub fn render_table(
    title: &str,
    headers: &Vec<String>,
    rows: &Vec<Vec<String>>,
    widths: &Vec<usize>,
) -> (r: Result<String, TableError>)
    requires
        total_width(widths@) <= usize::MAX,
    ensures
        (r is Ok <==> (widths@.len() == headers@.len() && forall|i: int|
            0 <= i < rows@.len() ==> #[trigger] rows@[i]@.len() == headers@.len())),
        r matches Ok(s) ==> s@ == draw_table_text(
            title@,
            headers.deep_view(),
            rows.deep_view(),
            widths@,
        ),
        r matches Err(e) ==> ({
            &&& e matches TableError::ColumnCountMismatch { provided, expected }
            &&& expected == headers@.len()
            &&& provided != headers@.len()
            &&& (provided == widths@.len() || exists|i: int|
                0 <= i < rows@.len() && #[trigger] rows@[i]@.len() == provided)
        }),
{
    let cols = headers.len();
    if widths.len() != cols {
        return Err(TableError::ColumnCountMismatch { provided: widths.len(), expected: cols });
    }
    let mut i: usize = 0;
    while i < rows.len()
        invariant
            i <= rows@.len(),
            cols == headers@.len() == widths@.len(),
            forall|j: int| 0 <= j < i ==> #[trigger] rows@[j]@.len() == cols,
        decreases rows@.len() - i,
    {
        if rows[i].len() != cols {
            return Err(TableError::ColumnCountMismatch { provided: rows[i].len(), expected: cols });
        }
        i = i + 1;
    }
    let total = sum_widths(widths);
    proof {
        reveal_strlit("-");
        reveal_strlit("\n");
    }
    let mut out = crate::text::center_str(title, total, "-");
    out.append("\n");
    let header_line = format_row_cells(headers, widths);
    out.append(header_line.as_str());
    out.append("\n");
    let ghost prefix = title_line(title@, widths@) + seq!['\n'] + joined(
        formatted_cells(headers.deep_view(), widths@),
    ) + seq!['\n'];
    proof {
        assert(out@ =~= prefix);
        assert(rows.deep_view().take(0) =~= Seq::<Seq<Seq<char>>>::empty());
    }
    let mut k: usize = 0;
    while k < rows.len()
        invariant
            k <= rows@.len(),
            cols == headers@.len() == widths@.len(),
            forall|j: int| 0 <= j < rows@.len() ==> #[trigger] rows@[j]@.len() == cols,
            prefix == title_line(title@, widths@) + seq!['\n'] + joined(
                formatted_cells(headers.deep_view(), widths@),
            ) + seq!['\n'],
            out@ == prefix + rows_text(rows.deep_view().take(k as int), widths@),
        decreases rows@.len() - k,
    {
        let line = format_row_cells(&rows[k], widths);
        out.append(line.as_str());
        out.append("\n");
        proof {
            reveal_strlit("\n");
            crate::text::lemma_rows_text_take_step(rows.deep_view(), widths@, k as int);
            assert(rows.deep_view()[k as int] == rows@[k as int].deep_view());
            assert(line@ == joined(formatted_cells(rows.deep_view()[k as int], widths@)));
            assert(out@ =~= prefix + rows_text(rows.deep_view().take(k as int + 1), widths@));
        }
        k = k + 1;
    }
    proof {
        assert(rows.deep_view().take(rows@.len() as int) =~= rows.deep_view());
        assert(out@ =~= draw_table_text(title@, headers.deep_view(), rows.deep_view(), widths@));
    }
    Ok(out)
}

} // verus!
