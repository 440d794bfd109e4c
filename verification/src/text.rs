//! Character-level text layout: padding, centering, and the cell-formatting
//! rule used by the table renderer, together with the small trusted surface
//! over outside string routines.

use vstd::prelude::*;
use vstd::string::*;

verus! {

/// `n` copies of the character `c`.
pub open spec fn filled(c: char, n: nat) -> Seq<char> {
    Seq::new(n, |i: int| c)
}

/// `s` left-justified in a field of `width` characters, padded with spaces.
/// Text that is already `width` characters or longer is kept unchanged.
pub open spec fn pad_right(s: Seq<char>, width: nat) -> Seq<char> {
    if s.len() >= width {
        s
    } else {
        s + filled(' ', (width - s.len()) as nat)
    }
}

/// `s` centered in a field of `width` copies of `fill`; when the padding is
/// odd, the extra fill character goes to the right. Text that is already
/// `width` characters or longer is kept unchanged.
pub open spec fn centered(s: Seq<char>, width: nat, fill: char) -> Seq<char> {
    if s.len() >= width {
        s
    } else {
        let pad = (width - s.len()) as nat;
        filled(fill, pad / 2) + s + filled(fill, (pad - pad / 2) as nat)
    }
}

/// The three-dot ellipsis appended to truncated cell text.
pub open spec fn ellipsis() -> Seq<char> {
    seq!['.', '.', '.']
}

/// The cell-formatting rule: text that fits is left-justified and padded
/// with spaces to `width`; in a column too narrow for any content plus an
/// ellipsis the cell is all fill dots; otherwise the first `width - 3`
/// characters are kept and an ellipsis is appended.
pub open spec fn cell_text(s: Seq<char>, width: nat) -> Seq<char> {
    if s.len() <= width {
        pad_right(s, width)
    } else if width <= 3 {
        filled('.', width)
    } else {
        s.subrange(0, width - 3) + ellipsis()
    }
}

/// Whatever the text, a formatted cell is exactly as wide as its column.
pub proof fn lemma_cell_text_len(s: Seq<char>, width: nat)
    ensures
        cell_text(s, width).len() == width,
{
}

/// Cell texts joined by a single `|` separator.
pub open spec fn joined(cells: Seq<Seq<char>>) -> Seq<char>
    decreases cells.len(),
{
    if cells.len() == 0 {
        Seq::empty()
    } else if cells.len() == 1 {
        cells[0]
    } else {
        joined(cells.drop_last()) + seq!['|'] + cells.last()
    }
}

pub proof fn lemma_joined_take_step(cells: Seq<Seq<char>>, i: int)
    requires
        0 <= i < cells.len(),
    ensures
        joined(cells.take(i + 1)) == if i == 0 {
            cells[0]
        } else {
            joined(cells.take(i)) + seq!['|'] + cells[i]
        },
{
    assert(cells.take(i + 1).drop_last() =~= cells.take(i));
    assert(cells.take(i + 1).last() == cells[i]);
    if i == 0 {
        assert(cells.take(1)[0] == cells[0]);
    }
}

/// The sum of the column widths: the total width of a rendered table line.
pub open spec fn total_width(widths: Seq<usize>) -> int
    decreases widths.len(),
{
    if widths.len() == 0 {
        0
    } else {
        total_width(widths.drop_last()) + widths.last()
    }
}

pub proof fn lemma_total_width_nonneg(widths: Seq<usize>)
    ensures
        total_width(widths) >= 0,
    decreases widths.len(),
{
    if widths.len() > 0 {
        lemma_total_width_nonneg(widths.drop_last());
    }
}

pub proof fn lemma_total_width_take_step(widths: Seq<usize>, i: int)
    requires
        0 <= i < widths.len(),
    ensures
        total_width(widths.take(i + 1)) == total_width(widths.take(i)) + widths[i],
{
    assert(widths.take(i + 1).drop_last() =~= widths.take(i));
    assert(widths.take(i + 1).last() == widths[i]);
}

pub proof fn lemma_total_width_take_le(widths: Seq<usize>, i: int)
    requires
        0 <= i <= widths.len(),
    ensures
        total_width(widths.take(i)) <= total_width(widths),
    decreases widths.len() - i,
{
    if i == widths.len() {
        assert(widths.take(i) =~= widths);
    } else {
        lemma_total_width_take_step(widths, i);
        lemma_total_width_take_le(widths, i + 1);
    }
}

/// Each cell of a row formatted for its column by the cell rule.
pub open spec fn formatted_cells(cells: Seq<Seq<char>>, widths: Seq<usize>) -> Seq<Seq<char>> {
    Seq::new(cells.len(), |i: int| cell_text(cells[i], widths[i] as nat))
}

/// Each header centered within its column, padded with spaces.
pub open spec fn centered_cells(cells: Seq<Seq<char>>, widths: Seq<usize>) -> Seq<Seq<char>> {
    Seq::new(cells.len(), |i: int| centered(cells[i], widths[i] as nat, ' '))
}

/// The title centered over the table's total width, padded with `-`.
pub open spec fn title_line(title: Seq<char>, widths: Seq<usize>) -> Seq<char> {
    centered(title, total_width(widths) as nat, '-')
}

/// One newline-terminated line per row, each formatted by the cell rule.
pub open spec fn rows_text(rows: Seq<Seq<Seq<char>>>, widths: Seq<usize>) -> Seq<char>
    decreases rows.len(),
{
    if rows.len() == 0 {
        Seq::empty()
    } else {
        rows_text(rows.drop_last(), widths) + joined(formatted_cells(rows.last(), widths))
            + seq!['\n']
    }
}

pub proof fn lemma_rows_text_take_step(rows: Seq<Seq<Seq<char>>>, widths: Seq<usize>, i: int)
    requires
        0 <= i < rows.len(),
    ensures
        rows_text(rows.take(i + 1), widths) == rows_text(rows.take(i), widths) + joined(
            formatted_cells(rows[i], widths),
        ) + seq!['\n'],
{
    assert(rows.take(i + 1).drop_last() =~= rows.take(i));
    assert(rows.take(i + 1).last() == rows[i]);
}

/// The sum of the column widths, as a machine integer.
pub(crate) fn sum_widths(widths: &Vec<usize>) -> (r: usize)
    requires
        total_width(widths@) <= usize::MAX,
    ensures
        r == total_width(widths@),
{
    let mut total: usize = 0;
    let mut i: usize = 0;
    assert(widths@.take(0) =~= Seq::<usize>::empty());
    while i < widths.len()
        invariant
            i <= widths@.len(),
            total == total_width(widths@.take(i as int)),
            total_width(widths@) <= usize::MAX,
        decreases widths@.len() - i,
    {
        proof {
            lemma_total_width_take_step(widths@, i as int);
            lemma_total_width_take_le(widths@, i as int + 1);
            lemma_total_width_nonneg(widths@.take(i as int));
        }
        total = total + widths[i];
        i = i + 1;
    }
    proof {
        assert(widths@.take(widths@.len() as int) =~= widths@);
    }
    total
}

/// What `str::trim` returns for the given characters.
pub uninterp spec fn trimmed_of(s: Seq<char>) -> Seq<char>;

/// Every cell of a row with its leading and trailing whitespace removed.
pub open spec fn trimmed_row(cells: Seq<Seq<char>>) -> Seq<Seq<char>> {
    Seq::new(cells.len(), |i: int| trimmed_of(cells[i]))
}

/// Relies on `str::trim`: it removes leading and trailing whitespace, so the
/// result depends on the characters alone and is never longer than the input.
#[verifier::external_body]
pub(crate) fn trim_str(s: &str) -> (r: String)
    ensures
        r@ == trimmed_of(s@),
        r@.len() <= s@.len(),
{
    s.trim().to_owned()
}

/// Relies on `ellipse::Ellipse::truncate_ellipse` for `&str`: it keeps the
/// first `keep` extended grapheme clusters and appends `"..."`. On ASCII text
/// that holds no carriage return, every grapheme cluster is a single
/// character, so it keeps the first `keep` characters.
#[verifier::external_body]
pub(crate) fn truncate_with_ellipse(text: &str, keep: usize) -> (r: String)
    requires
        text.is_ascii(),
        forall|i: int| 0 <= i < text@.len() ==> text@[i] != '\r',
        0 < keep < text@.len(),
    ensures
        r@ == text@.subrange(0, keep as int) + ellipsis(),
{
    ellipse::Ellipse::truncate_ellipse(&text, keep).into_owned()
}

/// Appends `count` copies of the single character of `fill` to `out`.
pub(crate) fn append_fill(out: &mut String, fill: &str, count: usize)
    requires
        fill@.len() == 1,
    ensures
        final(out)@ == old(out)@ + filled(fill@[0], count as nat),
{
    let mut i: usize = 0;
    while i < count
        invariant
            i <= count,
            fill@.len() == 1,
            out@ == old(out)@ + filled(fill@[0], i as nat),
        decreases count - i,
    {
        out.append(fill);
        assert(out@ =~= old(out)@ + filled(fill@[0], (i + 1) as nat));
        i = i + 1;
    }
    assert(out@ =~= old(out)@ + filled(fill@[0], count as nat));
}

/// `text` centered to `width` columns with the single character of `fill`.
pub(crate) fn center_str(text: &str, width: usize, fill: &str) -> (r: String)
    requires
        fill@.len() == 1,
    ensures
        r@ == centered(text@, width as nat, fill@[0]),
{
    let n = text.unicode_len();
    if n >= width {
        text.to_owned()
    } else {
        let pad = width - n;
        let left = pad / 2;
        let mut r = String::new();
        append_fill(&mut r, fill, left);
        r.append(text);
        append_fill(&mut r, fill, pad - left);
        assert(r@ =~= centered(text@, width as nat, fill@[0]));
        r
    }
}

} // verus!
