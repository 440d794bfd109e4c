//! A fixed-width table: a title, column headers with one fixed width per
//! column, and rows of text cells, rendered as a column-aligned text block.

use vstd::prelude::*;
use vstd::string::*;

use crate::page_helpers::format_row_cells;
use crate::text::{
    cell_text, centered, centered_cells, formatted_cells, joined, lemma_joined_take_step,
    lemma_rows_text_take_step, rows_text, sum_widths, title_line, total_width, trim_str,
    trimmed_of, trimmed_row,
};

verus! {

/// The one failure mode of the table layer: a row (or the width list) whose
/// length disagrees with the number of columns.
#[derive(Debug, PartialEq, Eq, Structural, Clone, Copy)]
pub enum TableError {
    ColumnCountMismatch { provided: usize, expected: usize },
}

/// The mathematical content of a table: its title, header and cell texts as
/// character sequences, and its column widths.
#[verifier::ext_equal]
pub ghost struct TableView {
    pub title: Seq<char>,
    pub headers: Seq<Seq<char>>,
    pub rows: Seq<Seq<Seq<char>>>,
    pub widths: Seq<usize>,
}

impl TableView {
    /// One width per column, and one cell per column in every stored row.
    pub open spec fn wf(self) -> bool {
        &&& self.headers.len() == self.widths.len()
        &&& forall|i: int|
            0 <= i < self.rows.len() ==> #[trigger] self.rows[i].len() == self.headers.len()
    }

    /// The rendered text of the table: the title centered over the total
    /// width with `-` fill, then the headers each centered in their column,
    /// then one line per row with every cell formatted by the cell rule;
    /// lines are joined by `|` within and terminated by a newline.
    pub open spec fn text(self) -> Seq<char> {
        title_line(self.title, self.widths) + seq!['\n'] + joined(
            centered_cells(self.headers, self.widths),
        ) + seq!['\n'] + rows_text(self.rows, self.widths)
    }

    /// The view of a table that holds nothing yet.
    pub open spec fn empty() -> TableView {
        TableView {
            title: Seq::empty(),
            headers: Seq::empty(),
            rows: Seq::empty(),
            widths: Seq::empty(),
        }
    }
}

pub struct Table {
    title: String,
    headers: Vec<String>,
    rows: Vec<Vec<String>>,
    widths: Vec<usize>,
}

impl View for Table {
    type V = TableView;

    closed spec fn view(&self) -> TableView {
        TableView {
            title: self.title@,
            headers: self.headers.deep_view(),
            rows: self.rows.deep_view(),
            widths: self.widths@,
        }
    }
}

/// Accumulates a title and columns, then yields an immutable table layout
/// with no rows.
pub struct TableBuilder {
    table: Table,
}

impl View for TableBuilder {
    type V = TableView;

    closed spec fn view(&self) -> TableView {
        self.table@
    }
}

impl TableBuilder {
    pub fn new() -> (r: Self)
        ensures
            r@ == TableView::empty(),
    {
        let r = Self {
            table: Table {
                title: String::new(),
                headers: Vec::new(),
                rows: Vec::new(),
                widths: Vec::new(),
            },
        };
        proof {
            assert(r@ =~~= TableView::empty());
        }
        r
    }

    pub fn set_title(self, title: &str) -> (r: Self)
        ensures
            r@ == (TableView { title: title@, ..self@ }),
    {
        let ghost before = self@;
        let mut b = self;
        b.table.title = title.to_owned();
        proof {
            assert(b@ =~~= (TableView { title: title@, ..before }));
        }
        b
    }

    pub fn add_column(self, header: &str, width: usize) -> (r: Self)
        ensures
            r@ == (TableView {
                headers: self@.headers.push(header@),
                widths: self@.widths.push(width),
                ..self@
            }),
    {
        let ghost before = self@;
        let mut b = self;
        b.table.headers.push(header.to_owned());
        b.table.widths.push(width);
        proof {
            assert(b@ =~~= (TableView {
                headers: before.headers.push(header@),
                widths: before.widths.push(width),
                ..before
            }));
        }
        b
    }

    pub fn build(self) -> (r: Table)
        ensures
            r@ == self@,
    {
        self.table
    }
}

impl Table {
    pub fn builder() -> (r: TableBuilder)
        ensures
            r@ == TableView::empty(),
    {
        TableBuilder::new()
    }

    /// Appends one row. A row whose cell count disagrees with the column
    /// count is rejected with `ColumnCountMismatch` and the table is left
    /// exactly as it was; otherwise the cells are stored with leading and
    /// trailing whitespace trimmed. Column widths are not enforced here:
    /// truncation happens only at render time.
    pub fn add_row(&mut self, row: Vec<String>) -> (r: Result<(), TableError>)
        ensures
            (r is Ok <==> row@.len() == old(self)@.headers.len()),
            r is Ok ==> final(self)@ == (TableView {
                rows: old(self)@.rows.push(trimmed_row(row.deep_view())),
                ..old(self)@
            }),
            r matches Err(e) ==> ({
                &&& final(self)@ == old(self)@
                &&& e matches TableError::ColumnCountMismatch { provided, expected }
                &&& provided == row@.len()
                &&& expected == old(self)@.headers.len()
            }),
            old(self)@.wf() ==> final(self)@.wf(),
    {
        if row.len() != self.headers.len() {
            return Err(
                TableError::ColumnCountMismatch {
                    provided: row.len(),
                    expected: self.headers.len(),
                },
            );
        }
        let mut trimmed: Vec<String> = Vec::new();
        let mut i: usize = 0;
        while i < row.len()
            invariant
                i <= row@.len(),
                trimmed@.len() == i,
                forall|j: int|
                    0 <= j < i ==> #[trigger] trimmed.deep_view()[j] == trimmed_of(
                        row.deep_view()[j],
                    ),
            decreases row@.len() - i,
        {
            let t = trim_str(row[i].as_str());
            let ghost prev = trimmed.deep_view();
            trimmed.push(t);
            proof {
                assert forall|j: int| 0 <= j < i + 1 implies #[trigger] trimmed.deep_view()[j]
                    == trimmed_of(row.deep_view()[j]) by {
                    if j < i {
                        assert(trimmed.deep_view()[j] == prev[j]);
                    } else {
                        assert(trimmed@[j] == t);
                        assert(trimmed.deep_view()[j] == t@);
                        assert(row.deep_view()[j] == row@[j]@);
                    }
                }
            }
            i = i + 1;
        }
        proof {
            assert(trimmed.deep_view() =~~= trimmed_row(row.deep_view()));
        }
        let ghost before = self@;
        self.rows.push(trimmed);
        proof {
            assert(self@ =~~= (TableView {
                rows: before.rows.push(trimmed_row(row.deep_view())),
                ..before
            }));
        }
        Ok(())
    }

    /// The title line: the title centered over the table's total width and
    /// padded with `-`.
    pub fn generate_title(&self) -> (r: String)
        requires
            total_width(self@.widths) <= usize::MAX,
        ensures
            r@ == title_line(self@.title, self@.widths),
    {
        let total = sum_widths(&self.widths);
        proof {
            reveal_strlit("-");
        }
        crate::text::center_str(self.title.as_str(), total, "-")
    }

    /// The header line: each header centered within its column width, the
    /// columns joined by a single `|`.
    pub fn generate_header(&self) -> (r: String)
        requires
            self@.wf(),
        ensures
            r@ == joined(centered_cells(self@.headers, self@.widths)),
    {
        let ghost goal = centered_cells(self@.headers, self@.widths);
        let mut r = String::new();
        let mut i: usize = 0;
        assert(goal.take(0) =~= Seq::<Seq<char>>::empty());
        while i < self.headers.len()
            invariant
                i <= self.headers@.len(),
                self@.wf(),
                goal == centered_cells(self@.headers, self@.widths),
                r@ == joined(goal.take(i as int)),
            decreases self.headers@.len() - i,
        {
            if i > 0 {
                r.append("|");
            }
            proof {
                reveal_strlit(" ");
            }
            let c = crate::text::center_str(self.headers[i].as_str(), self.widths[i], " ");
            r.append(c.as_str());
            proof {
                reveal_strlit("|");
                lemma_joined_take_step(goal, i as int);
                assert(self.headers.deep_view()[i as int] == self.headers@[i as int]@);
                assert(goal[i as int] == centered(
                    self@.headers[i as int],
                    self@.widths[i as int] as nat,
                    ' ',
                ));
                assert(r@ =~= joined(goal.take(i as int + 1)));
            }
            i = i + 1;
        }
        proof {
            assert(goal.take(self.headers@.len() as int) =~= goal);
        }
        r
    }

    /// One row's line: each cell formatted for its column by the cell rule,
    /// the columns joined by a single `|`.
    pub fn generate_row(&self, row: &Vec<String>) -> (r: String)
        requires
            row@.len() == self@.widths.len(),
        ensures
            r@ == joined(formatted_cells(row.deep_view(), self@.widths)),
    {
        format_row_cells(row, &self.widths)
    }

    /// The whole rendered table. The result is a function of the table's
    /// value alone, so two renders of equal tables yield identical text.
    pub fn generate_table(&self) -> (r: String)
        requires
            self@.wf(),
            total_width(self@.widths) <= usize::MAX,
        ensures
            r@ == self@.text(),
    {
        let mut out = self.generate_title();
        proof {
            reveal_strlit("\n");
        }
        out.append("\n");
        let h = self.generate_header();
        out.append(h.as_str());
        out.append("\n");
        let ghost prefix = title_line(self@.title, self@.widths) + seq!['\n'] + joined(
            centered_cells(self@.headers, self@.widths),
        ) + seq!['\n'];
        proof {
            assert(out@ =~= prefix);
            assert(self@.rows.take(0) =~= Seq::<Seq<Seq<char>>>::empty());
        }
        let mut k: usize = 0;
        while k < self.rows.len()
            invariant
                k <= self.rows@.len(),
                self@.wf(),
                prefix == title_line(self@.title, self@.widths) + seq!['\n'] + joined(
                    centered_cells(self@.headers, self@.widths),
                ) + seq!['\n'],
                out@ == prefix + rows_text(self@.rows.take(k as int), self@.widths),
            decreases self.rows@.len() - k,
        {
            proof {
                assert(self.rows.deep_view()[k as int] == self.rows@[k as int].deep_view());
                assert(self@.rows[k as int].len() == self@.headers.len());
                assert(self.rows@[k as int]@.len() == self@.widths.len());
            }
            let line = self.generate_row(&self.rows[k]);
            out.append(line.as_str());
            out.append("\n");
            proof {
                reveal_strlit("\n");
                lemma_rows_text_take_step(self@.rows, self@.widths, k as int);
                assert(self.rows.deep_view()[k as int] == self.rows@[k as int].deep_view());
                assert(line@ == joined(formatted_cells(self@.rows[k as int], self@.widths)));
                assert(out@ =~= prefix + rows_text(self@.rows.take(k as int + 1), self@.widths));
            }
            k = k + 1;
        }
        proof {
            assert(self@.rows.take(self.rows@.len() as int) =~= self@.rows);
            assert(out@ =~= self@.text());
        }
        out
    }

    /// Formats one cell by the cell rule; the result is always exactly
    /// `width` characters.
    pub fn format_cell_content(text: &str, width: usize) -> (r: String)
        ensures
            r@ == cell_text(text@, width as nat),
            r@.len() == width,
    {
        crate::page_helpers::get_column_string(text, width)
    }
}

} // verus!
