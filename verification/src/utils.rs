//! Plain-text tables in reStructuredText grid style, and integer division
//! with remainder.
use vstd::prelude::*;
use vstd::utf8::encode_utf8;
use crate::text::{
    centered, repeat_char, spaces, signed_decimal, push_char, push_repeated, push_centered,
    lemma_signed_decimal_len,
};

verus! {

/// Divides `a` by `b`, returning the quotient and the remainder.
pub fn divmod(a: usize, b: usize) -> (qr: (usize, usize))
    requires
        b > 0,
    ensures
        qr.0 == a / b,
        qr.1 == a % b,
        qr.0 * b + qr.1 == a,
        qr.1 < b,
{
    let q = a / b;
    let r = a % b;
    assert(q * b + r == a) by (nonlinear_arith)
        requires
            q == a / b,
            r == a % b,
            b > 0,
    ;
    (q, r)
}

/// The width a cell of text claims in its column: its length in bytes of
/// UTF-8 plus one space on either side.
pub open spec fn cell_width(s: Seq<char>) -> nat {
    encode_utf8(s).len() + 2
}

/// True when the width of the cell can be held in a `usize`.
pub open spec fn cell_fits(s: Seq<char>) -> bool {
    cell_width(s) <= usize::MAX
}

/// The horizontal rule of a table: `+`, then for each column as many `-`
/// as its width followed by `+`.
pub open spec fn separator(widths: Seq<usize>) -> Seq<char>
    decreases widths.len(),
{
    if widths.len() == 0 {
        seq!['+']
    } else {
        separator(widths.drop_last()) + repeat_char('-', widths.last() as nat) + seq!['+']
    }
}

/// The first `n` cells of a row, each centred in its column's width, with
/// `|` between them.
pub open spec fn joined_cells(row: Seq<Seq<char>>, widths: Seq<usize>, n: nat) -> Seq<char>
    decreases n,
{
    if n == 0 {
        seq![]
    } else if n == 1 {
        centered(row[0], widths[0] as nat)
    } else {
        joined_cells(row, widths, (n - 1) as nat) + seq!['|'] + centered(
            row[n - 1],
            widths[n - 1] as nat,
        )
    }
}

/// The number of cells drawn for a row: as many as both the row and the
/// widths have.
pub open spec fn drawn_cells(row: Seq<Seq<char>>, widths: Seq<usize>) -> nat {
    if row.len() <= widths.len() {
        row.len()
    } else {
        widths.len()
    }
}

/// One line of the table holding `row`, framed by `|`.
pub open spec fn entry_line(row: Seq<Seq<char>>, widths: Seq<usize>) -> Seq<char> {
    seq!['|'] + joined_cells(row, widths, drawn_cells(row, widths)) + seq!['|']
}

/// The lines of a table: a rule, the header, a rule, one line per row, and
/// a closing rule.
pub open spec fn table_lines(
    columns: Seq<Seq<char>>,
    rows: Seq<Seq<Seq<char>>>,
    widths: Seq<usize>,
) -> Seq<Seq<char>> {
    seq![separator(widths), entry_line(columns, widths), separator(widths)] + rows.map_values(
        |r: Seq<Seq<char>>| entry_line(r, widths),
    ) + seq![separator(widths)]
}

/// Lines joined with a newline between each two.
pub open spec fn join_lines(lines: Seq<Seq<char>>) -> Seq<char>
    decreases lines.len(),
{
    if lines.len() == 0 {
        seq![]
    } else if lines.len() == 1 {
        lines[0]
    } else {
        join_lines(lines.drop_last()) + seq!['\n'] + lines.last()
    }
}

/// The width of column `i` once the rows have been added one after the
/// other to a table whose widths were `start`: the largest of the start
/// width and the widths of the cells that the rows hold in that column.
pub open spec fn widths_after_rows(start: Seq<usize>, rows: Seq<Seq<Seq<char>>>) -> Seq<usize>
    decreases rows.len(),
{
    if rows.len() == 0 {
        start
    } else {
        widened(widths_after_rows(start, rows.drop_last()), rows.last())
    }
}

/// Adding rows keeps the number of columns.
pub proof fn lemma_widths_after_rows_len(start: Seq<usize>, rows: Seq<Seq<Seq<char>>>)
    ensures
        widths_after_rows(start, rows).len() == start.len(),
    decreases rows.len(),
{
    if rows.len() > 0 {
        lemma_widths_after_rows_len(start, rows.drop_last());
    }
}

/// The widths after one row is added: each column as wide as its cell in
/// the row needs, where the row has one.
pub open spec fn widened(widths: Seq<usize>, row: Seq<Seq<char>>) -> Seq<usize> {
    Seq::new(
        widths.len(),
        |i: int|
            if i < row.len() && cell_width(row[i]) > widths[i] {
                cell_width(row[i]) as usize
            } else {
                widths[i]
            },
    )
}

/// Joining one more line onto a nonempty list of lines adds a newline and
/// the line.
pub proof fn lemma_join_lines_step(lines: Seq<Seq<char>>, k: int)
    requires
        1 <= k < lines.len(),
    ensures
        join_lines(lines.take(k + 1)) == join_lines(lines.take(k)) + seq!['\n'] + lines[k],
{
    assert(lines.take(k + 1).drop_last() =~= lines.take(k));
}

/// The rule drawn above, between and below the rows of a table.
fn render_separator(widths: &Vec<usize>) -> (s: String)
    ensures
        s@ == separator(widths@),
{
    let mut s = String::new();
    push_char(&mut s, '+');
    assert(widths@.take(0) =~= Seq::<usize>::empty());
    for i in 0..widths.len()
        invariant
            s@ == separator(widths@.take(i as int)),
    {
        push_repeated(&mut s, '-', widths[i]);
        push_char(&mut s, '+');
        assert(widths@.take(i + 1).drop_last() =~= widths@.take(i as int));
        assert(s@ =~= separator(widths@.take(i + 1)));
    }
    assert(widths@.take(widths@.len() as int) =~= widths@);
    s
}

/// The line drawn for one row of cells.
fn render_entry(row: &Vec<String>, widths: &Vec<usize>) -> (s: String)
    ensures
        s@ == entry_line(row@.map_values(|c: String| c@), widths@),
{
    let ghost cells = row@.map_values(|c: String| c@);
    let n: usize = if row.len() <= widths.len() {
        row.len()
    } else {
        widths.len()
    };
    let mut s = String::new();
    push_char(&mut s, '|');
    for i in 0..n
        invariant
            n <= row@.len(),
            n <= widths@.len(),
            cells == row@.map_values(|c: String| c@),
            s@ == seq!['|'] + joined_cells(cells, widths@, i as nat),
    {
        if i > 0 {
            push_char(&mut s, '|');
        }
        push_centered(&mut s, row[i].as_str(), widths[i]);
        assert(s@ =~= seq!['|'] + joined_cells(cells, widths@, (i + 1) as nat));
    }
    push_char(&mut s, '|');
    assert(s@ =~= entry_line(cells, widths@));
    s
}

/// The length of a table line: the widths of the columns, each with the
/// border character that follows it, plus the opening border.
pub open spec fn line_length(widths: Seq<usize>) -> nat
    decreases widths.len(),
{
    if widths.len() == 0 {
        1
    } else {
        line_length(widths.drop_last()) + widths.last() as nat + 1
    }
}

/// A text takes at least as many bytes of UTF-8 as it has characters.
pub proof fn lemma_utf8_len_at_least_chars(s: Seq<char>)
    ensures
        encode_utf8(s).len() >= s.len(),
    decreases s.len(),
{
    if s.len() > 0 {
        lemma_utf8_len_at_least_chars(s.drop_first());
    }
}

/// A text takes at most four bytes of UTF-8 per character.
pub proof fn lemma_utf8_len_at_most_four_per_char(s: Seq<char>)
    ensures
        encode_utf8(s).len() <= 4 * s.len(),
    decreases s.len(),
{
    if s.len() > 0 {
        lemma_utf8_len_at_most_four_per_char(s.drop_first());
    }
}

/// The decimal form of an `i64` fits in a table cell.
pub proof fn lemma_signed_decimal_fits(n: i64)
    ensures
        cell_fits(signed_decimal(n as int)),
{
    lemma_signed_decimal_len(n);
    lemma_utf8_len_at_most_four_per_char(signed_decimal(n as int));
}

/// Text wrapped in a code block of chat markup.
pub open spec fn code_block_text(s: Seq<char>) -> Seq<char> {
    "```\n"@ + s + "```"@
}

/// Wraps text in a code block of chat markup.
pub fn code_block(s: &str) -> (r: String)
    ensures
        r@ == code_block_text(s@),
{
    let mut r = String::from_str("```\n");
    r.append(s);
    r.append("```");
    r
}

proof fn lemma_separator_len(widths: Seq<usize>)
    ensures
        separator(widths).len() == line_length(widths),
    decreases widths.len(),
{
    if widths.len() > 0 {
        lemma_separator_len(widths.drop_last());
    }
}

proof fn lemma_centered_len(s: Seq<char>, width: nat)
    requires
        s.len() <= width,
    ensures
        centered(s, width).len() == width,
{
}

proof fn lemma_joined_cells_len(row: Seq<Seq<char>>, widths: Seq<usize>, n: nat)
    requires
        1 <= n <= row.len(),
        n <= widths.len(),
        forall|i: int| 0 <= i < n ==> (#[trigger] row[i]).len() <= widths[i],
    ensures
        joined_cells(row, widths, n).len() + 2 == line_length(widths.take(n as int)),
    decreases n,
{
    assert(widths.take(n as int).drop_last() =~= widths.take(n - 1));
    lemma_centered_len(row[n - 1], widths[n - 1] as nat);
    if n == 1 {
        assert(widths.take(0) =~= Seq::<usize>::empty());
        lemma_centered_len(row[0], widths[0] as nat);
    } else {
        lemma_joined_cells_len(row, widths, (n - 1) as nat);
    }
}

/// The line of a row with one cell per column, each cell no longer than
/// its column is wide, is as long as the table's rules.
pub proof fn lemma_entry_line_len(row: Seq<Seq<char>>, widths: Seq<usize>)
    requires
        widths.len() > 0,
        row.len() == widths.len(),
        forall|i: int| 0 <= i < row.len() ==> (#[trigger] row[i]).len() <= widths[i],
    ensures
        entry_line(row, widths).len() == line_length(widths),
{
    lemma_joined_cells_len(row, widths, row.len());
    assert(widths.take(widths.len() as int) =~= widths);
}

/// After rows are added, each column is at least as wide as it was at
/// the start, and at least as wide as every cell that a row holds in it.
pub proof fn lemma_widths_cover_cells(start: Seq<usize>, rows: Seq<Seq<Seq<char>>>)
    requires
        forall|r: int, i: int|
            0 <= r < rows.len() && 0 <= i < rows[r].len() ==> cell_fits(#[trigger] rows[r][i]),
    ensures
        widths_after_rows(start, rows).len() == start.len(),
        forall|i: int|
            0 <= i < start.len() ==> #[trigger] widths_after_rows(start, rows)[i] >= start[i],
        forall|r: int, i: int|
            0 <= r < rows.len() && 0 <= i < rows[r].len() && i < start.len()
                ==> widths_after_rows(start, rows)[i] >= cell_width(#[trigger] rows[r][i]),
    decreases rows.len(),
{
    if rows.len() > 0 {
        let prev = rows.drop_last();
        lemma_widths_cover_cells(start, prev);
        assert forall|r: int, i: int|
            0 <= r < rows.len() && 0 <= i < rows[r].len() && i < start.len()
                implies widths_after_rows(start, rows)[i] >= cell_width(#[trigger] rows[r][i]) by {
            if r < rows.len() - 1 {
                assert(rows[r] == prev[r]);
            }
        }
    }
}

/// Law: after rows are added to a table whose widths were `start`, each
/// column's width is the largest of its start width and the widths of the
/// cells that the rows hold in it: no smaller than any of them, and equal
/// to one of them. (After `set_columns`, the start width of a column is the
/// width of its header cell.)
pub proof fn law_width_is_largest_cell(start: Seq<usize>, rows: Seq<Seq<Seq<char>>>)
    requires
        forall|r: int, i: int|
            0 <= r < rows.len() && 0 <= i < rows[r].len() ==> cell_fits(#[trigger] rows[r][i]),
    ensures
        widths_after_rows(start, rows).len() == start.len(),
        forall|i: int|
            0 <= i < start.len() ==> #[trigger] widths_after_rows(start, rows)[i] >= start[i],
        forall|r: int, i: int|
            0 <= r < rows.len() && 0 <= i < rows[r].len() && i < start.len()
                ==> widths_after_rows(start, rows)[i] >= cell_width(#[trigger] rows[r][i]),
        forall|i: int|
            0 <= i < start.len() ==> #[trigger] widths_after_rows(start, rows)[i] == start[i]
                || exists|r: int|
                0 <= r < rows.len() && i < rows[r].len() && widths_after_rows(start, rows)[i]
                    == cell_width(#[trigger] rows[r][i]),
    decreases rows.len(),
{
    lemma_widths_cover_cells(start, rows);
    if rows.len() > 0 {
        let prev = rows.drop_last();
        law_width_is_largest_cell(start, prev);
        let w = widths_after_rows(start, rows);
        let pw = widths_after_rows(start, prev);
        let last = rows.last();
        assert forall|i: int| 0 <= i < start.len() implies #[trigger] w[i] == start[i] || exists|r: int|
            0 <= r < rows.len() && i < rows[r].len() && w[i] == cell_width(#[trigger] rows[r][i]) by {
            if i < last.len() && cell_width(last[i]) > pw[i] {
                assert(cell_fits(rows[rows.len() - 1][i]));
                assert(w[i] == cell_width(rows[rows.len() - 1][i]));
            } else {
                assert(w[i] == pw[i]);
                if pw[i] != start[i] {
                    let r = choose|r: int|
                        0 <= r < prev.len() && i < prev[r].len() && pw[i] == cell_width(
                            #[trigger] prev[r][i],
                        );
                    assert(prev[r] == rows[r]);
                }
            }
        }
    }
}

/// A cell drawn in a column of width `width` fills the width exactly and
/// has at least one space before it and one after it.
pub open spec fn framed_by_spaces(s: Seq<char>, width: nat) -> bool {
    let c = centered(s, width);
    &&& c.len() == width
    &&& width >= s.len() + 2
    &&& c[0] == ' '
    &&& c[width - 1] == ' '
}

proof fn lemma_wide_cell_framed(s: Seq<char>, width: nat)
    requires
        width >= cell_width(s),
    ensures
        framed_by_spaces(s, width),
{
    lemma_utf8_len_at_least_chars(s);
    let pad = (width - s.len()) as nat;
    assert(pad >= 2);
    assert(pad / 2 >= 1);
    assert(pad - pad / 2 >= 1);
    let c = centered(s, width);
    assert(c[0] == spaces(pad / 2)[0]);
    assert(c[width - 1] == spaces((pad - pad / 2) as nat)[(pad - pad / 2) - 1]);
}

/// Law: in a table whose header was set and whose rows were then added
/// (each row no longer than the header), every cell of the header and of
/// the rows is drawn in exactly its column's width with at least one space
/// on either side of it.
pub proof fn law_cells_framed_by_spaces(columns: Seq<Seq<char>>, rows: Seq<Seq<Seq<char>>>)
    requires
        forall|i: int| 0 <= i < columns.len() ==> cell_fits(#[trigger] columns[i]),
        forall|r: int| 0 <= r < rows.len() ==> (#[trigger] rows[r]).len() <= columns.len(),
        forall|r: int, i: int|
            0 <= r < rows.len() && 0 <= i < rows[r].len() ==> cell_fits(#[trigger] rows[r][i]),
    ensures
        ({
            let widths = widths_after_rows(
                columns.map_values(|c: Seq<char>| cell_width(c) as usize),
                rows,
            );
            &&& forall|i: int|
                0 <= i < columns.len() ==> framed_by_spaces(#[trigger] columns[i], widths[i] as nat)
            &&& forall|r: int, i: int|
                0 <= r < rows.len() && 0 <= i < rows[r].len() ==> framed_by_spaces(
                    #[trigger] rows[r][i],
                    widths[i] as nat,
                )
        }),
{
    let start = columns.map_values(|c: Seq<char>| cell_width(c) as usize);
    let widths = widths_after_rows(start, rows);
    lemma_widths_cover_cells(start, rows);
    assert forall|i: int| 0 <= i < columns.len() implies framed_by_spaces(
        #[trigger] columns[i],
        widths[i] as nat,
    ) by {
        assert(widths[i] >= start[i]);
        lemma_wide_cell_framed(columns[i], widths[i] as nat);
    }
    assert forall|r: int, i: int| 0 <= r < rows.len() && 0 <= i < rows[r].len() implies framed_by_spaces(
        #[trigger] rows[r][i],
        widths[i] as nat,
    ) by {
        assert(rows[r].len() <= columns.len());
        lemma_wide_cell_framed(rows[r][i], widths[i] as nat);
    }
}

/// Law: in a table whose header holds at least one cell and whose rows each
/// hold one cell per column, with the widths that `set_columns` and then
/// `add_row` for each row produce, every line of the rendering is equally
/// long, so the borders line up.
pub proof fn law_rendered_lines_align(columns: Seq<Seq<char>>, rows: Seq<Seq<Seq<char>>>)
    requires
        columns.len() > 0,
        forall|i: int| 0 <= i < columns.len() ==> cell_fits(#[trigger] columns[i]),
        forall|r: int| 0 <= r < rows.len() ==> (#[trigger] rows[r]).len() == columns.len(),
        forall|r: int, i: int|
            0 <= r < rows.len() && 0 <= i < rows[r].len() ==> cell_fits(#[trigger] rows[r][i]),
    ensures
        ({
            let widths = widths_after_rows(
                columns.map_values(|c: Seq<char>| cell_width(c) as usize),
                rows,
            );
            let lines = table_lines(columns, rows, widths);
            forall|k: int| 0 <= k < lines.len() ==> (#[trigger] lines[k]).len() == line_length(widths)
        }),
{
    let start = columns.map_values(|c: Seq<char>| cell_width(c) as usize);
    let widths = widths_after_rows(start, rows);
    let lines = table_lines(columns, rows, widths);
    lemma_widths_cover_cells(start, rows);
    lemma_separator_len(widths);
    assert forall|i: int| 0 <= i < columns.len() implies (#[trigger] columns[i]).len() <= widths[i] by {
        lemma_utf8_len_at_least_chars(columns[i]);
        assert(widths[i] >= start[i]);
    }
    lemma_entry_line_len(columns, widths);
    assert forall|k: int| 0 <= k < lines.len() implies (#[trigger] lines[k]).len() == line_length(widths) by {
        if 3 <= k < rows.len() + 3 {
            let r = k - 3;
            assert forall|i: int| 0 <= i < rows[r].len() implies (#[trigger] rows[r][i]).len() <= widths[i] by {
                lemma_utf8_len_at_least_chars(rows[r][i]);
            }
            lemma_entry_line_len(rows[r], widths);
        }
    }
}

/// A table of text with a header row, drawn with `+`, `-` and `|`.
pub struct TabularData {
    columns: Vec<String>,
    rows: Vec<Vec<String>>,
    column_widths: Vec<usize>,
}

impl TabularData {
    /// The header cells.
    pub closed spec fn columns_view(&self) -> Seq<Seq<char>> {
        self.columns@.map_values(|s: String| s@)
    }

    /// The rows, in the order they were added.
    pub closed spec fn rows_view(&self) -> Seq<Seq<Seq<char>>> {
        self.rows@.map_values(|r: Vec<String>| r@.map_values(|s: String| s@))
    }

    /// The width of each column.
    pub closed spec fn widths_view(&self) -> Seq<usize> {
        self.column_widths@
    }

    /// Constructs a new table with empty columns and no rows.
    pub fn new() -> (t: Self)
        ensures
            t.columns_view() == Seq::<Seq<char>>::empty(),
            t.rows_view() == Seq::<Seq<Seq<char>>>::empty(),
            t.widths_view() == Seq::<usize>::empty(),
    {
        let t = TabularData { columns: Vec::new(), rows: Vec::new(), column_widths: Vec::new() };
        assert(t.columns_view() =~= Seq::<Seq<char>>::empty());
        assert(t.rows_view() =~= Seq::<Seq<Seq<char>>>::empty());
        t
    }

    /// Set the columns of a table: the header cells become `columns`, and
    /// each column's width becomes that of its header cell. The rows stay.
    pub fn set_columns(&mut self, columns: Vec<String>)
        requires
            forall|i: int| 0 <= i < columns@.len() ==> cell_fits(#[trigger] columns@[i]@),
        ensures
            final(self).columns_view() == columns@.map_values(|s: String| s@),
            final(self).rows_view() == old(self).rows_view(),
            final(self).widths_view() == columns@.map_values(|s: String| cell_width(s@) as usize),
    {
        let mut widths: Vec<usize> = Vec::new();
        let n = columns.len();
        for i in 0..n
            invariant
                n == columns@.len(),
                forall|j: int| 0 <= j < columns@.len() ==> cell_fits(#[trigger] columns@[j]@),
                widths@ =~= columns@.take(i as int).map_values(|s: String| cell_width(s@) as usize),
        {
            let len = columns[i].as_str().len();
            assert(cell_fits(columns@[i as int]@));
            widths.push(len + 2);
            assert(columns@.take(i + 1) =~= columns@.take(i as int).push(columns@[i as int]));
        }
        assert(columns@.take(n as int) =~= columns@);
        self.columns = columns;
        self.column_widths = widths;
    }

    /// Adds a row to the table, each element should correspond to a column:
    /// a column becomes as wide as its cell in the row needs, where that is
    /// wider than it was.
    pub fn add_row(&mut self, row: Vec<String>)
        requires
            row@.len() <= old(self).widths_view().len(),
            forall|i: int| 0 <= i < row@.len() ==> cell_fits(#[trigger] row@[i]@),
        ensures
            final(self).columns_view() == old(self).columns_view(),
            final(self).rows_view() == old(self).rows_view().push(row@.map_values(|s: String| s@)),
            final(self).widths_view() == widened(old(self).widths_view(), row@.map_values(|s: String| s@)),
    {
        let ghost old_widths = self.column_widths@;
        assert(old_widths == old(self).widths_view());
        let ghost row_view = row@.map_values(|s: String| s@);
        let n = row.len();
        for i in 0..n
            invariant
                n == row@.len(),
                n <= old_widths.len(),
                row_view == row@.map_values(|s: String| s@),
                forall|j: int| 0 <= j < row@.len() ==> cell_fits(#[trigger] row@[j]@),
                self.column_widths@.len() == old_widths.len(),
                self.columns == old(self).columns,
                self.rows == old(self).rows,
                forall|j: int| 0 <= j < old_widths.len() ==> #[trigger] self.column_widths@[j] == if j < i {
                    widened(old_widths, row_view)[j]
                } else {
                    old_widths[j]
                },
        {
            let w = row[i].as_str().len() + 2;
            assert(cell_fits(row@[i as int]@));
            if w > self.column_widths[i] {
                self.column_widths.set(i, w);
            }
        }
        assert(self.column_widths@ =~= widened(old_widths, row_view));
        let ghost old_rows = self.rows@;
        self.rows.push(row);
        assert(self.rows@.map_values(|r: Vec<String>| r@.map_values(|s: String| s@))
            =~= old_rows.map_values(|r: Vec<String>| r@.map_values(|s: String| s@)).push(row_view));
    }

    /// Renders the table with its columns in rST format e.g.
    /// ```text
    /// +-------+-----+
    /// | Name  | Age |
    /// +-------+-----+
    /// | Alice | 24  |
    /// |  Bob  | 19  |
    /// +-------+-----+
    /// ```
    pub fn render(&self) -> (s: String)
        ensures
            s@ == join_lines(table_lines(self.columns_view(), self.rows_view(), self.widths_view())),
    {
        let ghost lines = table_lines(self.columns_view(), self.rows_view(), self.widths_view());
        let sep = render_separator(&self.column_widths);
        let mut table = sep.clone();
        assert(lines.take(1) =~= seq![lines[0]]);
        push_char(&mut table, '\n');
        table.append(render_entry(&self.columns, &self.column_widths).as_str());
        proof { lemma_join_lines_step(lines, 1); }
        push_char(&mut table, '\n');
        table.append(sep.as_str());
        proof { lemma_join_lines_step(lines, 2); }
        let n = self.rows.len();
        for i in 0..n
            invariant
                n == self.rows@.len(),
                lines == table_lines(self.columns_view(), self.rows_view(), self.widths_view()),
                sep@ == separator(self.widths_view()),
                table@ == join_lines(lines.take(i + 3)),
        {
            push_char(&mut table, '\n');
            table.append(render_entry(&self.rows[i], &self.column_widths).as_str());
            assert(lines[i + 3] == entry_line(self.rows_view()[i as int], self.widths_view()));
            proof { lemma_join_lines_step(lines, i + 3); }
        }
        push_char(&mut table, '\n');
        table.append(sep.as_str());
        proof { lemma_join_lines_step(lines, n + 3); }
        assert(lines.take(n + 4) =~= lines);
        table
    }
}

} // verus!
