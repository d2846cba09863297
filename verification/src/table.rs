//! The fixed-width Markdown table renderer: a title line, a header row, a
//! dash separator row, then one line per data row, all with pipe-delimited
//! cells padded to the column's width. A column's width is the maximum
//! character length among the header and every data cell of that column.
//!
//! Rows with a cell count other than the header's are rejected by
//! precondition: `Table::new` demands that every row match the header row.

use vstd::prelude::*;
use crate::text::{
    pad, dashes, push_char, spec_pad, spec_dashes, lemma_dashes_len, lemma_pad_len,
};

verus! {

/// A fixed-width table: a title, one header row, and the data rows.
pub struct Table {
    pub title: String,
    pub headers: Vec<String>,
    pub rows: Vec<Vec<String>>,
}

/// Every data row has exactly as many cells as the header row.
pub open spec fn table_wf(headers: Seq<Seq<char>>, rows: Seq<Seq<Seq<char>>>) -> bool {
    forall|j: int| 0 <= j < rows.len() ==> (#[trigger] rows[j]).len() == headers.len()
}

/// The width of column `i` over `rows`, starting from `base` (the header
/// cell's length): the maximum cell length seen in that column.
pub open spec fn spec_max_width(rows: Seq<Seq<Seq<char>>>, i: int, base: nat) -> nat
    decreases rows.len(),
{
    if rows.len() == 0 {
        base
    } else {
        let b = spec_max_width(rows.drop_last(), i, base);
        let c = rows.last()[i].len();
        if c > b {
            c
        } else {
            b
        }
    }
}

/// The width of column `i`: the maximum character length among the header
/// cell and every data cell of that column.
pub open spec fn spec_col_width(headers: Seq<Seq<char>>, rows: Seq<Seq<Seq<char>>>, i: int) -> nat {
    spec_max_width(rows, i, headers[i].len())
}

/// The first `n` cells of one printed row: `| ` then the cell padded to its
/// column's width, then a space, for each cell in order.
pub open spec fn spec_cells_line(
    cells: Seq<Seq<char>>,
    headers: Seq<Seq<char>>,
    rows: Seq<Seq<Seq<char>>>,
    n: int,
) -> Seq<char>
    decreases n,
{
    if n <= 0 {
        Seq::empty()
    } else {
        spec_cells_line(cells, headers, rows, n - 1) + "| "@
            + spec_pad(cells[n - 1], spec_col_width(headers, rows, n - 1)) + " "@
    }
}

/// The first `n` columns of the separator row: a pipe, then dashes sized to
/// the column's width plus two, for each column in order.
pub open spec fn spec_sep_line(
    headers: Seq<Seq<char>>,
    rows: Seq<Seq<Seq<char>>>,
    n: int,
) -> Seq<char>
    decreases n,
{
    if n <= 0 {
        Seq::empty()
    } else {
        spec_sep_line(headers, rows, n - 1) + "|"@
            + spec_dashes(spec_col_width(headers, rows, n - 1) + 2)
    }
}

/// The first `m` data rows, each on a fresh line and closed with a pipe.
pub open spec fn spec_data_lines(
    headers: Seq<Seq<char>>,
    rows: Seq<Seq<Seq<char>>>,
    m: int,
) -> Seq<char>
    decreases m,
{
    if m <= 0 {
        Seq::empty()
    } else {
        spec_data_lines(headers, rows, m - 1) + "\n"@
            + spec_cells_line(rows[m - 1], headers, rows, headers.len() as int) + "|"@
    }
}

/// The whole rendered table: bold title, header row, separator row, data rows.
pub open spec fn spec_render_table(
    title: Seq<char>,
    headers: Seq<Seq<char>>,
    rows: Seq<Seq<Seq<char>>>,
) -> Seq<char> {
    let n = headers.len() as int;
    "**"@ + title + "**"@ + "\n"@ + spec_cells_line(headers, headers, rows, n) + "|"@ + "\n"@
        + spec_sep_line(headers, rows, n) + "|"@ + spec_data_lines(
        headers,
        rows,
        rows.len() as int,
    )
}

impl Table {
    /// Every data row matches the header row's cell count.
    pub open spec fn wf(self) -> bool {
        table_wf(self.headers.deep_view(), self.rows.deep_view())
    }

    /// Builds a table; rows whose cell count differs from the header's are
    /// rejected by precondition.
    pub fn new(title: String, headers: Vec<String>, rows: Vec<Vec<String>>) -> (t: Table)
        requires
            table_wf(headers.deep_view(), rows.deep_view()),
        ensures
            t.wf(),
            t.title == title,
            t.headers == headers,
            t.rows == rows,
    {
        Table { title, headers, rows }
    }

    /// Computes each column's width: the maximum character length among the
    /// header cell and every data cell in that column.
    pub fn column_widths(&self) -> (w: Vec<usize>)
        requires
            self.wf(),
        ensures
            w@.len() == self.headers@.len(),
            forall|i: int|
                0 <= i < w@.len() ==> #[trigger] w@[i] as nat == spec_col_width(
                    self.headers.deep_view(),
                    self.rows.deep_view(),
                    i,
                ),
    {
        let ghost hs = self.headers.deep_view();
        let ghost rs = self.rows.deep_view();
        let n = self.headers.len();
        let mut w: Vec<usize> = Vec::new();
        let mut i: usize = 0;
        while i < n
            invariant
                i <= n,
                n == self.headers@.len(),
                hs == self.headers.deep_view(),
                w@.len() == i,
                forall|k: int| 0 <= k < i ==> #[trigger] w@[k] as nat == hs[k].len(),
            decreases n - i,
        {
            let len = self.headers[i].as_str().unicode_len();
            proof {
                assert(hs[i as int] == self.headers@[i as int]@);
            }
            w.push(len);
            i = i + 1;
        }
        let m = self.rows.len();
        let mut j: usize = 0;
        while j < m
            invariant
                j <= m,
                m == self.rows@.len(),
                n == self.headers@.len(),
                hs == self.headers.deep_view(),
                rs == self.rows.deep_view(),
                self.wf(),
                w@.len() == n,
                forall|k: int|
                    0 <= k < n ==> #[trigger] w@[k] as nat == spec_max_width(
                        rs.take(j as int),
                        k,
                        hs[k].len(),
                    ),
            decreases m - j,
        {
            proof {
                assert(rs[j as int] == self.rows@[j as int].deep_view());
                assert(rs[j as int].len() == hs.len());
            }
            let rn = self.rows[j].len();
            assert(rn == n);
            let mut i2: usize = 0;
            while i2 < n
                invariant
                    i2 <= n,
                    j < m,
                    m == self.rows@.len(),
                    n == self.headers@.len(),
                    hs == self.headers.deep_view(),
                    rs == self.rows.deep_view(),
                    self.wf(),
                    rs[j as int].len() == n,
                    w@.len() == n,
                    forall|k: int|
                        0 <= k < i2 ==> #[trigger] w@[k] as nat == spec_max_width(
                            rs.take(j + 1 as int),
                            k,
                            hs[k].len(),
                        ),
                    forall|k: int|
                        i2 <= k < n ==> #[trigger] w@[k] as nat == spec_max_width(
                            rs.take(j as int),
                            k,
                            hs[k].len(),
                        ),
                decreases n - i2,
            {
                let c = self.rows[j][i2].as_str().unicode_len();
                proof {
                    assert(self.rows@[j as int]@[i2 as int]@ == rs[j as int][i2 as int]);
                }
                if c > w[i2] {
                    w[i2] = c;
                }
                proof {
                    let t = rs.take(j + 1 as int);
                    assert(t.drop_last() =~= rs.take(j as int));
                    assert(t.last() == rs[j as int]);
                    assert(w@[i2 as int] as nat == spec_max_width(
                        rs.take(j + 1 as int),
                        i2 as int,
                        hs[i2 as int].len(),
                    ));
                }
                i2 = i2 + 1;
            }
            j = j + 1;
        }
        proof {
            assert(rs.take(m as int) =~= rs);
        }
        w
    }

    /// Renders the table: a bold title line, the padded header row, the
    /// dash separator row, then one line per data row.
    pub fn render(&self) -> (r: String)
        requires
            self.wf(),
        ensures
            r@ == spec_render_table(self.title@, self.headers.deep_view(), self.rows.deep_view()),
    {
        let ghost hs = self.headers.deep_view();
        let ghost rs = self.rows.deep_view();
        let w = self.column_widths();
        let n = self.headers.len();
        let mut r: String = "**".to_owned();
        r.append(self.title.as_str());
        r.append("**");
        r.append("\n");
        let ghost base0 = "**"@ + self.title@ + "**"@ + "\n"@;
        proof {
            assert(r@ =~= base0);
        }
        let mut i: usize = 0;
        while i < n
            invariant
                i <= n,
                n == self.headers@.len(),
                hs == self.headers.deep_view(),
                rs == self.rows.deep_view(),
                self.wf(),
                w@.len() == n,
                forall|k: int|
                    0 <= k < n ==> #[trigger] w@[k] as nat == spec_col_width(hs, rs, k),
                r@ == base0 + spec_cells_line(hs, hs, rs, i as int),
            decreases n - i,
        {
            r.append("| ");
            let p = pad(self.headers[i].as_str(), w[i]);
            r.append(p.as_str());
            r.append(" ");
            proof {
                assert(hs[i as int] == self.headers@[i as int]@);
                assert(p@ == spec_pad(hs[i as int], spec_col_width(hs, rs, i as int)));
                assert(r@ =~= base0 + spec_cells_line(hs, hs, rs, i + 1 as int));
            }
            i = i + 1;
        }
        r.append("|");
        r.append("\n");
        let ghost base1 = base0 + spec_cells_line(hs, hs, rs, n as int) + "|"@ + "\n"@;
        proof {
            assert(r@ =~= base1);
        }
        let mut i: usize = 0;
        while i < n
            invariant
                i <= n,
                n == self.headers@.len(),
                hs == self.headers.deep_view(),
                rs == self.rows.deep_view(),
                self.wf(),
                w@.len() == n,
                forall|k: int|
                    0 <= k < n ==> #[trigger] w@[k] as nat == spec_col_width(hs, rs, k),
                r@ == base1 + spec_sep_line(hs, rs, i as int),
            decreases n - i,
        {
            r.append("|");
            let d = dashes(w[i]);
            r.append(d.as_str());
            push_char(&mut r, '-');
            push_char(&mut r, '-');
            proof {
                let cw = spec_col_width(hs, rs, i as int);
                assert(spec_dashes(cw + 2) == spec_dashes(cw + 1).push('-'));
                assert(spec_dashes(cw + 1) == spec_dashes(cw).push('-'));
                assert(spec_dashes(cw).push('-').push('-') =~= spec_dashes(cw) + seq!['-', '-']);
                assert(r@ =~= base1 + spec_sep_line(hs, rs, i + 1 as int));
            }
            i = i + 1;
        }
        r.append("|");
        let ghost base2 = base1 + spec_sep_line(hs, rs, n as int) + "|"@;
        proof {
            assert(r@ =~= base2);
        }
        let m = self.rows.len();
        let mut j: usize = 0;
        while j < m
            invariant
                j <= m,
                m == self.rows@.len(),
                n == self.headers@.len(),
                hs == self.headers.deep_view(),
                rs == self.rows.deep_view(),
                self.wf(),
                w@.len() == n,
                forall|k: int|
                    0 <= k < n ==> #[trigger] w@[k] as nat == spec_col_width(hs, rs, k),
                r@ == base2 + spec_data_lines(hs, rs, j as int),
            decreases m - j,
        {
            r.append("\n");
            let ghost rowbase = base2 + spec_data_lines(hs, rs, j as int) + "\n"@;
            proof {
                assert(r@ =~= rowbase);
                assert(rs[j as int] == self.rows@[j as int].deep_view());
                assert(rs[j as int].len() == hs.len());
            }
            let mut i2: usize = 0;
            while i2 < n
                invariant
                    i2 <= n,
                    j < m,
                    m == self.rows@.len(),
                    n == self.headers@.len(),
                    hs == self.headers.deep_view(),
                    rs == self.rows.deep_view(),
                    self.wf(),
                    rs[j as int].len() == n,
                    w@.len() == n,
                    forall|k: int|
                        0 <= k < n ==> #[trigger] w@[k] as nat == spec_col_width(hs, rs, k),
                    rowbase == base2 + spec_data_lines(hs, rs, j as int) + "\n"@,
                    r@ == rowbase + spec_cells_line(rs[j as int], hs, rs, i2 as int),
                decreases n - i2,
            {
                r.append("| ");
                let p = pad(self.rows[j][i2].as_str(), w[i2]);
                r.append(p.as_str());
                r.append(" ");
                proof {
                    assert(rs[j as int][i2 as int] == self.rows@[j as int]@[i2 as int]@);
                    assert(p@ == spec_pad(
                        rs[j as int][i2 as int],
                        spec_col_width(hs, rs, i2 as int),
                    ));
                    assert(r@ =~= rowbase + spec_cells_line(rs[j as int], hs, rs, i2 + 1 as int));
                }
                i2 = i2 + 1;
            }
            r.append("|");
            proof {
                assert(r@ =~= base2 + spec_data_lines(hs, rs, j + 1 as int));
            }
            j = j + 1;
        }
        proof {
            assert(r@ =~= spec_render_table(self.title@, hs, rs));
        }
        r
    }
}

/// Every cell of column `i` is at most the column's width, which is at least
/// the header cell's length.
pub proof fn lemma_max_width_bounds(rows: Seq<Seq<Seq<char>>>, i: int, base: nat)
    ensures
        base <= spec_max_width(rows, i, base),
        forall|j: int|
            0 <= j < rows.len() ==> (#[trigger] rows[j])[i].len() <= spec_max_width(rows, i, base),
    decreases rows.len(),
{
    if rows.len() > 0 {
        lemma_max_width_bounds(rows.drop_last(), i, base);
        assert forall|j: int|
            0 <= j < rows.len() implies (#[trigger] rows[j])[i].len() <= spec_max_width(
            rows,
            i,
            base,
        ) by {
            if j < rows.len() - 1 {
                assert(rows.drop_last()[j] == rows[j]);
            } else {
                assert(rows.last() == rows[j]);
            }
        }
    }
}

/// Table width invariant: in a well-formed table, the header cell and every
/// data cell of a column print at exactly the column's width, and the
/// separator row's dash run for that column is the width plus two.
pub proof fn lemma_table_width_invariant(
    headers: Seq<Seq<char>>,
    rows: Seq<Seq<Seq<char>>>,
    i: int,
    j: int,
)
    requires
        table_wf(headers, rows),
        0 <= i < headers.len(),
        0 <= j < rows.len(),
    ensures
        spec_pad(headers[i], spec_col_width(headers, rows, i)).len() == spec_col_width(
            headers,
            rows,
            i,
        ),
        spec_pad(rows[j][i], spec_col_width(headers, rows, i)).len() == spec_col_width(
            headers,
            rows,
            i,
        ),
        spec_dashes(spec_col_width(headers, rows, i) + 2).len() == spec_col_width(headers, rows, i)
            + 2,
{
    let cw = spec_col_width(headers, rows, i);
    lemma_max_width_bounds(rows, i, headers[i].len());
    lemma_pad_len(headers[i], cw);
    lemma_pad_len(rows[j][i], cw);
    lemma_dashes_len(cw + 2);
}

} // verus!
