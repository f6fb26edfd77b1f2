//! A table renderer for the console: rows of cells, optionally under a
//! header row, each column padded to the width of its widest cell plus a
//! two-space gutter. Widths are measured on the cells with their ANSI
//! decorations stripped, so decorated cells align with plain ones.

use std::io::Write;
use vstd::prelude::*;
use crate::decorate::clear_decoration;
use crate::decorate::strip;

verus! {

/// The visible width of a cell: its length once decorations are stripped.
pub open spec fn cell_width(s: Seq<char>) -> nat {
    strip(s).len()
}

/// A sequence of `n` spaces.
pub open spec fn pad_spaces(n: nat) -> Seq<char> {
    Seq::new(n, |i: int| ' ')
}

/// The string padded with spaces until its visible width reaches `w`; a
/// string already that wide is unchanged.
pub open spec fn pad_spec(s: Seq<char>, w: nat) -> Seq<char> {
    if cell_width(s) <= w {
        s + pad_spaces((w - cell_width(s)) as nat)
    } else {
        s
    }
}

/// Column widths after scanning one row from cell `i` on: each cell widens
/// its column, and a cell beyond the known columns opens a new one.
pub open spec fn row_widths(ws: Seq<nat>, row: Seq<Seq<char>>, i: int) -> Seq<nat>
    decreases row.len() - i,
{
    if i < 0 || i >= row.len() {
        ws
    } else {
        let l = cell_width(row[i]);
        let ws2 = if i >= ws.len() {
            ws.push(l)
        } else if l > ws[i] {
            ws.update(i, l)
        } else {
            ws
        };
        row_widths(ws2, row, i + 1)
    }
}

/// Column widths after scanning all rows from row `r` on.
pub open spec fn rows_widths(ws: Seq<nat>, rows: Seq<Seq<Seq<char>>>, r: int) -> Seq<nat>
    decreases rows.len() - r,
{
    if r < 0 || r >= rows.len() {
        ws
    } else {
        rows_widths(row_widths(ws, rows[r], 0), rows, r + 1)
    }
}

/// An object to allow data to be displayed in the console as a grid.
pub struct GridDisplay {
    /// Optional headers for each column.
    headers: Option<Vec<String>>,
    /// Rows to be displayed.
    rows: Vec<Vec<String>>,
}

/// The starting column widths: the visible widths of the headers when
/// headers are present, else those of the first row, else none.
pub open spec fn initial_widths(g: GridDisplay) -> Seq<nat> {
    match g.headers_view() {
        Some(hs) => Seq::new(hs.len(), |i: int| cell_width(hs[i])),
        None => if g.rows_view().len() > 0 {
            Seq::new(g.rows_view()[0].len(), |i: int| cell_width(g.rows_view()[0][i]))
        } else {
            Seq::empty()
        },
    }
}

/// The final column widths of the grid.
pub open spec fn grid_widths(g: GridDisplay) -> Seq<nat> {
    rows_widths(initial_widths(g), g.rows_view(), 0)
}

/// One rendered line, from cell `i` on: each cell padded to its column
/// width plus the two-space gutter, then a newline.
pub open spec fn line_of_row(row: Seq<Seq<char>>, ws: Seq<nat>, i: int) -> Seq<char>
    decreases row.len() - i,
{
    if i < 0 || i >= row.len() {
        seq!['\n']
    } else {
        pad_spec(row[i], ws[i] + 2) + line_of_row(row, ws, i + 1)
    }
}

/// The rendered lines of all rows from `r` on.
pub open spec fn lines_of_rows(rows: Seq<Seq<Seq<char>>>, ws: Seq<nat>, r: int) -> Seq<char>
    decreases rows.len() - r,
{
    if r < 0 || r >= rows.len() {
        Seq::empty()
    } else {
        line_of_row(rows[r], ws, 0) + lines_of_rows(rows, ws, r + 1)
    }
}

/// The full rendered grid: the header line when headers are present, then
/// one line per row.
pub open spec fn grid_text(g: GridDisplay) -> Seq<char> {
    (match g.headers_view() {
        Some(hs) => line_of_row(hs, grid_widths(g), 0),
        None => Seq::empty(),
    }) + lines_of_rows(g.rows_view(), grid_widths(g), 0)
}

/// Machine limit: every visible cell width must leave room for the
/// two-space gutter in a `usize`.
pub open spec fn widths_fit(g: GridDisplay) -> bool {
    &&& (match g.headers_view() {
        Some(hs) => forall|i: int| 0 <= i < hs.len() ==> cell_width(hs[i]) + 2 <= usize::MAX,
        None => true,
    })
    &&& (forall|r: int, i: int|
        0 <= r < g.rows_view().len() && 0 <= i < g.rows_view()[r].len()
            ==> cell_width(g.rows_view()[r][i]) + 2 <= usize::MAX)
}

/// Scanning a row never shrinks a column or the column count, covers every
/// cell of the row from `i` on, and respects a common upper bound.
proof fn lemma_row_widths_props(ws: Seq<nat>, row: Seq<Seq<char>>, i: int, b: nat)
    requires
        0 <= i <= ws.len(),
        forall|j: int| 0 <= j < ws.len() ==> ws[j] <= b,
        forall|j: int| i <= j < row.len() ==> cell_width(row[j]) <= b,
    ensures
        ({
            let res = row_widths(ws, row, i);
            &&& ws.len() <= res.len()
            &&& row.len() <= res.len()
            &&& forall|j: int| 0 <= j < ws.len() ==> res[j] >= ws[j]
            &&& forall|j: int| i <= j < row.len() ==> res[j] >= cell_width(row[j])
            &&& forall|j: int| 0 <= j < res.len() ==> res[j] <= b
        }),
    decreases row.len() - i,
{
    if 0 <= i < row.len() {
        let l = cell_width(row[i]);
        let ws2 = if i >= ws.len() {
            ws.push(l)
        } else if l > ws[i] {
            ws.update(i, l)
        } else {
            ws
        };
        lemma_row_widths_props(ws2, row, i + 1, b);
    }
}

/// Scanning all rows never shrinks a column or the column count, covers
/// every cell of every row from `r` on, and respects a common upper bound.
proof fn lemma_rows_widths_props(ws: Seq<nat>, rows: Seq<Seq<Seq<char>>>, r: int, b: nat)
    requires
        0 <= r,
        forall|j: int| 0 <= j < ws.len() ==> ws[j] <= b,
        forall|k: int, j: int|
            r <= k < rows.len() && 0 <= j < rows[k].len() ==> cell_width(rows[k][j]) <= b,
    ensures
        ({
            let res = rows_widths(ws, rows, r);
            &&& ws.len() <= res.len()
            &&& forall|j: int| 0 <= j < ws.len() ==> res[j] >= ws[j]
            &&& forall|k: int| r <= k < rows.len() ==> rows[k].len() <= res.len()
            &&& forall|k: int, j: int|
                r <= k < rows.len() && 0 <= j < rows[k].len() ==> res[j] >= cell_width(rows[k][j])
            &&& forall|j: int| 0 <= j < res.len() ==> res[j] <= b
        }),
    decreases rows.len() - r,
{
    if 0 <= r < rows.len() {
        assert(forall|j: int| 0 <= j < rows[r].len() ==> cell_width(rows[r][j]) <= b);
        lemma_row_widths_props(ws, rows[r], 0, b);
        let rw = row_widths(ws, rows[r], 0);
        lemma_rows_widths_props(rw, rows, r + 1, b);
        let res = rows_widths(ws, rows, r);
        assert(res == rows_widths(rw, rows, r + 1));
        assert(rows[r].len() <= rw.len());
        assert(ws.len() <= rw.len() && rw.len() <= res.len());
        assert(forall|j: int| 0 <= j < ws.len() ==> rw[j] >= ws[j] && res[j] >= rw[j]);
        assert(forall|j: int| 0 <= j < rows[r].len()
            ==> res[j] >= rw[j] && rw[j] >= cell_width(rows[r][j]));
        assert(forall|k: int| r + 1 <= k < rows.len() ==> rows[k].len() <= res.len());
        assert(forall|k: int, j: int|
            r + 1 <= k < rows.len() && 0 <= j < rows[k].len()
                ==> res[j] >= cell_width(rows[k][j]));
    }
}

/// The sequence of widths that a vector of sizes denotes.
pub open spec fn nats_of(ws: Seq<usize>) -> Seq<nat> {
    ws.map_values(|w: usize| w as nat)
}

/// Relies on `std::io::Stdout::write_fmt`, reached through the `write`
/// macro: writes the string to the process output stream.
#[verifier::external_body]
fn write_stdout(s: &str) {
    let _ = write!(std::io::stdout(), "{}", s);
}

impl GridDisplay {
    /// The header cells, when headers were set.
    pub closed spec fn headers_view(&self) -> Option<Seq<Seq<char>>> {
        match self.headers {
            Some(h) => Some(h.deep_view()),
            None => None,
        }
    }

    /// The rows of cells.
    pub closed spec fn rows_view(&self) -> Seq<Seq<Seq<char>>> {
        self.rows.deep_view()
    }

    /// Generate an empty `GridDisplay` object.
    pub fn empty() -> (r: GridDisplay)
        ensures
            r.headers_view() is None,
            r.rows_view() == Seq::<Seq<Seq<char>>>::empty(),
    {
        GridDisplay { headers: None, rows: Vec::new() }
    }

    /// Generate a `GridDisplay` object with the given header.
    pub fn new(headers: Vec<String>) -> (r: GridDisplay)
        ensures
            r.headers_view() == Some(headers.deep_view()),
            r.rows_view() == Seq::<Seq<Seq<char>>>::empty(),
    {
        GridDisplay { headers: Some(headers), rows: Vec::new() }
    }

    /// Set the header for a `GridDisplay` object.
    pub fn set_header(&mut self, headers: Vec<String>)
        ensures
            final(self).headers_view() == Some(headers.deep_view()),
            final(self).rows_view() == old(self).rows_view(),
    {
        self.headers = Some(headers);
    }

    /// Add a row to the `GridDisplay`.
    pub fn add_row(&mut self, row: Vec<String>)
        ensures
            final(self).headers_view() == old(self).headers_view(),
            final(self).rows_view() == old(self).rows_view().push(row.deep_view()),
    {
        let ghost pre = self.rows.deep_view();
        let ghost rv = row.deep_view();
        self.rows.push(row);
        proof {
            assert(self.rows.deep_view() =~= pre.push(rv));
        }
    }

    /// Pad a string on the right with spaces to match a given length,
    /// counted on the string with its decorations stripped.
    fn pad(s: String, width: usize) -> (r: String)
        requires
            cell_width(s@) <= width,
        ensures
            r@ == pad_spec(s@, width as nat),
    {
        let ghost orig = s@;
        let mut result = s.clone();
        let cleared = clear_decoration(s);
        let cl = cleared.as_str().unicode_len();
        let mut k: usize = cl;
        proof {
            assert(orig + pad_spaces(0) =~= orig);
        }
        while k < width
            invariant
                cl == cell_width(orig),
                cl <= k <= width,
                result@ == orig + pad_spaces((k - cl) as nat),
            decreases width - k,
        {
            result.append(" ");
            proof {
                reveal_strlit(" ");
                assert(orig + pad_spaces((k - cl) as nat) + " "@
                    =~= orig + pad_spaces((k + 1 - cl) as nat));
            }
            k += 1;
        }
        result
    }

    /// Render the `GridDisplay` to a string.
    pub fn render(&self) -> (r: String)
        requires
            widths_fit(*self),
        ensures
            r@ == grid_text(*self),
    {
        let ghost iw = initial_widths(*self);
        let ghost bound = (usize::MAX - 2) as nat;
        let mut result = String::new();
        let mut max_column_sizes: Vec<usize> = Vec::new();

        match &self.headers {
            Some(headers) => {
                let mut i: usize = 0;
                proof {
                    assert(nats_of(max_column_sizes@) =~= iw.take(0));
                }
                while i < headers.len()
                    invariant
                        self.headers_view() == Some(headers.deep_view()),
                        iw == initial_widths(*self),
                        i <= headers.len(),
                        iw.len() == headers.len(),
                        nats_of(max_column_sizes@) == iw.take(i as int),
                    decreases headers.len() - i,
                {
                    let ghost pre = max_column_sizes@;
                    let cell = headers[i].clone();
                    let cleared = clear_decoration(cell);
                    let w = cleared.as_str().unicode_len();
                    max_column_sizes.push(w);
                    proof {
                        assert(headers@[i as int]@ == headers.deep_view()[i as int]);
                        assert(w as nat == cell_width(headers.deep_view()[i as int]));
                        assert(iw[i as int] == cell_width(headers.deep_view()[i as int]));
                        assert(nats_of(pre).len() == pre.len());
                        assert(iw.take(i as int).len() == i as int);
                        assert(pre.len() == i);
                        assert(max_column_sizes@ == pre.push(w));
                        assert(nats_of(max_column_sizes@) =~= iw.take(i as int + 1));
                    }
                    i += 1;
                }
                proof {
                    assert(iw.take(iw.len() as int) =~= iw);
                }
            },
            None => {
                if self.rows.len() > 0 {
                    let first = &self.rows[0];
                    let mut i: usize = 0;
                    proof {
                        assert(nats_of(max_column_sizes@) =~= iw.take(0));
                        assert(first.deep_view() == self.rows_view()[0]);
                    }
                    while i < first.len()
                        invariant
                            self.rows_view().len() > 0,
                            self.headers_view() is None,
                            first.deep_view() == self.rows_view()[0],
                            iw == initial_widths(*self),
                            i <= first.len(),
                            iw.len() == first.len(),
                            nats_of(max_column_sizes@) == iw.take(i as int),
                        decreases first.len() - i,
                    {
                        let ghost pre = max_column_sizes@;
                        let cell = first[i].clone();
                        let cleared = clear_decoration(cell);
                        let w = cleared.as_str().unicode_len();
                        max_column_sizes.push(w);
                        proof {
                            assert(first@[i as int]@ == first.deep_view()[i as int]);
                            assert(w as nat == cell_width(first.deep_view()[i as int]));
                            assert(iw[i as int] == cell_width(first.deep_view()[i as int]));
                            assert(nats_of(pre).len() == pre.len());
                            assert(iw.take(i as int).len() == i as int);
                            assert(pre.len() == i);
                            assert(max_column_sizes@ == pre.push(w));
                            assert(nats_of(max_column_sizes@) =~= iw.take(i as int + 1));
                        }
                        i += 1;
                    }
                    proof {
                        assert(iw.take(iw.len() as int) =~= iw);
                    }
                } else {
                    proof {
                        assert(nats_of(max_column_sizes@) =~= iw);
                    }
                }
            },
        }

        // widen the columns over all rows
        let mut r_i: usize = 0;
        while r_i < self.rows.len()
            invariant
                iw == initial_widths(*self),
                r_i <= self.rows.len(),
                self.rows_view().len() == self.rows.len(),
                rows_widths(nats_of(max_column_sizes@), self.rows_view(), r_i as int)
                    == grid_widths(*self),
            decreases self.rows.len() - r_i,
        {
            let row = &self.rows[r_i];
            let ghost row_v = self.rows_view()[r_i as int];
            proof {
                assert(row.deep_view() == row_v);
            }
            let mut c_i: usize = 0;
            while c_i < row.len()
                invariant
                    row.deep_view() == row_v,
                    r_i < self.rows.len(),
                    self.rows_view().len() == self.rows.len(),
                    c_i <= row.len(),
                    row_v.len() == row.len(),
                    c_i <= max_column_sizes.len(),
                    rows_widths(
                        row_widths(nats_of(max_column_sizes@), row_v, c_i as int),
                        self.rows_view(),
                        r_i as int + 1,
                    ) == grid_widths(*self),
                decreases row.len() - c_i,
            {
                let ghost pre = nats_of(max_column_sizes@);
                let cell = row[c_i].clone();
                let cleared = clear_decoration(cell);
                let w = cleared.as_str().unicode_len();
                proof {
                    assert(row@[c_i as int]@ == row_v[c_i as int]);
                    assert(w as nat == cell_width(row_v[c_i as int]));
                }
                if c_i >= max_column_sizes.len() {
                    max_column_sizes.push(w);
                    proof {
                        assert(nats_of(max_column_sizes@) =~= pre.push(w as nat));
                    }
                } else {
                    if w > max_column_sizes[c_i] {
                        max_column_sizes.set(c_i, w);
                        proof {
                            assert(nats_of(max_column_sizes@) =~= pre.update(c_i as int, w as nat));
                        }
                    }
                }
                c_i += 1;
            }
            r_i += 1;
        }

        proof {
            // the final widths dominate every cell and header and stay bounded
            assert(nats_of(max_column_sizes@) == grid_widths(*self));
            match self.headers_view() {
                Some(hs) => {
                    assert(forall|j: int| 0 <= j < hs.len() ==> iw[j] == cell_width(hs[j]));
                    assert(forall|j: int| 0 <= j < iw.len() ==> iw[j] <= bound);
                },
                None => {
                    assert(forall|j: int| 0 <= j < iw.len() ==> iw[j] <= bound);
                },
            }
            lemma_rows_widths_props(iw, self.rows_view(), 0, bound);
        }
        let ghost ws = grid_widths(*self);

        // emit the header line
        match &self.headers {
            Some(headers) => {
                let ghost hs = headers.deep_view();
                let ghost head0 = result@;
                let mut i: usize = 0;
                proof {
                    assert(head0 + Seq::<char>::empty() =~= head0);
                }
                while i < headers.len()
                    invariant
                        self.headers_view() == Some(headers.deep_view()),
                        hs == headers.deep_view(),
                        ws == grid_widths(*self),
                        nats_of(max_column_sizes@) == ws,
                        i <= headers.len(),
                        hs.len() <= ws.len(),
                        bound == (usize::MAX - 2) as nat,
                        forall|j: int| 0 <= j < hs.len() ==> ws[j] >= cell_width(hs[j]),
                        forall|j: int| 0 <= j < ws.len() ==> ws[j] <= bound,
                        result@ + line_of_row(hs, ws, i as int) == head0 + line_of_row(hs, ws, 0),
                    decreases headers.len() - i,
                {
                    proof {
                        assert(headers@[i as int]@ == hs[i as int]);
                        assert(nats_of(max_column_sizes@)[i as int]
                            == max_column_sizes@[i as int] as nat);
                        assert(max_column_sizes@[i as int] as nat <= bound);
                    }
                    let padded = GridDisplay::pad(headers[i].clone(), max_column_sizes[i] + 2);
                    result.append(padded.as_str());
                    i += 1;
                }
                result.append("\n");
                proof {
                    reveal_strlit("\n");
                    assert(line_of_row(hs, ws, hs.len() as int) =~= seq!['\n']);
                    assert(result@ =~= head0 + line_of_row(hs, ws, 0));
                }
            },
            None => {},
        }

        // emit one line per row
        let ghost body0 = result@;
        let mut r_j: usize = 0;
        proof {
            assert(body0 + Seq::<char>::empty() =~= body0);
        }
        while r_j < self.rows.len()
            invariant
                ws == grid_widths(*self),
                nats_of(max_column_sizes@) == ws,
                r_j <= self.rows.len(),
                bound == (usize::MAX - 2) as nat,
                self.rows_view().len() == self.rows.len(),
                forall|k: int| 0 <= k < self.rows_view().len() ==> self.rows_view()[k].len() <= ws.len(),
                forall|k: int, j: int|
                    0 <= k < self.rows_view().len() && 0 <= j < self.rows_view()[k].len()
                        ==> ws[j] >= cell_width(self.rows_view()[k][j]),
                forall|j: int| 0 <= j < ws.len() ==> ws[j] <= bound,
                result@ + lines_of_rows(self.rows_view(), ws, r_j as int)
                    == body0 + lines_of_rows(self.rows_view(), ws, 0),
            decreases self.rows.len() - r_j,
        {
            let row = &self.rows[r_j];
            let ghost row_v = self.rows_view()[r_j as int];
            let ghost line0 = result@;
            proof {
                assert(row.deep_view() == row_v);
            }
            let mut c_j: usize = 0;
            proof {
                assert(line0 + Seq::<char>::empty() =~= line0);
            }
            while c_j < row.len()
                invariant
                    row.deep_view() == row_v,
                    ws == grid_widths(*self),
                    nats_of(max_column_sizes@) == ws,
                    c_j <= row.len(),
                    bound == (usize::MAX - 2) as nat,
                    row_v.len() == row.len(),
                    row_v.len() <= ws.len(),
                    forall|j: int| 0 <= j < row_v.len() ==> ws[j] >= cell_width(row_v[j]),
                    forall|j: int| 0 <= j < ws.len() ==> ws[j] <= bound,
                    result@ + line_of_row(row_v, ws, c_j as int) == line0 + line_of_row(row_v, ws, 0),
                decreases row.len() - c_j,
            {
                proof {
                    assert(row@[c_j as int]@ == row_v[c_j as int]);
                    assert(nats_of(max_column_sizes@)[c_j as int]
                        == max_column_sizes@[c_j as int] as nat);
                    assert(max_column_sizes@[c_j as int] as nat <= bound);
                }
                let padded = GridDisplay::pad(row[c_j].clone(), max_column_sizes[c_j] + 2);
                result.append(padded.as_str());
                c_j += 1;
            }
            result.append("\n");
            proof {
                reveal_strlit("\n");
                assert(line_of_row(row_v, ws, row_v.len() as int) =~= seq!['\n']);
                assert(result@ =~= line0 + line_of_row(row_v, ws, 0));
            }
            r_j += 1;
        }
        proof {
            assert(lines_of_rows(self.rows_view(), ws, self.rows_view().len() as int)
                =~= Seq::<char>::empty());
            assert(result@ =~= grid_text(*self));
        }
        result
    }

    /// Display the `GridDisplay` object on the process output stream.
    pub fn display(&self)
        requires
            widths_fit(*self),
    {
        let s = self.render();
        write_stdout(s.as_str());
    }
}

} // verus!
