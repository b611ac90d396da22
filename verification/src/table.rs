//! Plain-text tables with columns padded to their widest cell.

use vstd::prelude::*;
use vstd::utf8::encode_utf8;

use crate::text::{push_spaces, spaces, views};

verus! {

/// The length in bytes of the UTF-8 encoding of `s`, which is how wide the
/// table counts a cell.
pub open spec fn blen(s: Seq<char>) -> nat {
    (encode_utf8(s).len() as usize) as nat
}

pub open spec fn cell_width(row: Seq<Seq<char>>, c: int) -> nat {
    if 0 <= c < row.len() {
        blen(row[c])
    } else {
        0
    }
}

/// The width of column `c`: its widest cell.
pub open spec fn col_width(rows: Seq<Seq<Seq<char>>>, c: int) -> nat
    decreases rows.len(),
{
    if rows.len() == 0 {
        0
    } else {
        let a = col_width(rows.drop_last(), c);
        let b = cell_width(rows.last(), c);
        if a >= b { a } else { b }
    }
}

/// A cell wrapped in the terminal color `code`, when there is one.
pub open spec fn painted(cell: Seq<char>, paint: Option<Seq<char>>) -> Seq<char> {
    match paint {
        Some(code) => "\x1b["@ + code + "m"@ + cell + "\x1b[0m"@,
        None => cell,
    }
}

/// The color of row `k`'s first cell: none past the end of `paints`.
pub open spec fn paint_of(paints: Seq<Option<Seq<char>>>, k: int) -> Option<Seq<char>> {
    if 0 <= k < paints.len() {
        paints[k]
    } else {
        None
    }
}

/// The first `k` cells of a row: cells are separated by two spaces, and
/// every cell but the last is padded to its column's width.  Only the
/// first cell is colored, and color does not count toward the width.
pub open spec fn render_cells(
    rows: Seq<Seq<Seq<char>>>,
    row: Seq<Seq<char>>,
    paint: Option<Seq<char>>,
    k: nat,
) -> Seq<char>
    decreases k,
{
    if k == 0 {
        seq![]
    } else {
        let i = (k - 1) as int;
        let sep: Seq<char> = if i > 0 { seq![' ', ' '] } else { seq![] };
        let cell = if i == 0 { painted(row[i], paint) } else { row[i] };
        let pad: Seq<char> = if k < row.len() {
            spaces((col_width(rows, i) - blen(row[i])) as nat)
        } else {
            seq![]
        };
        render_cells(rows, row, paint, (k - 1) as nat) + sep + cell + pad
    }
}

/// The first `k` rows of a table, each ended by a line feed.
pub open spec fn render_rows(rows: Seq<Seq<Seq<char>>>, paints: Seq<Option<Seq<char>>>, k: nat) -> Seq<char>
    decreases k,
{
    if k == 0 {
        seq![]
    } else {
        render_rows(rows, paints, (k - 1) as nat) + render_cells(
            rows,
            rows[k - 1],
            paint_of(paints, k - 1),
            rows[k - 1].len(),
        ).push('\n')
    }
}

/// A whole table whose rows' first cells are colored by `paints`.
pub open spec fn painted_table(rows: Seq<Seq<Seq<char>>>, paints: Seq<Option<Seq<char>>>) -> Seq<char> {
    render_rows(rows, paints, rows.len())
}

/// A whole table without color.
pub open spec fn table(rows: Seq<Seq<Seq<char>>>) -> Seq<char> {
    painted_table(rows, seq![])
}

pub open spec fn rows_view(rows: Seq<Vec<String>>) -> Seq<Seq<Seq<char>>> {
    rows.map_values(|r: Vec<String>| views(r@))
}

proof fn lemma_col_width_ge(rows: Seq<Seq<Seq<char>>>, c: int, r: int)
    requires
        0 <= r < rows.len(),
    ensures
        col_width(rows, c) >= cell_width(rows[r], c),
    decreases rows.len(),
{
    if r < rows.len() - 1 {
        lemma_col_width_ge(rows.drop_last(), c, r);
        assert(rows.drop_last()[r] == rows[r]);
    }
}

/// The length in bytes of `s`.
pub fn byte_len(s: &str) -> (n: usize)
    ensures
        n == blen(s@),
{
    s.len()
}

fn cell_len(s: &String) -> (n: usize)
    ensures
        n == blen(s@),
{
    byte_len(s.as_str())
}

/// Renders rows as a table: every column as wide as its widest cell.
pub fn render_table(rows: &Vec<Vec<String>>) -> (r: String)
    ensures
        r@ == table(rows_view(rows@)),
{
    let none: Vec<Option<String>> = Vec::new();
    assert(paint_views(none@) =~= seq![]);
    render_painted_table(rows, &none)
}

pub open spec fn paint_views(v: Seq<Option<String>>) -> Seq<Option<Seq<char>>> {
    v.map_values(|p: Option<String>| match p {
        Some(s) => Some(s@),
        None => None,
    })
}

/// Appends `cell`, wrapped in the terminal color `paint` when there is one.
fn push_painted(out: &mut String, cell: &str, paint: &Option<String>)
    ensures
        final(out)@ == old(out)@ + painted(
            cell@,
            match paint {
                Some(s) => Some(s@),
                None => None,
            },
        ),
{
    match paint {
        Some(code) => {
            out.append("\x1b[");
            out.append(code.as_str());
            out.append("m");
            out.append(cell);
            out.append("\x1b[0m");
            proof {
                reveal_strlit("\x1b[");
                reveal_strlit("m");
                reveal_strlit("\x1b[0m");
            }
            assert(final(out)@ =~= old(out)@ + ("\x1b["@ + code@ + "m"@ + cell@ + "\x1b[0m"@));
        },
        None => {
            out.append(cell);
        },
    }
}

/// Renders rows as a table, coloring the first cell of row `k` with
/// `paints[k]` where that is given.
pub fn render_painted_table(rows: &Vec<Vec<String>>, paints: &Vec<Option<String>>) -> (r: String)
    ensures
        r@ == painted_table(rows_view(rows@), paint_views(paints@)),
{
    let ghost rv = rows_view(rows@);
    let ghost pv = paint_views(paints@);
    // column widths
    let mut widths: Vec<usize> = Vec::new();
    let mut i: usize = 0;
    while i < rows.len()
        invariant
            rv == rows_view(rows@),
            i <= rows@.len(),
            forall|c: int| 0 <= c < widths@.len() ==> #[trigger] widths@[c] == col_width(rv.take(i as int), c),
            forall|c: int| c >= widths@.len() ==> col_width(rv.take(i as int), c) == 0,
            forall|r: int| 0 <= r < i ==> (#[trigger] rv[r]).len() <= widths@.len(),
        decreases rows@.len() - i,
    {
        let row = &rows[i];
        assert(rv[i as int] == views(row@));
        let ghost pre = rv.take(i as int);
        let ghost post = rv.take(i + 1);
        assert(post.drop_last() =~= pre);
        assert(post.last() == views(row@));
        let mut c: usize = 0;
        while c < row.len()
            invariant
                rv == rows_view(rows@),
                i < rows@.len(),
                row == &rows@[i as int],
                pre == rv.take(i as int),
                post == rv.take(i + 1),
                post.drop_last() == pre,
                post.last() == views(row@),
                c <= row@.len(),
                c <= widths@.len() || c == 0,
                forall|d: int| 0 <= d < widths@.len() ==> #[trigger] widths@[d] == (if d < c {
                    col_width(post, d)
                } else {
                    col_width(pre, d)
                }),
                forall|d: int| d >= widths@.len() ==> col_width(pre, d) == 0,
                forall|r: int| 0 <= r < i ==> (#[trigger] rv[r]).len() <= widths@.len(),
            decreases row@.len() - c,
        {
            let n = cell_len(&row[c]);
            assert(views(row@)[c as int] == row@[c as int]@);
            assert(cell_width(views(row@), c as int) == n);
            if c < widths.len() {
                let w = widths[c];
                let m = if w >= n { w } else { n };
                widths.set(c, m);
            } else {
                assert(c == widths@.len());
                widths.push(n);
            }
            c = c + 1;
        }
        proof {
            assert forall|d: int| d >= widths@.len() implies col_width(post, d) == 0 by {
                assert(cell_width(views(row@), d) == 0);
                assert(col_width(pre, d) == 0);
                assert(post.drop_last() == pre);
            }
            assert forall|r: int| 0 <= r < i + 1 implies (#[trigger] rv[r]).len() <= widths@.len() by {
                if r == i {
                    assert(rv[r] == views(row@));
                }
            }
        }
        i = i + 1;
    }
    assert(rv.take(rows@.len() as int) =~= rv);
    // rows
    let mut out = String::new();
    let mut k: usize = 0;
    while k < rows.len()
        invariant
            rv == rows_view(rows@),
            k <= rows@.len(),
            forall|c: int| 0 <= c < widths@.len() ==> #[trigger] widths@[c] == col_width(rv, c),
            forall|c: int| c >= widths@.len() ==> col_width(rv, c) == 0,
            forall|r: int| 0 <= r < rv.len() ==> (#[trigger] rv[r]).len() <= widths@.len(),
            pv == paint_views(paints@),
            out@ == render_rows(rv, pv, k as nat),
        decreases rows@.len() - k,
    {
        let row = &rows[k];
        assert(rv[k as int] == views(row@));
        let ghost rowv = views(row@);
        let no_paint: Option<String> = None;
        let paint = if k < paints.len() { &paints[k] } else { &no_paint };
        let ghost paintv = paint_of(pv, k as int);
        assert(paintv == match paint {
            Some(s) => Some(s@),
            None => None,
        });
        let ghost start = out@;
        let mut c: usize = 0;
        while c < row.len()
            invariant
                rv == rows_view(rows@),
                k < rows@.len(),
                row == &rows@[k as int],
                rowv == views(row@),
                rv[k as int] == rowv,
                forall|d: int| 0 <= d < widths@.len() ==> #[trigger] widths@[d] == col_width(rv, d),
                forall|d: int| d >= widths@.len() ==> col_width(rv, d) == 0,
                forall|r: int| 0 <= r < rv.len() ==> (#[trigger] rv[r]).len() <= widths@.len(),
                c <= row@.len(),
                paintv == match paint {
                    Some(s) => Some(s@),
                    None => None,
                },
                out@ == start + render_cells(rv, rowv, paintv, c as nat),
            decreases row@.len() - c,
        {
            let ghost before = out@;
            if c > 0 {
                out.append("  ");
            }
            let ghost mid = out@;
            if c == 0 {
                push_painted(&mut out, row[c].as_str(), paint);
            } else {
                out.append(row[c].as_str());
            }
            let ghost cellv = if c == 0 { painted(rowv[c as int], paintv) } else { rowv[c as int] };
            assert(rowv[c as int] == row@[c as int]@);
            let ghost padv: Seq<char> = if c + 1 < row@.len() {
                spaces((col_width(rv, c as int) - blen(rowv[c as int])) as nat)
            } else {
                seq![]
            };
            if c + 1 < row.len() {
                let n = cell_len(&row[c]);
                proof {
                    lemma_col_width_ge(rv, c as int, k as int);
                    assert(cell_width(rowv, c as int) == n);
                    assert(c < widths@.len());
                }
                let w = widths[c];
                push_spaces(&mut out, w - n);
            }
            proof {
                reveal_strlit("  ");
                let sep: Seq<char> = if c > 0 { seq![' ', ' '] } else { seq![] };
                if c > 0 {
                    assert("  "@ =~= seq![' ', ' ']);
                }
                assert(mid =~= before + sep);
                assert(out@ =~= before + sep + cellv + padv);
                assert(render_cells(rv, rowv, paintv, (c + 1) as nat) == render_cells(rv, rowv, paintv, c as nat)
                    + sep + cellv + padv);
            }
            c = c + 1;
        }
        crate::text::push_char(&mut out, '\n');
        assert(rowv.len() == row@.len());
        assert(out@ =~= render_rows(rv, pv, (k + 1) as nat));
        k = k + 1;
    }
    out
}

// ---------------------------------------------------------------------
// Lines of a table
// ---------------------------------------------------------------------

/// Whether `s` holds no line break.
pub open spec fn one_line(s: Seq<char>) -> bool {
    forall|i: int| 0 <= i < s.len() ==> s[i] != '\n'
}

/// How many line breaks `s` holds.
pub open spec fn line_breaks(s: Seq<char>) -> nat {
    s.filter(|c: char| c == '\n').len()
}

pub proof fn lemma_line_breaks_add(a: Seq<char>, b: Seq<char>)
    ensures
        line_breaks(a + b) == line_breaks(a) + line_breaks(b),
{
    Seq::filter_distributes_over_add(a, b, |c: char| c == '\n');
}

pub proof fn lemma_one_line_no_breaks(s: Seq<char>)
    requires
        one_line(s),
    ensures
        line_breaks(s) == 0,
    decreases s.len(),
{
    reveal(Seq::filter);
    if s.len() > 0 {
        assert forall|i: int| 0 <= i < s.drop_last().len() implies s.drop_last()[i] != '\n' by {
            assert(s.drop_last()[i] == s[i]);
        }
        lemma_one_line_no_breaks(s.drop_last());
    }
}

proof fn lemma_cells_one_line(rows: Seq<Seq<Seq<char>>>, row: Seq<Seq<char>>, k: nat)
    requires
        k <= row.len(),
        forall|c: int| 0 <= c < row.len() ==> one_line(#[trigger] row[c]),
    ensures
        one_line(render_cells(rows, row, None, k)),
    decreases k,
{
    if k > 0 {
        let i = (k - 1) as int;
        lemma_cells_one_line(rows, row, (k - 1) as nat);
        assert(one_line(row[i]));
    }
}

/// A table whose cells hold no line break has one line per row: as many
/// line breaks as rows.
pub proof fn lemma_table_lines(rows: Seq<Seq<Seq<char>>>)
    requires
        forall|r: int, c: int| 0 <= r < rows.len() && 0 <= c < rows[r].len() ==> one_line(#[trigger] rows[r][c]),
    ensures
        line_breaks(table(rows)) == rows.len(),
{
    lemma_rows_lines(rows, rows.len());
}

proof fn lemma_rows_lines(rows: Seq<Seq<Seq<char>>>, k: nat)
    requires
        k <= rows.len(),
        forall|r: int, c: int| 0 <= r < rows.len() && 0 <= c < rows[r].len() ==> one_line(#[trigger] rows[r][c]),
    ensures
        line_breaks(render_rows(rows, seq![], k)) == k,
    decreases k,
{
    reveal(Seq::filter);
    if k > 0 {
        lemma_rows_lines(rows, (k - 1) as nat);
        let row = rows[k - 1];
        assert forall|c: int| 0 <= c < row.len() implies one_line(#[trigger] row[c]) by {
            assert(one_line(rows[k - 1][c]));
        }
        lemma_cells_one_line(rows, row, row.len());
        let line = render_cells(rows, row, paint_of(seq![], k - 1), row.len());
        lemma_one_line_no_breaks(line);
        lemma_line_breaks_add(render_rows(rows, seq![], (k - 1) as nat), line.push('\n'));
        assert(line.push('\n').drop_last() =~= line);
        assert(render_rows(rows, seq![], (k - 1) as nat) + line.push('\n') =~= render_rows(rows, seq![], k));
    }
}

} // verus!
