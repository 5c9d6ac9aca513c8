//! Column-aligned text tables: every column is as wide as its widest
//! cell or header, measured in UTF-8 bytes; cells are padded with spaces
//! and separated by two spaces.
use vstd::prelude::*;
use vstd::utf8::encode_utf8;

use crate::text::{join, pad_right, pad_to};

verus! {

/// Length of the text in UTF-8 bytes (`str::len`).
pub open spec fn byte_len(s: Seq<char>) -> nat {
    encode_utf8(s).len()
}

/// The width of column `c` over the header and the first `n` rows.
pub open spec fn column_width(header: Seq<char>, rows: Seq<Seq<Seq<char>>>, c: int, n: int) -> nat
    decreases n,
{
    if n <= 0 {
        byte_len(header)
    } else {
        let w = column_width(header, rows, c, n - 1);
        let l = byte_len(rows[n - 1][c]);
        if l > w {
            l
        } else {
            w
        }
    }
}

/// The widths of all columns.
pub open spec fn column_widths(headers: Seq<Seq<char>>, rows: Seq<Seq<Seq<char>>>) -> Seq<nat> {
    Seq::new(headers.len(), |c: int| column_width(headers[c], rows, c, rows.len() as int))
}

proof fn lemma_column_width_prefix(header: Seq<char>, rows: Seq<Seq<Seq<char>>>, c: int, n: int)
    requires
        0 <= n <= rows.len(),
    ensures
        column_width(header, rows, c, n) >= byte_len(header),
        forall|r: int|
            0 <= r < n ==> column_width(header, rows, c, n) >= byte_len(#[trigger] rows[r][c]),
        column_width(header, rows, c, n) == byte_len(header) || exists|r: int|
            0 <= r < n && column_width(header, rows, c, n) == byte_len(#[trigger] rows[r][c]),
    decreases n,
{
    if n > 0 {
        lemma_column_width_prefix(header, rows, c, n - 1);
    }
}

/// Law: every column is exactly as wide as the widest of its header and
/// its cells, so that each of them fits in it.
pub proof fn lemma_column_width(headers: Seq<Seq<char>>, rows: Seq<Seq<Seq<char>>>, c: int)
    requires
        0 <= c < headers.len(),
    ensures
        column_widths(headers, rows)[c] >= byte_len(headers[c]),
        forall|r: int|
            0 <= r < rows.len() ==> column_widths(headers, rows)[c] >= byte_len(#[trigger] rows[r][c]),
        column_widths(headers, rows)[c] == byte_len(headers[c]) || exists|r: int|
            0 <= r < rows.len() && column_widths(headers, rows)[c] == byte_len(#[trigger] rows[r][c]),
{
    lemma_column_width_prefix(headers[c], rows, c, rows.len() as int);
}

/// One table line: the cells padded to their column widths, separated by two spaces.
pub open spec fn table_line(cells: Seq<Seq<char>>, widths: Seq<nat>) -> Seq<char> {
    join(Seq::new(cells.len(), |i: int| pad_right(cells[i], widths[i])), "  "@)
}

/// One line per row.
pub open spec fn row_lines(rows: Seq<Seq<Seq<char>>>, w: Seq<nat>) -> Seq<Seq<char>> {
    Seq::new(rows.len(), |i: int| table_line(rows[i], w))
}

/// The header line followed by one line per row.
pub open spec fn table_lines(headers: Seq<Seq<char>>, rows: Seq<Seq<Seq<char>>>) -> Seq<Seq<char>> {
    let w = column_widths(headers, rows);
    seq![table_line(headers, w)] + row_lines(rows, w)
}

/// The views of a row of cells.
pub open spec fn cells_view(row: Vec<String>) -> Seq<Seq<char>> {
    row@.map_values(|s: String| s@)
}

/// The views of the rows of a table.
pub open spec fn rows_view(rows: Seq<Vec<String>>) -> Seq<Seq<Seq<char>>> {
    rows.map_values(|r: Vec<String>| cells_view(r))
}

/// A line of the table with the given column widths.
fn render_line(cells: &Vec<String>, widths: &Vec<usize>) -> (res: String)
    requires
        cells@.len() == widths@.len(),
    ensures
        res@ == table_line(cells_view(*cells), widths@.map_values(|w: usize| w as nat)),
{
    let ghost wv = widths@.map_values(|w: usize| w as nat);
    let ghost padded = Seq::new(
        cells@.len(),
        |i: int| pad_right(cells_view(*cells)[i], wv[i]),
    );
    let mut out = String::new();
    for i in 0..cells.len()
        invariant
            cells@.len() == widths@.len(),
            wv == widths@.map_values(|w: usize| w as nat),
            padded == Seq::new(cells@.len(), |i: int| pad_right(cells_view(*cells)[i], wv[i])),
            out@ == join(padded.take(i as int), "  "@),
    {
        if i != 0 {
            out.append("  ");
        }
        let cell = pad_to(cells[i].as_str(), widths[i]);
        out.append(cell.as_str());
        proof {
            assert(padded.take(i + 1).drop_last() =~= padded.take(i as int));
            assert(padded.take(i + 1).last() == cell@);
        }
    }
    assert(padded.take(cells@.len() as int) =~= padded);
    out
}

/// The lines of a table with the given headers and rows, every row
/// having one cell per header.
pub fn render_table(headers: &Vec<String>, rows: &Vec<Vec<String>>) -> (res: Vec<String>)
    requires
        forall|r: int| 0 <= r < rows@.len() ==> (#[trigger] rows@[r])@.len() == headers@.len(),
    ensures
        res@.map_values(|s: String| s@) == table_lines(cells_view(*headers), rows_view(rows@)),
{
    let ghost hv = cells_view(*headers);
    let ghost rv = rows_view(rows@);
    let mut widths: Vec<usize> = Vec::new();
    for c in 0..headers.len()
        invariant
            hv == cells_view(*headers),
            rv == rows_view(rows@),
            forall|r: int| 0 <= r < rows@.len() ==> (#[trigger] rows@[r])@.len() == headers@.len(),
            widths@.len() == c,
            forall|k: int|
                0 <= k < c ==> (#[trigger] widths@[k]) as nat == column_width(
                    hv[k],
                    rv,
                    k,
                    rv.len() as int,
                ),
    {
        let mut w = headers[c].as_str().as_bytes().len();
        assert(hv[c as int] == headers@[c as int]@);
        for r in 0..rows.len()
            invariant
                c < headers@.len(),
                hv == cells_view(*headers),
                rv == rows_view(rows@),
                forall|r: int| 0 <= r < rows@.len() ==> (#[trigger] rows@[r])@.len() == headers@.len(),
                w as nat == column_width(hv[c as int], rv, c as int, r as int),
        {
            let l = rows[r][c].as_str().as_bytes().len();
            assert(rv[r as int] == cells_view(rows@[r as int]));
            assert(rv[r as int][c as int] == rows@[r as int]@[c as int]@);
            if l > w {
                w = l;
            }
        }
        widths.push(w);
    }
    let ghost wv = widths@.map_values(|w: usize| w as nat);
    assert(wv =~= column_widths(hv, rv));
    let mut lines: Vec<String> = Vec::new();
    lines.push(render_line(headers, &widths));
    for r in 0..rows.len()
        invariant
            hv == cells_view(*headers),
            rv == rows_view(rows@),
            forall|r: int| 0 <= r < rows@.len() ==> (#[trigger] rows@[r])@.len() == headers@.len(),
            wv == widths@.map_values(|w: usize| w as nat),
            wv == column_widths(hv, rv),
            widths@.len() == headers@.len(),
            lines@.map_values(|s: String| s@) == seq![table_line(hv, wv)] + row_lines(
                rv.take(r as int),
                wv,
            ),
    {
        let line = render_line(&rows[r], &widths);
        assert(rv[r as int] == cells_view(rows@[r as int]));
        assert(line@ == table_line(rv[r as int], wv));
        let ghost before = lines@.map_values(|s: String| s@);
        lines.push(line);
        assert(lines@.map_values(|s: String| s@) =~= before.push(line@));
        assert(row_lines(rv.take(r + 1), wv) =~= row_lines(rv.take(r as int), wv).push(
            table_line(rv[r as int], wv),
        ));
        assert(lines@.map_values(|s: String| s@) =~= seq![table_line(hv, wv)] + row_lines(
            rv.take(r + 1),
            wv,
        ));
    }
    assert(rv.take(rows@.len() as int) =~= rv);
    assert(hv =~= cells_view(*headers));
    lines
}

} // verus!
