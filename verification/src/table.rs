//! Tables drawn with box characters.

use crate::inline::{inline_text, push_text, render_inline};
use crate::markdown::{
    alignment_of, cell_texts, cells_of, pad_cell, padded, parse_alignments, parse_table_row,
    row_inside, Alignment,
};
use crate::style::{Palette, PaletteView};
use crate::text::string_from_chars;
use crate::util::byte_len;
use vstd::prelude::*;
use vstd::string::*;
use vstd::utf8::*;

verus! {

/// The cells of a row of a table.
pub open spec fn row_cells(line: Seq<char>) -> Seq<Seq<char>> {
    cells_of(row_inside(line))
}

/// The length of a text in bytes.
pub open spec fn byte_count(s: Seq<char>) -> int {
    encode_utf8(s).len() as int
}

/// The cell of a row in column `i`; empty where the row has none.
pub open spec fn cell_at(cells: Seq<Seq<char>>, i: int) -> Seq<char> {
    if 0 <= i < cells.len() {
        cells[i]
    } else {
        Seq::empty()
    }
}

/// The larger of two widths.
pub open spec fn wider(a: int, b: int) -> int {
    if a >= b {
        a
    } else {
        b
    }
}

/// The width of column `i` over the first `n` lines of a table: the
/// length in bytes of its longest cell, and at least 1. The second line,
/// the separator, does not count.
pub open spec fn column_width(lines: Seq<Seq<char>>, i: int, n: int) -> int
    decreases n,
{
    if n <= 0 || n > lines.len() {
        1
    } else if n == 2 {
        column_width(lines, i, 1)
    } else {
        wider(column_width(lines, i, n - 1), byte_count(cell_at(row_cells(lines[n - 1]), i)))
    }
}

/// The alignment of column `i`: what the separator row asks for, or left
/// where it has no such column.
pub open spec fn align_at(separator: Seq<char>, i: int) -> Alignment {
    let cells = row_cells(separator);
    if 0 <= i < cells.len() {
        alignment_of(cells[i])
    } else {
        Alignment::Left
    }
}

/// A line of `n` dashes.
pub open spec fn dashes(n: int) -> Seq<char> {
    Seq::new(
        if n < 0 {
            0nat
        } else {
            n as nat
        },
        |i: int| '\u{2500}',
    )
}

/// The first `n` columns of a border: each as wide as its column and two
/// more, with `mid` between them.
pub open spec fn border_columns(mid: char, lines: Seq<Seq<char>>, n: int) -> Seq<char>
    decreases n,
{
    if n <= 0 {
        Seq::empty()
    } else if n == 1 {
        dashes(column_width(lines, 0, lines.len() as int) + 2)
    } else {
        border_columns(mid, lines, n - 1) + seq![mid] + dashes(
            column_width(lines, n - 1, lines.len() as int) + 2,
        )
    }
}

/// A border of the table over `cols` columns, with its line end.
pub open spec fn border_text(left: char, mid: char, right: char, lines: Seq<Seq<char>>, cols: int) -> Seq<
    char,
> {
    seq![left] + border_columns(mid, lines, cols) + seq![right, '\n']
}

/// A cell as the table shows it: a space, its text with its inline
/// markdown rendered and padded to the width of the column, a space and
/// a bar.
pub open spec fn shown_cell(p: PaletteView, lines: Seq<Seq<char>>, cell: Seq<char>, i: int) -> Seq<
    char,
> {
    seq![' '] + padded(
        inline_text(p, cell),
        byte_count(cell),
        column_width(lines, i, lines.len() as int),
        align_at(lines[1], i),
    ) + seq![' ', '\u{2502}']
}

/// The first `n` cells of the row that the line `row` holds.
pub open spec fn row_columns(p: PaletteView, lines: Seq<Seq<char>>, row: int, n: int) -> Seq<char>
    decreases n,
{
    if n <= 0 {
        Seq::empty()
    } else {
        row_columns(p, lines, row, n - 1) + shown_cell(
            p,
            lines,
            cell_at(row_cells(lines[row]), n - 1),
            n - 1,
        )
    }
}

/// The row that the line `row` holds, over `cols` columns, with its line
/// end.
pub open spec fn row_text(p: PaletteView, lines: Seq<Seq<char>>, row: int, cols: int) -> Seq<char> {
    seq!['\u{2502}'] + row_columns(p, lines, row, cols) + seq!['\n']
}

/// The rows of the lines from the third up to line `n`.
pub open spec fn data_rows_text(p: PaletteView, lines: Seq<Seq<char>>, cols: int, n: int) -> Seq<
    char,
>
    decreases n,
{
    if n <= 2 {
        Seq::empty()
    } else {
        data_rows_text(p, lines, cols, n - 1) + row_text(p, lines, n - 1, cols)
    }
}

/// A table drawn with box characters. The first line holds the header,
/// the second the separator with the alignments, the others the rows.
/// The table has as many columns as the header has cells; a row with
/// fewer cells is filled with empty ones, and cells beyond the last
/// column are left out. Fewer than two lines are no table: they are
/// given back as they are.
pub open spec fn table_text(p: PaletteView, lines: Seq<Seq<char>>) -> Seq<char> {
    if lines.len() == 0 {
        seq!['\n']
    } else if lines.len() == 1 {
        lines[0] + seq!['\n']
    } else {
        let cols = row_cells(lines[0]).len() as int;
        border_text('\u{250C}', '\u{252C}', '\u{2510}', lines, cols) + row_text(p, lines, 0, cols)
            + border_text('\u{251C}', '\u{253C}', '\u{2524}', lines, cols) + data_rows_text(
            p,
            lines,
            cols,
            lines.len() as int,
        ) + border_text('\u{2514}', '\u{2534}', '\u{2518}', lines, cols)
    }
}

/// The rows of a table, read from its lines.
struct Parsed {
    rows: Vec<Vec<String>>,
}

impl Parsed {
    spec fn holds(&self, lines: Seq<String>) -> bool {
        &&& self.rows@.len() == lines.len()
        &&& forall|k: int|
            0 <= k < lines.len() ==> cell_texts(#[trigger] self.rows@[k]@) == row_cells(
                lines[k]@,
            )
    }
}

fn parse_rows(lines: &[String]) -> (parsed: Parsed)
    ensures
        parsed.holds(lines@),
{
    let mut rows: Vec<Vec<String>> = Vec::new();
    let mut k: usize = 0;
    while k < lines.len()
        invariant
            k <= lines@.len(),
            rows@.len() == k,
            forall|j: int|
                0 <= j < k ==> cell_texts(#[trigger] rows@[j]@) == row_cells(lines@[j]@),
        decreases lines.len() - k,
    {
        rows.push(parse_table_row(lines[k].as_str()));
        k += 1;
    }
    Parsed { rows }
}

/// The cell of a row in column `i`.
fn cell_of(row: &Vec<String>, i: usize) -> (cell: &str)
    ensures
        cell@ == cell_at(cell_texts(row@), i as int),
{
    if i < row.len() {
        row[i].as_str()
    } else {
        proof {
            reveal_strlit("");
            assert(""@ =~= Seq::<char>::empty());
        }
        ""
    }
}

fn column_widths(parsed: &Parsed, lines: &[String], cols: usize) -> (widths: Vec<usize>)
    requires
        parsed.holds(lines@),
        lines@.len() >= 2,
    ensures
        widths@.len() == cols,
        forall|i: int|
            0 <= i < cols ==> widths@[i] as int == column_width(
                cell_texts(lines@),
                i,
                lines@.len() as int,
            ),
{
    let ghost texts = cell_texts(lines@);
    let mut widths: Vec<usize> = Vec::new();
    let mut i: usize = 0;
    while i < cols
        invariant
            i <= cols,
            widths@.len() == i,
            texts == cell_texts(lines@),
            parsed.holds(lines@),
            lines@.len() >= 2,
            forall|j: int|
                0 <= j < i ==> widths@[j] as int == column_width(texts, j, lines@.len() as int),
        decreases cols - i,
    {
        let mut w: usize = 1;
        let mut k: usize = 0;
        while k < lines.len()
            invariant
                k <= lines@.len(),
                texts == cell_texts(lines@),
                parsed.holds(lines@),
                w as int == column_width(texts, i as int, k as int),
            decreases lines.len() - k,
        {
            if k != 1 {
                assert(cell_texts(parsed.rows@[k as int]@) == row_cells(lines@[k as int]@));
                assert(texts[k as int] == lines@[k as int]@);
                let n = byte_len(cell_of(&parsed.rows[k], i));
                if n > w {
                    w = n;
                }
            }
            k += 1;
        }
        widths.push(w);
        i += 1;
    }
    widths
}

fn push_dashes(out: &mut Vec<char>, n: usize)
    ensures
        final(out)@ == old(out)@ + dashes(n as int),
{
    let mut i: usize = 0;
    assert(out@ =~= old(out)@ + dashes(0));
    while i < n
        invariant
            i <= n,
            out@ == old(out)@ + dashes(i as int),
        decreases n - i,
    {
        out.push('\u{2500}');
        i += 1;
        assert(out@ =~= old(out)@ + dashes(i as int));
    }
}

fn push_border(
    out: &mut Vec<char>,
    left: char,
    mid: char,
    right: char,
    widths: &Vec<usize>,
    Ghost(lines): Ghost<Seq<Seq<char>>>,
)
    requires
        forall|i: int|
            0 <= i < widths@.len() ==> widths@[i] as int == column_width(
                lines,
                i,
                lines.len() as int,
            ),
    ensures
        final(out)@ == old(out)@ + border_text(left, mid, right, lines, widths@.len() as int),
{
    out.push(left);
    let ghost start = out@;
    let mut i: usize = 0;
    assert(out@ =~= start + border_columns(mid, lines, 0));
    while i < widths.len()
        invariant
            i <= widths@.len(),
            forall|j: int|
                0 <= j < widths@.len() ==> widths@[j] as int == column_width(
                    lines,
                    j,
                    lines.len() as int,
                ),
            out@ == start + border_columns(mid, lines, i as int),
        decreases widths.len() - i,
    {
        if i > 0 {
            out.push(mid);
        }
        let ghost with_mid = out@;
        push_dashes(out, widths[i]);
        out.push('\u{2500}');
        out.push('\u{2500}');
        assert(out@ =~= with_mid + dashes(widths@[i as int] + 2));
        i += 1;
        assert(out@ =~= start + border_columns(mid, lines, i as int));
    }
    out.push(right);
    out.push('\n');
    assert(out@ =~= old(out)@ + border_text(left, mid, right, lines, widths@.len() as int));
}

fn push_row(
    out: &mut Vec<char>,
    p: &Palette,
    row: &Vec<String>,
    widths: &Vec<usize>,
    aligns: &Vec<Alignment>,
    Ghost(lines): Ghost<Seq<Seq<char>>>,
    Ghost(at): Ghost<int>,
)
    requires
        lines.len() >= 2,
        0 <= at < lines.len(),
        cell_texts(row@) == row_cells(lines[at]),
        aligns@ == row_cells(lines[1]).map_values(|c: Seq<char>| alignment_of(c)),
        forall|i: int|
            0 <= i < widths@.len() ==> widths@[i] as int == column_width(
                lines,
                i,
                lines.len() as int,
            ),
    ensures
        final(out)@ == old(out)@ + row_text(p@, lines, at, widths@.len() as int),
{
    out.push('\u{2502}');
    let ghost start = out@;
    let mut i: usize = 0;
    assert(out@ =~= start + row_columns(p@, lines, at, 0));
    while i < widths.len()
        invariant
            i <= widths@.len(),
            lines.len() >= 2,
            0 <= at < lines.len(),
            cell_texts(row@) == row_cells(lines[at]),
            aligns@ == row_cells(lines[1]).map_values(|c: Seq<char>| alignment_of(c)),
            forall|j: int|
                0 <= j < widths@.len() ==> widths@[j] as int == column_width(
                    lines,
                    j,
                    lines.len() as int,
                ),
            out@ == start + row_columns(p@, lines, at, i as int),
        decreases widths.len() - i,
    {
        let ghost before = out@;
        let cell = cell_of(row, i);
        let align = if i < aligns.len() {
            aligns[i]
        } else {
            Alignment::Left
        };
        assert(align == align_at(lines[1], i as int));
        let styled = render_inline(p, cell);
        let shown = pad_cell(styled.as_str(), byte_len(cell), widths[i], align);
        out.push(' ');
        push_text(out, shown.as_str());
        out.push(' ');
        out.push('\u{2502}');
        assert(out@ =~= before + shown_cell(p@, lines, cell@, i as int));
        i += 1;
        assert(out@ =~= start + row_columns(p@, lines, at, i as int));
    }
    out.push('\n');
    assert(out@ =~= old(out)@ + row_text(p@, lines, at, widths@.len() as int));
}

/// Draws a table from its lines. The width of the terminal does not
/// count.
pub fn render_table(p: &Palette, lines: &[String], _term_width: u16) -> (r: String)
    ensures
        r@ == table_text(p@, cell_texts(lines@)),
{
    let ghost texts = cell_texts(lines@);
    if lines.len() == 0 {
        let mut out: Vec<char> = Vec::new();
        out.push('\n');
        assert(out@ =~= seq!['\n']);
        return string_from_chars(out.as_slice());
    }
    if lines.len() == 1 {
        let mut out: Vec<char> = Vec::new();
        push_text(&mut out, lines[0].as_str());
        out.push('\n');
        assert(out@ =~= texts[0] + seq!['\n']);
        return string_from_chars(out.as_slice());
    }
    let parsed = parse_rows(lines);
    let aligns = parse_alignments(lines[1].as_str());
    let cols: usize = parsed.rows[0].len();
    let widths = column_widths(&parsed, lines, cols);
    assert(cell_texts(parsed.rows@[0]@) == row_cells(lines@[0]@));
    assert(cell_texts(parsed.rows@[0]@).len() == cols);
    assert(forall|k: int| 0 <= k < lines@.len() ==> texts[k] == lines@[k]@);
    let mut out: Vec<char> = Vec::new();
    push_border(&mut out, '\u{250C}', '\u{252C}', '\u{2510}', &widths, Ghost(texts));
    push_row(&mut out, p, &parsed.rows[0], &widths, &aligns, Ghost(texts), Ghost(0));
    push_border(&mut out, '\u{251C}', '\u{253C}', '\u{2524}', &widths, Ghost(texts));
    let ghost head = out@;
    let mut k: usize = 2;
    assert(out@ =~= head + data_rows_text(p@, texts, cols as int, 2));
    while k < lines.len()
        invariant
            2 <= k <= lines@.len(),
            texts == cell_texts(lines@),
            parsed.holds(lines@),
            widths@.len() == cols,
            aligns@ == row_cells(texts[1]).map_values(|c: Seq<char>| alignment_of(c)),
            forall|j: int| 0 <= j < lines@.len() ==> texts[j] == lines@[j]@,
            forall|i: int|
                0 <= i < cols ==> widths@[i] as int == column_width(
                    texts,
                    i,
                    lines@.len() as int,
                ),
            out@ == head + data_rows_text(p@, texts, cols as int, k as int),
        decreases lines.len() - k,
    {
        assert(cell_texts(parsed.rows@[k as int]@) == row_cells(lines@[k as int]@));
        push_row(&mut out, p, &parsed.rows[k], &widths, &aligns, Ghost(texts), Ghost(k as int));
        k += 1;
        assert(out@ =~= head + data_rows_text(p@, texts, cols as int, k as int));
    }
    push_border(&mut out, '\u{2514}', '\u{2534}', '\u{2518}', &widths, Ghost(texts));
    assert(out@ =~= table_text(p@, texts));
    string_from_chars(out.as_slice())
}

} // verus!
