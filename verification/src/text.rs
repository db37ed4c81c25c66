//! Matrices as aligned text.

use vstd::prelude::*;
use crate::matrix::{rows_of, Matrix};

verus! {

/// The length of the longest of the first `n` texts of `row`.
pub open spec fn longest_in_row(row: Seq<Seq<char>>, n: nat) -> nat
    decreases n,
{
    if n == 0 {
        0
    } else {
        let rest = longest_in_row(row, (n - 1) as nat);
        if row[n - 1].len() > rest {
            row[n - 1].len()
        } else {
            rest
        }
    }
}

/// The length of the longest text in the first `n` rows of `cells`.
pub open spec fn longest(cells: Seq<Seq<Seq<char>>>, n: nat) -> nat
    decreases n,
{
    if n == 0 {
        0
    } else {
        let rest = longest(cells, (n - 1) as nat);
        let here = longest_in_row(cells[n - 1], cells[n - 1].len());
        if here > rest {
            here
        } else {
            rest
        }
    }
}

/// `text` with as many spaces before it as it is shorter than `width`.
pub open spec fn padded(text: Seq<char>, width: nat) -> Seq<char> {
    if text.len() >= width {
        text
    } else {
        Seq::new((width - text.len()) as nat, |i: int| ' ') + text
    }
}

/// The first `n` texts of `parts`, with `separator` between each two.
pub open spec fn joined(parts: Seq<Seq<char>>, separator: Seq<char>, n: nat) -> Seq<char>
    decreases n,
{
    if n == 0 {
        Seq::empty()
    } else if n == 1 {
        parts[0]
    } else {
        joined(parts, separator, (n - 1) as nat) + separator + parts[n - 1]
    }
}

/// One line of the grid: a bar and a space; the cells, each padded to
/// `width` and followed by a space, with a space, a bar and a space between
/// each two; a space and a bar.
pub open spec fn line(row: Seq<Seq<char>>, width: nat) -> Seq<char> {
    seq!['|', ' '] + joined(
        Seq::new(row.len(), |j: int| padded(row[j], width) + seq![' ']),
        seq![' ', '|', ' '],
        row.len(),
    ) + seq![' ', '|']
}

/// The grid as text: its lines, all cells padded to the length of the
/// longest, with a line feed between each two.
pub open spec fn layout(cells: Seq<Seq<Seq<char>>>) -> Seq<char> {
    joined(
        Seq::new(cells.len(), |i: int| line(cells[i], longest(cells, cells.len()))),
        seq!['\n'],
        cells.len(),
    )
}

/// The characters of each text of a grid of strings.
pub open spec fn characters(cells: Seq<Seq<String>>) -> Seq<Seq<Seq<char>>> {
    Seq::new(cells.len(), |i: int| Seq::new(cells[i].len(), |j: int| cells[i][j]@))
}

/// A space and then dashes: one less than `width + units + 6` for each of the
/// `columns` columns.
pub open spec fn dash_line(width: nat, units: nat, columns: nat) -> Seq<char> {
    seq![' '] + Seq::new(((width + units + 6) * columns - 1) as nat, |i: int| '-')
}

/// One line of the grid with units: like `line`, but each cell is followed
/// by a space and the units in round brackets.
pub open spec fn line_with_units(row: Seq<Seq<char>>, width: nat, units: Seq<char>) -> Seq<char> {
    seq!['|', ' '] + joined(
        Seq::new(row.len(), |j: int| padded(row[j], width) + seq![' ', '('] + units + seq![')']),
        seq![' ', '|', ' '],
        row.len(),
    ) + seq![' ', '|']
}

/// The first `n` lines of the grid with units, each followed by a line
/// feed, a line of dashes and another line feed.
pub open spec fn lines_with_dashes(
    cells: Seq<Seq<Seq<char>>>,
    width: nat,
    units: Seq<char>,
    n: nat,
) -> Seq<char>
    decreases n,
{
    if n == 0 {
        Seq::empty()
    } else {
        lines_with_dashes(cells, width, units, (n - 1) as nat) + line_with_units(
            cells[n - 1],
            width,
            units,
        ) + seq!['\n'] + dash_line(width, units.len(), cells[0].len()) + seq!['\n']
    }
}

/// The grid as a table under a heading: an empty line, the heading, a line
/// of dashes, then every row followed by a line of dashes, and an empty line.
pub open spec fn layout_with_dashes(cells: Seq<Seq<Seq<char>>>, units: Seq<char>) -> Seq<char> {
    let width = longest(cells, cells.len());
    "\nTruss Matrix:\n"@ + dash_line(width, units.len(), cells[0].len()) + seq!['\n']
        + lines_with_dashes(cells, width, units, cells.len()) + seq!['\n']
}

/// The characters of the rows of a matrix of strings: row by row, those of
/// each string.
proof fn lemma_characters(rows: Seq<Vec<String>>)
    ensures
        characters(rows_of(rows)).len() == rows.len(),
        forall|i: int|
            0 <= i < rows.len() ==> #[trigger] characters(rows_of(rows))[i]
                == rows[i]@.map_values(|s: String| s@),
{
    assert forall|i: int| 0 <= i < rows.len() implies #[trigger] characters(rows_of(rows))[i]
        == rows[i]@.map_values(|s: String| s@) by {
        assert(rows_of(rows)[i] == rows[i]@);
        assert(characters(rows_of(rows))[i] =~= rows[i]@.map_values(|s: String| s@));
    }
}

/// The length of the longest text of `row`.
fn row_width(row: &Vec<String>) -> (w: usize)
    ensures
        w == longest_in_row(row@.map_values(|s: String| s@), row@.len()),
{
    let ghost texts = row@.map_values(|s: String| s@);
    let mut w: usize = 0;
    let mut j: usize = 0;
    while j < row.len()
        invariant
            j <= row@.len(),
            texts == row@.map_values(|s: String| s@),
            w == longest_in_row(texts, j as nat),
        decreases row@.len() - j,
    {
        let here = row[j].as_str().unicode_len();
        if here > w {
            w = here;
        }
        j += 1;
    }
    w
}

/// Appends `text`, padded to `width` and followed by a space, to `out`.
fn push_cell(out: &mut String, text: &String, width: usize)
    ensures
        final(out)@ == old(out)@ + (padded(text@, width as nat) + seq![' ']),
{
    let len = text.as_str().unicode_len();
    let ghost before = out@;
    let mut k: usize = len;
    while k < width
        invariant
            len == text@.len(),
            len <= k,
            k <= width || k == len,
            out@ == before + Seq::new((k - len) as nat, |i: int| ' '),
        decreases width - k,
    {
        proof {
            reveal_strlit(" ");
        }
        out.append(" ");
        k += 1;
        assert(out@ =~= before + Seq::new((k - len) as nat, |i: int| ' '));
    }
    out.append(text.as_str());
    proof {
        reveal_strlit(" ");
    }
    out.append(" ");
    assert(out@ =~= before + (padded(text@, width as nat) + seq![' ']));
}

/// Appends one line of the grid to `out`.
fn push_line(out: &mut String, row: &Vec<String>, width: usize)
    ensures
        final(out)@ == old(out)@ + line(row@.map_values(|s: String| s@), width as nat),
{
    let ghost before = out@;
    let ghost texts = row@.map_values(|s: String| s@);
    let ghost parts = Seq::new(texts.len(), |j: int| padded(texts[j], width as nat) + seq![' ']);
    proof {
        reveal_strlit("| ");
        reveal_strlit(" | ");
        reveal_strlit(" |");
    }
    out.append("| ");
    let mut j: usize = 0;
    while j < row.len()
        invariant
            j <= row@.len(),
            texts == row@.map_values(|s: String| s@),
            parts == Seq::new(texts.len(), |j: int| padded(texts[j], width as nat) + seq![' ']),
            out@ == before + seq!['|', ' '] + joined(parts, seq![' ', '|', ' '], j as nat),
        decreases row@.len() - j,
    {
        if j > 0 {
            proof {
                reveal_strlit(" | ");
            }
            out.append(" | ");
        }
        push_cell(out, &row[j], width);
        j += 1;
        assert(out@ =~= before + seq!['|', ' '] + joined(parts, seq![' ', '|', ' '], j as nat)) by {
            assert(parts[j - 1] == padded(row@[j - 1]@, width as nat) + seq![' ']);
        }
    }
    out.append(" |");
    assert(out@ =~= before + line(texts, width as nat));
}

/// Appends `count` dashes to `out`.
fn push_dashes(out: &mut String, count: usize)
    ensures
        final(out)@ == old(out)@ + Seq::new(count as nat, |i: int| '-'),
{
    let ghost before = out@;
    let mut k: usize = 0;
    while k < count
        invariant
            k <= count,
            out@ == before + Seq::new(k as nat, |i: int| '-'),
        decreases count - k,
    {
        proof {
            reveal_strlit("-");
        }
        out.append("-");
        k += 1;
        assert(out@ =~= before + Seq::new(k as nat, |i: int| '-'));
    }
}

/// Appends a line of dashes for `columns` columns to `out`.
fn push_dash_line(out: &mut String, width: usize, units: usize, columns: usize)
    requires
        columns >= 1,
    ensures
        final(out)@ == old(out)@ + dash_line(width as nat, units as nat, columns as nat),
{
    let ghost before = out@;
    let ghost each = width + units + 6;
    proof {
        reveal_strlit(" ");
        reveal_strlit("-----");
    }
    out.append(" ");
    push_dashes(out, width);
    push_dashes(out, units);
    out.append("-----");
    assert(out@ =~= before + seq![' '] + Seq::new((each * 1 - 1) as nat, |i: int| '-'));
    let mut j: usize = 1;
    while j < columns
        invariant
            1 <= j <= columns,
            each == width + units + 6,
            out@ == before + seq![' '] + Seq::new((each * j - 1) as nat, |i: int| '-'),
        decreases columns - j,
    {
        proof {
            reveal_strlit("------");
        }
        push_dashes(out, width);
        push_dashes(out, units);
        out.append("------");
        assert(each * (j + 1) - 1 == (each * j - 1) + width + units + 6) by (nonlinear_arith)
            requires
                each == width + units + 6,
        ;
        assert(each * j - 1 >= 0) by (nonlinear_arith)
            requires
                each >= 6,
                j >= 1,
        ;
        j += 1;
        assert(out@ =~= before + seq![' '] + Seq::new((each * j - 1) as nat, |i: int| '-'));
    }
    assert(out@ =~= before + dash_line(width as nat, units as nat, columns as nat));
}

/// Appends one line of the grid with units to `out`.
fn push_line_with_units(out: &mut String, row: &Vec<String>, width: usize, units: &str)
    ensures
        final(out)@ == old(out)@ + line_with_units(
            row@.map_values(|s: String| s@),
            width as nat,
            units@,
        ),
{
    let ghost before = out@;
    let ghost texts = row@.map_values(|s: String| s@);
    let ghost parts = Seq::new(
        texts.len(),
        |j: int| padded(texts[j], width as nat) + seq![' ', '('] + units@ + seq![')'],
    );
    proof {
        reveal_strlit("| ");
        reveal_strlit(" |");
    }
    out.append("| ");
    let mut j: usize = 0;
    while j < row.len()
        invariant
            j <= row@.len(),
            texts == row@.map_values(|s: String| s@),
            parts == Seq::new(
                texts.len(),
                |j: int| padded(texts[j], width as nat) + seq![' ', '('] + units@ + seq![')'],
            ),
            out@ == before + seq!['|', ' '] + joined(parts, seq![' ', '|', ' '], j as nat),
        decreases row@.len() - j,
    {
        proof {
            reveal_strlit(" | ");
            reveal_strlit("(");
            reveal_strlit(")");
        }
        if j > 0 {
            out.append(" | ");
        }
        push_cell(out, &row[j], width);
        out.append("(");
        out.append(units);
        out.append(")");
        j += 1;
        assert(out@ =~= before + seq!['|', ' '] + joined(parts, seq![' ', '|', ' '], j as nat)) by {
            assert(parts[j - 1] == padded(row@[j - 1]@, width as nat) + seq![' ', '('] + units@
                + seq![')']);
            assert(padded(row@[j - 1]@, width as nat) + seq![' '] + seq!['('] + units@ + seq![')']
                =~= padded(row@[j - 1]@, width as nat) + seq![' ', '('] + units@ + seq![')']);
        }
    }
    out.append(" |");
    assert(out@ =~= before + line_with_units(texts, width as nat, units@));
}

impl Matrix<String> {
    /// The length of the longest cell.
    fn longest_cell(&self) -> (w: usize)
        ensures
            w == longest(characters(self@), self@.len()),
    {
        let rows = self.data();
        let ghost cells = characters(self@);
        proof {
            lemma_characters(rows@);
        }
        let mut max_width: usize = 0;
        let mut i: usize = 0;
        while i < rows.len()
            invariant
                i <= rows@.len(),
                cells.len() == rows@.len(),
                forall|i: int|
                    0 <= i < rows@.len() ==> #[trigger] cells[i] == rows@[i]@.map_values(
                        |s: String| s@,
                    ),
                max_width == longest(cells, i as nat),
            decreases rows@.len() - i,
        {
            let here = row_width(&rows[i]);
            if here > max_width {
                max_width = here;
            }
            i += 1;
        }
        max_width
    }

    /// The matrix as text, one line for each row: in each line the cells,
    /// right-aligned to the length of the longest cell, between bars.
    pub fn to_string(&self) -> (text: String)
        ensures
            text@ == layout(characters(self@)),
    {
        let rows = self.data();
        let ghost cells = characters(self@);
        proof {
            lemma_characters(rows@);
        }
        let max_width = self.longest_cell();
        let ghost lines = Seq::new(cells.len(), |i: int| line(cells[i], max_width as nat));
        let mut text = String::new();
        let mut i: usize = 0;
        while i < rows.len()
            invariant
                i <= rows@.len(),
                cells.len() == rows@.len(),
                forall|i: int|
                    0 <= i < rows@.len() ==> #[trigger] cells[i] == rows@[i]@.map_values(
                        |s: String| s@,
                    ),
                lines == Seq::new(cells.len(), |i: int| line(cells[i], max_width as nat)),
                text@ == joined(lines, seq!['\n'], i as nat),
            decreases rows@.len() - i,
        {
            if i > 0 {
                proof {
                    reveal_strlit("\n");
                }
                text.append("\n");
            }
            push_line(&mut text, &rows[i], max_width);
            i += 1;
            assert(text@ =~= joined(lines, seq!['\n'], i as nat));
        }
        text
    }

    /// The matrix as a table under the heading "Truss Matrix:", with a line
    /// of dashes above the first row and below every row: in each line the
    /// cells, right-aligned to the length of the longest cell and each
    /// followed by `units` in round brackets, between bars.
    pub fn to_string_with_dashes(&self, units: &str) -> (text: String)
        ensures
            text@ == layout_with_dashes(characters(self@), units@),
    {
        let max_width = self.longest_cell();
        let columns = self.cols();
        let unit_len = units.unicode_len();
        let rows = self.data();
        let ghost cells = characters(self@);
        proof {
            lemma_characters(rows@);
        }
        assert(cells[0].len() == columns);
        proof {
            reveal_strlit("\n");
        }
        let mut text = String::from_str("\nTruss Matrix:\n");
        push_dash_line(&mut text, max_width, unit_len, columns);
        text.append("\n");
        let ghost head = text@;
        let mut i: usize = 0;
        while i < rows.len()
            invariant
                i <= rows@.len(),
                columns >= 1,
                columns == cells[0].len(),
                unit_len == units@.len(),
                cells.len() == rows@.len(),
                forall|i: int|
                    0 <= i < rows@.len() ==> #[trigger] cells[i] == rows@[i]@.map_values(
                        |s: String| s@,
                    ),
                text@ == head + lines_with_dashes(cells, max_width as nat, units@, i as nat),
            decreases rows@.len() - i,
        {
            proof {
                reveal_strlit("\n");
            }
            push_line_with_units(&mut text, &rows[i], max_width, units);
            text.append("\n");
            push_dash_line(&mut text, max_width, unit_len, columns);
            text.append("\n");
            i += 1;
            assert(text@ =~= head + lines_with_dashes(cells, max_width as nat, units@, i as nat));
        }
        text.append("\n");
        assert(text@ =~= layout_with_dashes(cells, units@));
        text
    }
}

} // verus!
