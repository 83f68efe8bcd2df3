//! Plain terminal-grid values handed to renderers: dimensions, visible cells
//! in row-major order, and the cursor cell.

use vstd::prelude::*;

verus! {

/// A visible terminal cell, without the emulator's own cell type.
#[derive(Debug, Clone, Copy, PartialEq, Eq, Structural)]
pub struct TerminalCell {
    pub character: char,
}

/// Terminal dimensions: columns and visible lines.
#[derive(Debug, Clone, Copy, PartialEq, Eq, Structural)]
pub struct TermDimensions {
    pub columns: usize,
    pub screen_lines: usize,
}

impl TermDimensions {
    /// Dimensions of `columns` by `screen_lines`.
    pub fn new(columns: usize, screen_lines: usize) -> (d: TermDimensions)
        ensures
            d.columns == columns,
            d.screen_lines == screen_lines,
    {
        TermDimensions { columns, screen_lines }
    }

    /// The number of columns.
    pub fn columns(&self) -> (c: usize)
        ensures
            c == self.columns,
    {
        self.columns
    }

    /// The number of visible lines.
    pub fn screen_lines(&self) -> (l: usize)
        ensures
            l == self.screen_lines,
    {
        self.screen_lines
    }

    /// The number of lines in total: the visible ones, as these dimensions
    /// carry no scrollback.
    pub fn total_lines(&self) -> (l: usize)
        ensures
            l == self.screen_lines,
    {
        self.screen_lines
    }
}

/// The characters of the rows, one row after the other.
pub open spec fn flattened(rows: Seq<Seq<char>>) -> Seq<char>
    decreases rows.len(),
{
    if rows.len() == 0 {
        Seq::empty()
    } else {
        flattened(rows.drop_last()) + rows.last()
    }
}

/// The texts of the rows of a grid snapshot.
pub open spec fn row_views(rows: Seq<Vec<char>>) -> Seq<Seq<char>> {
    rows.map_values(|r: Vec<char>| r@)
}

/// The characters of a list of cells.
pub open spec fn cell_chars(cells: Seq<TerminalCell>) -> Seq<char> {
    cells.map_values(|c: TerminalCell| c.character)
}

proof fn lemma_cell_chars_push(s: Seq<TerminalCell>, x: TerminalCell)
    ensures
        cell_chars(s.push(x)) == cell_chars(s).push(x.character),
{
    assert(cell_chars(s.push(x)) =~= cell_chars(s).push(x.character));
}

/// The visible cells in row-major order: the first row's cells, then the
/// second's, and so on.
pub fn row_major_cells(rows: &Vec<Vec<char>>) -> (cells: Vec<TerminalCell>)
    ensures
        cell_chars(cells@) == flattened(row_views(rows@)),
{
    let ghost all = row_views(rows@);
    let mut cells: Vec<TerminalCell> = Vec::new();
    let mut r: usize = 0;
    while r < rows.len()
        invariant
            0 <= r <= rows.len(),
            all == row_views(rows@),
            cell_chars(cells@) == flattened(all.take(r as int)),
        decreases rows.len() - r,
    {
        let row = &rows[r];
        let ghost start = cell_chars(cells@);
        let mut c: usize = 0;
        while c < row.len()
            invariant
                0 <= c <= row.len(),
                cell_chars(cells@) == start + row@.take(c as int),
            decreases row.len() - c,
        {
            let ghost prev = cells@;
            let ch = row[c];
            let cell = TerminalCell { character: ch };
            cells.push(cell);
            proof {
                lemma_cell_chars_push(prev, cell);
            }
            assert(row@.take(c as int + 1) =~= row@.take(c as int).push(ch));
            assert(cell_chars(cells@) =~= start + row@.take(c as int + 1));
            c += 1;
        }
        proof {
            assert(all.take(r as int + 1).drop_last() =~= all.take(r as int));
            assert(all.take(r as int + 1).last() == row@);
            assert(row@.take(row@.len() as int) =~= row@);
        }
        r += 1;
    }
    proof {
        assert(all.take(all.len() as int) =~= all);
    }
    cells
}

/// The cursor's cell: its column, and its line with lines above the screen
/// (negative) counted as the first.
pub fn cursor_cell(column: usize, line: i32) -> (r: (usize, usize))
    ensures
        r.0 == column,
        r.1 == if line < 0 {
            0
        } else {
            line as int
        },
{
    let l: usize = if line < 0 {
        0
    } else {
        line as usize
    };
    (column, l)
}

} // verus!
