//! Terminal emulation state: Alacritty's VT parser and grid fed with raw
//! PTY or SSH output, read back as plain cells and a cursor position.
//!
//! What the emulator shows is a function of the size it was made with, its
//! history length, and the operations applied since (output fed, resizes).
//! The state keeps that log of operations as plain values, and the screen,
//! cursor, line count and mode are named as functions of it.

use alacritty_terminal::event::VoidListener;
use alacritty_terminal::grid::Dimensions;
use alacritty_terminal::index::{Column, Line};
use alacritty_terminal::term::test::TermSize;
use alacritty_terminal::term::{Config, Term, TermMode};
use alacritty_terminal::vte::ansi::{Processor, StdSyncHandler};
use vstd::prelude::*;

use crate::terminal_grid::{cell_chars, cursor_cell, flattened, row_major_cells, row_views, TerminalCell};

verus! {

/// One operation applied to an emulator after it was made.
pub enum TermOp {
    /// Output bytes fed to the parser.
    Feed(Seq<u8>),
    /// A resize to this many columns and lines.
    Resize(nat, nat),
}

/// The characters Alacritty's grid holds, visible line by line (top line
/// first, each from the first column), for a terminal made `columns` by
/// `rows` with `scrollback` lines of history and then given `ops`.
pub uninterp spec fn screen_after(columns: nat, rows: nat, scrollback: nat, ops: Seq<TermOp>) -> Seq<
    Seq<char>,
>;

/// The grid cursor's point (column, line) after the same history.
pub uninterp spec fn cursor_after(columns: nat, rows: nat, scrollback: nat, ops: Seq<TermOp>) -> (
    nat,
    int,
);

/// The grid's total lines (history kept plus visible) after the same
/// history.
pub uninterp spec fn total_lines_after(
    columns: nat,
    rows: nat,
    scrollback: nat,
    ops: Seq<TermOp>,
) -> nat;

/// Whether the alternate screen is on after the same history.
pub uninterp spec fn alternate_screen_after(
    columns: nat,
    rows: nat,
    scrollback: nat,
    ops: Seq<TermOp>,
) -> bool;

/// The `rows` by `columns` visible part of a screen.
pub open spec fn visible_part(screen: Seq<Seq<char>>, columns: nat, rows: nat) -> Seq<Seq<char>> {
    Seq::new(rows, |i: int| Seq::new(columns, |j: int| screen[i][j]))
}

/// A blank `rows` by `columns` grid.
pub open spec fn blank_grid(columns: nat, rows: nat) -> Seq<Seq<char>> {
    Seq::new(rows, |i: int| Seq::new(columns, |j: int| ' '))
}

/// Alacritty's terminal and its VT parser, held together and reached only
/// through the functions below: the parser's type is bound by a trait of its
/// crate, so the pair is kept opaque.
#[verifier::external_body]
pub struct Emulator {
    term: Term<VoidListener>,
    parser: Processor<StdSyncHandler>,
}

/// `Term::new` with a `columns` by `rows` grid keeping `scrollback` lines of
/// history, and `Processor::new` in its ground state. Alacritty's grid is at
/// least 2 columns (to hold a fullwidth character) by 1 line.
#[verifier::external_body]
fn new_emulator(columns: usize, rows: usize, scrollback: usize) -> Emulator
    requires
        columns >= 2,
        rows >= 1,
{
    let config = Config { scrolling_history: scrollback, ..Config::default() };
    Emulator {
        term: Term::new(config, &TermSize::new(columns, rows), VoidListener),
        parser: Processor::new(),
    }
}

/// Emulator state with its visible size and the history that made it.
pub struct TerminalState {
    emulator: Emulator,
    columns: usize,
    rows: usize,
    origin: Ghost<(nat, nat, nat)>,
    log: Ghost<Seq<TermOp>>,
}

/// `Term::resize` to a `columns` by `rows` grid (at least 2 by 1); the
/// resize joins the log. The visible size fields are left to the caller.
#[verifier::external_body]
fn resize_term(state: &mut TerminalState, columns: usize, rows: usize)
    requires
        columns >= 2,
        rows >= 1,
    ensures
        final(state).log@ == old(state).log@.push(TermOp::Resize(columns as nat, rows as nat)),
        final(state).origin@ == old(state).origin@,
        final(state).columns == old(state).columns,
        final(state).rows == old(state).rows,
{
    state.emulator.term.resize(TermSize::new(columns, rows));
}

/// `Processor::advance`: parses `bytes` and applies them to the terminal;
/// the feed joins the log, and the visible size stays.
#[verifier::external_body]
fn advance(state: &mut TerminalState, bytes: &[u8])
    ensures
        final(state).log@ == old(state).log@.push(TermOp::Feed(bytes@)),
        final(state).origin@ == old(state).origin@,
        final(state).columns == old(state).columns,
        final(state).rows == old(state).rows,
{
    let emulator = &mut state.emulator;
    emulator.parser.advance(&mut emulator.term, bytes);
}

/// The character of visible cell (`line`, `column`): indexing the grid with
/// `Line` and `Column`. The grid is exactly `columns` by `rows`, as it was
/// made or last resized; a grid nothing was applied to holds blanks.
#[verifier::external_body]
fn visible_char(state: &TerminalState, line: usize, column: usize) -> (c: char)
    requires
        line < state.rows,
        column < state.columns,
        state.rows <= i32::MAX,
    ensures
        c == screen_after(state.origin@.0, state.origin@.1, state.origin@.2, state.log@)[line as int][column as int],
        state.log@.len() == 0 ==> c == ' ',
{
    state.emulator.term.grid()[Line(line as i32)][Column(column)].c
}

/// The cursor's grid point as (column, line): `grid().cursor.point`; it
/// starts at the top left.
#[verifier::external_body]
fn cursor_point(state: &TerminalState) -> (p: (usize, i32))
    ensures
        p.0 == cursor_after(state.origin@.0, state.origin@.1, state.origin@.2, state.log@).0,
        p.1 == cursor_after(state.origin@.0, state.origin@.1, state.origin@.2, state.log@).1,
        state.log@.len() == 0 ==> p.0 == 0 && p.1 == 0,
{
    let point = state.emulator.term.grid().cursor.point;
    (point.column.0, point.line.0)
}

/// `grid().total_lines()`: the history kept plus the visible lines; a new
/// grid holds just its visible lines.
#[verifier::external_body]
fn grid_total_lines(state: &TerminalState) -> (n: usize)
    ensures
        n == total_lines_after(state.origin@.0, state.origin@.1, state.origin@.2, state.log@),
        state.log@.len() == 0 ==> n == state.origin@.1,
{
    state.emulator.term.grid().total_lines()
}

/// Whether `mode()` holds `TermMode::ALT_SCREEN`, the alternate screen that
/// full-screen programs switch to; a new terminal starts on the primary one.
#[verifier::external_body]
fn alternate_screen_on(state: &TerminalState) -> (b: bool)
    ensures
        b == alternate_screen_after(state.origin@.0, state.origin@.1, state.origin@.2, state.log@),
        state.log@.len() == 0 ==> !b,
{
    state.emulator.term.mode().contains(TermMode::ALT_SCREEN)
}

impl TerminalState {
    /// The size invariant: at least 2 columns and 1 line, lines numbered
    /// within `i32`, and the size last set.
    pub closed spec fn wf(&self) -> bool {
        &&& self.columns >= 2
        &&& self.rows >= 1
        &&& self.rows <= i32::MAX
    }

    /// The visible width in columns.
    pub closed spec fn width(&self) -> nat {
        self.columns as nat
    }

    /// The visible height in lines.
    pub closed spec fn height(&self) -> nat {
        self.rows as nat
    }

    /// The size and history length the terminal was made with.
    pub closed spec fn origin(&self) -> (nat, nat, nat) {
        self.origin@
    }

    /// The operations applied since the terminal was made, in order.
    pub closed spec fn ops(&self) -> Seq<TermOp> {
        self.log@
    }

    /// What the grid holds now, line by line.
    pub open spec fn screen(&self) -> Seq<Seq<char>> {
        screen_after(self.origin().0, self.origin().1, self.origin().2, self.ops())
    }

    /// Where the grid cursor is now, as (column, line).
    pub open spec fn cursor(&self) -> (nat, int) {
        cursor_after(self.origin().0, self.origin().1, self.origin().2, self.ops())
    }

    /// A terminal of `columns` by `rows` keeping `scrollback` lines of
    /// history, with nothing applied yet.
    pub fn new(columns: usize, rows: usize, scrollback: usize) -> (s: Self)
        requires
            columns >= 2,
            1 <= rows <= i32::MAX,
        ensures
            s.wf(),
            s.width() == columns,
            s.height() == rows,
            s.origin() == (columns as nat, rows as nat, scrollback as nat),
            s.ops() == Seq::<TermOp>::empty(),
    {
        TerminalState {
            emulator: new_emulator(columns, rows, scrollback),
            columns,
            rows,
            origin: Ghost((columns as nat, rows as nat, scrollback as nat)),
            log: Ghost(Seq::empty()),
        }
    }

    /// Feeds raw PTY or SSH output to the parser: the output joins the
    /// history and the size stays.
    pub fn process(&mut self, bytes: &[u8])
        requires
            old(self).wf(),
        ensures
            final(self).wf(),
            final(self).width() == old(self).width(),
            final(self).height() == old(self).height(),
            final(self).origin() == old(self).origin(),
            final(self).ops() == old(self).ops().push(TermOp::Feed(bytes@)),
    {
        advance(self, bytes);
    }

    /// Resizes the emulator to `columns` by `rows`; the resize joins the
    /// history.
    pub fn resize(&mut self, columns: usize, rows: usize)
        requires
            old(self).wf(),
            columns >= 2,
            1 <= rows <= i32::MAX,
        ensures
            final(self).wf(),
            final(self).width() == columns,
            final(self).height() == rows,
            final(self).origin() == old(self).origin(),
            final(self).ops() == old(self).ops().push(TermOp::Resize(columns as nat, rows as nat)),
    {
        resize_term(self, columns, rows);
        self.columns = columns;
        self.rows = rows;
    }

    /// The visible width in columns.
    pub fn columns(&self) -> (c: usize)
        ensures
            c == self.width(),
    {
        self.columns
    }

    /// The visible height in lines.
    pub fn rows(&self) -> (r: usize)
        ensures
            r == self.height(),
    {
        self.rows
    }

    /// The lines held: the history kept plus the visible lines.
    pub fn total_lines(&self) -> (n: usize)
        ensures
            n == total_lines_after(self.origin().0, self.origin().1, self.origin().2, self.ops()),
            self.ops().len() == 0 ==> n == self.origin().1,
    {
        grid_total_lines(self)
    }

    /// Whether the alternate screen is shown.
    pub fn is_alternate_screen(&self) -> (b: bool)
        ensures
            b == alternate_screen_after(self.origin().0, self.origin().1, self.origin().2, self.ops()),
            self.ops().len() == 0 ==> !b,
    {
        alternate_screen_on(self)
    }

    /// The character of a visible cell.
    pub fn cell_char(&self, line: i32, column: usize) -> (c: char)
        requires
            self.wf(),
            0 <= line < self.height(),
            column < self.width(),
        ensures
            c == self.screen()[line as int][column as int],
            self.ops().len() == 0 ==> c == ' ',
    {
        visible_char(self, line as usize, column)
    }

    /// The visible grid in row-major order: `height` lines of `width`
    /// cells, the top line first; blank when nothing was applied yet.
    pub fn visible_cells(&self) -> (cells: Vec<TerminalCell>)
        requires
            self.wf(),
        ensures
            cell_chars(cells@) == flattened(visible_part(self.screen(), self.width(), self.height())),
            self.ops().len() == 0 ==> cell_chars(cells@) == flattened(
                blank_grid(self.width(), self.height()),
            ),
    {
        let ghost screen = self.screen();
        let ghost part = visible_part(screen, self.width(), self.height());
        let mut rows: Vec<Vec<char>> = Vec::new();
        let mut line: usize = 0;
        while line < self.rows
            invariant
                self.wf(),
                screen == self.screen(),
                part == visible_part(screen, self.width(), self.height()),
                line <= self.rows,
                rows@.len() == line,
                forall|i: int| 0 <= i < line ==> (#[trigger] rows@[i])@ == part[i],
                self.ops().len() == 0 ==> forall|i: int, j: int|
                    0 <= i < line && 0 <= j < self.columns ==> part[i][j] == ' ',
            decreases self.rows - line,
        {
            let mut row: Vec<char> = Vec::new();
            let mut column: usize = 0;
            while column < self.columns
                invariant
                    self.wf(),
                    screen == self.screen(),
                    part == visible_part(screen, self.width(), self.height()),
                    line < self.rows,
                    column <= self.columns,
                    row@.len() == column,
                    forall|j: int| 0 <= j < column ==> row@[j] == screen[line as int][j],
                    self.ops().len() == 0 ==> forall|j: int| 0 <= j < column ==> row@[j] == ' ',
                decreases self.columns - column,
            {
                let c = visible_char(self, line, column);
                row.push(c);
                column = column + 1;
            }
            proof {
                assert(row@ =~= part[line as int]);
            }
            rows.push(row);
            line = line + 1;
        }
        let cells = row_major_cells(&rows);
        proof {
            assert(row_views(rows@) =~= part);
            if self.ops().len() == 0 {
                let blank = blank_grid(self.width(), self.height());
                assert forall|i: int| 0 <= i < part.len() implies part[i] =~= blank[i] by {
                    assert forall|j: int| 0 <= j < part[i].len() implies part[i][j] == blank[i][j] by {
                        assert(part[i][j] == ' ');
                    }
                }
                assert(part =~= blank);
            }
        }
        cells
    }

    /// The cursor's visible cell as (column, line): the grid cursor's
    /// column, and its line with a line above the visible grid counted as 0.
    pub fn cursor_position(&self) -> (p: (usize, usize))
        ensures
            p.0 == self.cursor().0,
            p.1 == (if self.cursor().1 < 0 {
                0
            } else {
                self.cursor().1
            }),
            self.ops().len() == 0 ==> p == (0usize, 0usize),
    {
        let (column, line) = cursor_point(self);
        cursor_cell(column, line)
    }
}

} // verus!
