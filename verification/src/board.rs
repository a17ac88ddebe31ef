//! The 3x3 board: placement, win and draw detection, and rendering.
//!
//! A board is modelled as a sequence of nine cells (row-major), each
//! either empty or holding the mark (an arbitrary short string, e.g.
//! an emoji) of the player that occupied it.

use vstd::prelude::*;
use vstd::string::StringExecFns;

verus! {

/// Why a move was rejected.
#[derive(Clone, Copy, Debug, PartialEq, Eq, Structural)]
pub enum MoveError {
    /// The move token did not parse as an integer in 0..=8.
    InvalidPosition,
    /// The position handed to the board is not in 0..=8.
    OutOfRange,
    /// The target cell already holds a mark.
    CellOccupied,
    /// A move was submitted against a game in a terminal state.
    GameAlreadyOver,
}

/// The mathematical model of a board: nine cells, each empty or
/// holding a mark (viewed as a sequence of characters).
pub type BoardView = Seq<Option<Seq<char>>>;

/// The view of a board with no cell occupied.
pub open spec fn empty_board() -> BoardView {
    Seq::new(9, |i: int| None::<Seq<char>>)
}

/// True if every occupied cell of `pre` holds the same mark in `post`:
/// marks are never cleared or overwritten.
pub open spec fn marks_preserved(pre: BoardView, post: BoardView) -> bool {
    forall|i: int| 0 <= i < pre.len() && pre[i] is Some ==> post[i] == pre[i]
}

/// The mark completing the line (a, m, c), if those three cells all
/// hold the same mark.
pub open spec fn line_winner(b: BoardView, a: int, m: int, c: int) -> Option<Seq<char>> {
    if b[a] is Some && b[a] == b[m] && b[m] == b[c] {
        b[a]
    } else {
        None
    }
}

/// The mark occupying a complete row, column, or diagonal, or `None`
/// if no line is complete. The eight lines are examined in a fixed
/// order: rows, then columns, then diagonals.
pub open spec fn winner_of(b: BoardView) -> Option<Seq<char>> {
    if line_winner(b, 0, 1, 2) is Some {
        line_winner(b, 0, 1, 2)
    } else if line_winner(b, 3, 4, 5) is Some {
        line_winner(b, 3, 4, 5)
    } else if line_winner(b, 6, 7, 8) is Some {
        line_winner(b, 6, 7, 8)
    } else if line_winner(b, 0, 3, 6) is Some {
        line_winner(b, 0, 3, 6)
    } else if line_winner(b, 1, 4, 7) is Some {
        line_winner(b, 1, 4, 7)
    } else if line_winner(b, 2, 5, 8) is Some {
        line_winner(b, 2, 5, 8)
    } else if line_winner(b, 0, 4, 8) is Some {
        line_winner(b, 0, 4, 8)
    } else if line_winner(b, 2, 4, 6) is Some {
        line_winner(b, 2, 4, 6)
    } else {
        None
    }
}

/// True if all nine cells are occupied.
pub open spec fn board_full(b: BoardView) -> bool {
    forall|i: int| 0 <= i < 9 ==> b[i] is Some
}

/// The label shown for an empty cell: its position digit.
pub open spec fn pos_label(i: int) -> Seq<char> {
    if i == 0 {
        "0"@
    } else if i == 1 {
        "1"@
    } else if i == 2 {
        "2"@
    } else if i == 3 {
        "3"@
    } else if i == 4 {
        "4"@
    } else if i == 5 {
        "5"@
    } else if i == 6 {
        "6"@
    } else if i == 7 {
        "7"@
    } else {
        "8"@
    }
}

/// What a cell shows when rendered: its mark, or its position digit
/// if it is empty.
pub open spec fn cell_text(b: BoardView, i: int) -> Seq<char> {
    match b[i] {
        Some(m) => m,
        None => pos_label(i),
    }
}

/// The full rendering of a board: three rows of three cells separated
/// by ` | `, with a dashed line between rows.
pub open spec fn render_spec(b: BoardView) -> Seq<char> {
    cell_text(b, 0) + " | "@ + cell_text(b, 1) + " | "@ + cell_text(b, 2) + "\n---------\n"@
        + cell_text(b, 3) + " | "@ + cell_text(b, 4) + " | "@ + cell_text(b, 5)
        + "\n---------\n"@ + cell_text(b, 6) + " | "@ + cell_text(b, 7) + " | "@ + cell_text(
        b,
        8,
    ) + "\n"@
}

/// A 3x3 grid holding an optional mark per cell. A cell, once
/// occupied, is never cleared or reassigned.
pub struct Board {
    cells: Vec<Option<String>>,
}

impl View for Board {
    type V = BoardView;

    closed spec fn view(&self) -> BoardView {
        Seq::new(
            self.cells@.len(),
            |i: int|
                match self.cells@[i] {
                    Some(m) => Some(m@),
                    None => None::<Seq<char>>,
                },
        )
    }
}

impl Board {
    /// A board is well formed when it has exactly nine cells.
    pub open spec fn wf(&self) -> bool {
        self@.len() == 9
    }

    /// A fresh board with every cell empty.
    pub fn new() -> (b: Board)
        ensures
            b.wf(),
            b@ == empty_board(),
    {
        let mut cells: Vec<Option<String>> = Vec::new();
        cells.push(None);
        cells.push(None);
        cells.push(None);
        cells.push(None);
        cells.push(None);
        cells.push(None);
        cells.push(None);
        cells.push(None);
        cells.push(None);
        let b = Board { cells };
        proof {
            assert(b@ =~= empty_board());
        }
        b
    }

    /// Read one cell.
    pub fn cell(&self, position: usize) -> (r: &Option<String>)
        requires
            self.wf(),
            position < 9,
        ensures
            match r {
                Some(m) => self@[position as int] == Some(m@),
                None => self@[position as int] is None,
            },
    {
        &self.cells[position]
    }

    /// Occupy a cell. Fails with `OutOfRange` if the position is not
    /// in 0..=8, with `CellOccupied` if the cell already holds a
    /// mark; on failure the board is unchanged. On success only the
    /// target cell changes.
    pub fn place(&mut self, position: usize, mark: String) -> (r: Result<(), MoveError>)
        requires
            old(self).wf(),
        ensures
            final(self).wf(),
            marks_preserved(old(self)@, final(self)@),
            match r {
                Ok(()) => {
                    &&& position < 9
                    &&& old(self)@[position as int] is None
                    &&& final(self)@ == old(self)@.update(position as int, Some(mark@))
                },
                Err(e) => {
                    &&& *final(self) == *old(self)
                    &&& position >= 9 || old(self)@[position as int] is Some
                    &&& e == (if position >= 9 {
                        MoveError::OutOfRange
                    } else {
                        MoveError::CellOccupied
                    })
                },
            },
    {
        if position >= 9 {
            return Err(MoveError::OutOfRange);
        }
        if self.cells[position].is_some() {
            return Err(MoveError::CellOccupied);
        }
        self.cells[position] = Some(mark);
        proof {
            assert(self@ =~= old(self)@.update(position as int, Some(mark@)));
        }
        Ok(())
    }

    /// True if all nine cells are occupied.
    pub fn is_full(&self) -> (r: bool)
        requires
            self.wf(),
        ensures
            r == board_full(self@),
    {
        let mut i: usize = 0;
        while i < 9
            invariant
                self.wf(),
                i <= 9,
                forall|j: int| 0 <= j < i ==> self@[j] is Some,
            decreases 9 - i,
        {
            if self.cells[i].is_none() {
                proof {
                    assert(self@[i as int] is None);
                }
                return false;
            }
            i = i + 1;
        }
        true
    }

    /// The mark owning the line (a, m, c), if complete.
    fn line_owner(&self, a: usize, m: usize, c: usize) -> (r: Option<&String>)
        requires
            self.wf(),
            a < 9,
            m < 9,
            c < 9,
        ensures
            match r {
                Some(s) => line_winner(self@, a as int, m as int, c as int) == Some(s@),
                None => line_winner(self@, a as int, m as int, c as int) is None,
            },
    {
        match (&self.cells[a], &self.cells[m], &self.cells[c]) {
            (Some(x), Some(y), Some(z)) => {
                if *x == *y && *y == *z {
                    Some(x)
                } else {
                    None
                }
            },
            _ => None,
        }
    }

    /// The mark occupying a complete row, column, or diagonal, or
    /// `None` if no line is complete.
    pub fn winner(&self) -> (r: Option<&String>)
        requires
            self.wf(),
        ensures
            match r {
                Some(s) => winner_of(self@) == Some(s@),
                None => winner_of(self@) is None,
            },
    {
        if let Some(s) = self.line_owner(0, 1, 2) {
            return Some(s);
        }
        if let Some(s) = self.line_owner(3, 4, 5) {
            return Some(s);
        }
        if let Some(s) = self.line_owner(6, 7, 8) {
            return Some(s);
        }
        if let Some(s) = self.line_owner(0, 3, 6) {
            return Some(s);
        }
        if let Some(s) = self.line_owner(1, 4, 7) {
            return Some(s);
        }
        if let Some(s) = self.line_owner(2, 5, 8) {
            return Some(s);
        }
        if let Some(s) = self.line_owner(0, 4, 8) {
            return Some(s);
        }
        if let Some(s) = self.line_owner(2, 4, 6) {
            return Some(s);
        }
        None
    }

    /// Append the rendering of one cell to `out`.
    fn append_cell(&self, out: &mut String, i: usize)
        requires
            self.wf(),
            i < 9,
        ensures
            final(out)@ == old(out)@ + cell_text(self@, i as int),
    {
        match &self.cells[i] {
            Some(m) => out.append(m.as_str()),
            None => {
                if i == 0 {
                    out.append("0");
                } else if i == 1 {
                    out.append("1");
                } else if i == 2 {
                    out.append("2");
                } else if i == 3 {
                    out.append("3");
                } else if i == 4 {
                    out.append("4");
                } else if i == 5 {
                    out.append("5");
                } else if i == 6 {
                    out.append("6");
                } else if i == 7 {
                    out.append("7");
                } else {
                    out.append("8");
                }
            },
        }
    }

    /// A deterministic, human-readable grid: each cell shows its mark
    /// or, if empty, its position digit, in three rows of three.
    pub fn render(&self) -> (r: String)
        requires
            self.wf(),
        ensures
            r@ == render_spec(self@),
    {
        let mut out = String::new();
        self.append_cell(&mut out, 0);
        out.append(" | ");
        self.append_cell(&mut out, 1);
        out.append(" | ");
        self.append_cell(&mut out, 2);
        out.append("\n---------\n");
        self.append_cell(&mut out, 3);
        out.append(" | ");
        self.append_cell(&mut out, 4);
        out.append(" | ");
        self.append_cell(&mut out, 5);
        out.append("\n---------\n");
        self.append_cell(&mut out, 6);
        out.append(" | ");
        self.append_cell(&mut out, 7);
        out.append(" | ");
        self.append_cell(&mut out, 8);
        out.append("\n");
        proof {
            assert(Seq::<char>::empty() + cell_text(self@, 0) =~= cell_text(self@, 0));
            assert(out@ =~= render_spec(self@));
        }
        out
    }

    /// The empty-board rendering, exposed as static help text so a
    /// caller can show the position numbering once, up front.
    pub fn legend() -> (r: String)
        ensures
            r@ == render_spec(empty_board()),
    {
        let b = Board::new();
        b.render()
    }
}

} // verus!
