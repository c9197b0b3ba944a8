//! Tic Tac Toe: the board, its moves and its status.
use crate::text::chars_to_string;
use vstd::prelude::*;

verus! {

#[derive(Clone, Copy, PartialEq, Eq, Debug, Structural)]
pub enum Cell {
    Empty,
    Cross,
    Naught,
}

#[derive(Clone, Copy, PartialEq, Eq, Debug, Structural)]
pub enum GameStatus {
    Running,
    Draw,
    CrossWon,
    NaughtWon,
}

/// The cells of the `k`-th line that wins the game: the three rows, the three
/// columns, then the two diagonals.
pub open spec fn win_line(k: int) -> (int, int, int) {
    if k == 0 {
        (0, 1, 2)
    } else if k == 1 {
        (3, 4, 5)
    } else if k == 2 {
        (6, 7, 8)
    } else if k == 3 {
        (0, 3, 6)
    } else if k == 4 {
        (1, 4, 7)
    } else if k == 5 {
        (2, 5, 8)
    } else if k == 6 {
        (0, 4, 8)
    } else {
        (2, 4, 6)
    }
}

/// Some cell of the board is empty.
pub open spec fn has_empty(g: Seq<Cell>) -> bool {
    exists|i: int| 0 <= i < 9 && g[i] == Cell::Empty
}

/// The status decided by the lines `k..8`: the first line filled with one
/// player's marks decides; without such a line the game is still running
/// while a cell is empty, and a draw once the board is full.
pub open spec fn status_from(g: Seq<Cell>, k: int) -> GameStatus
    decreases 8 - k,
{
    if k < 0 || k >= 8 {
        if has_empty(g) {
            GameStatus::Running
        } else {
            GameStatus::Draw
        }
    } else {
        let (a, b, c) = win_line(k);
        if g[a] == g[b] && g[a] == g[c] && g[a] == Cell::Cross {
            GameStatus::CrossWon
        } else if g[a] == g[b] && g[a] == g[c] && g[a] == Cell::Naught {
            GameStatus::NaughtWon
        } else {
            status_from(g, k + 1)
        }
    }
}

/// Cells `a`, `b` and `c` all hold the mark `m`.
pub open spec fn three_of(g: Seq<Cell>, a: int, b: int, c: int, m: Cell) -> bool {
    g[a] == m && g[b] == m && g[c] == m
}

/// Some row, column or diagonal of the board is filled with the mark `m`.
pub open spec fn owns_a_line(g: Seq<Cell>, m: Cell) -> bool {
    ||| three_of(g, 0, 1, 2, m)
    ||| three_of(g, 3, 4, 5, m)
    ||| three_of(g, 6, 7, 8, m)
    ||| three_of(g, 0, 3, 6, m)
    ||| three_of(g, 1, 4, 7, m)
    ||| three_of(g, 2, 5, 8, m)
    ||| three_of(g, 0, 4, 8, m)
    ||| three_of(g, 2, 4, 6, m)
}

/// The status follows the lines of the board: a player who fills a row, a
/// column or a diagonal (and whose opponent fills none) has won; with a
/// filled line the game is won by someone; without one it is running while
/// a cell is empty and a draw once the board is full.
pub proof fn lemma_status_follows_lines(g: Seq<Cell>)
    requires
        g.len() == 9,
    ensures
        owns_a_line(g, Cell::Cross) && !owns_a_line(g, Cell::Naught) ==> status_from(g, 0) == GameStatus::CrossWon,
        owns_a_line(g, Cell::Naught) && !owns_a_line(g, Cell::Cross) ==> status_from(g, 0) == GameStatus::NaughtWon,
        owns_a_line(g, Cell::Cross) || owns_a_line(g, Cell::Naught) ==> status_from(g, 0) == GameStatus::CrossWon
            || status_from(g, 0) == GameStatus::NaughtWon,
        !owns_a_line(g, Cell::Cross) && !owns_a_line(g, Cell::Naught) ==> status_from(g, 0) == if exists|i: int|
            0 <= i < 9 && g[i] == Cell::Empty {
            GameStatus::Running
        } else {
            GameStatus::Draw
        },
{
    reveal_with_fuel(status_from, 9);
}

/// The text drawn for one cell: `[X]`, `[O]`, or the index of an empty cell in brackets.
pub open spec fn cell_text(c: Cell, idx: int) -> Seq<char> {
    match c {
        Cell::Cross => seq!['[', 'X', ']'],
        Cell::Naught => seq!['[', 'O', ']'],
        Cell::Empty => seq!['(', (48 + idx) as char, ')'],
    }
}

/// The first `n` cells of row `y` of the board picture.
pub open spec fn row_text(g: Seq<Cell>, y: int, n: int) -> Seq<char>
    decreases n,
{
    if n <= 0 {
        Seq::empty()
    } else {
        row_text(g, y, n - 1) + cell_text(g[3 * y + n - 1], 3 * y + n - 1)
    }
}

/// The first `n` rows of the board picture, each ended by a line break.
pub open spec fn board_text(g: Seq<Cell>, n: int) -> Seq<char>
    decreases n,
{
    if n <= 0 {
        Seq::empty()
    } else {
        board_text(g, n - 1) + row_text(g, n - 1, 3).push('\n')
    }
}

#[derive(Clone, Copy)]
pub struct Board {
    grid: [Cell; 9],
}

impl Board {
    /// The cells, row by row.
    pub closed spec fn cells(&self) -> Seq<Cell> {
        self.grid@
    }

    pub fn new() -> (b: Self)
        ensures
            b.cells() == Seq::new(9, |i: int| Cell::Empty),
    {
        let b = Board { grid: [Cell::Empty;9] };
        assert(b.cells() =~= Seq::new(9, |i: int| Cell::Empty));
        b
    }

    /// A board has nine cells.
    pub proof fn lemma_nine_cells(&self)
        ensures
            self.cells().len() == 9,
    {
    }

    /// A mark put in an empty cell reads back from that cell, and every
    /// other cell reads as before.
    pub proof fn lemma_put_reads_back(before: Board, after: Board, idx: int, item: Cell)
        requires
            0 <= idx < 9,
            before.cells()[idx] == Cell::Empty,
            after.cells() == before.cells().update(idx, item),
        ensures
            after.cells().len() == 9,
            after.cells()[idx] == item,
            forall|j: int| 0 <= j < 9 && j != idx ==> #[trigger] after.cells()[j] == before.cells()[j],
    {
    }

    pub fn cell(&self, idx: usize) -> (c: Cell)
        requires
            idx < 9,
        ensures
            c == self.cells()[idx as int],
    {
        self.grid[idx]
    }

    /// Puts a mark in an empty cell; a taken cell stays as it is.
    pub fn put(&mut self, idx: usize, item: Cell) -> (ok: bool)
        requires
            idx < 9,
        ensures
            ok == (old(self).cells()[idx as int] == Cell::Empty),
            final(self).cells() == if ok {
                old(self).cells().update(idx as int, item)
            } else {
                old(self).cells()
            },
    {
        if self.grid[idx] == Cell::Empty {
            self.grid[idx] = item;
            true
        } else {
            false
        }
    }

    /// The status of the game: won by whoever fills a whole line first (rows,
    /// then columns, then diagonals); otherwise still running while a cell is
    /// empty, and a draw once the board is full.
    pub fn compute_status(&self) -> (s: GameStatus)
        ensures
            s == status_from(self.cells(), 0),
    {
        let mut k: usize = 0;
        while k < 8
            invariant
                k <= 8,
                status_from(self.cells(), k as int) == status_from(self.cells(), 0),
            decreases 8 - k,
        {
            let (a, b, c): (usize, usize, usize) = if k == 0 {
                (0, 1, 2)
            } else if k == 1 {
                (3, 4, 5)
            } else if k == 2 {
                (6, 7, 8)
            } else if k == 3 {
                (0, 3, 6)
            } else if k == 4 {
                (1, 4, 7)
            } else if k == 5 {
                (2, 5, 8)
            } else if k == 6 {
                (0, 4, 8)
            } else {
                (2, 4, 6)
            };
            let c1 = self.grid[a];
            let c2 = self.grid[b];
            let c3 = self.grid[c];
            if c1 == c2 && c1 == c3 {
                match c1 {
                    Cell::Cross => {
                        return GameStatus::CrossWon;
                    },
                    Cell::Naught => {
                        return GameStatus::NaughtWon;
                    },
                    Cell::Empty => {},
                }
            }
            k = k + 1;
        }
        // if at least one cell is empty, the game is still running
        let mut i: usize = 0;
        while i < 9
            invariant
                i <= 9,
                status_from(self.cells(), 0) == status_from(self.cells(), 8),
                self.cells().len() == 9,
                forall|j: int| 0 <= j < i ==> self.cells()[j] != Cell::Empty,
            decreases 9 - i,
        {
            if self.grid[i] == Cell::Empty {
                assert(has_empty(self.cells()));
                return GameStatus::Running;
            }
            i = i + 1;
        }
        GameStatus::Draw
    }

    /// The board as text: one line per row, `[X]` and `[O]` for the marks,
    /// `(i)` for the empty cell of index `i`.
    pub fn render(&self) -> (s: String)
        ensures
            s@ == board_text(self.cells(), 3),
    {
        let mut chars: Vec<char> = Vec::new();
        let mut y: usize = 0;
        while y < 3
            invariant
                y <= 3,
                chars@ == board_text(self.cells(), y as int),
            decreases 3 - y,
        {
            let ghost before = chars@;
            let mut x: usize = 0;
            while x < 3
                invariant
                    x <= 3,
                    y < 3,
                    chars@ == before + row_text(self.cells(), y as int, x as int),
                decreases 3 - x,
            {
                let idx: usize = 3 * y + x;
                let ghost prev = chars@;
                match self.grid[idx] {
                    Cell::Cross => {
                        chars.push('[');
                        chars.push('X');
                        chars.push(']');
                    },
                    Cell::Naught => {
                        chars.push('[');
                        chars.push('O');
                        chars.push(']');
                    },
                    Cell::Empty => {
                        chars.push('(');
                        chars.push(((48 + idx) as u8) as char);
                        chars.push(')');
                    },
                }
                assert(chars@ == prev + cell_text(self.cells()[idx as int], idx as int));
                x = x + 1;
            }
            chars.push('\n');
            y = y + 1;
        }
        chars_to_string(chars)
    }
}

/// The computer player (no strategy yet).
pub struct DumbAI {}

/// A game between a player and the computer (not played yet).
pub struct Game {}

} // verus!
