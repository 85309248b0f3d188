use vstd::prelude::*;

verus! {

/// A place in a source file: a row (line, from 1) and a column (from 1).
#[derive(Clone, Copy, Debug, PartialEq, Eq, Structural)]
pub struct Position {
    pub row: usize,
    pub col: usize,
}

impl Position {
    pub fn new(row: usize, col: usize) -> (p: Self)
        ensures
            p.row == row,
            p.col == col,
    {
        Position { row, col }
    }

    /// The pair (row, column).
    pub fn get_pos(&self) -> (rc: (usize, usize))
        ensures
            rc == (self.row, self.col),
    {
        (self.row, self.col)
    }

    /// Moves the position `n` rows down.
    pub fn add_row(&mut self, n: usize)
        requires
            old(self).row + n <= usize::MAX,
        ensures
            final(self).row == old(self).row + n,
            final(self).col == old(self).col,
    {
        self.row = self.row + n;
    }

    pub fn set_col(&mut self, col: usize)
        ensures
            final(self).row == old(self).row,
            final(self).col == col,
    {
        self.col = col;
    }
}

impl Default for Position {
    fn default() -> (p: Self)
        ensures
            p.row == 0 && p.col == 0,
    {
        Position { row: 0, col: 0 }
    }
}

} // verus!
