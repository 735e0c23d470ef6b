//! Cursor coordinates in a text buffer.
use vstd::prelude::*;

verus! {

/// A position in line space: row and column, both counted from zero.
pub struct Cursor {
    pub row: usize,
    pub col: usize,
}

impl Cursor {
    pub fn new(col: usize, row: usize) -> (r: Cursor)
        ensures
            r.row == row,
            r.col == col,
    {
        Cursor { row, col }
    }

    pub fn row(&self) -> (r: usize)
        ensures
            r == self.row,
    {
        self.row
    }

    pub fn col(&self) -> (r: usize)
        ensures
            r == self.col,
    {
        self.col
    }
}

} // verus!
