//! A place in a document: a line index and a column index.
use vstd::prelude::*;

verus! {

#[derive(Copy, Clone, PartialEq, Eq, Structural, Debug, Default)]
pub struct Position {
    pub line_idx: usize,
    pub col_idx: usize,
}

impl Position {
    pub fn new(line_idx: usize, col_idx: usize) -> (r: Self)
        ensures
            r == (Position { line_idx, col_idx }),
    {
        Position { line_idx, col_idx }
    }

    /// The difference of two positions, each coordinate floored at zero.
    pub fn saturating_sub(&self, other: &Self) -> (r: Self)
        ensures
            r.line_idx == sat_sub(self.line_idx, other.line_idx),
            r.col_idx == sat_sub(self.col_idx, other.col_idx),
    {
        Position {
            line_idx: self.line_idx.saturating_sub(other.line_idx),
            col_idx: self.col_idx.saturating_sub(other.col_idx),
        }
    }
}

pub open spec fn sat_sub(a: usize, b: usize) -> usize {
    if a >= b {
        (a - b) as usize
    } else {
        0
    }
}

pub open spec fn sat_add(a: usize, b: usize) -> usize {
    if a + b > usize::MAX {
        usize::MAX
    } else {
        (a + b) as usize
    }
}

} // verus!
