//! Two-dimensional integer coordinates and word directions.

use vstd::prelude::*;

verus! {

/// A zero-based grid coordinate: `x` is the column, `y` the row.
#[derive(Clone, Copy, PartialEq, Eq, Structural, Debug)]
pub struct Vec2 {
    pub x: usize,
    pub y: usize,
}

/// The orientation of a word in the grid.
#[derive(Clone, Copy, PartialEq, Eq, Structural, Debug)]
pub enum Direction {
    Across,
    Down,
}

impl Direction {
    /// Both directions, in display order: `Across` before `Down`.
    pub fn all() -> (r: Vec<Direction>)
        ensures
            r@.len() == 2,
            r@[0] == Direction::Across,
            r@[1] == Direction::Down,
    {
        let mut r: Vec<Direction> = Vec::new();
        r.push(Direction::Across);
        r.push(Direction::Down);
        r
    }
}

/// Row-major reading order: `a` comes before `b` when it lies on an earlier
/// row, or on the same row further left.
pub open spec fn row_major_lt(a: Vec2, b: Vec2) -> bool {
    a.y < b.y || (a.y == b.y && a.x < b.x)
}

} // verus!
