//! Materializing the display grid: the flat, row-major cell array the view
//! layer draws.

use vstd::prelude::*;

use crate::geometry::Vec2;
use crate::labels::label_at;
use crate::labels::spec_label;
use crate::puzzle::letter_in_words;
use crate::puzzle::Crossword;
use crate::puzzle::Word;

verus! {

/// One display cell: blocked, or occupied by a letter, with the clue number
/// where the coordinate starts a word.
#[derive(Clone, Copy, PartialEq, Eq, Structural, Debug)]
pub enum Cell {
    Blocked,
    Occupied { letter: char, label: Option<usize> },
}

/// The coordinate of flat row-major index `k` in a grid `size.x` wide.
pub open spec fn spec_point_of(size: Vec2, k: int) -> Vec2 {
    Vec2 { x: (k % (size.x as int)) as usize, y: (k / (size.x as int)) as usize }
}

/// What the cell at flat index `k` must hold: blocked where no word lies,
/// otherwise the resolved letter and the label of the coordinate.
pub open spec fn spec_cell(words: Seq<Word>, starts: Seq<Vec2>, size: Vec2, k: int) -> Cell {
    let point = spec_point_of(size, k);
    match letter_in_words(words, point) {
        None => Cell::Blocked,
        Some(c) => Cell::Occupied { letter: c, label: spec_label(starts, point) },
    }
}

impl Crossword {
    /// Builds the full rectangular cell array in row-major order over
    /// `size`, resolving each coordinate's letter and clue number.
    pub fn build_grid(&self, size: Vec2, starts: &Vec<Vec2>) -> (r: Vec<Cell>)
        requires
            size.x * size.y <= usize::MAX,
        ensures
            r@.len() == size.x * size.y,
            forall|k: int| 0 <= k < r@.len()
                ==> #[trigger] r@[k] == spec_cell(self.words@, starts@, size, k),
    {
        let total: usize = size.x * size.y;
        let mut r: Vec<Cell> = Vec::new();
        let mut k: usize = 0;
        while k < total
            invariant
                0 <= k <= total,
                total == size.x * size.y,
                r@.len() == k,
                forall|j: int| 0 <= j < k
                    ==> #[trigger] r@[j] == spec_cell(self.words@, starts@, size, j),
            decreases total - k,
        {
            proof {
                if size.x == 0 {
                    assert(total == 0);
                }
            }
            let x = k % size.x;
            let y = k / size.x;
            let point = Vec2 { x, y };
            let cell = match self.letter_at(point) {
                None => Cell::Blocked,
                Some(c) => Cell::Occupied { letter: c, label: label_at(starts, point) },
            };
            r.push(cell);
            proof {
                assert(r@[k as int] == spec_cell(self.words@, starts@, size, k as int));
            }
            k += 1;
        }
        r
    }
}

} // verus!
