//! The puzzle model: words, the bounding size, and per-cell letter
//! resolution by first match in list order.

use vstd::prelude::*;

use crate::geometry::Direction;
use crate::geometry::Vec2;

verus! {

/// One entry of a puzzle: a clue and its answer, laid out one letter per
/// cell from `position` in `direction`.
#[derive(Clone, Debug)]
pub struct Word {
    pub position: Vec2,
    pub direction: Direction,
    pub clue: String,
    pub answer: Vec<char>,
}

/// The error raised when a puzzle is built from no words at all.
#[derive(Clone, Copy, PartialEq, Eq, Structural, Debug)]
pub enum CrosswordError {
    EmptyWordList,
}

impl Word {
    /// One past the rightmost column the word's run reaches.
    pub open spec fn extent_x(self) -> int {
        match self.direction {
            Direction::Across => self.position.x + self.answer@.len(),
            Direction::Down => self.position.x + 1,
        }
    }

    /// One past the lowest row the word's run reaches.
    pub open spec fn extent_y(self) -> int {
        match self.direction {
            Direction::Across => self.position.y + 1,
            Direction::Down => self.position.y + self.answer@.len(),
        }
    }

    /// Both extents stay within the machine's index range.
    pub open spec fn fits(self) -> bool {
        self.extent_x() <= usize::MAX && self.extent_y() <= usize::MAX
    }

    /// The point lies on the straight run that starts at `position` and
    /// extends one cell per answer letter in `direction`.
    pub open spec fn spec_contains(self, point: Vec2) -> bool {
        match self.direction {
            Direction::Across => point.y == self.position.y && self.position.x <= point.x
                && point.x < self.position.x + self.answer@.len(),
            Direction::Down => point.x == self.position.x && self.position.y <= point.y
                && point.y < self.position.y + self.answer@.len(),
        }
    }

    /// The answer letter the word puts on `point`.
    pub open spec fn spec_letter_at(self, point: Vec2) -> char
        recommends
            self.spec_contains(point),
    {
        match self.direction {
            Direction::Across => self.answer@[point.x - self.position.x],
            Direction::Down => self.answer@[point.y - self.position.y],
        }
    }

    /// Whether `point` lies on this word's run.
    pub fn contains(&self, point: Vec2) -> (r: bool)
        ensures
            r == self.spec_contains(point),
    {
        match self.direction {
            Direction::Across => point.y == self.position.y && self.position.x <= point.x
                && point.x - self.position.x < self.answer.len(),
            Direction::Down => point.x == self.position.x && self.position.y <= point.y
                && point.y - self.position.y < self.answer.len(),
        }
    }

    /// The answer letter on `point`.
    pub fn letter_at(&self, point: Vec2) -> (r: char)
        requires
            self.spec_contains(point),
        ensures
            r == self.spec_letter_at(point),
    {
        match self.direction {
            Direction::Across => self.answer[point.x - self.position.x],
            Direction::Down => self.answer[point.y - self.position.y],
        }
    }

    /// One past the rightmost column, as a machine integer.
    pub fn end_x(&self) -> (r: usize)
        requires
            self.fits(),
        ensures
            r == self.extent_x(),
    {
        match self.direction {
            Direction::Across => self.position.x + self.answer.len(),
            Direction::Down => self.position.x + 1,
        }
    }

    /// One past the lowest row, as a machine integer.
    pub fn end_y(&self) -> (r: usize)
        requires
            self.fits(),
        ensures
            r == self.extent_y(),
    {
        match self.direction {
            Direction::Across => self.position.y + 1,
            Direction::Down => self.position.y + self.answer.len(),
        }
    }
}

/// `size` is the one-past-max bounding rectangle of the words: every extent
/// fits inside it and both bounds are attained by some word.
pub open spec fn spec_size_of(words: Seq<Word>, size: Vec2) -> bool {
    &&& forall|i: int| 0 <= i < words.len() ==> (#[trigger] words[i]).extent_x() <= size.x
    &&& forall|i: int| 0 <= i < words.len() ==> (#[trigger] words[i]).extent_y() <= size.y
    &&& exists|i: int| 0 <= i < words.len() && (#[trigger] words[i]).extent_x() == size.x
    &&& exists|i: int| 0 <= i < words.len() && (#[trigger] words[i]).extent_y() == size.y
}

/// The letter on `point` resolved from the words at index `from` onward:
/// the first word in list order that covers the point supplies it.
pub open spec fn letter_from(words: Seq<Word>, point: Vec2, from: int) -> Option<char>
    decreases words.len() - from,
{
    if from < 0 || from >= words.len() {
        None
    } else if words[from].spec_contains(point) {
        Some(words[from].spec_letter_at(point))
    } else {
        letter_from(words, point, from + 1)
    }
}

/// The letter shown on `point`, or `None` where no word lies.
pub open spec fn letter_in_words(words: Seq<Word>, point: Vec2) -> Option<char> {
    letter_from(words, point, 0)
}

/// Some word covers `point`.
pub open spec fn spec_occupied(words: Seq<Word>, point: Vec2) -> bool {
    exists|i: int| 0 <= i < words.len() && (#[trigger] words[i]).spec_contains(point)
}

/// A letter resolves at `point` from index `from` onward exactly when some
/// word at or past `from` covers the point.
proof fn lemma_letter_from_occupied(words: Seq<Word>, point: Vec2, from: int)
    requires
        0 <= from <= words.len(),
    ensures
        letter_from(words, point, from) is Some <==> exists|i: int|
            from <= i < words.len() && (#[trigger] words[i]).spec_contains(point),
    decreases words.len() - from,
{
    if from < words.len() {
        if words[from].spec_contains(point) {
        } else {
            lemma_letter_from_occupied(words, point, from + 1);
        }
    }
}

/// A cell is occupied exactly when `letter_in_words` resolves a letter there.
pub proof fn lemma_occupied_iff_letter(words: Seq<Word>, point: Vec2)
    ensures
        spec_occupied(words, point) <==> letter_in_words(words, point) is Some,
{
    lemma_letter_from_occupied(words, point, 0);
}

/// Every cell of every word lies inside the bounding rectangle:
/// `[0, size.x) x [0, size.y)`.
pub proof fn lemma_word_cells_in_bounds(words: Seq<Word>, size: Vec2, i: int, point: Vec2)
    requires
        spec_size_of(words, size),
        0 <= i < words.len(),
        words[i].spec_contains(point),
    ensures
        point.x < size.x,
        point.y < size.y,
{
    assert(words[i].extent_x() <= size.x);
    assert(words[i].extent_y() <= size.y);
}

/// The bounding rectangle is minimal: any rectangle that contains every
/// cell of every word is at least as large, provided no answer is empty.
pub proof fn lemma_size_minimal(words: Seq<Word>, size: Vec2, other: Vec2)
    requires
        spec_size_of(words, size),
        forall|i: int| 0 <= i < words.len() ==> (#[trigger] words[i]).answer@.len() > 0,
        forall|i: int, p: Vec2| 0 <= i < words.len()
            && #[trigger] words[i].spec_contains(p) ==> p.x < other.x && p.y < other.y,
    ensures
        size.x <= other.x,
        size.y <= other.y,
{
    let ix = choose|i: int| 0 <= i < words.len() && (#[trigger] words[i]).extent_x() == size.x;
    let wx = words[ix];
    let px = match wx.direction {
        Direction::Across => Vec2 {
            x: (wx.position.x + wx.answer@.len() - 1) as usize,
            y: wx.position.y,
        },
        Direction::Down => wx.position,
    };
    assert(wx.spec_contains(px));
    assert(px.x < other.x);
    let iy = choose|i: int| 0 <= i < words.len() && (#[trigger] words[i]).extent_y() == size.y;
    let wy = words[iy];
    let py = match wy.direction {
        Direction::Across => wy.position,
        Direction::Down => Vec2 {
            x: wy.position.x,
            y: (wy.position.y + wy.answer@.len() - 1) as usize,
        },
    };
    assert(wy.spec_contains(py));
    assert(py.y < other.y);
}

/// The index of the first word at or past `from` that covers `point`.
pub open spec fn first_containing_from(words: Seq<Word>, point: Vec2, from: int) -> Option<int>
    decreases words.len() - from,
{
    if from < 0 || from >= words.len() {
        None
    } else if words[from].spec_contains(point) {
        Some(from)
    } else {
        first_containing_from(words, point, from + 1)
    }
}

/// The index of the first word at or past `from` that covers `point` and
/// runs in direction `d`.
pub open spec fn first_with_dir_from(words: Seq<Word>, point: Vec2, d: Direction, from: int) -> Option<int>
    decreases words.len() - from,
{
    if from < 0 || from >= words.len() {
        None
    } else if words[from].spec_contains(point) && words[from].direction == d {
        Some(from)
    } else {
        first_with_dir_from(words, point, d, from + 1)
    }
}

/// The word that governs a word-relative move from `point`: the first word
/// covering it whose direction equals the remembered one, if any does, and
/// failing that the first covering word in list order.
pub open spec fn spec_active_word(words: Seq<Word>, point: Vec2, last: Option<Direction>) -> Option<int> {
    match last {
        None => first_containing_from(words, point, 0),
        Some(d) => match first_with_dir_from(words, point, d, 0) {
            Some(i) => Some(i),
            None => first_containing_from(words, point, 0),
        },
    }
}

/// An ordered word list; the puzzle it reconstructs.
#[derive(Clone, Debug)]
pub struct Crossword {
    pub words: Vec<Word>,
}

impl Crossword {
    /// The puzzle has at least one word and every word stays within the
    /// machine's index range.
    pub open spec fn wf(self) -> bool {
        &&& self.words@.len() > 0
        &&& forall|i: int| 0 <= i < self.words@.len() ==> (#[trigger] self.words@[i]).fits()
    }

    /// Builds a puzzle from an ordered word list. Machine limits force every
    /// word to stay within the index range; an empty list is the one
    /// rejected input.
    pub fn new(words: Vec<Word>) -> (r: Result<Crossword, CrosswordError>)
        requires
            forall|i: int| 0 <= i < words@.len() ==> (#[trigger] words@[i]).fits(),
        ensures
            match r {
                Ok(c) => c.words@ == words@ && c.wf(),
                Err(e) => e == CrosswordError::EmptyWordList,
            },
            r is Err <==> words@.len() == 0,
    {
        if words.len() == 0 {
            Err(CrosswordError::EmptyWordList)
        } else {
            Ok(Crossword { words })
        }
    }

    /// The bounding rectangle of the puzzle, one past the furthest cell any
    /// word reaches: `x` is the width, `y` the height.
    pub fn size(&self) -> (r: Vec2)
        requires
            self.wf(),
        ensures
            spec_size_of(self.words@, r),
    {
        let first = &self.words[0];
        let mut max_x: usize = first.end_x();
        let mut max_y: usize = first.end_y();
        let mut i: usize = 1;
        while i < self.words.len()
            invariant
                1 <= i <= self.words@.len(),
                self.wf(),
                forall|j: int| 0 <= j < i ==> (#[trigger] self.words@[j]).extent_x() <= max_x,
                forall|j: int| 0 <= j < i ==> (#[trigger] self.words@[j]).extent_y() <= max_y,
                exists|j: int| 0 <= j < i && (#[trigger] self.words@[j]).extent_x() == max_x,
                exists|j: int| 0 <= j < i && (#[trigger] self.words@[j]).extent_y() == max_y,
            decreases self.words@.len() - i,
        {
            let w = &self.words[i];
            let ex = w.end_x();
            let ey = w.end_y();
            if ex > max_x {
                max_x = ex;
            }
            if ey > max_y {
                max_y = ey;
            }
            i += 1;
        }
        Vec2 { x: max_x, y: max_y }
    }

    /// Scans the words in list order; the first word covering `point`
    /// supplies the letter. `None` means the cell is blocked.
    pub fn letter_at(&self, point: Vec2) -> (r: Option<char>)
        ensures
            r == letter_in_words(self.words@, point),
    {
        let mut i: usize = 0;
        while i < self.words.len()
            invariant
                0 <= i <= self.words@.len(),
                letter_in_words(self.words@, point) == letter_from(self.words@, point, i as int),
            decreases self.words@.len() - i,
        {
            let w = &self.words[i];
            if w.contains(point) {
                return Some(w.letter_at(point));
            }
            i += 1;
        }
        None
    }

    /// The index of the first word in list order that covers `point`.
    fn find_first_containing(&self, point: Vec2) -> (r: Option<usize>)
        ensures
            match r {
                Some(i) => first_containing_from(self.words@, point, 0) == Some(i as int)
                    && i < self.words@.len() && self.words@[i as int].spec_contains(point),
                None => first_containing_from(self.words@, point, 0) is None,
            },
    {
        let mut i: usize = 0;
        while i < self.words.len()
            invariant
                0 <= i <= self.words@.len(),
                first_containing_from(self.words@, point, 0)
                    == first_containing_from(self.words@, point, i as int),
            decreases self.words@.len() - i,
        {
            if self.words[i].contains(point) {
                return Some(i);
            }
            i += 1;
        }
        None
    }

    /// The index of the first word in list order that covers `point` and
    /// runs in direction `d`.
    fn find_first_with_dir(&self, point: Vec2, d: Direction) -> (r: Option<usize>)
        ensures
            match r {
                Some(i) => first_with_dir_from(self.words@, point, d, 0) == Some(i as int)
                    && i < self.words@.len() && self.words@[i as int].spec_contains(point),
                None => first_with_dir_from(self.words@, point, d, 0) is None,
            },
    {
        let mut i: usize = 0;
        while i < self.words.len()
            invariant
                0 <= i <= self.words@.len(),
                first_with_dir_from(self.words@, point, d, 0)
                    == first_with_dir_from(self.words@, point, d, i as int),
            decreases self.words@.len() - i,
        {
            let w = &self.words[i];
            if w.contains(point) && w.direction == d {
                return Some(i);
            }
            i += 1;
        }
        None
    }

    /// The word that governs a word-relative move from `point`, preferring
    /// the remembered direction, then list order.
    pub fn active_word_at(&self, point: Vec2, last: Option<Direction>) -> (r: Option<usize>)
        ensures
            match r {
                Some(i) => spec_active_word(self.words@, point, last) == Some(i as int)
                    && i < self.words@.len() && self.words@[i as int].spec_contains(point),
                None => spec_active_word(self.words@, point, last) is None,
            },
    {
        match last {
            None => self.find_first_containing(point),
            Some(d) => match self.find_first_with_dir(point, d) {
                Some(i) => Some(i),
                None => self.find_first_containing(point),
            },
        }
    }

    /// The indices, in list order, of every word whose run covers `point`:
    /// none, one, or — at a crossing — more.
    pub fn words_containing(&self, point: Vec2) -> (r: Vec<usize>)
        ensures
            forall|k: int| 0 <= k < r@.len() ==> (#[trigger] r@[k]) < self.words@.len()
                && self.words@[r@[k] as int].spec_contains(point),
            forall|k1: int, k2: int| 0 <= k1 < k2 < r@.len() ==> r@[k1] < r@[k2],
            forall|i: int| 0 <= i < self.words@.len()
                && (#[trigger] self.words@[i]).spec_contains(point) ==> r@.contains(i as usize),
    {
        let mut r: Vec<usize> = Vec::new();
        let mut i: usize = 0;
        while i < self.words.len()
            invariant
                0 <= i <= self.words@.len(),
                forall|k: int| 0 <= k < r@.len() ==> (#[trigger] r@[k]) < i
                    && self.words@[r@[k] as int].spec_contains(point),
                forall|k1: int, k2: int| 0 <= k1 < k2 < r@.len() ==> r@[k1] < r@[k2],
                forall|j: int| 0 <= j < i && (#[trigger] self.words@[j]).spec_contains(point)
                    ==> r@.contains(j as usize),
            decreases self.words@.len() - i,
        {
            let w = &self.words[i];
            if w.contains(point) {
                let ghost before = r@;
                r.push(i);
                proof {
                    assert forall|j: int| 0 <= j < i + 1
                        && (#[trigger] self.words@[j]).spec_contains(point)
                        implies r@.contains(j as usize) by {
                        if j < i {
                            let k = choose|k: int| 0 <= k < before.len() && before[k] == j as usize;
                            assert(r@[k] == j as usize);
                        } else {
                            assert(r@[r@.len() - 1] == i);
                        }
                    }
                }
            }
            i += 1;
        }
        r
    }
}

} // verus!
