//! The cursor/navigation state machine and the solution store: selection,
//! remembered direction, word-aware movement, letter entry and checking.

use vstd::prelude::*;

use crate::geometry::Direction;
use crate::geometry::Vec2;
use crate::grid::spec_cell;
use crate::grid::spec_point_of;
use crate::grid::Cell;
use crate::labels::starts_wf;
use crate::puzzle::spec_size_of;
use crate::puzzle::Crossword;
use crate::puzzle::Word;

verus! {

/// One discrete move command: four spatial moves, and two word-relative
/// moves that advance or retreat along the active word.
#[derive(Clone, Copy, PartialEq, Eq, Structural, Debug)]
pub enum Move {
    Left,
    Right,
    Up,
    Down,
    Next,
    Previous,
}

impl Move {
    /// The four arrow moves; `Next` and `Previous` are word-relative.
    pub open spec fn is_spatial(self) -> bool {
        self !is Next && self !is Previous
    }

    /// The direction a successful spatial move remembers.
    pub open spec fn spec_direction(self) -> Option<Direction> {
        match self {
            Move::Left | Move::Right => Some(Direction::Across),
            Move::Up | Move::Down => Some(Direction::Down),
            Move::Next | Move::Previous => None,
        }
    }

    /// The edge test: from flat index `s` the move would leave the `size`
    /// rectangle.
    pub open spec fn spec_out_of_bounds(self, size: Vec2, s: int) -> bool
        recommends
            self.is_spatial(),
    {
        match self {
            Move::Left => s % (size.x as int) == 0,
            Move::Right => s % (size.x as int) == size.x as int - 1,
            Move::Up => s < size.x as int,
            Move::Down => s >= (size.x as int) * (size.y as int - 1),
            Move::Next | Move::Previous => true,
        }
    }

    /// The flat index one cell over in the move's direction.
    pub open spec fn spec_target(self, size: Vec2, s: int) -> int
        recommends
            self.is_spatial(),
            !self.spec_out_of_bounds(size, s),
    {
        match self {
            Move::Left => s - 1,
            Move::Right => s + 1,
            Move::Up => s - size.x as int,
            Move::Down => s + size.x as int,
            Move::Next | Move::Previous => s,
        }
    }

    /// The reverse of the move.
    pub open spec fn spec_opposite(self) -> Move {
        match self {
            Move::Left => Move::Right,
            Move::Right => Move::Left,
            Move::Up => Move::Down,
            Move::Down => Move::Up,
            Move::Next => Move::Previous,
            Move::Previous => Move::Next,
        }
    }

    /// The spatial move that advances along a word of direction `d`.
    pub open spec fn spec_of_direction(d: Direction) -> Move {
        match d {
            Direction::Across => Move::Right,
            Direction::Down => Move::Down,
        }
    }

    /// The direction this move remembers when it succeeds.
    pub fn direction(self) -> (r: Option<Direction>)
        ensures
            r == self.spec_direction(),
    {
        match self {
            Move::Left | Move::Right => Some(Direction::Across),
            Move::Up | Move::Down => Some(Direction::Down),
            Move::Next | Move::Previous => None,
        }
    }

    /// The reverse of the move.
    pub fn opposite(self) -> (r: Move)
        ensures
            r == self.spec_opposite(),
    {
        match self {
            Move::Left => Move::Right,
            Move::Right => Move::Left,
            Move::Up => Move::Down,
            Move::Down => Move::Up,
            Move::Next => Move::Previous,
            Move::Previous => Move::Next,
        }
    }

    /// The spatial move that advances along a word of direction `d`.
    pub fn of_direction(d: Direction) -> (r: Move)
        ensures
            r == Move::spec_of_direction(d),
    {
        match d {
            Direction::Across => Move::Right,
            Direction::Down => Move::Down,
        }
    }

    /// Decides the edge test for a spatial move from `s`, checked strictly
    /// before any index arithmetic.
    pub fn out_of_bounds(self, size: Vec2, s: usize) -> (r: bool)
        requires
            self.is_spatial(),
            0 < size.x,
            0 < size.y,
            size.x * size.y <= usize::MAX,
            s < size.x * size.y,
        ensures
            r == self.spec_out_of_bounds(size, s as int),
    {
        match self {
            Move::Left => s % size.x == 0,
            Move::Right => s % size.x == size.x - 1,
            Move::Up => s < size.x,
            Move::Down => {
                proof {
                    assert(size.x * (size.y - 1) <= size.x * size.y) by (nonlinear_arith)
                        requires 0 < size.x && 0 < size.y;
                }
                s >= size.x * (size.y - 1)
            },
            Move::Next | Move::Previous => true,
        }
    }

    /// The flat index one cell over; the edge test has already passed, so
    /// the result stays inside the grid.
    pub fn target(self, size: Vec2, s: usize) -> (r: usize)
        requires
            self.is_spatial(),
            0 < size.x,
            0 < size.y,
            size.x * size.y <= usize::MAX,
            s < size.x * size.y,
            !self.spec_out_of_bounds(size, s as int),
        ensures
            r == self.spec_target(size, s as int),
            r < size.x * size.y,
    {
        match self {
            Move::Left => {
                proof {
                    assert(0int % (size.x as int) == 0);
                }
                s - 1
            },
            Move::Right => {
                proof {
                    lemma_right_target_in_bounds(size, s as int);
                }
                s + 1
            },
            Move::Up => s - size.x,
            Move::Down => {
                proof {
                    assert(s + size.x < size.x * size.y) by (nonlinear_arith)
                        requires 0 < size.x && 0 < size.y && s < size.x * (size.y - 1);
                }
                s + size.x
            },
            Move::Next | Move::Previous => s,
        }
    }
}

/// One decoded keyboard event.
#[derive(Clone, Copy, PartialEq, Eq, Structural, Debug)]
pub enum Input {
    Letter(char),
    ArrowLeft,
    ArrowRight,
    ArrowUp,
    ArrowDown,
    Backspace,
    Escape,
}

/// The letter a single-character key press enters: ascii letters only,
/// stored uppercase; every other key enters nothing.
pub open spec fn spec_key_letter(c: char) -> Option<char> {
    if 97 <= c as u32 && c as u32 <= 122 {
        Some(((c as u32) - 32) as char)
    } else if 65 <= c as u32 && c as u32 <= 90 {
        Some(c)
    } else {
        None
    }
}

/// Maps a single-character key press to the letter it enters, uppercased,
/// or `None` for a key that enters nothing.
pub fn key_letter(c: char) -> (r: Option<char>)
    ensures
        r == spec_key_letter(c),
{
    match c {
        'a' => Some('A'),
        'b' => Some('B'),
        'c' => Some('C'),
        'd' => Some('D'),
        'e' => Some('E'),
        'f' => Some('F'),
        'g' => Some('G'),
        'h' => Some('H'),
        'i' => Some('I'),
        'j' => Some('J'),
        'k' => Some('K'),
        'l' => Some('L'),
        'm' => Some('M'),
        'n' => Some('N'),
        'o' => Some('O'),
        'p' => Some('P'),
        'q' => Some('Q'),
        'r' => Some('R'),
        's' => Some('S'),
        't' => Some('T'),
        'u' => Some('U'),
        'v' => Some('V'),
        'w' => Some('W'),
        'x' => Some('X'),
        'y' => Some('Y'),
        'z' => Some('Z'),
        'A' | 'B' | 'C' | 'D' | 'E' | 'F' | 'G' | 'H' | 'I' | 'J' | 'K' | 'L' | 'M' | 'N' | 'O'
            | 'P' | 'Q' | 'R' | 'S' | 'T' | 'U' | 'V' | 'W' | 'X' | 'Y' | 'Z' => Some(c),
        _ => None,
    }
}

/// The word-relative move an input translates to at `point`: the active
/// word's own advance for a letter, its retreat for a delete.
pub open spec fn spec_word_move(
    words: Seq<Word>,
    point: Vec2,
    last: Option<Direction>,
    forward: bool,
) -> Option<Move> {
    match crate::puzzle::spec_active_word(words, point, last) {
        None => None,
        Some(i) => {
            let m = Move::spec_of_direction(words[i].direction);
            Some(if forward { m } else { m.spec_opposite() })
        },
    }
}

/// The move an input asks for from the cell at `point`: arrows move
/// spatially, a letter advances along the active word, delete retreats
/// along it, and Escape asks for none.
pub open spec fn spec_requested_move(
    words: Seq<Word>,
    point: Vec2,
    last: Option<Direction>,
    input: Input,
) -> Option<Move> {
    match input {
        Input::ArrowLeft => Some(Move::Left),
        Input::ArrowRight => Some(Move::Right),
        Input::ArrowUp => Some(Move::Up),
        Input::ArrowDown => Some(Move::Down),
        Input::Letter(_) => spec_word_move(words, point, last, true),
        Input::Backspace => spec_word_move(words, point, last, false),
        Input::Escape => None,
    }
}

/// Where a spatial move from `s` lands: `None` when the edge test fails or
/// the target cell is blocked, and the move is then a no-op.
pub open spec fn spec_move_target(grid: Seq<Cell>, size: Vec2, s: int, m: Move) -> Option<int> {
    if m.spec_out_of_bounds(size, s) {
        None
    } else {
        let t = m.spec_target(size, s);
        if grid[t] is Blocked {
            None
        } else {
            Some(t)
        }
    }
}

/// The selection and remembered direction after one input: Escape always
/// deselects; with nothing selected every other input is a no-op; otherwise
/// the requested move is applied under the edge and blocked-cell tests, a
/// successful move also recording its direction.
pub open spec fn spec_step(
    words: Seq<Word>,
    grid: Seq<Cell>,
    size: Vec2,
    selected: Option<usize>,
    last: Option<Direction>,
    input: Input,
) -> (Option<usize>, Option<Direction>) {
    if input is Escape {
        (None::<usize>, last)
    } else {
        match selected {
            None => (selected, last),
            Some(s) => match spec_requested_move(words, spec_point_of(size, s as int), last, input) {
                None => (selected, last),
                Some(m) => match spec_move_target(grid, size, s as int, m) {
                    None => (selected, last),
                    Some(t) => (Some(t as usize), m.spec_direction()),
                },
            },
        }
    }
}

/// The solution edit an input performs: a letter is written, delete blanks
/// the entry, everything else leaves the store alone.
pub open spec fn spec_edit(input: Input) -> Option<Option<char>> {
    match input {
        Input::Letter(c) => Some(Some(c)),
        Input::Backspace => Some(None::<char>),
        _ => None,
    }
}

/// The store after one input: the edit lands at the cell that was selected
/// when the input arrived, before any movement.
pub open spec fn spec_solution_after(
    sol: Seq<Option<char>>,
    selected: Option<usize>,
    input: Input,
) -> Seq<Option<char>> {
    match selected {
        Some(s) => match spec_edit(input) {
            Some(v) => sol.update(s as int, v),
            None => sol,
        },
        None => sol,
    }
}

/// The store is non-empty and no entry is absent: every occupied cell holds
/// an entered letter.
pub open spec fn spec_complete(grid: Seq<Cell>, sol: Seq<Option<char>>) -> bool {
    &&& exists|k: int| 0 <= k < grid.len() && (#[trigger] grid[k]) is Occupied
    &&& forall|k: int| 0 <= k < grid.len() && (#[trigger] grid[k]) is Occupied
        ==> sol[k] is Some
}

/// The store is non-empty and every entry equals the grid's letter at its
/// index.
pub open spec fn spec_correct(grid: Seq<Cell>, sol: Seq<Option<char>>) -> bool {
    &&& exists|k: int| 0 <= k < grid.len() && (#[trigger] grid[k]) is Occupied
    &&& forall|k: int| 0 <= k < grid.len() && (#[trigger] grid[k]) is Occupied
        ==> sol[k] == Some(grid[k]->letter)
}

/// An empty or incomplete store is never correct: correctness entails
/// completeness.
pub proof fn lemma_incomplete_not_correct(grid: Seq<Cell>, sol: Seq<Option<char>>)
    requires
        !spec_complete(grid, sol),
    ensures
        !spec_correct(grid, sol),
{
    if spec_correct(grid, sol) {
        assert forall|k: int| 0 <= k < grid.len() && (#[trigger] grid[k]) is Occupied
            implies sol[k] is Some by {
            assert(sol[k] == Some(grid[k]->letter));
        }
    }
}

/// From a boundary cell, the edge-violating arrow leaves the selection and
/// the remembered direction exactly as they were.
pub proof fn lemma_boundary_arrow_noop(
    words: Seq<Word>,
    grid: Seq<Cell>,
    size: Vec2,
    s: usize,
    last: Option<Direction>,
    sol: Seq<Option<char>>,
    input: Input,
)
    requires
        match input {
            Input::ArrowLeft => Move::Left.spec_out_of_bounds(size, s as int),
            Input::ArrowRight => Move::Right.spec_out_of_bounds(size, s as int),
            Input::ArrowUp => Move::Up.spec_out_of_bounds(size, s as int),
            Input::ArrowDown => Move::Down.spec_out_of_bounds(size, s as int),
            _ => false,
        },
    ensures
        spec_step(words, grid, size, Some(s), last, input) == (Some(s), last),
        spec_solution_after(sol, Some(s), input) == sol,
{
}

/// Typing at the final cell of the active word, with no cell to advance
/// into, leaves the selection where it is — while the letter is still
/// written at that cell.
pub proof fn lemma_letter_at_word_end(
    words: Seq<Word>,
    grid: Seq<Cell>,
    size: Vec2,
    s: usize,
    last: Option<Direction>,
    sol: Seq<Option<char>>,
    c: char,
)
    requires
        0 <= s < sol.len(),
        match spec_word_move(words, spec_point_of(size, s as int), last, true) {
            Some(m) => spec_move_target(grid, size, s as int, m) is None,
            None => false,
        },
    ensures
        spec_step(words, grid, size, Some(s), last, Input::Letter(c)) == (Some(s), last),
        spec_solution_after(sol, Some(s), Input::Letter(c))[s as int] == Some(c),
{
}

/// Writing a letter and immediately deleting it restores the whole store,
/// provided the write could not advance the selection and the cell held
/// nothing before; the selection afterwards may differ from where it began.
pub proof fn lemma_write_then_delete_round_trip(
    words: Seq<Word>,
    grid: Seq<Cell>,
    size: Vec2,
    s: usize,
    last: Option<Direction>,
    sol: Seq<Option<char>>,
    c: char,
)
    requires
        0 <= s < sol.len(),
        sol[s as int] is None,
        spec_step(words, grid, size, Some(s), last, Input::Letter(c)).0 == Some(s),
    ensures
        ({
            let after_write = spec_step(words, grid, size, Some(s), last, Input::Letter(c));
            let sol_written = spec_solution_after(sol, Some(s), Input::Letter(c));
            spec_solution_after(sol_written, after_write.0, Input::Backspace) == sol
        }),
{
    let after_write = spec_step(words, grid, size, Some(s), last, Input::Letter(c));
    let sol_written = spec_solution_after(sol, Some(s), Input::Letter(c));
    let sol_deleted = spec_solution_after(sol_written, after_write.0, Input::Backspace);
    assert(sol_deleted =~= sol);
}

/// A cell not in the rightmost column has its right neighbour inside the
/// grid.
proof fn lemma_right_target_in_bounds(size: Vec2, s: int)
    requires
        0 < size.x,
        0 < size.y,
        0 <= s < size.x * size.y,
        s % (size.x as int) != size.x as int - 1,
    ensures
        s + 1 < size.x * size.y,
{
    let sx = size.x as int;
    let sy = size.y as int;
    assert((sx * sy - 1) % sx == sx - 1) by (nonlinear_arith)
        requires 0 < sx && 0 < sy;
    if s == sx * sy - 1 {
        assert(false);
    }
}

/// One active puzzle sitting: the immutable puzzle, its grid, and the only
/// two mutable pieces of state — the selection and the entered letters.
pub struct Session {
    pub crossword: Crossword,
    pub starts: Vec<Vec2>,
    pub size: Vec2,
    pub grid: Vec<Cell>,
    pub selected: Option<usize>,
    pub last_direction: Option<Direction>,
    pub solution: Vec<Option<char>>,
}

impl Session {
    /// The session invariant: the grid and starts agree with the puzzle,
    /// the store is keyed like the grid with blocked cells forever absent,
    /// and the selection, when there is one, sits on an occupied cell.
    pub open spec fn wf(self) -> bool {
        &&& self.crossword.wf()
        &&& spec_size_of(self.crossword.words@, self.size)
        &&& starts_wf(self.crossword.words@, self.starts@)
        &&& self.grid@.len() == self.size.x * self.size.y
        &&& forall|k: int| 0 <= k < self.grid@.len()
            ==> #[trigger] self.grid@[k] == spec_cell(self.crossword.words@, self.starts@, self.size, k)
        &&& self.solution@.len() == self.grid@.len()
        &&& forall|k: int| 0 <= k < self.grid@.len() && self.grid@[k] is Blocked
            ==> #[trigger] self.solution@[k] is None
        &&& match self.selected {
            Some(s) => s < self.grid@.len() && self.grid@[s as int] is Occupied,
            None => true,
        }
    }

    /// Opens a fresh session: grid built, nothing selected, no direction
    /// remembered, every entry absent.
    pub fn new(crossword: Crossword) -> (r: Session)
        requires
            crossword.wf(),
            forall|s: Vec2| #[trigger] spec_size_of(crossword.words@, s)
                ==> s.x * s.y <= usize::MAX,
        ensures
            r.wf(),
            r.crossword == crossword,
            r.selected is None,
            r.last_direction is None,
            forall|k: int| 0 <= k < r.solution@.len() ==> #[trigger] r.solution@[k] is None,
    {
        let size = crossword.size();
        let starts = crossword.starts();
        let grid = crossword.build_grid(size, &starts);
        let mut solution: Vec<Option<char>> = Vec::new();
        let mut k: usize = 0;
        let total = grid.len();
        while k < total
            invariant
                solution@.len() == k,
                k <= total,
                forall|j: int| 0 <= j < k ==> #[trigger] solution@[j] is None,
            decreases total - k,
        {
            solution.push(None);
            k += 1;
        }
        Session {
            crossword,
            starts,
            size,
            grid,
            selected: None,
            last_direction: None,
            solution,
        }
    }

    /// The word-relative move an input translates to at `point`.
    fn word_move(&self, point: Vec2, forward: bool) -> (r: Option<Move>)
        ensures
            r == spec_word_move(self.crossword.words@, point, self.last_direction, forward),
    {
        match self.crossword.active_word_at(point, self.last_direction) {
            None => None,
            Some(i) => {
                let m = Move::of_direction(self.crossword.words[i].direction);
                if forward {
                    Some(m)
                } else {
                    Some(m.opposite())
                }
            },
        }
    }

    /// Processes one decoded keyboard event: Escape deselects; an arrow
    /// moves spatially; a letter writes at the selected cell and then
    /// advances along the active word; delete blanks the cell and then
    /// retreats. The returned flag says whether the store changed, so the
    /// caller can publish a fresh snapshot.
    pub fn handle_key(&mut self, input: Input) -> (changed: bool)
        requires
            old(self).wf(),
        ensures
            final(self).wf(),
            final(self).crossword == old(self).crossword,
            final(self).starts == old(self).starts,
            final(self).size == old(self).size,
            final(self).grid == old(self).grid,
            (final(self).selected, final(self).last_direction) == spec_step(
                old(self).crossword.words@,
                old(self).grid@,
                old(self).size,
                old(self).selected,
                old(self).last_direction,
                input,
            ),
            final(self).solution@ == spec_solution_after(
                old(self).solution@,
                old(self).selected,
                input,
            ),
            changed == (old(self).selected is Some && spec_edit(input) is Some),
    {
        match input {
            Input::Escape => {
                self.selected = None;
                return false;
            },
            _ => {},
        }
        let s = match self.selected {
            Some(s) => s,
            None => {
                return false;
            },
        };
        proof {
            if self.size.x == 0 {
                assert(self.grid@.len() == 0);
            }
            if self.size.y == 0 {
                assert(self.size.x * self.size.y == 0) by (nonlinear_arith)
                    requires self.size.y == 0;
            }
        }
        let point = Vec2 { x: s % self.size.x, y: s / self.size.x };
        let mv: Option<Move> = match input {
            Input::ArrowLeft => Some(Move::Left),
            Input::ArrowRight => Some(Move::Right),
            Input::ArrowUp => Some(Move::Up),
            Input::ArrowDown => Some(Move::Down),
            Input::Letter(_) => self.word_move(point, true),
            Input::Backspace => self.word_move(point, false),
            Input::Escape => None,
        };
        proof {
            assert(self.grid.len() == self.grid@.len());
            assert(self.size.x * self.size.y <= usize::MAX);
        }
        match mv {
            Some(m) => {
                if !m.out_of_bounds(self.size, s) {
                    let t = m.target(self.size, s);
                    let blocked = match self.grid[t] {
                        Cell::Blocked => true,
                        Cell::Occupied { .. } => false,
                    };
                    if !blocked {
                        self.selected = Some(t);
                        self.last_direction = m.direction();
                    }
                }
            },
            None => {},
        }
        match input {
            Input::Letter(c) => {
                self.solution[s] = Some(c);
                true
            },
            Input::Backspace => {
                self.solution[s] = None;
                true
            },
            _ => false,
        }
    }

    /// Every entry of the store holds a letter — and there is at least one
    /// entry to hold.
    pub fn is_complete(&self) -> (r: bool)
        requires
            self.wf(),
        ensures
            r == spec_complete(self.grid@, self.solution@),
    {
        let mut any: bool = false;
        let mut all: bool = true;
        let mut k: usize = 0;
        while k < self.grid.len()
            invariant
                self.wf(),
                0 <= k <= self.grid@.len(),
                any == exists|j: int| 0 <= j < k && #[trigger] self.grid@[j] is Occupied,
                all == forall|j: int| 0 <= j < k && #[trigger] self.grid@[j] is Occupied
                    ==> self.solution@[j] is Some,
            decreases self.grid@.len() - k,
        {
            let occupied = match self.grid[k] {
                Cell::Blocked => false,
                Cell::Occupied { .. } => true,
            };
            if occupied {
                any = true;
                let filled = match self.solution[k] {
                    Some(_) => true,
                    None => false,
                };
                if !filled {
                    all = false;
                }
            }
            k += 1;
        }
        any && all
    }

    /// Every stored letter equals the grid's letter at its index — and the
    /// store is not empty.
    pub fn is_correct(&self) -> (r: bool)
        requires
            self.wf(),
        ensures
            r == spec_correct(self.grid@, self.solution@),
    {
        let mut any: bool = false;
        let mut all: bool = true;
        let mut k: usize = 0;
        while k < self.grid.len()
            invariant
                self.wf(),
                0 <= k <= self.grid@.len(),
                any == exists|j: int| 0 <= j < k && #[trigger] self.grid@[j] is Occupied,
                all == forall|j: int| 0 <= j < k && #[trigger] self.grid@[j] is Occupied
                    ==> self.solution@[j] == Some(self.grid@[j]->letter),
            decreases self.grid@.len() - k,
        {
            match self.grid[k] {
                Cell::Blocked => {},
                Cell::Occupied { letter, .. } => {
                    any = true;
                    let good = match self.solution[k] {
                        Some(c) => c == letter,
                        None => false,
                    };
                    if !good {
                        all = false;
                    }
                },
            }
            k += 1;
        }
        any && all
    }

    /// The full current mapping from occupied-cell index to entered letter,
    /// ascending by index: the snapshot handed to the change listener.
    pub fn solution_snapshot(&self) -> (r: Vec<(usize, Option<char>)>)
        requires
            self.wf(),
        ensures
            forall|j: int| 0 <= j < r@.len() ==> (#[trigger] r@[j]).0 < self.grid@.len()
                && self.grid@[r@[j].0 as int] is Occupied
                && r@[j].1 == self.solution@[r@[j].0 as int],
            forall|j1: int, j2: int| 0 <= j1 < j2 < r@.len() ==> r@[j1].0 < r@[j2].0,
            forall|k: int| 0 <= k < self.grid@.len() && (#[trigger] self.grid@[k]) is Occupied
                ==> exists|j: int| 0 <= j < r@.len() && (#[trigger] r@[j]).0 == k,
    {
        let mut r: Vec<(usize, Option<char>)> = Vec::new();
        let mut k: usize = 0;
        while k < self.grid.len()
            invariant
                self.wf(),
                0 <= k <= self.grid@.len(),
                forall|j: int| 0 <= j < r@.len() ==> (#[trigger] r@[j]).0 < k
                    && self.grid@[r@[j].0 as int] is Occupied
                    && r@[j].1 == self.solution@[r@[j].0 as int],
                forall|j1: int, j2: int| 0 <= j1 < j2 < r@.len() ==> r@[j1].0 < r@[j2].0,
                forall|j: int| 0 <= j < k && (#[trigger] self.grid@[j]) is Occupied
                    ==> exists|i: int| 0 <= i < r@.len() && (#[trigger] r@[i]).0 == j,
            decreases self.grid@.len() - k,
        {
            let occupied = match self.grid[k] {
                Cell::Blocked => false,
                Cell::Occupied { .. } => true,
            };
            if occupied {
                let ghost before = r@;
                r.push((k, self.solution[k]));
                proof {
                    assert(r@[r@.len() - 1].0 == k);
                    assert forall|j: int| 0 <= j < k + 1
                        && (#[trigger] self.grid@[j]) is Occupied
                        implies exists|i: int| 0 <= i < r@.len() && (#[trigger] r@[i]).0 == j by {
                        if j < k {
                            let i = choose|i: int| 0 <= i < before.len() && (#[trigger] before[i]).0 == j;
                            assert(r@[i].0 == j);
                        } else {
                            assert(r@[r@.len() - 1].0 == j);
                        }
                    }
                }
            }
            k += 1;
        }
        r
    }

    /// A focus event on cell `index`: focusing the already-selected cell
    /// deselects, focusing a blocked cell deselects, and focusing any other
    /// occupied cell moves the selection there, the remembered direction
    /// untouched.
    pub fn select_cell(&mut self, index: usize)
        requires
            old(self).wf(),
            index < old(self).grid@.len(),
        ensures
            final(self).wf(),
            final(self).crossword == old(self).crossword,
            final(self).starts == old(self).starts,
            final(self).size == old(self).size,
            final(self).grid == old(self).grid,
            final(self).solution == old(self).solution,
            final(self).last_direction == old(self).last_direction,
            final(self).selected == (
                if old(self).grid@[index as int] is Blocked || old(self).selected == Some(index) {
                    None::<usize>
                } else {
                    Some(index)
                }
            ),
    {
        let blocked = match self.grid[index] {
            Cell::Blocked => true,
            Cell::Occupied { .. } => false,
        };
        let same = match self.selected {
            Some(s) => s == index,
            None => false,
        };
        if blocked || same {
            self.selected = None;
        } else {
            self.selected = Some(index);
        }
    }
}

} // verus!
