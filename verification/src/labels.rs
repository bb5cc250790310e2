//! Label assignment: the distinct word-start coordinates, ordered
//! row-major, numbered 1 upward. This ordering is the single source of
//! truth for the number drawn on a grid cell and for the order of the clue
//! lists.

use vstd::prelude::*;

use itertools::Itertools;

use crate::geometry::row_major_lt;
use crate::geometry::Vec2;
use crate::puzzle::Crossword;

verus! {

/// `starts` lists the distinct start coordinates of `words`, ascending in
/// row-major order.
pub open spec fn starts_wf(words: Seq<crate::puzzle::Word>, starts: Seq<Vec2>) -> bool {
    &&& forall|i: int, j: int| 0 <= i < j < starts.len()
        ==> row_major_lt(#[trigger] starts[i], #[trigger] starts[j])
    &&& forall|p: Vec2| #[trigger] starts.contains(p) ==> exists|i: int|
        0 <= i < words.len() && (#[trigger] words[i]).position == p
    &&& forall|i: int| 0 <= i < words.len() ==> starts.contains((#[trigger] words[i]).position)
    &&& starts.len() <= words.len()
}

/// Relies on itertools' `sorted_unstable` and `dedup`: sorting the `(y, x)`
/// pairs ascending and dropping consecutive duplicates leaves exactly the
/// distinct inputs, in ascending row-major order.
#[verifier::external_body]
fn sorted_distinct_positions(positions: &Vec<Vec2>) -> (r: Vec<Vec2>)
    ensures
        forall|i: int, j: int| 0 <= i < j < r@.len()
            ==> row_major_lt(#[trigger] r@[i], #[trigger] r@[j]),
        forall|p: Vec2| #[trigger] r@.contains(p) ==> positions@.contains(p),
        forall|p: Vec2| #[trigger] positions@.contains(p) ==> r@.contains(p),
        r@.len() <= positions@.len(),
{
    positions
        .iter()
        .map(|p| (p.y, p.x))
        .sorted_unstable()
        .dedup()
        .map(|(y, x)| Vec2 { x, y })
        .collect()
}

impl Crossword {
    /// The distinct word-start coordinates, ascending in row-major order.
    /// A coordinate's 1-based index in this list is its displayed clue
    /// number.
    pub fn starts(&self) -> (r: Vec<Vec2>)
        ensures
            starts_wf(self.words@, r@),
    {
        let mut positions: Vec<Vec2> = Vec::new();
        let mut i: usize = 0;
        while i < self.words.len()
            invariant
                0 <= i <= self.words@.len(),
                positions@.len() == i,
                forall|j: int| 0 <= j < i
                    ==> #[trigger] positions@[j] == self.words@[j].position,
            decreases self.words@.len() - i,
        {
            positions.push(self.words[i].position);
            i += 1;
        }
        let r = sorted_distinct_positions(&positions);
        proof {
            assert forall|p: Vec2| #[trigger] r@.contains(p) implies exists|k: int|
                0 <= k < self.words@.len() && (#[trigger] self.words@[k]).position == p by {
                assert(positions@.contains(p));
                let k = choose|k: int| 0 <= k < positions@.len() && positions@[k] == p;
                assert(self.words@[k].position == p);
            }
            assert forall|k: int| 0 <= k < self.words@.len()
                implies r@.contains((#[trigger] self.words@[k]).position) by {
                assert(positions@[k] == self.words@[k].position);
                assert(positions@.contains(self.words@[k].position));
            }
        }
        r
    }
}

impl Crossword {
    /// The indices of the words running in `direction`, in clue-panel
    /// order: ascending by the clue number of their start and, under one
    /// number, by list order.
    pub fn clue_list(&self, starts: &Vec<Vec2>, direction: crate::geometry::Direction) -> (r: Vec<
        usize,
    >)
        requires
            starts_wf(self.words@, starts@),
        ensures
            forall|j: int| 0 <= j < r@.len() ==> (#[trigger] r@[j]) < self.words@.len()
                && self.words@[r@[j] as int].direction == direction,
            forall|j1: int, j2: int| 0 <= j1 < j2 < r@.len()
                ==> clue_order(starts@, self.words@, r@[j1], r@[j2]),
            forall|i: int| 0 <= i < self.words@.len()
                && (#[trigger] self.words@[i]).direction == direction
                ==> r@.contains(i as usize),
    {
        let ghost words = self.words@;
        let mut r: Vec<usize> = Vec::new();
        let mut k: usize = 0;
        while k < starts.len()
            invariant
                starts_wf(words, starts@),
                words == self.words@,
                0 <= k <= starts@.len(),
                forall|j: int| 0 <= j < r@.len() ==> (#[trigger] r@[j]) < words.len()
                    && words[r@[j] as int].direction == direction,
                forall|j: int| 0 <= j < r@.len()
                    ==> match spec_label(starts@, words[(#[trigger] r@[j]) as int].position) {
                        Some(l) => 1 <= l <= k,
                        None => false,
                    },
                forall|j1: int, j2: int| 0 <= j1 < j2 < r@.len()
                    ==> clue_order(starts@, words, r@[j1], r@[j2]),
                forall|i: int| 0 <= i < words.len()
                    && (#[trigger] words[i]).direction == direction
                    && (match spec_label(starts@, words[i].position) {
                        Some(l) => 1 <= l && l <= k,
                        None => false,
                    }) ==> r@.contains(i as usize),
            decreases starts@.len() - k,
        {
            let start = starts[k];
            let mut i: usize = 0;
            while i < self.words.len()
                invariant
                    starts_wf(words, starts@),
                    words == self.words@,
                    0 <= k < starts@.len(),
                    start == starts@[k as int],
                    0 <= i <= words.len(),
                    forall|j: int| 0 <= j < r@.len() ==> (#[trigger] r@[j]) < words.len()
                        && words[r@[j] as int].direction == direction,
                    forall|j: int| 0 <= j < r@.len()
                        ==> match spec_label(starts@, words[(#[trigger] r@[j]) as int].position) {
                            Some(l) => 1 <= l <= k + 1 && (l == k + 1 ==> r@[j] < i),
                            None => false,
                        },
                    forall|j1: int, j2: int| 0 <= j1 < j2 < r@.len()
                        ==> clue_order(starts@, words, r@[j1], r@[j2]),
                    forall|i2: int| 0 <= i2 < words.len()
                        && (#[trigger] words[i2]).direction == direction
                        && (match spec_label(starts@, words[i2].position) {
                            Some(l) => (1 <= l && l <= k) || (l == k + 1 && i2 < i),
                            None => false,
                        }) ==> r@.contains(i2 as usize),
                decreases words.len() - i,
            {
                let w = &self.words[i];
                if w.direction == direction && w.position.x == start.x && w.position.y == start.y {
                    proof {
                        lemma_label_of_start(starts@, k as int);
                    }
                    let ghost before = r@;
                    r.push(i);
                    proof {
                        assert(r@[r@.len() - 1] == i);
                        assert forall|i2: int| 0 <= i2 < words.len()
                            && (#[trigger] words[i2]).direction == direction
                            && (match spec_label(starts@, words[i2].position) {
                                Some(l) => (1 <= l && l <= k) || (l == k + 1 && i2 < i + 1),
                                None => false,
                            }) implies r@.contains(i2 as usize) by {
                            if i2 == i {
                                assert(r@[r@.len() - 1] == i2 as usize);
                            } else {
                                assert(before.contains(i2 as usize));
                                let m = choose|m: int| 0 <= m < before.len()
                                    && before[m] == i2 as usize;
                                assert(r@[m] == i2 as usize);
                            }
                        }
                    }
                } else {
                    proof {
                        assert(starts.len() == starts@.len());
                        if spec_label(starts@, words[i as int].position) == Some((k + 1) as usize) {
                            lemma_label_to_index(starts@, words[i as int].position, 0);
                        }
                    }
                }
                i += 1;
            }
            k += 1;
        }
        proof {
            assert forall|i: int| 0 <= i < words.len()
                && (#[trigger] words[i]).direction == direction
                implies r@.contains(i as usize) by {
                assert(starts@.contains(words[i].position));
                let m = choose|m: int| 0 <= m < starts@.len() && starts@[m] == words[i].position;
                lemma_label_of_start(starts@, m);
                assert(spec_label(starts@, words[i].position) == Some((m + 1) as usize));
            }
        }
        r
    }
}

/// The clue number of `point` counted from the starts at index `from`
/// onward: one past its index in the list, where it appears.
pub open spec fn spec_label_from(starts: Seq<Vec2>, point: Vec2, from: int) -> Option<usize>
    decreases starts.len() - from,
{
    if from < 0 || from >= starts.len() {
        None
    } else if starts[from] == point {
        Some((from + 1) as usize)
    } else {
        spec_label_from(starts, point, from + 1)
    }
}

/// The clue number of `point`: its 1-based index among the starts, if it
/// starts a word.
pub open spec fn spec_label(starts: Seq<Vec2>, point: Vec2) -> Option<usize> {
    spec_label_from(starts, point, 0)
}

/// Looks `point` up among the starts; `Some(n)` is the clue number shown on
/// that cell.
pub fn label_at(starts: &Vec<Vec2>, point: Vec2) -> (r: Option<usize>)
    ensures
        r == spec_label(starts@, point),
{
    let mut i: usize = 0;
    while i < starts.len()
        invariant
            0 <= i <= starts@.len(),
            spec_label(starts@, point) == spec_label_from(starts@, point, i as int),
        decreases starts@.len() - i,
    {
        if starts[i].x == point.x && starts[i].y == point.y {
            return Some(i + 1);
        }
        i += 1;
    }
    None
}

/// A label names the start it was read from: `Some(l)` puts `point` at
/// index `l - 1` of the start list.
pub proof fn lemma_label_to_index(starts: Seq<Vec2>, point: Vec2, from: int)
    requires
        0 <= from,
        starts.len() <= usize::MAX,
        spec_label_from(starts, point, from) is Some,
    ensures
        match spec_label_from(starts, point, from) {
            Some(l) => from + 1 <= l <= starts.len() && starts[l - 1] == point,
            None => false,
        },
    decreases starts.len() - from,
{
    if from < starts.len() && starts[from] != point {
        lemma_label_to_index(starts, point, from + 1);
    }
}

/// `a` precedes `b` in a clue panel: a smaller clue number, or the same
/// number with `a` earlier in the word list.
pub open spec fn clue_order(starts: Seq<Vec2>, words: Seq<crate::puzzle::Word>, a: usize, b: usize) -> bool
    recommends
        a < words.len(),
        b < words.len(),
{
    match (spec_label(starts, words[a as int].position), spec_label(
        starts,
        words[b as int].position,
    )) {
        (Some(la), Some(lb)) => la < lb || (la == lb && a < b),
        _ => false,
    }
}

/// Labels follow row-major reading order, injectively: within a sorted
/// start list an earlier index means a row-major-earlier coordinate, and
/// distinct indices carry distinct coordinates.
pub proof fn lemma_labels_follow_reading_order(starts: Seq<Vec2>, i: int, j: int)
    requires
        forall|a: int, b: int| 0 <= a < b < starts.len()
            ==> row_major_lt(#[trigger] starts[a], #[trigger] starts[b]),
        0 <= i < starts.len(),
        0 <= j < starts.len(),
    ensures
        (i < j) <==> row_major_lt(starts[i], starts[j]),
        (i == j) <==> starts[i] == starts[j],
{
    if i < j {
        assert(row_major_lt(starts[i], starts[j]));
    } else if j < i {
        assert(row_major_lt(starts[j], starts[i]));
    }
}

/// Every start is labelled, with exactly its 1-based position in the list.
pub proof fn lemma_label_of_start(starts: Seq<Vec2>, i: int)
    requires
        forall|a: int, b: int| 0 <= a < b < starts.len()
            ==> row_major_lt(#[trigger] starts[a], #[trigger] starts[b]),
        0 <= i < starts.len(),
    ensures
        spec_label(starts, starts[i]) == Some((i + 1) as usize),
{
    lemma_label_from_of_start(starts, i, 0);
}

proof fn lemma_label_from_of_start(starts: Seq<Vec2>, i: int, from: int)
    requires
        forall|a: int, b: int| 0 <= a < b < starts.len()
            ==> row_major_lt(#[trigger] starts[a], #[trigger] starts[b]),
        0 <= from <= i < starts.len(),
    ensures
        spec_label_from(starts, starts[i], from) == Some((i + 1) as usize),
    decreases i - from,
{
    if from < i {
        assert(row_major_lt(starts[from], starts[i]));
        lemma_label_from_of_start(starts, i, from + 1);
    }
}

} // verus!
