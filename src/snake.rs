//! The snake's body: an ordered run of cells from tail to head.
use crate::grid::{Cell, COLS};
use std::collections::VecDeque;
use vstd::prelude::*;
use vstd::relations::injective_on;
use vstd::set_lib::{lemma_int_range, lemma_len_subset, lemma_map_size, set_int_range};

verus! {

/// Length of the snake at the start of a run.
pub const SNAKE_INIT_SIZE: usize = 3;

/// Row on which the snake starts: the middle row of the board.
pub const SNAKE_INIT_ROW: i32 = 4;

/// Number of cells of the board, the most the snake can ever occupy.
pub const SNAKE_CAP: usize = 144;

/// The snake, tail first and head last.
pub struct Snake {
    pub items: VecDeque<Cell>,
}

/// Every cell of `s` lies on the board, and no cell occurs twice.
pub open spec fn distinct_on_grid(s: Seq<Cell>) -> bool {
    &&& forall|i: int| 0 <= i < s.len() ==> (#[trigger] s[i]).on_grid()
    &&& s.no_duplicates()
}

/// Each cell of `s` is one step away from the next one.
#[verifier::opaque]
pub open spec fn linked(s: Seq<Cell>) -> bool {
    forall|i: int| 0 <= i < s.len() - 1 ==> (#[trigger] s[i]).adjacent(s[i + 1])
}

impl Snake {
    pub open spec fn view(&self) -> Seq<Cell> {
        self.items@
    }

    /// A live snake: at least its initial length, on the board, without
    /// repeated cells, each segment next to the following one.
    pub open spec fn wf(&self) -> bool {
        &&& self@.len() >= SNAKE_INIT_SIZE
        &&& distinct_on_grid(self@)
        &&& linked(self@)
    }

    pub fn contains_cell(&self, cell: &Cell) -> (r: bool)
        ensures
            r == self@.contains(*cell),
    {
        let mut i: usize = 0;
        while i < self.items.len()
            invariant
                0 <= i <= self@.len(),
                forall|j: int| 0 <= j < i ==> self@[j] != *cell,
            decreases self@.len() - i,
        {
            if self.items[i] == *cell {
                return true;
            }
            i = i + 1;
        }
        false
    }

    pub fn size(&self) -> (r: usize)
        ensures
            r == self@.len(),
    {
        self.items.len()
    }
}

/// Number of the cell `c` when the board is read row by row.
pub open spec fn cell_number(c: Cell) -> int {
    c.y * COLS + c.x
}

/// Distinct cells of the board are at most as many as the board has cells.
pub proof fn lemma_distinct_cells_fit_board(s: Seq<Cell>)
    requires
        distinct_on_grid(s),
    ensures
        s.len() <= SNAKE_CAP,
{
    let cells = s.to_set();
    let f = |c: Cell| cell_number(c);
    s.unique_seq_to_set();
    assert(injective_on(f, cells)) by {
        assert forall|a: Cell, b: Cell|
            cells.contains(a) && cells.contains(b) && #[trigger] f(a) == #[trigger] f(b) implies a == b by {
            let i = choose|i: int| 0 <= i < s.len() && s[i] == a;
            let j = choose|j: int| 0 <= j < s.len() && s[j] == b;
            assert(s[i].on_grid());
            assert(s[j].on_grid());
        }
    }
    let numbers = cells.map(f);
    lemma_map_size(cells, numbers, f);
    lemma_int_range(0, 144);
    assert(numbers.subset_of(set_int_range(0, 144))) by {
        assert forall|n: int| numbers.contains(n) implies set_int_range(0, 144).contains(n) by {
            let c = choose|c: Cell| cells.contains(c) && f(c) == n;
            let i = choose|i: int| 0 <= i < s.len() && s[i] == c;
            assert(s[i].on_grid());
        }
    }
    lemma_len_subset(numbers, set_int_range(0, 144));
}

} // verus!
