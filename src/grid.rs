//! The toroidal grid: cells, directions and wrap-around movement.
use crate::utils::emod;
use vstd::arithmetic::div_mod::{lemma_add_mod_noop, lemma_mod_twice, lemma_small_mod};
use vstd::prelude::*;

verus! {

/// Side of a cell, in pixels.
pub const CELL_SIZE: i64 = 100;

/// Number of columns of the board.
pub const COLS: i32 = 16;

/// Number of rows of the board.
pub const ROWS: i32 = 9;

/// A heading on the grid; also names the four edges of a rectangle.
#[derive(Clone, Copy, Debug, PartialEq, Eq, Structural)]
pub enum Direction {
    Right,
    Up,
    Left,
    Down,
}

/// The directions in their fixed order of search.
pub const ALL_DIRECTIONS: [Direction; 4] = [
    Direction::Right,
    Direction::Up,
    Direction::Left,
    Direction::Down,
];

impl Direction {
    pub open spec fn spec_dx(self) -> int {
        match self {
            Direction::Right => 1,
            Direction::Left => -1,
            _ => 0,
        }
    }

    pub open spec fn spec_dy(self) -> int {
        match self {
            Direction::Up => -1,
            Direction::Down => 1,
            _ => 0,
        }
    }

    pub open spec fn spec_opposite(self) -> Direction {
        match self {
            Direction::Right => Direction::Left,
            Direction::Up => Direction::Down,
            Direction::Left => Direction::Right,
            Direction::Down => Direction::Up,
        }
    }

    /// The unit cell offset of one step in this direction.
    pub fn delta(self) -> (r: Cell)
        ensures
            r.x as int == self.spec_dx(),
            r.y as int == self.spec_dy(),
    {
        match self {
            Direction::Right => Cell { x: 1, y: 0 },
            Direction::Left => Cell { x: -1, y: 0 },
            Direction::Up => Cell { x: 0, y: -1 },
            Direction::Down => Cell { x: 0, y: 1 },
        }
    }

    pub fn opposite(self) -> (r: Direction)
        ensures
            r == self.spec_opposite(),
    {
        match self {
            Direction::Right => Direction::Left,
            Direction::Up => Direction::Down,
            Direction::Left => Direction::Right,
            Direction::Down => Direction::Up,
        }
    }
}

/// A square of the grid, by column `x` and row `y`.
#[derive(Clone, Copy, Debug, PartialEq, Eq, Structural)]
pub struct Cell {
    pub x: i32,
    pub y: i32,
}

impl Cell {
    pub open spec fn on_grid(self) -> bool {
        0 <= self.x < COLS && 0 <= self.y < ROWS
    }

    /// The cell one step away in direction `d`, wrapped onto the board.
    pub open spec fn spec_advance(self, d: Direction) -> Cell {
        Cell {
            x: ((self.x + d.spec_dx()) % (COLS as int)) as i32,
            y: ((self.y + d.spec_dy()) % (ROWS as int)) as i32,
        }
    }

    /// `other` is one step away from `self` in some direction.
    pub open spec fn adjacent(self, other: Cell) -> bool {
        ||| self.spec_advance(Direction::Right) == other
        ||| self.spec_advance(Direction::Up) == other
        ||| self.spec_advance(Direction::Left) == other
        ||| self.spec_advance(Direction::Down) == other
    }

    /// The first direction, in the order of `ALL_DIRECTIONS`, that leads from
    /// `self` to `other` (`Down` when none does).
    pub open spec fn spec_dir_to(self, other: Cell) -> Direction {
        if self.spec_advance(Direction::Right) == other {
            Direction::Right
        } else if self.spec_advance(Direction::Up) == other {
            Direction::Up
        } else if self.spec_advance(Direction::Left) == other {
            Direction::Left
        } else {
            Direction::Down
        }
    }

    /// Component-wise sum, without wrapping.
    pub fn plus(self, other: Cell) -> (r: Cell)
        requires
            i32::MIN <= self.x + other.x <= i32::MAX,
            i32::MIN <= self.y + other.y <= i32::MAX,
        ensures
            r.x == self.x + other.x,
            r.y == self.y + other.y,
    {
        Cell { x: self.x + other.x, y: self.y + other.y }
    }

    /// Reduces both coordinates onto the board.
    pub fn wrap_by_game_size(&mut self)
        ensures
            final(self).x as int == old(self).x as int % (COLS as int),
            final(self).y as int == old(self).y as int % (ROWS as int),
            final(self).on_grid(),
    {
        self.x = emod(self.x, COLS);
        self.y = emod(self.y, ROWS);
    }

    /// One step in direction `dir`, wrapping around the board's edges.
    pub fn advance(&self, dir: Direction) -> (r: Cell)
        ensures
            r == self.spec_advance(dir),
            r.on_grid(),
    {
        let dir_cell = dir.delta();
        let base = Cell { x: emod(self.x, COLS), y: emod(self.y, ROWS) };
        let mut res = base.plus(dir_cell);
        res.wrap_by_game_size();
        proof {
            lemma_add_mod_noop(self.x as int, dir.spec_dx(), COLS as int);
            lemma_mod_twice(self.x as int, COLS as int);
            lemma_add_mod_noop(base.x as int, dir.spec_dx(), COLS as int);
            lemma_small_mod((dir.spec_dx() % (COLS as int)) as nat, COLS as nat);
            lemma_add_mod_noop(self.y as int, dir.spec_dy(), ROWS as int);
            lemma_mod_twice(self.y as int, ROWS as int);
            lemma_add_mod_noop(base.y as int, dir.spec_dy(), ROWS as int);
        }
        res
    }

    /// The first direction, in the order of `ALL_DIRECTIONS`, that leads from
    /// `self` to `another`.
    pub fn determine_dir(&self, another: &Cell) -> (d: Direction)
        requires
            self.adjacent(*another),
        ensures
            d == self.spec_dir_to(*another),
            self.spec_advance(d) == *another,
    {
        let mut i: usize = 0;
        while i < 4
            invariant
                0 <= i <= 4,
                self.adjacent(*another),
                forall|j: int| 0 <= j < i ==> self.spec_advance(#[trigger] ALL_DIRECTIONS[j]) != *another,
            decreases 4 - i,
        {
            let dir = ALL_DIRECTIONS[i];
            if self.advance(dir) == *another {
                proof {
                    assert(ALL_DIRECTIONS[0] == Direction::Right);
                    assert(ALL_DIRECTIONS[1] == Direction::Up);
                    assert(ALL_DIRECTIONS[2] == Direction::Left);
                }
                return dir;
            }
            i = i + 1;
        }
        proof {
            assert(ALL_DIRECTIONS[0] == Direction::Right);
            assert(ALL_DIRECTIONS[1] == Direction::Up);
            assert(ALL_DIRECTIONS[2] == Direction::Left);
            assert(ALL_DIRECTIONS[3] == Direction::Down);
        }
        Direction::Right
    }
}

/// Adjacency between cells of the board goes both ways.
pub proof fn lemma_adjacent_symmetric(a: Cell, b: Cell)
    requires
        a.on_grid(),
        a.adjacent(b),
    ensures
        b.adjacent(a),
{
    let d = a.spec_dir_to(b);
    lemma_advance_round_trip(a, d);
    assert(b.spec_advance(d.spec_opposite()) == a);
}

/// Moving one step and then one step in the opposite direction returns to the
/// starting cell, for every cell of the board.
pub proof fn lemma_advance_round_trip(c: Cell, d: Direction)
    requires
        c.on_grid(),
    ensures
        c.spec_advance(d).spec_advance(d.spec_opposite()) == c,
{
}

} // verus!
