//! Coordinates and directions on the toroidal playfield.

use vstd::prelude::*;

verus! {

/// Number of rows of the playfield.
pub const ROWS: usize = 22;

/// Number of columns of the playfield.
pub const COLS: usize = 39;

/// Number of cells of the playfield, `ROWS * COLS`.
pub const CELLS: usize = 858;

/// One of the four ways the snake can travel.
#[derive(Clone, Copy, Debug, PartialEq, Eq, Structural)]
pub enum Direction {
    Left,
    Up,
    Right,
    Down,
}

impl Direction {
    /// Left and Right form the horizontal axis, Up and Down the vertical one.
    pub open spec fn is_horizontal(self) -> bool {
        self == Direction::Left || self == Direction::Right
    }

    /// Two directions share an axis when both are horizontal or both vertical.
    pub open spec fn same_axis(self, other: Direction) -> bool {
        self.is_horizontal() == other.is_horizontal()
    }

    /// The direction that undoes a step in this one.
    pub open spec fn opposite(self) -> Direction {
        match self {
            Direction::Left => Direction::Right,
            Direction::Up => Direction::Down,
            Direction::Right => Direction::Left,
            Direction::Down => Direction::Up,
        }
    }

    /// Whether `self` and `other` lie on one axis.
    pub fn shares_axis(self, other: Direction) -> (b: bool)
        ensures
            b == self.same_axis(other),
    {
        let h1 = match self {
            Direction::Left | Direction::Right => true,
            Direction::Up | Direction::Down => false,
        };
        let h2 = match other {
            Direction::Left | Direction::Right => true,
            Direction::Up | Direction::Down => false,
        };
        h1 == h2
    }

    /// The reverse of this direction.
    pub fn reversed(self) -> (d: Direction)
        ensures
            d == self.opposite(),
    {
        match self {
            Direction::Left => Direction::Right,
            Direction::Up => Direction::Down,
            Direction::Right => Direction::Left,
            Direction::Down => Direction::Up,
        }
    }
}

/// A position on the playfield: a row and a column. Every value that a
/// program holds lies on the grid.
#[derive(Clone, Copy, Debug, PartialEq, Eq, Structural)]
pub struct Coord {
    pub(crate) row: usize,
    pub(crate) col: usize,
}

impl Coord {
    /// The row of this coordinate.
    pub open(crate) spec fn row_of(self) -> int {
        self.row as int
    }

    /// The column of this coordinate.
    pub open(crate) spec fn col_of(self) -> int {
        self.col as int
    }

    /// The coordinate with the given row and column.
    pub open(crate) spec fn at(row: int, col: int) -> Coord {
        Coord { row: row as usize, col: col as usize }
    }

    /// A coordinate is valid when it lies on the grid.
    #[verifier::type_invariant]
    pub open spec fn on_grid(self) -> bool {
        0 <= self.row_of() < ROWS && 0 <= self.col_of() < COLS
    }

    /// Position of this coordinate in the row-major sequence of cells.
    pub open spec fn index(self) -> int {
        self.row_of() * COLS + self.col_of()
    }

    /// The neighbour one step away in direction `d`, wrapping at the edges.
    pub open spec fn step(self, d: Direction) -> Coord {
        match d {
            Direction::Left => Coord::at(
                self.row_of(),
                (self.col_of() + COLS - 1) % (COLS as int),
            ),
            Direction::Up => Coord::at((self.row_of() + ROWS - 1) % (ROWS as int), self.col_of()),
            Direction::Right => Coord::at(self.row_of(), (self.col_of() + 1) % (COLS as int)),
            Direction::Down => Coord::at((self.row_of() + 1) % (ROWS as int), self.col_of()),
        }
    }

    /// The coordinate `(row, col)` if it lies on the grid.
    pub fn new(row: usize, col: usize) -> (r: Option<Coord>)
        ensures
            r == (if row < ROWS && col < COLS {
                Some(Coord::at(row as int, col as int))
            } else {
                None
            }),
    {
        if row < ROWS && col < COLS {
            Some(Coord { row, col })
        } else {
            None
        }
    }

    /// The row, counted from the top.
    pub fn row(self) -> (r: usize)
        ensures
            r == self.row_of(),
            r < ROWS,
    {
        proof {
            use_type_invariant(self);
        }
        self.row
    }

    /// The column, counted from the left.
    pub fn col(self) -> (c: usize)
        ensures
            c == self.col_of(),
            c < COLS,
    {
        proof {
            use_type_invariant(self);
        }
        self.col
    }

    /// Row-major index of this coordinate.
    pub fn offset(self) -> (i: usize)
        ensures
            i == self.index(),
            i < CELLS,
        no_unwind
    {
        proof {
            use_type_invariant(self);
        }
        self.row * COLS + self.col
    }

    /// Moves one step in direction `d` on the torus.
    pub fn stepped(self, d: Direction) -> (c: Coord)
        ensures
            c == self.step(d),
            c.on_grid(),
    {
        proof {
            use_type_invariant(self);
        }
        match d {
            Direction::Left => Coord { row: self.row, col: (self.col + COLS - 1) % COLS },
            Direction::Up => Coord { row: (self.row + ROWS - 1) % ROWS, col: self.col },
            Direction::Right => Coord { row: self.row, col: (self.col + 1) % COLS },
            Direction::Down => Coord { row: (self.row + 1) % ROWS, col: self.col },
        }
    }
}

/// Stepping in a direction and then in the opposite one leads back to the
/// starting coordinate, for every coordinate on the grid and every direction.
pub proof fn lemma_step_then_back(c: Coord, d: Direction)
    requires
        c.on_grid(),
    ensures
        c.step(d).on_grid(),
        c.step(d).step(d.opposite()) == c,
{
}

/// A coordinate is made of its row and its column: on the grid, `at` is
/// the inverse of `row_of` and `col_of`.
pub proof fn lemma_coord_parts(c: Coord, row: int, col: int)
    requires
        0 <= row < ROWS,
        0 <= col < COLS,
    ensures
        Coord::at(row, col).row_of() == row,
        Coord::at(row, col).col_of() == col,
        Coord::at(row, col).on_grid(),
        Coord::at(c.row_of(), c.col_of()) == c,
{
}

/// Distinct coordinates on the grid have distinct row-major indices.
pub proof fn lemma_index_injective(a: Coord, b: Coord)
    requires
        a.on_grid(),
        b.on_grid(),
        a.index() == b.index(),
    ensures
        a == b,
{
}

} // verus!
