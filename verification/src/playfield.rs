//! The playfield: a fixed grid of cells, and the search for a free cell on
//! which to put food.

use vstd::prelude::*;
use crate::grid::{Coord, CELLS, COLS, ROWS};

verus! {

/// What a cell of the playfield holds.
#[derive(Clone, Copy, Debug, PartialEq, Eq, Structural)]
pub enum Field {
    /// Nothing.
    Empty,
    /// A food item.
    Food,
    /// A segment of the snake. The head holds no reference; every other
    /// segment refers to its neighbour one step closer to the head.
    Body(Option<Coord>),
}

impl Field {
    /// A cell is valid when the reference it holds, if any, lies on the grid.
    pub open spec fn valid(self) -> bool {
        match self {
            Field::Body(Some(next)) => next.on_grid(),
            _ => true,
        }
    }

    /// Whether this cell is part of the snake.
    pub open spec fn is_body(self) -> bool {
        self is Body
    }
}

/// A sequence of cells is a playfield when it has one valid cell for each
/// coordinate of the grid.
pub open spec fn cells_wf(cells: Seq<Field>) -> bool {
    &&& cells.len() == CELLS
    &&& forall|i: int| 0 <= i < CELLS ==> (#[trigger] cells[i]).valid()
}

/// Whether some cell of the playfield is empty.
pub open spec fn has_empty(cells: Seq<Field>) -> bool {
    exists|c: Coord| c.on_grid() && #[trigger] cells[c.index()] == Field::Empty
}

/// The pseudo-random number derived from one byte of entropy: one step of a
/// linear congruential generator in 32-bit arithmetic.
pub open spec fn scramble(byte: u8) -> int {
    (byte * 1103515245 + 12345) % 0x1_0000_0000
}

/// The row in which round `i` of the food search looks.
pub open spec fn food_row(score: u16, i: int) -> int {
    (score * 11327 + 123 + i) % (ROWS as int)
}

/// The column at which a round of the food search starts, given its byte of
/// entropy.
pub open spec fn food_start_col(byte: u8) -> int {
    scramble(byte) % (COLS as int)
}

/// The `k`-th cell that the food search looks at: round `k / COLS` scans its
/// row from its starting column rightwards, wrapping at the edge.
pub open spec fn probe(score: u16, entropy: Seq<u8>, k: int) -> Coord {
    Coord::at(
        food_row(score, k / (COLS as int)),
        (food_start_col(entropy[k / (COLS as int)]) + k % (COLS as int)) % (COLS as int),
    )
}

/// The first empty cell among probes `k`, `k + 1`, ..., or the origin when
/// there is none.
pub open spec fn search_from(cells: Seq<Field>, score: u16, entropy: Seq<u8>, k: int) -> Coord
    decreases CELLS - k,
{
    if k < 0 || k >= CELLS {
        Coord::at(0, 0)
    } else if cells[probe(score, entropy, k).index()] == Field::Empty {
        probe(score, entropy, k)
    } else {
        search_from(cells, score, entropy, k + 1)
    }
}

/// Where food goes on a playfield, given the score and one byte of entropy
/// for each round of the search.
pub open spec fn food_pos(cells: Seq<Field>, score: u16, entropy: Seq<u8>) -> Coord {
    search_from(cells, score, entropy, 0)
}

/// Every probe lies on the grid.
pub proof fn lemma_probe_on_grid(score: u16, entropy: Seq<u8>, k: int)
    requires
        0 <= k < CELLS,
    ensures
        probe(score, entropy, k).on_grid(),
{
}

/// For residues `from` and `to` modulo `m`, the distance to go from the one
/// to the other by counting upwards.
proof fn lemma_distance(from: int, to: int, m: int) -> (d: int)
    requires
        m == ROWS || m == COLS,
        0 <= from < m,
        0 <= to < m,
    ensures
        0 <= d < m,
        (from + d) % m == to,
{
    if to >= from {
        to - from
    } else {
        to + m - from
    }
}

/// Each row is the row of one round of the search.
proof fn lemma_row_round(score: u16, row: int) -> (i: int)
    requires
        0 <= row < ROWS,
    ensures
        0 <= i < ROWS,
        food_row(score, i) == row,
{
    let first = score * 11327 + 123;
    let i = lemma_distance(first % (ROWS as int), row, ROWS as int);
    assert((first + i) % (ROWS as int) == (first % (ROWS as int) + i) % (ROWS as int));
    i
}

/// The probes reach every cell of the grid: each coordinate is the `k`-th
/// probe for some `k`.
pub proof fn lemma_probe_covers(score: u16, entropy: Seq<u8>, c: Coord) -> (k: int)
    requires
        c.on_grid(),
    ensures
        0 <= k < CELLS,
        probe(score, entropy, k) == c,
{
    let i = lemma_row_round(score, c.row as int);
    let start = food_start_col(entropy[i]);
    let j = lemma_distance(start, c.col as int, COLS as int);
    let k = i * COLS + j;
    assert(k / (COLS as int) == i && k % (COLS as int) == j);
    k
}

/// The search yields a cell on the grid. From probe `k` on, it yields an
/// empty cell if an empty one is among the probes left, and the origin
/// otherwise.
pub proof fn lemma_search_from(cells: Seq<Field>, score: u16, entropy: Seq<u8>, k: int)
    requires
        cells.len() == CELLS,
        0 <= k <= CELLS,
    ensures
        search_from(cells, score, entropy, k).on_grid(),
        (exists|m: int| k <= m < CELLS && cells[#[trigger] probe(score, entropy, m).index()] == Field::Empty)
            ==> cells[search_from(cells, score, entropy, k).index()] == Field::Empty,
        (forall|m: int| k <= m < CELLS ==> cells[#[trigger] probe(score, entropy, m).index()] != Field::Empty)
            ==> search_from(cells, score, entropy, k) == Coord::at(0, 0),
    decreases CELLS - k,
{
    if k < CELLS {
        lemma_probe_on_grid(score, entropy, k);
        lemma_search_from(cells, score, entropy, k + 1);
        if cells[probe(score, entropy, k).index()] != Field::Empty {
            if exists|m: int| k <= m < CELLS && cells[#[trigger] probe(score, entropy, m).index()] == Field::Empty {
                let m = choose|m: int| k <= m < CELLS && cells[#[trigger] probe(score, entropy, m).index()] == Field::Empty;
                assert(k + 1 <= m < CELLS);
            }
        }
    }
}

/// Food placement succeeds whenever a cell is free: the position chosen lies
/// on the grid, is empty if any cell of the playfield is, and is the origin
/// if none is.
pub proof fn lemma_food_pos(cells: Seq<Field>, score: u16, entropy: Seq<u8>)
    requires
        cells.len() == CELLS,
    ensures
        food_pos(cells, score, entropy).on_grid(),
        has_empty(cells) ==> cells[food_pos(cells, score, entropy).index()] == Field::Empty,
        !has_empty(cells) ==> food_pos(cells, score, entropy) == Coord::at(0, 0),
{
    lemma_search_from(cells, score, entropy, 0);
    if has_empty(cells) {
        let c = choose|c: Coord| c.on_grid() && #[trigger] cells[c.index()] == Field::Empty;
        let m = lemma_probe_covers(score, entropy, c);
        assert(cells[probe(score, entropy, m).index()] == Field::Empty);
    } else {
        assert forall|m: int| 0 <= m < CELLS implies cells[#[trigger] probe(score, entropy, m).index()]
            != Field::Empty by {
            lemma_probe_on_grid(score, entropy, m);
        }
    }
}

/// Food placement is a function of the cells, the score and the entropy:
/// equal inputs select the same coordinate.
pub proof fn lemma_food_pos_deterministic(
    a: Playfield,
    b: Playfield,
    score_a: u16,
    score_b: u16,
    entropy_a: [u8; ROWS],
    entropy_b: [u8; ROWS],
)
    requires
        a@ == b@,
        score_a == score_b,
        entropy_a@ == entropy_b@,
    ensures
        food_pos(a@, score_a, entropy_a@) == food_pos(b@, score_b, entropy_b@),
{
}

/// Derives a pseudo-random number from one byte of entropy.
pub fn random_from_byte(byte: u8) -> (r: u32)
    ensures
        r == scramble(byte),
{
    let wide: u64 = byte as u64 * 1103515245 + 12345;
    (wide % 0x1_0000_0000) as u32
}

/// The grid of cells.
#[derive(Debug, PartialEq, Eq)]
pub struct Playfield {
    cells: [Field; CELLS],
}

impl View for Playfield {
    type V = Seq<Field>;

    /// The cells in row-major order.
    closed spec fn view(&self) -> Seq<Field> {
        self.cells@
    }
}

impl Clone for Playfield {
    /// A copy with the same cells.
    fn clone(&self) -> (copy: Playfield)
        ensures
            copy@ == self@,
    {
        proof {
            use_type_invariant(self);
        }
        Playfield { cells: self.cells }
    }
}

impl Playfield {
    /// Every playfield is valid: it has one cell for each coordinate, and
    /// every reference held by a cell lies on the grid.
    #[verifier::type_invariant]
    pub open spec fn wf(&self) -> bool {
        cells_wf(self@)
    }

    /// A playfield whose cells are all empty.
    pub fn new() -> (p: Playfield)
        ensures
            p.wf(),
            forall|i: int| 0 <= i < CELLS ==> p@[i] == Field::Empty,
    {
        Playfield { cells: [Field::Empty; CELLS] }
    }

    /// What the cell at `c` holds.
    pub fn classify(&self, c: Coord) -> (f: Field)
        ensures
            f == self@[c.index()],
            f.valid(),
            c.on_grid(),
    {
        proof {
            use_type_invariant(self);
            use_type_invariant(c);
        }
        self.cells[c.offset()]
    }

    /// Searches for a free cell for food. Round `i` of at most `ROWS` rounds
    /// scans one row, chosen from the score, starting at a column chosen from
    /// `entropy[i]`; the first empty cell met is the answer. On a playfield
    /// without an empty cell the answer is the origin.
    pub fn get_random_food_pos(&self, score: u16, entropy: &[u8; ROWS]) -> (pos: Coord)
        ensures
            pos == food_pos(self@, score, entropy@),
            pos.on_grid(),
            has_empty(self@) ==> self@[pos.index()] == Field::Empty,
            !has_empty(self@) ==> pos == Coord::at(0, 0),
    {
        proof {
            use_type_invariant(self);
            lemma_food_pos(self@, score, entropy@);
        }
        let mut i: usize = 0;
        while i < ROWS
            invariant
                i <= ROWS,
                self.wf(),
                food_pos(self@, score, entropy@) == search_from(self@, score, entropy@, i * COLS),
            decreases ROWS - i,
        {
            let y: usize = (score as usize * 11327 + 123 + i) % ROWS;
            let mut x: usize = (random_from_byte(entropy[i]) % 39) as usize;
            let mut j: usize = 0;
            while j < COLS
                invariant
                    i < ROWS,
                    j <= COLS,
                    self.wf(),
                    y == food_row(score, i as int),
                    x == (food_start_col(entropy@[i as int]) + j) % (COLS as int),
                    food_pos(self@, score, entropy@) == search_from(
                        self@,
                        score,
                        entropy@,
                        i * COLS + j,
                    ),
                decreases COLS - j,
            {
                let c = Coord { row: y, col: x };
                proof {
                    let k = i * COLS + j;
                    assert(k / (COLS as int) == i && k % (COLS as int) == j);
                    assert(c == probe(score, entropy@, k));
                }
                match self.classify(c) {
                    Field::Empty => {
                        return c;
                    },
                    _ => {},
                }
                x = (x + 1) % COLS;
                j += 1;
            }
            i += 1;
        }
        Coord { row: 0, col: 0 }
    }

    /// Puts `f` into the cell at `c` and leaves every other cell as it was.
    pub fn set(&mut self, c: Coord, f: Field)
        ensures
            final(self).wf(),
            final(self)@ == old(self)@.update(c.index(), f),
        no_unwind
    {
        proof {
            use_type_invariant(&*self);
            use_type_invariant(c);
        }
        match f {
            Field::Body(Some(next)) => {
                proof {
                    use_type_invariant(next);
                }
            },
            _ => {},
        }
        let i: usize = c.offset();
        self.cells[i] = f;
    }
}

} // verus!
