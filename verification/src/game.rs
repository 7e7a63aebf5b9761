//! The game state and its transitions: start, tick, direction change and
//! resume after death.

use vstd::prelude::*;
use crate::grid::{Coord, Direction, CELLS, ROWS};
use crate::playfield::{cells_wf, food_pos, lemma_food_pos, Field, Playfield};

verus! {

/// The mathematical model of a game state.
pub struct GameView {
    /// The cells of the playfield in row-major order.
    pub cells: Seq<Field>,
    /// Where the head of the snake is.
    pub head: Coord,
    /// Where the tail of the snake is.
    pub tail: Coord,
    /// The direction asked for last; the next tick considers it.
    pub pending: Direction,
    /// The direction that the latest tick used.
    pub committed: Direction,
    /// The number of food items eaten.
    pub score: u16,
    /// Whether the snake has run into itself.
    pub dead: bool,
}

/// What a tick did.
#[derive(Clone, Copy, Debug, PartialEq, Eq, Structural)]
pub enum TickOutcome {
    /// The game was over already; nothing moved.
    Halted,
    /// The snake ran into itself on this tick.
    Died,
    /// The snake moved one cell, and grew if it ate.
    Advanced { grew: bool },
}

/// The head's position at the start of a game.
pub open spec fn start_head() -> Coord {
    Coord::at(10, 15)
}

/// The position of the segment between head and tail at the start of a game.
pub open spec fn start_neck() -> Coord {
    Coord::at(10, 14)
}

/// The tail's position at the start of a game.
pub open spec fn start_tail() -> Coord {
    Coord::at(10, 13)
}

/// The playfield at the start of a game, before food is placed: a snake of
/// three segments in row 10 that heads right.
pub open spec fn start_cells() -> Seq<Field> {
    Seq::new(
        CELLS as nat,
        |i: int|
            if i == start_head().index() {
                Field::Body(None)
            } else if i == start_neck().index() {
                Field::Body(Some(start_head()))
            } else if i == start_tail().index() {
                Field::Body(Some(start_neck()))
            } else {
                Field::Empty
            },
    )
}

/// The state in which every game starts.
pub open spec fn start_view(entropy: Seq<u8>) -> GameView {
    GameView {
        cells: start_cells().update(food_pos(start_cells(), 0, entropy).index(), Field::Food),
        head: start_head(),
        tail: start_tail(),
        pending: Direction::Right,
        committed: Direction::Right,
        score: 0,
        dead: false,
    }
}

/// The direction a tick travels in: the pending one if it turns onto the
/// other axis, the committed one otherwise.
pub open spec fn next_committed(pending: Direction, committed: Direction) -> Direction {
    if pending.same_axis(committed) {
        committed
    } else {
        pending
    }
}

/// The score after one more food item.
pub open spec fn score_after_food(score: u16) -> u16 {
    if score == u16::MAX {
        0
    } else {
        (score + 1) as u16
    }
}

impl GameView {
    /// Validity of a state: the playfield is valid, head and tail lie on the
    /// grid.
    pub open spec fn wf(self) -> bool {
        &&& cells_wf(self.cells)
        &&& self.head.on_grid()
        &&& self.tail.on_grid()
    }

    /// The cell that the head enters on the next tick.
    pub open spec fn target(self) -> Coord {
        self.head.step(next_committed(self.pending, self.committed))
    }

    /// What the next tick does.
    pub open spec fn outcome(self) -> TickOutcome {
        if self.dead {
            TickOutcome::Halted
        } else {
            match self.cells[self.target().index()] {
                Field::Body(_) => TickOutcome::Died,
                Field::Food => TickOutcome::Advanced { grew: true },
                Field::Empty => TickOutcome::Advanced { grew: false },
            }
        }
    }

    /// The state after a change of direction to `d`.
    pub open spec fn with_direction(self, d: Direction) -> GameView {
        GameView { pending: d, ..self }
    }

    /// The state after a resume signal.
    pub open spec fn resumed(self, entropy: Seq<u8>) -> GameView {
        if self.dead {
            start_view(entropy)
        } else {
            self
        }
    }

    /// The cells after the head has entered `target()`, before the tail moves.
    pub open spec fn cells_with_new_head(self, cells: Seq<Field>) -> Seq<Field> {
        cells.update(self.target().index(), Field::Body(None)).update(
            self.head.index(),
            Field::Body(Some(self.target())),
        )
    }

    /// The state after a tick.
    pub open spec fn ticked(self, entropy: Seq<u8>) -> GameView {
        let dir = next_committed(self.pending, self.committed);
        match self.outcome() {
            TickOutcome::Halted => GameView { committed: dir, ..self },
            TickOutcome::Died => GameView { committed: dir, dead: true, ..self },
            TickOutcome::Advanced { grew: true } => {
                let score = score_after_food(self.score);
                let food = food_pos(self.cells, score, entropy);
                GameView {
                    cells: self.cells_with_new_head(self.cells.update(food.index(), Field::Food)),
                    head: self.target(),
                    committed: dir,
                    score,
                    ..self
                }
            },
            TickOutcome::Advanced { grew: false } => {
                let moved = self.cells_with_new_head(self.cells);
                match moved[self.tail.index()] {
                    Field::Body(Some(next)) => GameView {
                        cells: moved.update(self.tail.index(), Field::Empty),
                        head: self.target(),
                        tail: next,
                        committed: dir,
                        ..self
                    },
                    _ => GameView { cells: moved, head: self.target(), committed: dir, ..self },
                }
            },
        }
    }
}

/// The state of one game.
#[derive(Debug, PartialEq, Eq)]
pub struct GameState {
    direction: Direction,
    last_direction: Direction,
    world: Playfield,
    score: u16,
    head_pos: Coord,
    tail_pos: Coord,
    dead: bool,
}

impl View for GameState {
    type V = GameView;

    /// The model of this state.
    closed spec fn view(&self) -> GameView {
        GameView {
            cells: self.world@,
            head: self.head_pos,
            tail: self.tail_pos,
            pending: self.direction,
            committed: self.last_direction,
            score: self.score,
            dead: self.dead,
        }
    }
}

impl Clone for GameState {
    /// A copy in the same state.
    fn clone(&self) -> (copy: GameState)
        ensures
            copy@ == self@,
    {
        proof {
            use_type_invariant(self);
        }
        GameState {
            direction: self.direction,
            last_direction: self.last_direction,
            world: self.world.clone(),
            score: self.score,
            head_pos: self.head_pos,
            tail_pos: self.tail_pos,
            dead: self.dead,
        }
    }
}

impl GameState {
    /// Every game state is valid: its playfield is, and head and tail lie on
    /// the grid.
    #[verifier::type_invariant]
    pub open spec fn wf(&self) -> bool {
        self@.wf()
    }

    /// A game state made of the given parts. The direction given is both
    /// the one asked for and the one of travel.
    pub fn from_parts(
        world: Playfield,
        head_pos: Coord,
        tail_pos: Coord,
        direction: Direction,
        score: u16,
        dead: bool,
    ) -> (state: GameState)
        ensures
            state.wf(),
            state@ == (GameView {
                cells: world@,
                head: head_pos,
                tail: tail_pos,
                pending: direction,
                committed: direction,
                score,
                dead,
            }),
    {
        proof {
            use_type_invariant(&world);
            use_type_invariant(head_pos);
            use_type_invariant(tail_pos);
        }
        GameState {
            direction,
            last_direction: direction,
            world,
            score,
            head_pos,
            tail_pos,
            dead,
        }
    }

    /// The number of food items eaten.
    pub fn score(&self) -> (n: u16)
        ensures
            n == self@.score,
    {
        self.score
    }

    /// Whether the game is over.
    pub fn is_dead(&self) -> (b: bool)
        ensures
            b == self@.dead,
    {
        self.dead
    }

    /// Where the head of the snake is.
    pub fn head_pos(&self) -> (c: Coord)
        ensures
            c == self@.head,
    {
        self.head_pos
    }

    /// Where the tail of the snake is.
    pub fn tail_pos(&self) -> (c: Coord)
        ensures
            c == self@.tail,
    {
        self.tail_pos
    }

    /// The direction asked for last.
    pub fn direction(&self) -> (d: Direction)
        ensures
            d == self@.pending,
    {
        self.direction
    }

    /// The direction that the latest tick used.
    pub fn last_direction(&self) -> (d: Direction)
        ensures
            d == self@.committed,
    {
        self.last_direction
    }

    /// What the cell at `c` holds.
    pub fn classify(&self, c: Coord) -> (f: Field)
        ensures
            f == self@.cells[c.index()],
            f.valid(),
    {
        self.world.classify(c)
    }
}

/// Starts a game: a snake of three segments in row 10 heading right, score
/// zero, and one food item placed with the help of `entropy`.
pub fn init_game(entropy: &[u8; ROWS]) -> (state: GameState)
    ensures
        state.wf(),
        state@ == start_view(entropy@),
{
    let head = Coord { row: 10, col: 15 };
    let neck = Coord { row: 10, col: 14 };
    let tail = Coord { row: 10, col: 13 };
    let mut world = Playfield::new();
    world.set(head, Field::Body(None));
    world.set(neck, Field::Body(Some(head)));
    world.set(tail, Field::Body(Some(neck)));
    assert(world@ =~= start_cells());
    let food = world.get_random_food_pos(0, entropy);
    world.set(food, Field::Food);
    GameState {
        direction: Direction::Right,
        last_direction: Direction::Right,
        world,
        score: 0,
        head_pos: head,
        tail_pos: tail,
        dead: false,
    }
}

/// Records `dir` as the direction asked for. The next tick decides whether
/// the snake takes it.
pub fn set_direction(state: &mut GameState, dir: Direction)
    ensures
        final(state).wf(),
        final(state)@ == old(state)@.with_direction(dir),
{
    proof {
        use_type_invariant(&*state);
    }
    state.direction = dir;
}

/// Starts the game anew if it is over, and does nothing otherwise.
pub fn resume_game(state: &mut GameState, entropy: &[u8; ROWS])
    ensures
        final(state).wf(),
        final(state)@ == old(state)@.resumed(entropy@),
        !old(state)@.dead ==> final(state)@ == old(state)@,
{
    proof {
        use_type_invariant(&*state);
    }
    if state.dead {
        *state = init_game(entropy);
    }
}

/// Advances the game by one step. The direction asked for is taken if it
/// turns the snake onto the other axis. A dead snake stays as it is.
/// Otherwise the head enters the next cell: on its own body the snake dies,
/// on food it grows by one segment, the score rises and new food is placed
/// with the help of `entropy`, and on an empty cell the tail follows.
pub fn tick(state: &mut GameState, entropy: &[u8; ROWS]) -> (out: TickOutcome)
    ensures
        final(state).wf(),
        final(state)@ == old(state)@.ticked(entropy@),
        out == old(state)@.outcome(),
{
    proof {
        use_type_invariant(&*state);
    }
    if !state.direction.shares_axis(state.last_direction) {
        state.last_direction = state.direction;
    }
    if state.dead {
        return TickOutcome::Halted;
    }
    let new_head = state.head_pos.stepped(state.last_direction);
    let grew = match state.world.classify(new_head) {
        Field::Food => {
            state.score = if state.score == u16::MAX {
                0
            } else {
                state.score + 1
            };
            let food = state.world.get_random_food_pos(state.score, entropy);
            state.world.set(food, Field::Food);
            true
        },
        Field::Body(_) => {
            state.dead = true;
            return TickOutcome::Died;
        },
        Field::Empty => false,
    };
    state.world.set(new_head, Field::Body(None));
    state.world.set(state.head_pos, Field::Body(Some(new_head)));
    let old_tail = state.tail_pos;
    state.head_pos = new_head;
    if !grew {
        match state.world.classify(old_tail) {
            Field::Body(Some(next)) => {
                state.world.set(old_tail, Field::Empty);
                state.tail_pos = next;
            },
            _ => {},
        }
    }
    TickOutcome::Advanced { grew }
}

} // verus!
