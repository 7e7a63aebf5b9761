//! The snake as a chain of cells, and what the transitions of the game do
//! to it.

use vstd::prelude::*;
use vstd::set_lib::{lemma_int_range, lemma_len_subset, set_int_range};
use crate::game::{
    next_committed, score_after_food, start_cells, start_head, start_neck, start_tail, start_view,
    GameView, TickOutcome,
};
use crate::grid::{lemma_index_injective, lemma_step_then_back, Coord, Direction, CELLS};
use crate::playfield::{food_pos, has_empty, lemma_food_pos, Field};

verus! {

/// `body` lists the snake from tail to head: its coordinates lie on the
/// grid, none occurs twice, each cell but the last refers to the next one
/// in the list, and the last, the head, refers to none.
pub open spec fn is_chain(cells: Seq<Field>, body: Seq<Coord>) -> bool {
    &&& body.len() >= 1
    &&& forall|i: int| 0 <= i < body.len() ==> (#[trigger] body[i]).on_grid()
    &&& forall|i: int, j: int| 0 <= i < j < body.len() ==> body[i] != body[j]
    &&& forall|i: int|
        0 <= i < body.len() - 1 ==> cells[(#[trigger] body[i]).index()] == Field::Body(
            Some(body[i + 1]),
        )
    &&& cells[body[body.len() - 1].index()] == Field::Body(None)
}

/// The state `s` is valid and holds the snake `body`, which leads from the
/// tail of `s` to its head.
pub open spec fn holds_snake(s: GameView, body: Seq<Coord>) -> bool {
    &&& s.wf()
    &&& is_chain(s.cells, body)
    &&& body[0] == s.tail
    &&& body[body.len() - 1] == s.head
}

/// The snake after a tick that did not kill it: one cell longer at the head
/// if it ate, and moved by one cell otherwise.
pub open spec fn body_after(s: GameView, body: Seq<Coord>) -> Seq<Coord> {
    match s.outcome() {
        TickOutcome::Advanced { grew: true } => body.push(s.target()),
        TickOutcome::Advanced { grew: false } => body.subrange(1, body.len() as int).push(s.target()),
        _ => body,
    }
}

/// Two cells of a snake have distinct row-major indices.
proof fn lemma_chain_indices(cells: Seq<Field>, body: Seq<Coord>, i: int, j: int)
    requires
        is_chain(cells, body),
        0 <= i < body.len(),
        0 <= j < body.len(),
        i != j,
    ensures
        body[i].index() != body[j].index(),
{
    if body[i].index() == body[j].index() {
        lemma_index_injective(body[i], body[j]);
        if i < j {
            assert(body[i] != body[j]);
        } else {
            assert(body[j] != body[i]);
        }
    }
}

/// Every cell of a snake is a body cell.
proof fn lemma_chain_cells(cells: Seq<Field>, body: Seq<Coord>, i: int)
    requires
        is_chain(cells, body),
        0 <= i < body.len(),
    ensures
        cells[body[i].index()].is_body(),
{
}

/// A game starts with a snake of three segments.
pub proof fn lemma_start_holds_snake(entropy: Seq<u8>)
    ensures
        holds_snake(start_view(entropy), seq![start_tail(), start_neck(), start_head()]),
        !start_view(entropy).dead,
        start_view(entropy).score == 0,
{
    let cells = start_cells();
    let body = seq![start_tail(), start_neck(), start_head()];
    lemma_food_pos(cells, 0, entropy);
    let witness = Coord { row: 0, col: 0 };
    assert(witness.on_grid() && cells[witness.index()] == Field::Empty);
    let food = food_pos(cells, 0, entropy);
    assert(cells[food.index()] == Field::Empty);
    let after = cells.update(food.index(), Field::Food);
    assert(is_chain(after, body));
}

/// A tick keeps the snake a chain. For every living state that holds a
/// snake: a tick that runs into the body kills the snake and leaves
/// playfield, head, tail and score as they were; a tick that eats makes the
/// snake one cell longer at the head and leaves the tail where it was;
/// any other tick moves head and tail by one cell and keeps the length. The
/// one case left out is a tick that eats on a playfield without an empty
/// cell while the snake lies on the origin: there the new food replaces a
/// segment.
pub proof fn lemma_tick_keeps_snake(s: GameView, entropy: Seq<u8>, body: Seq<Coord>)
    requires
        holds_snake(s, body),
        !s.dead,
        !(s.outcome() == (TickOutcome::Advanced { grew: true }) && !has_empty(s.cells)
            && body.contains(Coord::at(0, 0))),
    ensures
        s.ticked(entropy).wf(),
        s.outcome() == TickOutcome::Died ==> {
            &&& s.ticked(entropy).dead
            &&& s.ticked(entropy).cells == s.cells
            &&& s.ticked(entropy).head == s.head
            &&& s.ticked(entropy).tail == s.tail
            &&& s.ticked(entropy).score == s.score
        },
        s.outcome() != TickOutcome::Died ==> {
            &&& !s.ticked(entropy).dead
            &&& holds_snake(s.ticked(entropy), body_after(s, body))
        },
        s.outcome() == (TickOutcome::Advanced { grew: true }) ==> {
            &&& body_after(s, body).len() == body.len() + 1
            &&& s.ticked(entropy).tail == s.tail
            &&& s.score < u16::MAX ==> s.ticked(entropy).score == s.score + 1
        },
        s.outcome() == (TickOutcome::Advanced { grew: false }) ==> {
            &&& body_after(s, body).len() == body.len()
            &&& s.ticked(entropy).score == s.score
        },
{
    let t = s.ticked(entropy);
    let target = s.target();
    let n = body.len() as int;
    lemma_step_then_back(s.head, next_committed(s.pending, s.committed));
    assert(target.on_grid());
    assert forall|i: int| 0 <= i < n implies (#[trigger] body[i]).index() != target.index()
        || s.cells[target.index()].is_body() by {
        lemma_chain_cells(s.cells, body, i);
    }
    match s.outcome() {
        TickOutcome::Advanced { grew: true } => {
            let score = score_after_food(s.score);
            let food = food_pos(s.cells, score, entropy);
            lemma_food_pos(s.cells, score, entropy);
            let after = body.push(target);
            assert forall|i: int| 0 <= i < n implies (#[trigger] body[i]).index()
                != food.index() by {
                lemma_chain_cells(s.cells, body, i);
                if !has_empty(s.cells) && body[i].index() == food.index() {
                    assert(body.contains(body[i]));
                    lemma_index_injective(body[i], food);
                }
            }
            assert forall|i: int| 0 <= i < after.len() - 1 implies t.cells[(#[trigger] after[i]).index()]
                == Field::Body(Some(after[i + 1])) by {
                if i < n - 1 {
                    lemma_chain_indices(s.cells, body, i, n - 1);
                }
            }
            assert(is_chain(t.cells, after));
        },
        TickOutcome::Advanced { grew: false } => {
            let moved = s.cells_with_new_head(s.cells);
            let after = body.subrange(1, n).push(target);
            if n == 1 {
                assert(is_chain(t.cells, after));
            } else {
                lemma_chain_indices(s.cells, body, 0, n - 1);
                assert(moved[s.tail.index()] == Field::Body(Some(body[1])));
                assert forall|i: int| 0 <= i < after.len() - 1 implies t.cells[(#[trigger] after[i]).index()]
                    == Field::Body(Some(after[i + 1])) by {
                    lemma_chain_indices(s.cells, body, i + 1, 0);
                    if i + 1 < n - 1 {
                        lemma_chain_indices(s.cells, body, i + 1, n - 1);
                    }
                }
                assert forall|i: int, j: int| 0 <= i < j < after.len() implies after[i]
                    != after[j] by {
                    if j < after.len() - 1 {
                        assert(body[i + 1] != body[j + 1]);
                    }
                }
                assert(is_chain(t.cells, after));
            }
        },
        _ => {},
    }
}

/// A snake has at most as many cells as the grid.
pub proof fn lemma_chain_fits(cells: Seq<Field>, body: Seq<Coord>)
    requires
        is_chain(cells, body),
    ensures
        body.len() <= CELLS,
{
    let indices = Seq::new(body.len(), |i: int| body[i].index());
    assert forall|i: int, j: int|
        0 <= i < indices.len() && 0 <= j < indices.len() && i != j implies indices[i]
        != indices[j] by {
        lemma_chain_indices(cells, body, i, j);
    }
    indices.unique_seq_to_set();
    lemma_int_range(0, CELLS as int);
    assert forall|x: int| indices.to_set().contains(x) implies set_int_range(
        0,
        CELLS as int,
    ).contains(x) by {
        let i = choose|i: int| 0 <= i < indices.len() && indices[i] == x;
        assert(body[i].on_grid());
    }
    lemma_len_subset(indices.to_set(), set_int_range(0, CELLS as int));
}

/// The score counts the growth of the snake. In a state whose score is the
/// number of cells by which the snake is longer than at the start, a tick
/// that eats raises the score by exactly one, and after every tick that
/// does not kill the snake the score is that number again. The case left
/// out is the one of `lemma_tick_keeps_snake`.
pub proof fn lemma_score_counts_growth(s: GameView, entropy: Seq<u8>, body: Seq<Coord>)
    requires
        holds_snake(s, body),
        s.score + 3 == body.len(),
        !s.dead,
        !(s.outcome() == (TickOutcome::Advanced { grew: true }) && !has_empty(s.cells)
            && body.contains(Coord::at(0, 0))),
    ensures
        s.outcome() != TickOutcome::Died ==> s.ticked(entropy).score + 3 == body_after(
            s,
            body,
        ).len(),
        s.outcome() == (TickOutcome::Advanced { grew: true }) ==> s.ticked(entropy).score
            == s.score + 1,
{
    lemma_tick_keeps_snake(s, entropy, body);
    if s.outcome() == (TickOutcome::Advanced { grew: true }) {
        lemma_chain_fits(s.ticked(entropy).cells, body_after(s, body));
    }
}

/// A change of direction leaves the snake as it is, and so does a resume
/// signal while the snake lives: the state stays the same.
pub proof fn lemma_signals_keep_snake(s: GameView, d: Direction, entropy: Seq<u8>, body: Seq<Coord>)
    requires
        holds_snake(s, body),
    ensures
        holds_snake(s.with_direction(d), body),
        !s.dead ==> s.resumed(entropy) == s,
        s.dead ==> s.resumed(entropy) == start_view(entropy),
{
}

/// Death is final until the game is resumed: the tick on which the snake
/// dies, and every tick on a dead snake, leaves playfield, head, tail and
/// score as they were and the snake dead, whatever direction is asked for
/// in between.
pub proof fn lemma_dead_stays_put(s: GameView, entropy: Seq<u8>, d: Direction, later: Seq<u8>)
    requires
        s.dead || s.outcome() == TickOutcome::Died,
    ensures
        s.ticked(entropy).dead,
        s.ticked(entropy).cells == s.cells,
        s.ticked(entropy).head == s.head,
        s.ticked(entropy).tail == s.tail,
        s.ticked(entropy).score == s.score,
        s.ticked(entropy).with_direction(d).outcome() == TickOutcome::Halted,
        s.ticked(entropy).with_direction(d).ticked(later).cells == s.cells,
        s.ticked(entropy).with_direction(d).ticked(later).dead,
{
}

/// What can happen to a game.
pub enum Event {
    /// The timer fires; the bytes are the entropy at hand.
    Tick(Seq<u8>),
    /// A direction is asked for.
    Turn(Direction),
    /// A resume signal arrives; the bytes are the entropy at hand.
    Resume(Seq<u8>),
}

/// The state after one event.
pub open spec fn after(s: GameView, event: Event) -> GameView {
    match event {
        Event::Tick(entropy) => s.ticked(entropy),
        Event::Turn(d) => s.with_direction(d),
        Event::Resume(entropy) => s.resumed(entropy),
    }
}

/// The state after a sequence of events.
pub open spec fn run(s: GameView, events: Seq<Event>) -> GameView
    decreases events.len(),
{
    if events.len() == 0 {
        s
    } else {
        after(run(s, events.drop_last()), events.last())
    }
}

/// The state holds a snake, and its score is the number of cells by which
/// the snake is longer than at the start.
pub open spec fn intact(s: GameView) -> bool {
    exists|body: Seq<Coord>| #[trigger] holds_snake(s, body) && s.score + 3 == body.len()
}

/// The next tick eats while no cell is empty and the origin is part of the
/// snake, so that the new food replaces a segment.
pub open spec fn overrun(s: GameView) -> bool {
    &&& !s.dead
    &&& s.outcome() == (TickOutcome::Advanced { grew: true })
    &&& !has_empty(s.cells)
    &&& s.cells[Coord::at(0, 0).index()].is_body()
}

/// No tick of the run is one that overruns the snake.
pub open spec fn never_overrun(s: GameView, events: Seq<Event>) -> bool
    decreases events.len(),
{
    events.len() == 0 || {
        &&& never_overrun(s, events.drop_last())
        &&& events.last() is Tick ==> !overrun(run(s, events.drop_last()))
    }
}

/// Every state that a game reaches from its start holds a snake: a chain
/// without repetition from tail to head, three cells long at the start and
/// longer by one for each point of the score. This holds of every sequence
/// of ticks, changes of direction and resume signals, as long as no tick
/// overruns the snake on a playfield without an empty cell.
pub proof fn lemma_reachable_states_intact(entropy: Seq<u8>, events: Seq<Event>)
    requires
        never_overrun(start_view(entropy), events),
    ensures
        intact(run(start_view(entropy), events)),
    decreases events.len(),
{
    let start_body = seq![start_tail(), start_neck(), start_head()];
    if events.len() == 0 {
        lemma_start_holds_snake(entropy);
        assert(holds_snake(start_view(entropy), start_body));
    } else {
        lemma_reachable_states_intact(entropy, events.drop_last());
        let s = run(start_view(entropy), events.drop_last());
        let body = choose|body: Seq<Coord>| #[trigger]
            holds_snake(s, body) && s.score + 3 == body.len();
        let t = after(s, events.last());
        match events.last() {
            Event::Turn(d) => {
                assert(holds_snake(t, body));
            },
            Event::Resume(fresh) => {
                if s.dead {
                    lemma_start_holds_snake(fresh);
                    assert(holds_snake(t, start_body));
                } else {
                    assert(holds_snake(t, body));
                }
            },
            Event::Tick(fresh) => {
                if s.dead {
                    assert(holds_snake(t, body));
                } else {
                    if body.contains(Coord::at(0, 0)) {
                        let i = choose|i: int| 0 <= i < body.len() && body[i] == Coord::at(0, 0);
                        lemma_chain_cells(s.cells, body, i);
                    }
                    lemma_tick_keeps_snake(s, fresh, body);
                    lemma_score_counts_growth(s, fresh, body);
                    if s.outcome() == TickOutcome::Died {
                        assert(holds_snake(t, body));
                    } else {
                        assert(holds_snake(t, body_after(s, body)));
                    }
                }
            },
        }
    }
}

/// A change of direction that stays on the axis of travel does not turn the
/// snake: the tick that follows does what it would have done had the
/// direction of travel been asked for, and only remembers what was asked.
/// So a snake that travels right is not reversed by a request to go left.
pub proof fn lemma_reversal_ignored(s: GameView, d: Direction, entropy: Seq<u8>)
    requires
        d.same_axis(s.committed),
    ensures
        s.with_direction(d).ticked(entropy) == s.with_direction(s.committed).ticked(
            entropy,
        ).with_direction(d),
        s.with_direction(d).ticked(entropy).committed == s.committed,
{
}

} // verus!
