//! Keyboard input: from scancodes to what the game does with them.

use vstd::prelude::*;
use crate::game::{resume_game, set_direction, GameState};
use crate::grid::{Direction, ROWS};

verus! {

/// What a key press asks of the game.
#[derive(Clone, Copy, Debug, PartialEq, Eq, Structural)]
pub enum KeyEvent {
    /// Travel in this direction.
    Turn(Direction),
    /// Start anew after death.
    Resume,
}

/// The meaning of a scancode: the letters A, S, D, W and the arrow keys
/// turn the snake, Enter resumes, every other code means nothing.
pub open spec fn key_event(scancode: u8) -> Option<KeyEvent> {
    if scancode == 30 || scancode == 75 {
        Some(KeyEvent::Turn(Direction::Left))
    } else if scancode == 31 || scancode == 80 {
        Some(KeyEvent::Turn(Direction::Down))
    } else if scancode == 32 || scancode == 77 {
        Some(KeyEvent::Turn(Direction::Right))
    } else if scancode == 17 || scancode == 72 {
        Some(KeyEvent::Turn(Direction::Up))
    } else if scancode == 28 {
        Some(KeyEvent::Resume)
    } else {
        None
    }
}

/// Decodes a scancode.
pub fn decode_scancode(scancode: u8) -> (event: Option<KeyEvent>)
    ensures
        event == key_event(scancode),
{
    match scancode {
        30 | 75 => Some(KeyEvent::Turn(Direction::Left)),
        31 | 80 => Some(KeyEvent::Turn(Direction::Down)),
        32 | 77 => Some(KeyEvent::Turn(Direction::Right)),
        17 | 72 => Some(KeyEvent::Turn(Direction::Up)),
        28 => Some(KeyEvent::Resume),
        _ => None,
    }
}

/// Applies a key press to the game: a direction key records the direction
/// asked for, Enter resumes a game that is over, any other key changes
/// nothing. Returns whether the game was started anew.
pub fn handle_scancode(state: &mut GameState, scancode: u8, entropy: &[u8; ROWS]) -> (restarted:
    bool)
    ensures
        final(state).wf(),
        final(state)@ == (match key_event(scancode) {
            Some(KeyEvent::Turn(d)) => old(state)@.with_direction(d),
            Some(KeyEvent::Resume) => old(state)@.resumed(entropy@),
            None => old(state)@,
        }),
        restarted == (key_event(scancode) == Some(KeyEvent::Resume) && old(state)@.dead),
{
    proof {
        use_type_invariant(&*state);
    }
    match decode_scancode(scancode) {
        Some(KeyEvent::Turn(d)) => {
            set_direction(state, d);
            false
        },
        Some(KeyEvent::Resume) => {
            let was_dead = state.is_dead();
            resume_game(state, entropy);
            was_dead
        },
        None => false,
    }
}

} // verus!
