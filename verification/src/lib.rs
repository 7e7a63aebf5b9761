//! A snake game on a toroidal grid, as a state machine driven by ticks.

pub mod grid;
pub mod playfield;
pub mod game;
pub mod snake;
pub mod input;
pub mod display;
pub mod screen;
pub mod interrupts;
