//! A single-player grid snake game engine.
//!
//! The engine owns a square board, a snake and a piece of food. A driver
//! outside this crate feeds it the latest direction on every tick and draws
//! the board it paints.
//!
//! * [`coord`]: cells of the grid and the four directions.
//! * [`snake`]: the snake's body and the rule by which it moves and grows.
//! * [`board`]: the grid of cells and the picture painted on it.
//! * [`game`]: the state of a game and one step of play.

pub mod board;
mod chance;
pub mod coord;
pub mod game;
pub mod snake;

pub use crate::board::{Board, Square};
pub use crate::coord::{Coord, Direction};
pub use crate::game::{next_speed, Game, StepOutcome, INITIAL_SPEED, MIN_SPEED, SPEED_STEP};
pub use crate::snake::{Death, Snake};
