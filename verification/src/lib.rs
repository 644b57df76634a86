//! Game-state engine for a console Connect-Four variant: a fixed-size grid
//! with gravity drops, strict turn alternation between two players, and
//! win/draw detection by directional line counting from the last move.

pub mod board;
pub mod direction;
pub mod game;
pub mod win;

pub use direction::Direction;
pub use game::{Game, GameError, Outcome, State};
