//! Simulation core of a grid-based snake game.
//!
//! The library owns the board state (a flat array of cells), the snake's
//! body and heading, and the per-tick rules that advance the game by one
//! step. Rendering, input capture, timers and the random-number source are
//! external collaborators: the random draw that apple placement consumes is
//! handed in by the driver as a plain integer seed.

pub mod cell;
pub mod snake;
pub mod universe;

pub use cell::Cell;
pub use cell::ControlState;
pub use cell::Direction;
pub use snake::Snake;
pub use universe::Universe;
