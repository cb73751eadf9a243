//! Conway's Game of Life on a toroidal grid.
//!
//! The crate holds the simulation only: a [`Grid`] of cells, and [`step`],
//! which advances a grid by one generation and reports the cells that
//! changed. Drawing the cells is left to the caller.

pub mod torus;
pub mod board;
pub mod grid;
pub mod stepper;
pub mod game;
pub mod laws;

pub use crate::game::Game;
pub use crate::grid::Grid;
pub use crate::stepper::{step, GridDelta};
