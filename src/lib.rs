//! Conway's Game of Life on a fixed-size toroidal grid, with two
//! interchangeable cell stores: one bit per cell and one byte per cell.
pub mod laws;
pub mod rules;
pub mod storage;
pub mod universe;

pub use rules::{ALIVE_GLYPH, DEAD_GLYPH};
pub use storage::{Cell, CellStore};
pub use universe::{Universe, UniverseError, DEFAULT_HEIGHT, DEFAULT_WIDTH};
