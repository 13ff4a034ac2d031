//! Falling-block puzzle engine: occupancy grid, tetromino geometry, rotation,
//! descent, locking and line clearing, and the phases of a game.
pub mod board;
pub mod grid;
mod random;
pub mod shapes;
pub mod status;
pub mod tetromino;
