//! A minimal character-grid game engine: a frame clock, a keyboard state
//! machine that turns raw key-down samples into press/hold/release events,
//! a double-buffered console rendering surface, a tetromino
//! rotation-and-collision system, and a Game of Life step.

pub mod grid;
pub mod input;
pub mod life;
pub mod render;
pub mod runner;
pub mod tetris;
pub mod time;
