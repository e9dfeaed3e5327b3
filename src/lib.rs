//! Simulation core of a two-ball "paint the board" game: a bit-packed board
//! of lit and dark cells, and the integer rules of the physics that moves two
//! balls over it.

pub mod board;
pub mod game;
