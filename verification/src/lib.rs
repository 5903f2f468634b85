//! A snake game played on a square board: the board geometry, the level
//! rules and the game state machine, with their contracts.
pub mod board;
mod random;
pub mod game;
pub mod render;
pub mod laws;
