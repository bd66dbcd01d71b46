//! Rules engine of a falling-block puzzle game: the shape table, the board
//! with its collision test, lock and line clear, and the command surface
//! that a presentation layer drives.

pub mod board;
pub mod game;
pub mod shape;
