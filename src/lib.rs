//! Board logic of a six-by-five quiz game: the quiz content, the layout of
//! the board, the numbering of its cells and the state machine driven by
//! pointer presses.

pub mod board;
pub mod geometry;
pub mod mapping;
pub mod quiz;
