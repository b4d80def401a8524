//! A chess rules engine: board state, candidate and legal move generation,
//! check detection, move execution with promotion, and checkmate detection.
pub mod board;
pub mod consts;
pub mod ui;
