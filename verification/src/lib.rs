//! Rules of a two-player chess board: move generation for each kind of piece
//! and the state machine that selects, highlights and moves them.

pub mod board;
pub mod moves;
pub mod game;
pub mod laws;
pub mod custom_theme;
