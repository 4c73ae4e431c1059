//! A single-player snake game engine: a grid model and a game state that
//! advances one tick at a time.

pub mod game;
pub mod grid;
