//! A verified core for a two-player terminal snake game.
//!
//! The library holds the whole simulation: the grid geometry, the game
//! state with its invariant, the tick engine that moves both snakes and
//! resolves collisions, growth and the apple, and the input mapper that
//! turns key presses into direction changes. Rendering and the terminal
//! loop live outside the library.

pub mod engine;
pub mod geometry;
pub mod input;
pub mod laws;
