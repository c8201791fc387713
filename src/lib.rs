//! A terminal arcade game: the player's cannon moves along the bottom row of a
//! fixed grid and shoots at a marching formation of invaders.
//!
//! This crate holds the game's rules: input intents, the per-tick simulation,
//! the starting formation and the list of marks a frame is drawn from.
pub mod clock;
pub mod display;
pub mod game;
pub mod input;
pub mod laws;
pub mod render;
