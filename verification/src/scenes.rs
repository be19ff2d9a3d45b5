//! The scenes of the game.

pub mod level;
