//! Building blocks of a small lockstep strategy game: the `clockwork`
//! synchronisation protocol with automatic host migration, the payloads of
//! the game, the terrain rules and the window of its tile map, the places of
//! its sprites, and the per-frame keyboard and mouse state.

pub mod clockwork;
pub mod game;
pub mod input;
pub mod sprites;
pub mod tiles;
