//! A verified core engine for a falling-block puzzle game: board and
//! collision model, the SRS rotation system with wall kicks, movement,
//! gravity and locking, line clearing with scoring and leveling, the
//! hold slot, and spawn-collision game-over detection.

pub mod board;
pub mod engine;
pub mod laws;
pub mod pieces;
pub mod rng;
