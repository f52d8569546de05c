//! Deterministic simulation core of an interplanetary strategy game.

pub mod buckets;
pub mod executor;
pub mod game;
pub mod geometry;
pub mod laws;
pub mod map;
pub mod protocol;
pub mod simulation;
