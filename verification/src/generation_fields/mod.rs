//! The tile sets that run on the wave function collapse engine.
pub mod dungeon;
pub mod terrain;
