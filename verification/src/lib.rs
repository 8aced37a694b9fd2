//! Procedural generation of hex-tiled dungeons.
//!
//! The crate has two layers. [`wfc`] is a wave function collapse engine over a
//! hexagonal grid: every cell holds the list of tile types it may still
//! become, and a reducer narrows one cell at a time until nothing changes.
//! [`generation_fields`] holds the tile sets that run on the engine: the
//! dungeon with its generator, a seeded state machine that places rooms,
//! forges a path between them and lets the engine fill in the rest, and a
//! small terrain of land, sea and beach.
//!
//! [`random`] draws the random numbers of the generator, [`sequences`] holds
//! facts about filtered sequences that several modules lean on, and
//! [`color`] reads and writes the colors in which a front end may draw.
//!
//! Every function states what it does over a mathematical view of its
//! arguments: a grid is seen as the lists of types of its cells, the engine
//! as a grid and a queue, the generator as a record of its state. What holds
//! of every step of the engine and the generator is proved beside them.
pub mod color;
pub mod generation_fields;
pub mod random;
pub mod sequences;
pub mod wfc;
