//! Conway's Game of Life on a fixed-size toroidal grid.
//!
//! - `grid`: cell storage, toroidal addressing and direct edits.
//! - `rules`: the birth/survival rule and the laws it obeys.
//! - `engine`: one generation over a whole grid, sequential by worker
//!   partitions or data-parallel.
//! - `simulation`: the simulation state, interactive commands and the per-frame
//!   sequence.
pub mod grid;
pub mod rules;
pub mod engine;
pub mod simulation;
