//! A bounded cellular automaton (Conway's Life rule) on a square grid of
//! `WORLD_WIDTH x WORLD_WIDTH` cells, with coordinate mappings for
//! rectangular and hexagonal layouts and a double-buffered update protocol.
use vstd::prelude::*;

pub mod util;
pub mod world;
pub mod engine;
pub mod kernel;
pub mod buffers;
pub mod hex_grid;
pub mod viewport;
pub mod simulation;
pub mod render;
pub mod transfer;
pub mod mesh;

verus! {

/// Number of cells along each side of the square grid.
pub const WORLD_WIDTH: usize = 512;

/// Number of cells in the whole grid.
pub const WORLD_CELLS: usize = WORLD_WIDTH * WORLD_WIDTH;

} // verus!
