//! Procedural terrain for a tile board: a fixed-point noise field, the
//! materializer that turns it into tile and tree placements, and the
//! controller that replaces the whole board on demand.

pub mod field;
pub mod board;
mod random;
pub mod regen;
