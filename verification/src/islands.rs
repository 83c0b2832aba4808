//! Marker types naming the two kinds of island mesh a map cell can carry.
//!
//! The mesh construction itself belongs to the rendering collaborator;
//! these markers only tell it which builder a cell uses.

use vstd::prelude::*;

verus! {

/// Marks a cell whose mesh is stitched from a core piece plus one
/// connection piece per edge, chosen by looking up the six adjacent cells.
#[derive(Debug, Hash, PartialEq, Eq)]
pub struct DynamicIsland;

/// Marks a cell whose mesh is a single static core piece, independent of
/// its neighbours.
#[derive(Debug, Hash, PartialEq, Eq)]
pub struct StaticIsland;

} // verus!
