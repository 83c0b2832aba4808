//! Core logic of a hexagonal-grid exploration and crafting game.
//!
//! The heart of the crate is the axial hex coordinate type [`hex::CellId`]
//! together with exact-integer hex arithmetic, the bidirectional mapping
//! between grid cells and fixed-point world-space positions, and the lazy
//! iterators that enumerate filled disks, hollow rings and growing spirals
//! of cells. Around it sit the small pure pieces of the crafting system:
//! ingredient tag sets and the bit-twiddling kitchen processes.

pub mod hex;
pub mod islands;
pub mod iters;
pub mod process;
pub mod tags;
pub mod world;
