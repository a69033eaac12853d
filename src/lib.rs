//! The domain core of a hex-grid battle map editor: a staggered pointy-top tile map with
//! exact lattice geometry, adjacency, hit-testing, terrain painting, viewport fitting and
//! the editor state machine that drives them.

pub mod coord;
pub mod terrain;
mod shape;
pub mod grid;
pub mod geometry;
pub mod map;
pub mod laws;
pub mod viewport;
pub mod editor;
pub mod unit;
pub mod battle_map;
pub mod materials;
pub mod roster;
