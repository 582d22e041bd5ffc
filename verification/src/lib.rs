//! Procedural hexagonal terrain meshes.
//!
//! A map is a square grid of chunks; a chunk is a square grid of pointy-top
//! hexagonal tiles laid out in offset coordinates (odd rows are shifted half
//! a tile to the east). Every tile contributes a flat seven-vertex cap, and
//! vertical skirt quads bridge the boundary edges of neighbouring tiles so
//! that height differences leave no cracks.
//!
//! All geometry lives on an exact integer lattice: `x` is counted in units
//! of the hexagon's inner radius, `z` in half units of its outer radius, so
//! every centre and corner is an integer point. Heights ride along as opaque
//! 32-bit samples that the mesh never inspects. A renderer scales the
//! lattice by its radius constants and reinterprets the height bits.
//!
//! Triangle indices are 32 bits wide. A chunk side of up to 24770 tiles
//! keeps every vertex of a chunk — `7` per tile plus up to `3` per seam
//! row — addressable; the builders state that bound in their `requires`
//! clauses, and the map size is limited only by the height field's
//! extent.

pub mod mesh;
pub mod layout;
pub mod height;
pub mod tile;
pub mod stitch;
pub mod chunk;
pub mod grid;
pub mod texture;

use vstd::prelude::*;

verus! {

/// Chunks per map side.
pub const MAP_SIZE: u32 = 2;

/// Tiles per chunk side.
pub const CHUNK_SIZE: u32 = 32;

} // verus!
