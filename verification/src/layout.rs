//! The offset-grid to world-lattice transform and the hex corner table.

use vstd::prelude::*;
use crate::mesh::WorldPos;

verus! {

/// Where the shear transform sends offset coordinates `(x, z)` with height
/// `y`: odd rows shift east by one inner radius, rows advance by one and a
/// half outer radii.
///
/// In lattice units (`x` in inner radii, `z` in half outer radii) that is
/// `(2x + (z mod 2), y, 3z)`.
pub open spec fn to_world_spec(x: int, y: u32, z: int) -> WorldPos {
    WorldPos { x: (2 * x + z % 2) as i64, y: y, z: (3 * z) as i64 }
}

/// Transforms an offset-grid coordinate to its world lattice position; the
/// height `y` passes through unchanged.
pub fn to_hex_pos(x: u32, y: u32, z: u32) -> (r: WorldPos)
    ensures
        r == to_world_spec(x as int, y, z as int),
{
    WorldPos { x: 2 * (x as i64) + (z as i64) % 2, y: y, z: 3 * (z as i64) }
}

/// Lattice east offset of hex corner `i`.
///
/// Corners are numbered 0..5 around the hexagon, starting at the `+z`
/// corner and passing first through the `+x` side: (0, 2), (1, 1),
/// (1, -1), (0, -2), (-1, -1), (-1, 1). Every stitching rule indexes
/// corners by their place in this exact order.
pub open spec fn corner_dx(i: int) -> int {
    if i == 0 {
        0
    } else if i == 1 {
        1
    } else if i == 2 {
        1
    } else if i == 3 {
        0
    } else if i == 4 {
        -1
    } else {
        -1
    }
}

/// Lattice north offset of hex corner `i` (in half outer radii).
pub open spec fn corner_dz(i: int) -> int {
    if i == 0 {
        2
    } else if i == 1 {
        1
    } else if i == 2 {
        -1
    } else if i == 3 {
        -2
    } else if i == 4 {
        -1
    } else {
        1
    }
}

/// The position of corner `i` of a tile centred at `p`.
pub open spec fn corner_pos(p: WorldPos, i: int) -> WorldPos {
    WorldPos { x: (p.x + corner_dx(i)) as i64, y: p.y, z: (p.z + corner_dz(i)) as i64 }
}

/// `p` sits far enough from the lattice edge that all six corners exist.
pub open spec fn lattice_bounded(p: WorldPos) -> bool {
    &&& i64::MIN + 2 <= p.x <= i64::MAX - 2
    &&& i64::MIN + 2 <= p.z <= i64::MAX - 2
}

/// Computes corner `i` of the tile centred at `p`.
pub fn hex_corner(p: WorldPos, i: u32) -> (r: WorldPos)
    requires
        i < 6,
        lattice_bounded(p),
    ensures
        r == corner_pos(p, i as int),
{
    match i {
        0 => WorldPos { x: p.x, y: p.y, z: p.z + 2 },
        1 => WorldPos { x: p.x + 1, y: p.y, z: p.z + 1 },
        2 => WorldPos { x: p.x + 1, y: p.y, z: p.z - 1 },
        3 => WorldPos { x: p.x, y: p.y, z: p.z - 2 },
        4 => WorldPos { x: p.x - 1, y: p.y, z: p.z - 1 },
        _ => WorldPos { x: p.x - 1, y: p.y, z: p.z + 1 },
    }
}

/// One more row of `b`-wide strides: `(a + 1) * b == a * b + b`.
pub proof fn lemma_row_step(a: int, b: int)
    by (nonlinear_arith)
    ensures
        (a + 1) * b == a * b + b,
{
}

/// The base vertex index of tile `(x, z)` in a chunk of side `chunk_size`:
/// seven vertices per tile, row-major rows of `chunk_size` tiles.
pub open spec fn tile_base(x: int, z: int, chunk_size: int) -> int {
    7 * x + 7 * chunk_size * z
}

/// A chunk of side `chunk_size` holds `7 * chunk_size^2` cap vertices, and
/// every tile's seven of them fit below that bound.
pub proof fn lemma_tile_base_bound(x: int, z: int, chunk_size: int)
    by (nonlinear_arith)
    requires
        0 <= x < chunk_size,
        0 <= z < chunk_size,
    ensures
        0 <= tile_base(x, z, chunk_size),
        tile_base(x, z, chunk_size) + 7 <= 7 * chunk_size * chunk_size,
        7 * chunk_size <= 7 * chunk_size * chunk_size,
{
}

/// Computes `tile_base(x, z, chunk_size)` as an index word.
pub fn tile_base_idx(x: u32, z: u32, chunk_size: u32) -> (r: u32)
    requires
        x < chunk_size,
        z < chunk_size,
        7 * chunk_size * chunk_size <= u32::MAX,
    ensures
        r as int == tile_base(x as int, z as int, chunk_size as int),
{
    proof {
        lemma_tile_base_bound(x as int, z as int, chunk_size as int);
    }
    7 * x + 7 * chunk_size * z
}

} // verus!
