//! Building one chunk: a cap pass, a stitch pass, and the chunk seam.

use vstd::prelude::*;
use vstd::arithmetic::div_mod::lemma_fundamental_div_mod_converse;
use crate::height::HeightField;
use crate::layout::to_world_spec;
use crate::layout::to_hex_pos;
use crate::layout::tile_base;
use crate::layout::tile_base_idx;
use crate::layout::corner_pos;
use crate::layout::hex_corner;
use crate::layout::lemma_tile_base_bound;
use crate::layout::lemma_row_step;
use crate::mesh::MeshBuffers;
use crate::mesh::WorldPos;
use crate::mesh::quad_indices_int;
use crate::mesh::create_quad;
use crate::mesh::lemma_concat_below;
use crate::mesh::lemma_quad_below;
use crate::tile::cap_positions;
use crate::tile::cap_indices;
use crate::tile::create_tile;
use crate::stitch::tile_side_indices;
use crate::stitch::add_tile_sides;
use crate::stitch::lemma_tile_side_indices_below;

verus! {

/// The cap centre of tile `(x, z)` of chunk `(c_x, c_z)`: local offset
/// coordinates, with the height sampled at the tile's map-global
/// coordinates.
pub open spec fn tile_world(c_x: int, c_z: int, cs: int, f: HeightField, x: int, z: int) -> WorldPos {
    to_world_spec(x, f.at(c_x * cs + x, c_z * cs + z), z)
}

/// Cap vertices of the first `n` tiles of a chunk, row-major.
pub open spec fn caps_positions_upto(
    c_x: int,
    c_z: int,
    cs: int,
    f: HeightField,
    n: int,
) -> Seq<WorldPos>
    decreases n,
{
    if n <= 0 {
        Seq::empty()
    } else {
        caps_positions_upto(c_x, c_z, cs, f, n - 1) + cap_positions(
            tile_world(c_x, c_z, cs, f, (n - 1) % cs, (n - 1) / cs),
        )
    }
}

/// Fan index entries of the first `n` tiles: tile `t` sits at base
/// `7 t`.
pub open spec fn caps_indices_upto(n: int) -> Seq<u32>
    decreases n,
{
    if n <= 0 {
        Seq::empty()
    } else {
        caps_indices_upto(n - 1) + cap_indices((7 * (n - 1)) as u32)
    }
}

/// Skirt index entries of the first `n` tiles, row-major.
pub open spec fn sides_upto(cs: int, n: int) -> Seq<u32>
    decreases n,
{
    if n <= 0 {
        Seq::empty()
    } else {
        sides_upto(cs, n - 1) + tile_side_indices((n - 1) % cs, (n - 1) / cs, cs)
    }
}

/// Each tile's cap holds exactly seven vertices.
pub proof fn lemma_caps_positions_len(c_x: int, c_z: int, cs: int, f: HeightField, n: int)
    requires
        n >= 0,
    ensures
        caps_positions_upto(c_x, c_z, cs, f, n).len() == 7 * n,
    decreases n,
{
    if n > 0 {
        lemma_caps_positions_len(c_x, c_z, cs, f, n - 1);
    }
}

/// Cap vertex `j` of the `t`-th emitted tile sits at buffer offset
/// `7 t + j`.
proof fn lemma_cap_vertex_at(c_x: int, c_z: int, cs: int, f: HeightField, n: int, t: int, j: int)
    requires
        0 <= t < n,
        0 <= j < 7,
    ensures
        caps_positions_upto(c_x, c_z, cs, f, n)[7 * t + j] == cap_positions(
            tile_world(c_x, c_z, cs, f, t % cs, t / cs),
        )[j],
    decreases n,
{
    lemma_caps_positions_len(c_x, c_z, cs, f, n - 1);
    if t < n - 1 {
        lemma_cap_vertex_at(c_x, c_z, cs, f, n - 1, t, j);
    }
}

/// The addressing formula every stitching rule relies on: within a
/// chunk's vertex buffer, tile `(x, z)` owns the seven entries starting
/// at `tile_base(x, z, cs)` — its cap centre at offset 0, corner `i` at
/// offset `1 + i` — wherever the chunk sits in the map.
pub proof fn lemma_tile_vertex_addressing(
    c_x: int,
    c_z: int,
    cs: int,
    ms: int,
    f: HeightField,
    x: int,
    z: int,
    j: int,
)
    requires
        0 <= x < cs,
        0 <= z < cs,
        0 <= j < 7,
    ensures
        tile_base(x, z, cs) + j < chunk_positions(c_x, c_z, cs, ms, f).len(),
        chunk_positions(c_x, c_z, cs, ms, f)[tile_base(x, z, cs) + j] == cap_positions(
            tile_world(c_x, c_z, cs, f, x, z),
        )[j],
{
    let t = z * cs + x;
    lemma_fundamental_div_mod_converse(t, cs, z, x);
    assert(0 <= t && t < cs * cs && 7 * t == 7 * x + 7 * cs * z) by (nonlinear_arith)
        requires
            0 <= x < cs,
            0 <= z < cs,
            t == z * cs + x,
    ;
    lemma_caps_positions_len(c_x, c_z, cs, f, cs * cs);
    lemma_cap_vertex_at(c_x, c_z, cs, f, cs * cs, t, j);
    assert(7 * t + j < 7 * (cs * cs)) by (nonlinear_arith)
        requires
            0 <= t < cs * cs,
            0 <= j < 7,
    ;
}

/// The boundary-column cap centre used by seam row `z`: the chunk's last
/// column, at the height of the neighbouring chunk's first column,
/// `dz` rows on.
pub open spec fn seam_world(c_x: int, c_z: int, cs: int, f: HeightField, z: int, dz: int) -> WorldPos {
    to_world_spec(cs - 1, f.at(cs * (c_x + 1), c_z * cs + z + dz), z)
}

/// The extra boundary vertices emitted by the first `n` seam rows:
/// corners 2 and 1 of the boundary centre per row, plus corner 3 at the
/// next row's height on odd rows.
pub open spec fn seam_positions_upto(
    c_x: int,
    c_z: int,
    cs: int,
    f: HeightField,
    n: int,
) -> Seq<WorldPos>
    decreases n,
{
    if n <= 0 {
        Seq::empty()
    } else {
        let z = n - 1;
        let p = seam_world(c_x, c_z, cs, f, z, 0);
        seam_positions_upto(c_x, c_z, cs, f, z) + (if z % 2 == 1 {
            seq![
                corner_pos(p, 2),
                corner_pos(p, 1),
                corner_pos(seam_world(c_x, c_z, cs, f, z, 1), 3),
            ]
        } else {
            seq![corner_pos(p, 2), corner_pos(p, 1)]
        })
    }
}

/// The seam quads of the first `n` rows: each bridges the boundary
/// tile's corners 1,2 to the freshly emitted pair, and odd rows add a
/// second quad from corners 2,3 down to the third vertex.
pub open spec fn seam_indices_upto(c_x: int, c_z: int, cs: int, f: HeightField, n: int) -> Seq<u32>
    decreases n,
{
    if n <= 0 {
        Seq::empty()
    } else {
        let z = n - 1;
        let c = tile_base(cs - 1, z, cs) + 1;
        let idx = 7 * cs * cs + seam_positions_upto(c_x, c_z, cs, f, z).len() as int;
        seam_indices_upto(c_x, c_z, cs, f, z) + quad_indices_int(c + 1, c + 2, idx, idx + 1) + (
        if z % 2 == 1 {
            quad_indices_int(c + 2, c + 3, idx + 1, idx + 2)
        } else {
            Seq::empty()
        })
    }
}

/// Seam rows emit two or three vertices each.
pub proof fn lemma_seam_positions_len(c_x: int, c_z: int, cs: int, f: HeightField, n: int)
    requires
        n >= 0,
    ensures
        2 * n <= seam_positions_upto(c_x, c_z, cs, f, n).len() <= 3 * n,
    decreases n,
{
    if n > 0 {
        lemma_seam_positions_len(c_x, c_z, cs, f, n - 1);
    }
}

/// The complete vertex sequence of chunk `(c_x, c_z)`: every tile's cap
/// in row-major order, then — for chunks with an east neighbour — the
/// seam's boundary vertices.
pub open spec fn chunk_positions(c_x: int, c_z: int, cs: int, ms: int, f: HeightField) -> Seq<
    WorldPos,
> {
    caps_positions_upto(c_x, c_z, cs, f, cs * cs) + (if c_x + 1 < ms {
        seam_positions_upto(c_x, c_z, cs, f, cs)
    } else {
        Seq::empty()
    })
}

/// The complete triangle list of chunk `(c_x, c_z)`: every cap fan, then
/// every tile's skirt quads, then — for chunks with an east neighbour —
/// the seam quads.
pub open spec fn chunk_indices(c_x: int, c_z: int, cs: int, ms: int, f: HeightField) -> Seq<u32> {
    caps_indices_upto(cs * cs) + sides_upto(cs, cs * cs) + (if c_x + 1 < ms {
        seam_indices_upto(c_x, c_z, cs, f, cs)
    } else {
        Seq::empty()
    })
}

/// Stitches the seam toward the chunk's east neighbour, if it has one:
/// for each boundary row, emits the neighbour-height boundary vertices
/// and bridges the boundary tile's corners to them. Seams toward the
/// other three sides are left open; those chunk edges keep their bare
/// caps.
#[verifier::loop_isolation(false)]
pub fn add_chunk_sides(
    c_x: u32,
    c_z: u32,
    chunk_size: u32,
    map_size: u32,
    field: &HeightField,
    bufs: &mut MeshBuffers,
)
    requires
        old(bufs).wf(),
        c_x < map_size,
        c_z < map_size,
        1 <= chunk_size,
        7 * chunk_size * chunk_size + 3 * chunk_size <= u32::MAX,
        old(bufs).positions@.len() == 7 * chunk_size * chunk_size,
        field.wf(),
        c_x + 1 < map_size ==> (c_x + 1) * chunk_size < field.width && (c_z + 1) * chunk_size
            < field.height,
    ensures
        final(bufs).wf(),
        final(bufs).positions@ == old(bufs).positions@ + (if c_x + 1 < map_size {
            seam_positions_upto(c_x as int, c_z as int, chunk_size as int, *field, chunk_size as int)
        } else {
            Seq::empty()
        }),
        final(bufs).indices@ == old(bufs).indices@ + (if c_x + 1 < map_size {
            seam_indices_upto(c_x as int, c_z as int, chunk_size as int, *field, chunk_size as int)
        } else {
            Seq::empty()
        }),
{
    let ghost cs = chunk_size as int;
    let ghost f = *field;
    let ghost pos0 = old(bufs).positions@;
    let ghost ind0 = old(bufs).indices@;
    if c_x < map_size - 1 {
        let x = chunk_size - 1;
        let mut z: u32 = 0;
        while z < chunk_size
            invariant
                z <= chunk_size,
                bufs.parallel(),
                bufs.derived(),
                bufs.positions@ == pos0 + seam_positions_upto(c_x as int, c_z as int, cs, f, z as int),
                bufs.indices@ == ind0 + seam_indices_upto(c_x as int, c_z as int, cs, f, z as int),
                bufs.indices_below(bufs.positions@.len() as int),
            decreases chunk_size - z,
        {
            proof {
                lemma_seam_positions_len(c_x as int, c_z as int, cs, f, z as int);
                lemma_seam_positions_len(c_x as int, c_z as int, cs, f, z as int + 1);
                lemma_row_step(c_x as int, cs);
                lemma_row_step(c_z as int, cs);
                lemma_tile_base_bound(x as int, z as int, cs);
            }
            let gx = chunk_size + c_x * chunk_size;
            let gz = z + c_z * chunk_size;
            let height_bits = field.sample(gx, gz);
            let grid_pos = to_hex_pos(x, height_bits, z);

            let idx = bufs.positions.len() as u32;
            let v2 = hex_corner(grid_pos, 2);
            bufs.push_vertex(v2);
            let v1 = hex_corner(grid_pos, 1);
            bufs.push_vertex(v1);
            let c_tile = tile_base_idx(x, z, chunk_size) + 1;
            create_quad(c_tile + 1, c_tile + 2, idx, idx + 1, &mut bufs.indices, &bufs.positions);
            proof {
                lemma_quad_below(
                    (c_tile + 1) as u32,
                    (c_tile + 2) as u32,
                    idx,
                    (idx + 1) as u32,
                    bufs.positions@.len() as int,
                );
                lemma_concat_below(
                    ind0 + seam_indices_upto(c_x as int, c_z as int, cs, f, z as int),
                    crate::mesh::quad_indices((c_tile + 1) as u32, (c_tile + 2) as u32, idx, (idx + 1) as u32),
                    bufs.positions@.len() as int,
                );
            }

            if z % 2 == 1 {
                let h2 = field.sample(gx, gz + 1);
                let grid_pos2 = to_hex_pos(x, h2, z);
                let v3 = hex_corner(grid_pos2, 3);
                bufs.push_vertex(v3);
                create_quad(
                    c_tile + 2,
                    c_tile + 3,
                    idx + 1,
                    idx + 2,
                    &mut bufs.indices,
                    &bufs.positions,
                );
                proof {
                    lemma_quad_below(
                        (c_tile + 2) as u32,
                        (c_tile + 3) as u32,
                        (idx + 1) as u32,
                        (idx + 2) as u32,
                        bufs.positions@.len() as int,
                    );
                    lemma_concat_below(
                        ind0 + seam_indices_upto(c_x as int, c_z as int, cs, f, z as int)
                            + crate::mesh::quad_indices((c_tile + 1) as u32, (c_tile + 2) as u32, idx, (idx + 1) as u32),
                        crate::mesh::quad_indices((c_tile + 2) as u32, (c_tile + 3) as u32, (idx + 1) as u32, (idx + 2) as u32),
                        bufs.positions@.len() as int,
                    );
                }
            }
            proof {
                assert(bufs.positions@ =~= pos0 + seam_positions_upto(
                    c_x as int,
                    c_z as int,
                    cs,
                    f,
                    z as int + 1,
                ));
                assert(bufs.indices@ =~= ind0 + seam_indices_upto(
                    c_x as int,
                    c_z as int,
                    cs,
                    f,
                    z as int + 1,
                ));
            }
            z = z + 1;
        }
    } else {
        proof {
            assert(bufs.positions@ =~= pos0 + Seq::<WorldPos>::empty());
            assert(bufs.indices@ =~= ind0 + Seq::<u32>::empty());
        }
    }
}

/// Builds the complete mesh of chunk `(c_x, c_z)`: one cap per tile in
/// row-major order, then every tile's skirt quads (two passes, so each
/// neighbour's vertices already exist), then the east chunk seam.
#[verifier::loop_isolation(false)]
pub fn create_chunk(
    c_x: u32,
    c_z: u32,
    chunk_size: u32,
    map_size: u32,
    field: &HeightField,
) -> (m: MeshBuffers)
    requires
        c_x < map_size,
        c_z < map_size,
        1 <= chunk_size,
        7 * chunk_size * chunk_size + 3 * chunk_size <= u32::MAX,
        field.wf(),
        (c_x + 1) * chunk_size <= field.width,
        (c_z + 1) * chunk_size <= field.height,
        c_x + 1 < map_size ==> (c_x + 1) * chunk_size < field.width && (c_z + 1) * chunk_size
            < field.height,
    ensures
        m.wf(),
        m.positions@ == chunk_positions(
            c_x as int,
            c_z as int,
            chunk_size as int,
            map_size as int,
            *field,
        ),
        m.indices@ == chunk_indices(
            c_x as int,
            c_z as int,
            chunk_size as int,
            map_size as int,
            *field,
        ),
{
    let ghost cs = chunk_size as int;
    let ghost f = *field;
    let mut bufs = MeshBuffers::new();

    let mut z: u32 = 0;
    while z < chunk_size
        invariant
            z <= chunk_size,
            bufs.parallel(),
            bufs.derived(),
            bufs.positions@ == caps_positions_upto(c_x as int, c_z as int, cs, f, z as int * cs),
            bufs.indices@ == caps_indices_upto(z as int * cs),
            bufs.indices_below(bufs.positions@.len() as int),
        decreases chunk_size - z,
    {
        let mut x: u32 = 0;
        while x < chunk_size
            invariant
                x <= chunk_size,
                bufs.parallel(),
                bufs.derived(),
                bufs.positions@ == caps_positions_upto(
                    c_x as int,
                    c_z as int,
                    cs,
                    f,
                    z as int * cs + x as int,
                ),
                bufs.indices@ == caps_indices_upto(z as int * cs + x as int),
                bufs.indices_below(bufs.positions@.len() as int),
            decreases chunk_size - x,
        {
            let ghost n = z as int * cs + x as int;
            proof {
                lemma_tile_base_bound(x as int, z as int, cs);
                lemma_caps_positions_len(c_x as int, c_z as int, cs, f, n);
                lemma_fundamental_div_mod_converse(n, cs, z as int, x as int);
                lemma_row_step(c_x as int, cs);
                lemma_row_step(c_z as int, cs);
                assert(7 * (z as int * cs + x as int) == 7 * (x as int) + 7 * cs * (z as int))
                    by (nonlinear_arith);
            }
            let gx = x + c_x * chunk_size;
            let gz = z + c_z * chunk_size;
            let height_bits = field.sample(gx, gz);
            let grid_pos = to_hex_pos(x, height_bits, z);
            let base = create_tile(grid_pos, &mut bufs);
            proof {
                assert(bufs.positions@ =~= caps_positions_upto(
                    c_x as int,
                    c_z as int,
                    cs,
                    f,
                    n + 1,
                ));
                assert(bufs.indices@ =~= caps_indices_upto(n + 1));
            }
            x = x + 1;
        }
        proof {
            lemma_row_step(z as int, cs);
        }
        z = z + 1;
    }

    proof {
        lemma_caps_positions_len(c_x as int, c_z as int, cs, f, cs * cs);
        assert(7 * (cs * cs) == 7 * cs * cs) by (nonlinear_arith);
    }

    let mut z2: u32 = 0;
    while z2 < chunk_size
        invariant
            z2 <= chunk_size,
            bufs.parallel(),
            bufs.derived(),
            bufs.positions@ == caps_positions_upto(c_x as int, c_z as int, cs, f, cs * cs),
            bufs.indices@ == caps_indices_upto(cs * cs) + sides_upto(cs, z2 as int * cs),
            bufs.indices_below(bufs.positions@.len() as int),
        decreases chunk_size - z2,
    {
        let mut x2: u32 = 0;
        while x2 < chunk_size
            invariant
                x2 <= chunk_size,
                bufs.parallel(),
                bufs.derived(),
                bufs.positions@ == caps_positions_upto(c_x as int, c_z as int, cs, f, cs * cs),
                bufs.indices@ == caps_indices_upto(cs * cs) + sides_upto(
                    cs,
                    z2 as int * cs + x2 as int,
                ),
                bufs.indices_below(bufs.positions@.len() as int),
            decreases chunk_size - x2,
        {
            let ghost n = z2 as int * cs + x2 as int;
            proof {
                lemma_tile_base_bound(x2 as int, z2 as int, cs);
                lemma_fundamental_div_mod_converse(n, cs, z2 as int, x2 as int);
            }
            let idx = tile_base_idx(x2, z2, chunk_size);
            add_tile_sides(x2, z2, idx, chunk_size, &mut bufs.indices, &bufs.positions);
            proof {
                assert(bufs.indices@ =~= caps_indices_upto(cs * cs) + sides_upto(cs, n + 1));
                lemma_tile_side_indices_below(x2 as int, z2 as int, cs);
                lemma_concat_below(
                    caps_indices_upto(cs * cs) + sides_upto(cs, n),
                    tile_side_indices(x2 as int, z2 as int, cs),
                    7 * cs * cs,
                );
            }
            x2 = x2 + 1;
        }
        proof {
            lemma_row_step(z2 as int, cs);
        }
        z2 = z2 + 1;
    }

    add_chunk_sides(c_x, c_z, chunk_size, map_size, field, &mut bufs);
    bufs
}

} // verus!
