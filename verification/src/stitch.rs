//! Skirt quads between a tile and its neighbours within one chunk.

use vstd::prelude::*;
use crate::mesh::WorldPos;
use crate::mesh::quad_indices_int;
use crate::mesh::create_quad;
use crate::mesh::seq_below;
use crate::mesh::lemma_concat_below;
use crate::mesh::lemma_quad_below;
use crate::layout::tile_base;
use crate::layout::lemma_tile_base_bound;

verus! {

/// The index entries that stitching tile `(x, z)` appends, in emission
/// order. `c` is the tile's first corner, `row` the row stride of seven
/// vertices per tile.
///
/// A quad is emitted only toward a neighbour that exists inside the
/// chunk; chunk boundaries are left to the seam pass. Which neighbour
/// lies where depends on the row's parity, the signature of offset hex
/// addressing:
/// - east (`x + 1`, same row): corners 1,2 meet its corners 4,5;
/// - south, even row: the tile one row on; odd row: one row on and one
///   column east — corners 0,1 meet its corners 3,4;
/// - south-west, even row: one row on and one column west; odd row: one
///   row on — corners 5,0 meet its corners 2,3.
pub open spec fn tile_side_indices(x: int, z: int, cs: int) -> Seq<u32> {
    let c = tile_base(x, z, cs) + 1;
    let row = 7 * cs;
    (if x < cs - 1 {
        quad_indices_int(c + 1, c + 2, c + 7 + 4, c + 7 + 5)
    } else {
        Seq::empty()
    }) + (if z < cs - 1 && z % 2 == 0 {
        quad_indices_int(c, c + 1, c + row + 3, c + row + 4)
    } else {
        Seq::empty()
    }) + (if z < cs - 1 && z % 2 == 1 && x < cs - 1 {
        quad_indices_int(c, c + 1, c + row + 7 + 3, c + row + 7 + 4)
    } else {
        Seq::empty()
    }) + (if x > 0 && z % 2 == 0 && z < cs - 1 {
        quad_indices_int(c + 5, c, c + row - 7 + 2, c + row - 7 + 3)
    } else {
        Seq::empty()
    }) + (if z % 2 == 1 && z < cs - 1 {
        quad_indices_int(c + 5, c, c + row + 2, c + row + 3)
    } else {
        Seq::empty()
    })
}

/// Every vertex index a stitched quad can reference stays inside the
/// chunk's cap region of `7 * cs^2` vertices.
proof fn lemma_side_arith(x: int, z: int, cs: int)
    by (nonlinear_arith)
    requires
        0 <= x < cs,
        0 <= z < cs,
    ensures
        x < cs - 1 ==> 7 * x + 7 * cs * z + 13 < 7 * cs * cs,
        z < cs - 1 ==> 7 * x + 7 * cs * z + 7 * cs + 5 < 7 * cs * cs,
        z < cs - 1 && x < cs - 1 ==> 7 * x + 7 * cs * z + 7 * cs + 13 < 7 * cs * cs,
        7 <= 7 * cs,
{
}

/// Every index a tile's skirt quads reference names one of the chunk's
/// `7 * cs^2` cap vertices.
pub proof fn lemma_tile_side_indices_below(x: int, z: int, cs: int)
    requires
        0 <= x < cs,
        0 <= z < cs,
    ensures
        seq_below(tile_side_indices(x, z, cs), 7 * cs * cs),
{
    lemma_side_arith(x, z, cs);
    lemma_tile_base_bound(x, z, cs);
    let bound = 7 * cs * cs;
    let c = tile_base(x, z, cs) + 1;
    let row = 7 * cs;
    let s1: Seq<u32> = if x < cs - 1 {
        lemma_quad_below((c + 1) as u32, (c + 2) as u32, (c + 7 + 4) as u32, (c + 7 + 5) as u32, bound);
        quad_indices_int(c + 1, c + 2, c + 7 + 4, c + 7 + 5)
    } else {
        Seq::empty()
    };
    let s2: Seq<u32> = if z < cs - 1 && z % 2 == 0 {
        lemma_quad_below(c as u32, (c + 1) as u32, (c + row + 3) as u32, (c + row + 4) as u32, bound);
        quad_indices_int(c, c + 1, c + row + 3, c + row + 4)
    } else {
        Seq::empty()
    };
    let s3: Seq<u32> = if z < cs - 1 && z % 2 == 1 && x < cs - 1 {
        lemma_quad_below(c as u32, (c + 1) as u32, (c + row + 7 + 3) as u32, (c + row + 7 + 4) as u32, bound);
        quad_indices_int(c, c + 1, c + row + 7 + 3, c + row + 7 + 4)
    } else {
        Seq::empty()
    };
    let s4: Seq<u32> = if x > 0 && z % 2 == 0 && z < cs - 1 {
        lemma_quad_below((c + 5) as u32, c as u32, (c + row - 7 + 2) as u32, (c + row - 7 + 3) as u32, bound);
        quad_indices_int(c + 5, c, c + row - 7 + 2, c + row - 7 + 3)
    } else {
        Seq::empty()
    };
    let s5: Seq<u32> = if z % 2 == 1 && z < cs - 1 {
        lemma_quad_below((c + 5) as u32, c as u32, (c + row + 2) as u32, (c + row + 3) as u32, bound);
        quad_indices_int(c + 5, c, c + row + 2, c + row + 3)
    } else {
        Seq::empty()
    };
    lemma_concat_below(s1, s2, bound);
    lemma_concat_below(s1 + s2, s3, bound);
    lemma_concat_below(s1 + s2 + s3, s4, bound);
    lemma_concat_below(s1 + s2 + s3 + s4, s5, bound);
    assert(tile_side_indices(x, z, cs) == s1 + s2 + s3 + s4 + s5);
}

/// Emits the skirt quads from tile `(x, z)` toward each of its existing
/// in-chunk neighbours. `idx` is the tile's base vertex index; all cap
/// vertices of the chunk must already be present in `verts`.
pub fn add_tile_sides(
    x: u32,
    z: u32,
    idx: u32,
    chunk_size: u32,
    indices: &mut Vec<u32>,
    verts: &Vec<WorldPos>,
)
    requires
        x < chunk_size,
        z < chunk_size,
        7 * chunk_size * chunk_size <= u32::MAX,
        idx as int == tile_base(x as int, z as int, chunk_size as int),
        verts@.len() >= 7 * chunk_size * chunk_size,
    ensures
        final(indices)@ == old(indices)@ + tile_side_indices(
            x as int,
            z as int,
            chunk_size as int,
        ),
{
    let ghost cs = chunk_size as int;
    let ghost c = tile_base(x as int, z as int, cs) + 1;
    let ghost rowg = 7 * cs;
    proof {
        lemma_side_arith(x as int, z as int, cs);
        lemma_tile_base_bound(x as int, z as int, cs);
    }
    let ghost ind0 = indices@;
    let ghost seg_e: Seq<u32> = if (x as int) < cs - 1 {
        quad_indices_int(c + 1, c + 2, c + 7 + 4, c + 7 + 5)
    } else {
        Seq::empty()
    };
    let ghost seg_se: Seq<u32> = if (z as int) < cs - 1 && z as int % 2 == 0 {
        quad_indices_int(c, c + 1, c + rowg + 3, c + rowg + 4)
    } else {
        Seq::empty()
    };
    let ghost seg_so: Seq<u32> = if (z as int) < cs - 1 && z as int % 2 == 1 && (x as int) < cs - 1 {
        quad_indices_int(c, c + 1, c + rowg + 7 + 3, c + rowg + 7 + 4)
    } else {
        Seq::empty()
    };
    let ghost seg_w: Seq<u32> = if (x as int) > 0 && z as int % 2 == 0 && (z as int) < cs - 1 {
        quad_indices_int(c + 5, c, c + rowg - 7 + 2, c + rowg - 7 + 3)
    } else {
        Seq::empty()
    };
    let ghost seg_sw: Seq<u32> = if (z as int) % 2 == 1 && (z as int) < cs - 1 {
        quad_indices_int(c + 5, c, c + rowg + 2, c + rowg + 3)
    } else {
        Seq::empty()
    };

    let c_tile = idx + 1;
    let row_width = 7 * chunk_size;

    if x < chunk_size - 1 {
        let n_tile = c_tile + 7;
        create_quad(c_tile + 1, c_tile + 2, n_tile + 4, n_tile + 5, indices, verts);
    }
    proof {
        assert(indices@ =~= ind0 + seg_e);
    }
    let ghost ind1 = indices@;

    if z < chunk_size - 1 {
        if z % 2 == 0 {
            let d_tile = c_tile + row_width;
            create_quad(c_tile, c_tile + 1, d_tile + 3, d_tile + 4, indices, verts);
        } else if x < chunk_size - 1 {
            let d_tile = c_tile + row_width + 7;
            create_quad(c_tile, c_tile + 1, d_tile + 3, d_tile + 4, indices, verts);
        }
    }
    proof {
        assert(indices@ =~= ind1 + seg_se + seg_so);
    }
    let ghost ind2 = indices@;

    if x > 0 && z % 2 == 0 && z < chunk_size - 1 {
        let d_tile = c_tile + row_width - 7;
        create_quad(c_tile + 5, c_tile, d_tile + 2, d_tile + 3, indices, verts);
    }
    proof {
        assert(indices@ =~= ind2 + seg_w);
    }
    let ghost ind3 = indices@;

    if z % 2 == 1 && z < chunk_size - 1 {
        let d_tile = c_tile + row_width;
        create_quad(c_tile + 5, c_tile, d_tile + 2, d_tile + 3, indices, verts);
    }
    proof {
        assert(indices@ =~= ind3 + seg_sw);
        assert(indices@ =~= ind0 + tile_side_indices(x as int, z as int, cs));
    }
}

/// The stitched east quad's four corner vertices exist in the chunk and
/// sit exactly where the addressing formula places them: one tile stride
/// of seven separates a tile's base from its east neighbour's, and the
/// quad bridges corners 1,2 (at `base + 2`, `base + 3`) to the
/// neighbour's corners 4,5 (at `base + 12`, `base + 13`).
pub proof fn lemma_east_stitch_addresses(x: int, z: int, cs: int)
    requires
        0 <= x,
        x + 1 < cs,
        0 <= z < cs,
    ensures
        tile_base(x + 1, z, cs) == tile_base(x, z, cs) + 7,
        tile_side_indices(x, z, cs).subrange(0, 6) == quad_indices_int(
            tile_base(x, z, cs) + 2,
            tile_base(x, z, cs) + 3,
            tile_base(x + 1, z, cs) + 5,
            tile_base(x + 1, z, cs) + 6,
        ),
        forall|k: int| 0 <= k < 6 ==> (tile_side_indices(x, z, cs)[k] as int) < 7 * cs * cs,
{
    lemma_side_arith(x, z, cs);
    lemma_tile_base_bound(x, z, cs);
    let c = tile_base(x, z, cs) + 1;
    assert(tile_side_indices(x, z, cs).subrange(0, 6) =~= quad_indices_int(
        c + 1,
        c + 2,
        c + 7 + 4,
        c + 7 + 5,
    ));
}

} // verus!
