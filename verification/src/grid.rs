//! Laying out the whole map: one mesh per chunk.

use vstd::prelude::*;
use vstd::arithmetic::div_mod::lemma_fundamental_div_mod_converse;
use vstd::arithmetic::mul::lemma_mul_inequality;
use crate::height::HeightField;
use crate::layout::to_world_spec;
use crate::layout::to_hex_pos;
use crate::layout::lemma_row_step;
use crate::mesh::MeshBuffers;
use crate::mesh::WorldPos;
use crate::chunk::chunk_positions;
use crate::chunk::chunk_indices;
use crate::chunk::create_chunk;

verus! {

/// One built chunk: the world position of its origin and its mesh, ready
/// to hand to a renderer.
pub struct ChunkArtifact {
    pub origin: WorldPos,
    pub mesh: MeshBuffers,
}

/// Entry `k` of the built map is chunk `(k mod ms, k div ms)`: placed at
/// the world position of offset coordinate `(c_x * cs, 0, c_z * cs)`,
/// with exactly that chunk's mesh.
pub open spec fn map_entry_ok(a: ChunkArtifact, k: int, cs: int, ms: int, f: HeightField) -> bool {
    let cx = k % ms;
    let cz = k / ms;
    &&& a.origin == to_world_spec(cx * cs, 0, cz * cs)
    &&& a.mesh.wf()
    &&& a.mesh.positions@ == chunk_positions(cx, cz, cs, ms, f)
    &&& a.mesh.indices@ == chunk_indices(cx, cz, cs, ms, f)
}

/// Builds every chunk of a `map_size` by `map_size` map, row-major over
/// rows of chunks: entry `c_z * map_size + c_x` is chunk `(c_x, c_z)`.
///
/// The height field must cover the whole map, plus one extra row of
/// samples for the seam pass on maps wider than one chunk.
#[verifier::loop_isolation(false)]
pub fn build_map(map_size: u32, chunk_size: u32, field: &HeightField) -> (r: Vec<ChunkArtifact>)
    requires
        1 <= map_size,
        1 <= chunk_size,
        7 * chunk_size * chunk_size + 3 * chunk_size <= u32::MAX,
        field.wf(),
        map_size * chunk_size <= field.width,
        map_size * chunk_size <= field.height,
        1 < map_size ==> map_size * chunk_size < field.height,
    ensures
        r@.len() == map_size * map_size,
        forall|k: int|
            0 <= k < r@.len() ==> map_entry_ok(
                #[trigger] r@[k],
                k,
                chunk_size as int,
                map_size as int,
                *field,
            ),
{
    let ghost cs = chunk_size as int;
    let ghost ms = map_size as int;
    let ghost f = *field;
    let mut out: Vec<ChunkArtifact> = Vec::new();
    let mut c_z: u32 = 0;
    while c_z < map_size
        invariant
            c_z <= map_size,
            out@.len() == c_z as int * ms,
            forall|k: int| 0 <= k < out@.len() ==> map_entry_ok(#[trigger] out@[k], k, cs, ms, f),
        decreases map_size - c_z,
    {
        let mut c_x: u32 = 0;
        while c_x < map_size
            invariant
                c_x <= map_size,
                out@.len() == c_z as int * ms + c_x as int,
                forall|k: int|
                    0 <= k < out@.len() ==> map_entry_ok(#[trigger] out@[k], k, cs, ms, f),
            decreases map_size - c_x,
        {
            let ghost n = c_z as int * ms + c_x as int;
            proof {
                lemma_row_step(c_x as int, cs);
                lemma_row_step(c_z as int, cs);
                lemma_row_step(ms - 1, cs);
                lemma_mul_inequality(c_x as int + 1, ms, cs);
                lemma_mul_inequality(c_z as int + 1, ms, cs);
                if c_x as int + 1 < ms {
                    lemma_mul_inequality(c_x as int + 1, ms - 1, cs);
                }
                lemma_fundamental_div_mod_converse(n, ms, c_z as int, c_x as int);
            }
            let origin = to_hex_pos(c_x * chunk_size, 0, c_z * chunk_size);
            let mesh = create_chunk(c_x, c_z, chunk_size, map_size, field);
            let artifact = ChunkArtifact { origin, mesh };
            let ghost prev = out@;
            let ghost ga = artifact;
            out.push(artifact);
            proof {
                assert forall|k: int| 0 <= k < out@.len() implies map_entry_ok(
                    #[trigger] out@[k],
                    k,
                    cs,
                    ms,
                    f,
                ) by {
                    if k < prev.len() {
                        assert(out@[k] == prev[k]);
                    } else {
                        assert(out@[k] == ga);
                    }
                }
            }
            c_x = c_x + 1;
        }
        proof {
            lemma_row_step(c_z as int, ms);
        }
        c_z = c_z + 1;
    }
    out
}

} // verus!
