//! The seven-vertex triangle-fan cap of one hexagonal tile.

use vstd::prelude::*;
use crate::mesh::MeshBuffers;
use crate::mesh::WorldPos;
use crate::layout::corner_pos;
use crate::layout::lattice_bounded;
use crate::layout::hex_corner;

verus! {

/// The seven cap vertices of a tile centred at `p`: the centre first,
/// then the six corners in corner order.
pub open spec fn cap_positions(p: WorldPos) -> Seq<WorldPos> {
    Seq::new(7, |k: int| if k == 0 { p } else { corner_pos(p, k - 1) })
}

/// Fan triangle `t` of a cap based at `base`: centre, corner `t`, and the
/// next corner around, wound to face up.
pub open spec fn fan_tri(base: u32, t: int) -> Seq<u32> {
    seq![base, (base + 1 + t) as u32, (base + 1 + (t + 1) % 6) as u32]
}

/// The index entries of the first `n` fan triangles of a cap based at
/// `base`.
pub open spec fn cap_indices_upto(base: u32, n: int) -> Seq<u32>
    decreases n,
{
    if n <= 0 {
        Seq::empty()
    } else {
        cap_indices_upto(base, n - 1) + fan_tri(base, n - 1)
    }
}

/// The 18 index entries of one full cap: six fan triangles.
pub open spec fn cap_indices(base: u32) -> Seq<u32> {
    cap_indices_upto(base, 6)
}

/// Shape of a partial fan: `3n` entries, each naming one of the cap's own
/// seven vertices.
pub proof fn lemma_cap_indices_upto_shape(base: u32, n: int)
    requires
        0 <= n <= 6,
        base + 7 <= u32::MAX,
    ensures
        cap_indices_upto(base, n).len() == 3 * n,
        forall|k: int|
            0 <= k < 3 * n ==> base <= #[trigger] cap_indices_upto(base, n)[k] < base + 7,
    decreases n,
{
    if n > 0 {
        lemma_cap_indices_upto_shape(base, n - 1);
    }
}

/// Every tile cap emits exactly 7 vertices and 18 index entries, and each
/// entry names one of those 7 vertices: it lies in `[base, base + 7)`.
pub proof fn lemma_cap_shape(p: WorldPos, base: u32)
    requires
        base + 7 <= u32::MAX,
    ensures
        cap_positions(p).len() == 7,
        cap_indices(base).len() == 18,
        forall|k: int| 0 <= k < 18 ==> base <= #[trigger] cap_indices(base)[k] < base + 7,
{
    lemma_cap_indices_upto_shape(base, 6);
}

/// Appends the cap of a tile centred at `pos`: seven vertices and a fan
/// of six upward-facing triangles. Returns the tile's base vertex index,
/// from which corner `i` is addressed as `base + 1 + i`.
pub fn create_tile(pos: WorldPos, bufs: &mut MeshBuffers) -> (base: u32)
    requires
        old(bufs).wf(),
        old(bufs).positions@.len() + 7 <= u32::MAX,
        lattice_bounded(pos),
    ensures
        final(bufs).wf(),
        base as int == old(bufs).positions@.len(),
        final(bufs).positions@ == old(bufs).positions@ + cap_positions(pos),
        final(bufs).indices@ == old(bufs).indices@ + cap_indices(base),
        final(bufs).positions@.len() == old(bufs).positions@.len() + 7,
        final(bufs).indices@.len() == old(bufs).indices@.len() + 18,
{
    let ghost bufs0 = *bufs;
    let idx: u32 = bufs.positions.len() as u32;
    bufs.push_vertex(pos);
    proof {
        assert(bufs.positions@ =~= bufs0.positions@ + cap_positions(pos).subrange(0, 1));
    }
    let mut i: u32 = 0;
    while i < 6
        invariant
            i <= 6,
            bufs0.wf(),
            lattice_bounded(pos),
            idx as int == bufs0.positions@.len(),
            idx + 7 <= u32::MAX,
            bufs.parallel(),
            bufs.derived(),
            bufs.positions@ == bufs0.positions@ + cap_positions(pos).subrange(0, 1 + i as int),
            bufs.indices@ == bufs0.indices@ + cap_indices_upto(idx, i as int),
            bufs.indices_below(idx + 7),
        decreases 6 - i,
    {
        let corner = hex_corner(pos, i);
        bufs.push_vertex(corner);
        bufs.indices.push(idx);
        bufs.indices.push(idx + 1 + i);
        bufs.indices.push(idx + 1 + (i + 1) % 6);
        proof {
            assert(cap_positions(pos).subrange(0, 2 + i as int) =~= cap_positions(pos).subrange(
                0,
                1 + i as int,
            ).push(corner_pos(pos, i as int)));
            assert(bufs.indices@ =~= bufs0.indices@ + cap_indices_upto(idx, i as int + 1));
        }
        i = i + 1;
    }
    proof {
        assert(cap_positions(pos).subrange(0, 7) =~= cap_positions(pos));
        lemma_cap_shape(pos, idx);
        assert(bufs.indices_below(bufs.positions@.len() as int));
    }
    idx
}

} // verus!
