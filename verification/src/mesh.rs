//! Mesh buffers and the vertex lattice.

use vstd::prelude::*;

verus! {

/// A vertex position on the hex lattice.
///
/// `x` counts in units of the inner radius and `z` in half units of the
/// outer radius, so every tile centre and hex corner is an exact lattice
/// point. `y` carries the sampled height as an opaque 32-bit value that
/// passes through the mesh untouched.
#[derive(Clone, Copy, PartialEq, Eq, Structural, Debug)]
pub struct WorldPos {
    pub x: i64,
    pub y: u32,
    pub z: i64,
}

/// A texture coordinate: the ground-plane projection of a vertex, in the
/// same lattice units as `WorldPos`.
#[derive(Clone, Copy, PartialEq, Eq, Structural, Debug)]
pub struct TexCoord {
    pub u: i64,
    pub v: i64,
}

/// A vertex normal. Every cap and skirt vertex in this design carries the
/// up vector.
#[derive(Clone, Copy, PartialEq, Eq, Structural, Debug)]
pub struct SurfaceNormal {
    pub x: i8,
    pub y: i8,
    pub z: i8,
}

/// The constant up vector used for every emitted vertex.
pub open spec fn up_normal() -> SurfaceNormal {
    SurfaceNormal { x: 0, y: 1, z: 0 }
}

/// The texture coordinate derived from a position: its ground-plane
/// projection.
pub open spec fn tex_of(p: WorldPos) -> TexCoord {
    TexCoord { u: p.x, v: p.z }
}

/// Four parallel buffers accumulating one chunk's geometry: positions,
/// texture coordinates, normals, and a triangle list indexing the
/// position buffer.
pub struct MeshBuffers {
    pub positions: Vec<WorldPos>,
    pub uvs: Vec<TexCoord>,
    pub normals: Vec<SurfaceNormal>,
    pub indices: Vec<u32>,
}

impl MeshBuffers {
    /// The three vertex buffers run in parallel.
    pub open spec fn parallel(self) -> bool {
        &&& self.uvs@.len() == self.positions@.len()
        &&& self.normals@.len() == self.positions@.len()
    }

    /// Texture coordinates and normals are determined by the positions.
    pub open spec fn derived(self) -> bool {
        &&& forall|i: int|
            0 <= i < self.positions@.len() ==> self.uvs@[i] == tex_of(self.positions@[i])
        &&& forall|i: int| 0 <= i < self.positions@.len() ==> self.normals@[i] == up_normal()
    }

    /// Every triangle index stays below `bound`.
    pub open spec fn indices_below(self, bound: int) -> bool {
        seq_below(self.indices@, bound)
    }

    /// Well-formed buffers: parallel, derived, and every index references
    /// an existing vertex.
    pub open spec fn wf(self) -> bool {
        &&& self.parallel()
        &&& self.derived()
        &&& self.indices_below(self.positions@.len() as int)
    }

    /// Fresh, empty buffers.
    pub fn new() -> (r: MeshBuffers)
        ensures
            r.wf(),
            r.positions@.len() == 0,
            r.uvs@.len() == 0,
            r.normals@.len() == 0,
            r.indices@.len() == 0,
    {
        MeshBuffers {
            positions: Vec::new(),
            uvs: Vec::new(),
            normals: Vec::new(),
            indices: Vec::new(),
        }
    }

    /// Appends one vertex with its derived texture coordinate and normal.
    pub fn push_vertex(&mut self, p: WorldPos)
        requires
            old(self).parallel(),
            old(self).derived(),
        ensures
            final(self).positions@ == old(self).positions@.push(p),
            final(self).uvs@ == old(self).uvs@.push(tex_of(p)),
            final(self).normals@ == old(self).normals@.push(up_normal()),
            final(self).indices@ == old(self).indices@,
            final(self).parallel(),
            final(self).derived(),
    {
        self.positions.push(p);
        self.uvs.push(TexCoord { u: p.x, v: p.z });
        self.normals.push(SurfaceNormal { x: 0, y: 1, z: 0 });
    }
}

/// Every entry of `s` stays below `bound`.
pub open spec fn seq_below(s: Seq<u32>, bound: int) -> bool {
    forall|i: int| 0 <= i < s.len() ==> (#[trigger] s[i] as int) < bound
}

/// Bounded entries survive concatenation.
pub proof fn lemma_concat_below(s1: Seq<u32>, s2: Seq<u32>, bound: int)
    requires
        seq_below(s1, bound),
        seq_below(s2, bound),
    ensures
        seq_below(s1 + s2, bound),
{
    assert forall|i: int| 0 <= i < (s1 + s2).len() implies ((s1 + s2)[i] as int) < bound by {
        if i < s1.len() {
            assert((s1 + s2)[i] == s1[i]);
        } else {
            assert((s1 + s2)[i] == s2[i - s1.len()]);
        }
    }
}

/// A quad's six entries name only its four corner vertices.
pub proof fn lemma_quad_below(v1: u32, v2: u32, v3: u32, v4: u32, bound: int)
    requires
        (v1 as int) < bound,
        (v2 as int) < bound,
        (v3 as int) < bound,
        (v4 as int) < bound,
    ensures
        seq_below(quad_indices(v1, v2, v3, v4), bound),
{
}

/// The six index entries of one skirt quad: triangles `(v1, v3, v2)` and
/// `(v1, v4, v3)`, with `v1`, `v2` on the near edge and `v3`, `v4` on the
/// far edge.
pub open spec fn quad_indices(v1: u32, v2: u32, v3: u32, v4: u32) -> Seq<u32> {
    seq![v1, v3, v2, v1, v4, v3]
}

/// `quad_indices` over mathematical integers, truncating each entry into
/// an index word.
pub open spec fn quad_indices_int(v1: int, v2: int, v3: int, v4: int) -> Seq<u32> {
    quad_indices(v1 as u32, v2 as u32, v3 as u32, v4 as u32)
}

/// Emits one skirt quad bridging edge `(v1, v2)` to edge `(v3, v4)`.
///
/// Adjacent tiles at equal height get a zero-area quad like any others:
/// no degenerate-quad skip is applied.
pub fn create_quad(
    v1: u32,
    v2: u32,
    v3: u32,
    v4: u32,
    indices: &mut Vec<u32>,
    verts: &Vec<WorldPos>,
)
    requires
        (v1 as int) < verts@.len(),
        (v2 as int) < verts@.len(),
        (v3 as int) < verts@.len(),
        (v4 as int) < verts@.len(),
    ensures
        final(indices)@ == old(indices)@ + quad_indices(v1, v2, v3, v4),
{
    indices.push(v1);
    indices.push(v3);
    indices.push(v2);

    indices.push(v1);
    indices.push(v4);
    indices.push(v3);

    proof {
        assert(indices@ =~= old(indices)@ + quad_indices(v1, v2, v3, v4));
    }
}

} // verus!
