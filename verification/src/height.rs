//! A sampled height field over integer world coordinates.

use vstd::prelude::*;

verus! {

/// A rectangular grid of height samples addressed by integer world
/// coordinates, stored row-major.
///
/// Each sample is an opaque 32-bit value; the mesh code only moves it
/// into the `y` component of vertices and never interprets it. A caller
/// fills the grid once — for the terrain itself, from a coherent-noise
/// source evaluated at `(x / NOISE_SCALE, z / NOISE_SCALE)` — and the
/// field is read-only afterwards, which keeps every lookup deterministic.
pub struct HeightField {
    pub width: u32,
    pub height: u32,
    pub data: Vec<u32>,
}

impl HeightField {
    /// The grid holds exactly one sample per coordinate pair.
    pub open spec fn wf(self) -> bool {
        self.data@.len() == self.width * self.height
    }

    /// The sample stored at `(x, z)`.
    pub open spec fn at(self, x: int, z: int) -> u32 {
        self.data@[z * self.width + x]
    }

    /// Wraps a filled sample grid.
    pub fn new(width: u32, height: u32, data: Vec<u32>) -> (r: HeightField)
        requires
            data@.len() == width * height,
        ensures
            r.wf(),
            r.width == width,
            r.height == height,
            r.data@ == data@,
    {
        HeightField { width, height, data }
    }

    /// Row-major indexing stays inside the grid.
    proof fn lemma_index_in_range(self, x: int, z: int)
        by (nonlinear_arith)
        requires
            self.wf(),
            0 <= x < self.width,
            0 <= z < self.height,
        ensures
            0 <= z * self.width + x < self.data@.len(),
    {
    }

    /// Reads the sample at `(x, z)`.
    ///
    /// The result is exactly the stored value, so two calls with the same
    /// coordinates on the same field always agree, and the lookup has no
    /// side effect to discard.
    pub fn sample(&self, x: u32, z: u32) -> (r: u32)
        requires
            self.wf(),
            x < self.width,
            z < self.height,
        ensures
            r == self.at(x as int, z as int),
    {
        let n = self.data.len();
        proof {
            self.lemma_index_in_range(x as int, z as int);
            assert((z as int) * (self.width as int) + (x as int) < n as int);
        }
        self.data[(z as usize) * (self.width as usize) + (x as usize)]
    }
}

} // verus!
