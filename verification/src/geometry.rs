//! Drawable geometry data: vertex positions, triangle indices, optional
//! per-vertex colors and normals.

use vstd::prelude::*;

use crate::fp::Real;

verus! {

/// Whether raw streams satisfy the [`GeometryBuffers`] invariant: positions
/// and indices are triples, every index addresses a vertex, and color and
/// normal streams are vertex-count aligned or absent.
pub open spec fn streams_wf(
    positions: Seq<Real>,
    indices: Seq<u32>,
    colors_len: int,
    normals_len: int,
) -> bool {
    &&& positions.len() % 3 == 0
    &&& indices.len() % 3 == 0
    &&& forall|k: int|
        0 <= k < indices.len() ==> (#[trigger] indices[k] as int) < positions.len() as int / 3
    &&& colors_len == 0 || colors_len == 4 * (positions.len() as int / 3)
    &&& normals_len == 0 || normals_len == positions.len()
}

/// The shape every generator guarantees — triple-aligned streams whose
/// every index, scaled to a stream offset, stays inside the position stream
/// — is exactly the [`GeometryBuffers`] invariant for bare streams.
pub proof fn lemma_streams_wf_from_bounds(positions: Seq<Real>, indices: Seq<u32>)
    requires
        positions.len() % 3 == 0,
        indices.len() % 3 == 0,
        forall|k: int| 0 <= k < indices.len() ==> (#[trigger] indices[k] as int) * 3 < positions.len(),
    ensures
        streams_wf(positions, indices, 0, 0),
{
    assert forall|k: int|
        0 <= k < indices.len() implies (#[trigger] indices[k] as int) < positions.len() as int
        / 3 by {
        assert((indices[k] as int) * 3 < positions.len());
    }
}

/// Plain drawable data: `positions` holds three scalars per vertex,
/// `indices` is a triangle list into the vertices, `colors` holds four
/// scalars per vertex or is empty (a constant default color is applied
/// externally), and `normals` holds three scalars per vertex or is empty (no
/// normal attribute).
pub struct GeometryBuffers {
    pub positions: Vec<Real>,
    pub indices: Vec<u32>,
    pub colors: Vec<Real>,
    pub normals: Vec<Real>,
}

impl GeometryBuffers {
    /// Number of vertices described by `positions`.
    pub open spec fn spec_vertex_count(&self) -> int {
        self.positions@.len() as int / 3
    }

    /// The buffers are vertex-count aligned and every index is in range.
    pub open spec fn wf(&self) -> bool {
        streams_wf(
            self.positions@,
            self.indices@,
            self.colors@.len() as int,
            self.normals@.len() as int,
        )
    }

    /// Builds well-formed buffers from raw streams, or returns `None` exactly
    /// when the streams violate the alignment or index-range invariant.
    pub fn new(
        positions: Vec<Real>,
        indices: Vec<u32>,
        colors: Vec<Real>,
        normals: Vec<Real>,
    ) -> (r: Option<GeometryBuffers>)
        ensures
            match r {
                Some(g) => g.positions@ == positions@ && g.indices@ == indices@ && g.colors@
                    == colors@ && g.normals@ == normals@ && g.wf(),
                None => !streams_wf(
                    positions@,
                    indices@,
                    colors@.len() as int,
                    normals@.len() as int,
                ),
            },
    {
        let vertex_count = positions.len() / 3;
        if positions.len() % 3 != 0 || indices.len() % 3 != 0 {
            return None;
        }
        if !(colors.len() == 0 || (colors.len() % 4 == 0 && colors.len() / 4 == vertex_count)) {
            return None;
        }
        if !(normals.len() == 0 || normals.len() == positions.len()) {
            return None;
        }
        let mut k: usize = 0;
        while k < indices.len()
            invariant
                k <= indices@.len(),
                vertex_count == positions@.len() as int / 3,
                forall|j: int| 0 <= j < k ==> (#[trigger] indices@[j] as int) < vertex_count,
            decreases indices@.len() - k,
        {
            if !((indices[k] as usize) < vertex_count) {
                return None;
            }
            k += 1;
        }
        Some(GeometryBuffers { positions, indices, colors, normals })
    }

    /// Builds well-formed buffers carrying only positions and indices.
    pub fn from_positions_indices(positions: Vec<Real>, indices: Vec<u32>) -> (r: Option<
        GeometryBuffers,
    >)
        ensures
            match r {
                Some(g) => g.positions@ == positions@ && g.indices@ == indices@ && g.colors@.len()
                    == 0 && g.normals@.len() == 0 && g.wf(),
                None => !streams_wf(positions@, indices@, 0, 0),
            },
    {
        GeometryBuffers::new(positions, indices, Vec::new(), Vec::new())
    }

    /// Number of vertices held.
    pub fn vertex_count(&self) -> (r: usize)
        ensures
            r == self.spec_vertex_count(),
    {
        self.positions.len() / 3
    }

    /// Number of indices held, the count handed to a draw call.
    pub fn index_count(&self) -> (r: usize)
        ensures
            r == self.indices@.len(),
    {
        self.indices.len()
    }
}

} // verus!
