//! The mesh-assembly stage: turns a decoded model into a render-ready
//! vertex/index representation.
//!
//! Policy by `header.frame_count`: zero (or negative) frames give the
//! `Corrupted` variant; exactly one frame gives one static mesh built from
//! the first surface only; more than one frame gives one static sub-mesh per
//! surface, collected in order.  Render vertices keep the quantized
//! positions, the compressed normal code and the texture-coordinate bit
//! patterns; expanding them to floating point is the caller's step.

use vstd::prelude::*;
use vstd::string::StringExecFns;

use crate::model::{spec_message, LoadError, Md3Model, Md3Surface, StCountMode, SurfaceV, XyzNormalV};
use crate::parse::{lemma_load_shape, spec_count, spec_load};

verus! {

/// Highest triangle index that fits the 16-bit render index width.
pub const MAX_RENDER_INDEX: i32 = 65535;

/// One render-ready vertex, still in the format's raw integer encodings.
#[derive(Clone, Copy, Debug, PartialEq, Eq)]
pub struct RenderVertex {
    /// Quantized position, in units of 1/64.
    pub xyz: [i16; 3],
    /// Compressed latitude/longitude normal code.
    pub normal: i16,
    /// Texture-coordinate pair, as two 32-bit float bit patterns.
    pub st_bits: [u32; 2],
}

#[verifier::ext_equal]
pub struct RenderVertexV {
    pub xyz: Seq<i16>,
    pub normal: i16,
    pub st_bits: Seq<u32>,
}

impl View for RenderVertex {
    type V = RenderVertexV;

    open spec fn view(&self) -> RenderVertexV {
        RenderVertexV { xyz: self.xyz@, normal: self.normal, st_bits: self.st_bits@ }
    }
}

/// View of a sequence of render vertices.
pub open spec fn render_vertices_view(v: Seq<RenderVertex>) -> Seq<RenderVertexV> {
    v.map_values(|x: RenderVertex| x@)
}

/// An index buffer plus a vertex buffer for one static mesh.
#[derive(Clone, Debug, PartialEq, Eq)]
pub struct StaticMesh {
    pub indices: Vec<u16>,
    pub vertices: Vec<RenderVertex>,
}

#[verifier::ext_equal]
pub struct StaticMeshV {
    pub indices: Seq<u16>,
    pub vertices: Seq<RenderVertexV>,
}

impl View for StaticMesh {
    type V = StaticMeshV;

    open spec fn view(&self) -> StaticMeshV {
        StaticMeshV { indices: self.indices@, vertices: render_vertices_view(self.vertices@) }
    }
}

/// View of a sequence of static meshes.
pub open spec fn meshes_view(v: Seq<StaticMesh>) -> Seq<StaticMeshV> {
    v.map_values(|m: StaticMesh| m@)
}

/// The render-ready output: a single static mesh, a sequence of per-surface
/// meshes, or a diagnostic for an unconvertible model.
#[derive(Debug, PartialEq, Eq)]
pub enum RenderMesh {
    Static(StaticMesh),
    Animated(Vec<StaticMesh>),
    Corrupted(String),
}

#[verifier::ext_equal]
pub enum RenderMeshV {
    Static(StaticMeshV),
    Animated(Seq<StaticMeshV>),
    Corrupted(Seq<char>),
}

impl View for RenderMesh {
    type V = RenderMeshV;

    open spec fn view(&self) -> RenderMeshV {
        match self {
            RenderMesh::Static(m) => RenderMeshV::Static(m@),
            RenderMesh::Animated(v) => RenderMeshV::Animated(meshes_view(v@)),
            RenderMesh::Corrupted(s) => RenderMeshV::Corrupted(s@),
        }
    }
}

/// Diagnostic for a single-frame model without any surface to convert.
pub open spec fn spec_msg_no_surface() -> Seq<char> {
    "cannot build a render mesh: the model has no surfaces"@
}

/// Every triangle index of the surface fits the 16-bit render index width.
pub open spec fn spec_indices_fit(sv: SurfaceV) -> bool {
    forall|t: int, j: int|
        0 <= t < sv.data.triangles.len() && 0 <= j < 3 ==> 0 <= #[trigger] sv.data.triangles[t][j]
            <= MAX_RENDER_INDEX
}

/// The render vertex built from one compressed vertex zipped with one
/// texture-coordinate pair.
pub open spec fn spec_render_vertex(xn: XyzNormalV, st: Seq<u32>) -> RenderVertexV {
    RenderVertexV { xyz: xn.xyz, normal: xn.normal, st_bits: st }
}

/// How many vertices the surface yields: its compressed vertices zipped
/// positionally with its texture coordinates, so the shorter count governs.
pub open spec fn spec_vertex_pair_count(sv: SurfaceV) -> nat {
    if sv.data.xyz_normals.len() <= sv.data.st_data.len() {
        sv.data.xyz_normals.len()
    } else {
        sv.data.st_data.len()
    }
}

/// The static mesh assembled from one surface: zipped vertices, and the
/// triangles flattened in order with each index narrowed to 16 bits.  An
/// index outside `[0, MAX_RENDER_INDEX]` is an explicit overflow, never a
/// silent truncation.
pub open spec fn spec_static_mesh(sv: SurfaceV) -> Result<StaticMeshV, LoadError> {
    if !spec_indices_fit(sv) {
        Err(LoadError::IndexOverflow)
    } else {
        Ok(
            StaticMeshV {
                indices: Seq::new(
                    sv.data.triangles.len() * 3,
                    |k: int| sv.data.triangles[k / 3][k % 3] as u16,
                ),
                vertices: Seq::new(
                    spec_vertex_pair_count(sv),
                    |i: int| spec_render_vertex(sv.data.xyz_normals[i], sv.data.st_data[i]),
                ),
            },
        )
    }
}

/// The render-ready conversion of a whole model, by frame count.
pub open spec fn spec_render_mesh(m: crate::model::ModelV) -> RenderMeshV {
    if m.header.frame_count > 1 {
        if exists|i: int|
            0 <= i < m.surfaces.len() && (#[trigger] spec_static_mesh(m.surfaces[i])) is Err {
            RenderMeshV::Corrupted(spec_message(LoadError::IndexOverflow))
        } else {
            RenderMeshV::Animated(
                Seq::new(m.surfaces.len(), |i: int| spec_static_mesh(m.surfaces[i])->Ok_0),
            )
        }
    } else if m.header.frame_count == 1 {
        if m.surfaces.len() == 0 {
            RenderMeshV::Corrupted(spec_msg_no_surface())
        } else {
            match spec_static_mesh(m.surfaces[0]) {
                Ok(sm) => RenderMeshV::Static(sm),
                Err(_) => RenderMeshV::Corrupted(spec_message(LoadError::IndexOverflow)),
            }
        }
    } else {
        RenderMeshV::Corrupted(spec_message(LoadError::EmptyAnimation))
    }
}

impl Md3Surface {
    /// Builds the static mesh of this surface: vertices from the compressed
    /// vertices zipped with the texture coordinates, indices from the
    /// triangles flattened in order.  Fails with `IndexOverflow` if and only
    /// if some triangle index lies outside `[0, MAX_RENDER_INDEX]`.
    pub fn to_static_mesh(&self) -> (r: Result<StaticMesh, LoadError>)
        ensures
            match r {
                Ok(m) => spec_static_mesh(self@) == Ok::<StaticMeshV, LoadError>(m@),
                Err(e) => spec_static_mesh(self@) == Err::<StaticMeshV, LoadError>(e),
            },
    {
        let n = if self.data.xyz_normals.len() <= self.data.st_data.len() {
            self.data.xyz_normals.len()
        } else {
            self.data.st_data.len()
        };
        let mut vertices: Vec<RenderVertex> = Vec::new();
        let mut i: usize = 0;
        while i < n
            invariant
                i <= n,
                n == spec_vertex_pair_count(self@),
                n <= self.data.xyz_normals.len(),
                n <= self.data.st_data.len(),
                vertices@.len() == i,
                forall|j: int|
                    0 <= j < i ==> (#[trigger] vertices@[j])@ == spec_render_vertex(
                        self@.data.xyz_normals[j],
                        self@.data.st_data[j],
                    ),
            decreases n - i,
        {
            let xn = &self.data.xyz_normals[i];
            let st = &self.data.st_data[i];
            let v = RenderVertex { xyz: xn.xyz, normal: xn.normal, st_bits: st.st_bits };
            proof {
                assert(v@ =~= spec_render_vertex(
                    self@.data.xyz_normals[i as int],
                    self@.data.st_data[i as int],
                ));
            }
            vertices.push(v);
            i = i + 1;
        }
        let tc = self.data.triangles.len();
        let mut indices: Vec<u16> = Vec::new();
        let mut t: usize = 0;
        while t < tc
            invariant
                t <= tc,
                tc == self.data.triangles@.len(),
                indices@.len() == 3 * t,
                n == spec_vertex_pair_count(self@),
                vertices@.len() == n,
                forall|j: int|
                    0 <= j < n ==> (#[trigger] vertices@[j])@ == spec_render_vertex(
                        self@.data.xyz_normals[j],
                        self@.data.st_data[j],
                    ),
                forall|k: int|
                    0 <= k < 3 * t ==> (#[trigger] indices@[k]) == self@.data.triangles[k / 3][k
                        % 3] as u16,
                forall|ti: int, j: int|
                    0 <= ti < t && 0 <= j < 3 ==> 0 <= #[trigger] self@.data.triangles[ti][j]
                        <= MAX_RENDER_INDEX,
            decreases tc - t,
        {
            let tri = &self.data.triangles[t];
            let i0 = tri.indices[0];
            let i1 = tri.indices[1];
            let i2 = tri.indices[2];
            if i0 < 0 || i0 > MAX_RENDER_INDEX || i1 < 0 || i1 > MAX_RENDER_INDEX || i2 < 0 || i2
                > MAX_RENDER_INDEX {
                proof {
                    assert(self@.data.triangles[t as int] == tri@);
                    assert(!spec_indices_fit(self@));
                }
                return Err(LoadError::IndexOverflow);
            }
            indices.push(i0 as u16);
            indices.push(i1 as u16);
            indices.push(i2 as u16);
            proof {
                assert(self@.data.triangles[t as int] == tri@);
                assert forall|k: int| 0 <= k < 3 * (t + 1) implies (#[trigger] indices@[k])
                    == self@.data.triangles[k / 3][k % 3] as u16 by {
                    if k >= 3 * t {
                        assert(k / 3 == t as int);
                        assert(k % 3 == k - 3 * t);
                    }
                }
            }
            t = t + 1;
        }
        proof {
            assert(spec_indices_fit(self@));
        }
        let m = StaticMesh { indices, vertices };
        proof {
            let gm = spec_static_mesh(self@)->Ok_0;
            assert forall|k: int| 0 <= k < m@.indices.len() implies m@.indices[k]
                == gm.indices[k] by {}
            assert(m@.indices =~= gm.indices);
            assert forall|j: int| 0 <= j < m@.vertices.len() implies m@.vertices[j]
                == gm.vertices[j] by {
                assert(m@.vertices[j] == m.vertices@[j]@);
            }
            assert(m@.vertices =~= gm.vertices);
            assert(m@ =~= gm);
        }
        Ok(m)
    }
}

impl Md3Model {
    /// Converts the model into its render-ready form.  One animation frame
    /// gives a static mesh built from the first surface only; several give
    /// one sub-mesh per surface; a model without frames, without surfaces on
    /// the static path, or with an oversized triangle index comes out as
    /// `Corrupted` with a diagnostic message.
    pub fn to_render_mesh(&self) -> (r: RenderMesh)
        ensures
            r@ == spec_render_mesh(self@),
    {
        if self.header.frame_count > 1 {
            let mut frames: Vec<StaticMesh> = Vec::new();
            let mut i: usize = 0;
            while i < self.surfaces.len()
                invariant
                    i <= self.surfaces.len(),
                    self.header.frame_count > 1,
                    frames@.len() == i,
                    forall|j: int|
                        0 <= j < i ==> spec_static_mesh(#[trigger] self@.surfaces[j]) is Ok,
                    forall|j: int|
                        0 <= j < i ==> (#[trigger] frames@[j])@ == spec_static_mesh(
                            self@.surfaces[j],
                        )->Ok_0,
                decreases self.surfaces.len() - i,
            {
                let surf = &self.surfaces[i];
                match surf.to_static_mesh() {
                    Ok(sm) => {
                        frames.push(sm);
                    },
                    Err(_) => {
                        proof {
                            assert(spec_static_mesh(self@.surfaces[i as int]) is Err);
                            assert(exists|k: int|
                                0 <= k < self@.surfaces.len() && (#[trigger] spec_static_mesh(
                                    self@.surfaces[k],
                                )) is Err);
                        }
                        return RenderMesh::Corrupted(LoadError::IndexOverflow.message());
                    },
                }
                i = i + 1;
            }
            proof {
                assert(!(exists|k: int|
                    0 <= k < self@.surfaces.len() && (#[trigger] spec_static_mesh(
                        self@.surfaces[k],
                    )) is Err));
                let g = Seq::new(
                    self@.surfaces.len(),
                    |k: int| spec_static_mesh(self@.surfaces[k])->Ok_0,
                );
                assert forall|k: int| 0 <= k < self@.surfaces.len() implies meshes_view(frames@)[k]
                    == g[k] by {
                    assert(meshes_view(frames@)[k] == frames@[k]@);
                }
                assert(meshes_view(frames@) =~= g);
            }
            RenderMesh::Animated(frames)
        } else if self.header.frame_count == 1 {
            if self.surfaces.len() == 0 {
                return RenderMesh::Corrupted(
                    String::from_str("cannot build a render mesh: the model has no surfaces"),
                );
            }
            let surf = &self.surfaces[0];
            match surf.to_static_mesh() {
                Ok(sm) => RenderMesh::Static(sm),
                Err(_) => RenderMesh::Corrupted(LoadError::IndexOverflow.message()),
            }
        } else {
            RenderMesh::Corrupted(LoadError::EmptyAnimation.message())
        }
    }
}

/// The counts a conversion preserves, for a model loaded with per-vertex
/// texture coordinates: every surface whose indices fit yields a static
/// mesh with exactly the surface's declared vertex count and three indices
/// per declared triangle.
pub proof fn lemma_render_mesh_counts(s: Seq<u8>)
    requires
        spec_load(s, StCountMode::PerVertex) is Ok,
    ensures
        ({
            let m = spec_load(s, StCountMode::PerVertex)->Ok_0;
            forall|i: int|
                0 <= i < m.surfaces.len() && spec_static_mesh(#[trigger] m.surfaces[i]) is Ok
                    ==> spec_static_mesh(m.surfaces[i])->Ok_0.vertices.len() == spec_count(
                    m.surfaces[i].header.vertex_count,
                ) && spec_static_mesh(m.surfaces[i])->Ok_0.indices.len() == 3 * spec_count(
                    m.surfaces[i].header.triangle_count,
                )
        }),
{
    let m = spec_load(s, StCountMode::PerVertex)->Ok_0;
    lemma_load_shape(s, StCountMode::PerVertex);
    assert forall|i: int|
        0 <= i < m.surfaces.len() && spec_static_mesh(#[trigger] m.surfaces[i])
            is Ok implies spec_static_mesh(m.surfaces[i])->Ok_0.vertices.len() == spec_count(
        m.surfaces[i].header.vertex_count,
    ) && spec_static_mesh(m.surfaces[i])->Ok_0.indices.len() == 3 * spec_count(
        m.surfaces[i].header.triangle_count,
    ) by {
        let sv = m.surfaces[i];
        assert(crate::parse::spec_surface_shape(sv, StCountMode::PerVertex));
        assert(spec_vertex_pair_count(sv) == spec_count(sv.header.vertex_count));
    }
}

/// Determinism of the whole pipeline: equal byte inputs give equal load
/// outcomes, and on success equal render meshes.  There is no hidden state:
/// both stages are functions of the input bytes alone.
pub proof fn lemma_pipeline_deterministic(b1: Seq<u8>, b2: Seq<u8>, mode: StCountMode)
    requires
        b1 == b2,
    ensures
        spec_load(b1, mode) == spec_load(b2, mode),
        spec_load(b1, mode) is Ok ==> spec_render_mesh(spec_load(b1, mode)->Ok_0)
            == spec_render_mesh(spec_load(b2, mode)->Ok_0),
{
}

} // verus!
