//! The in-memory model: header, frames, tags and surfaces, together with the
//! mathematical views that the decoding contracts are stated over.
//!
//! The format stores 32-bit floating-point fields (bounds, origins, radii,
//! texture coordinates).  The model carries each of them as its raw IEEE-754
//! bit pattern in a `u32`, so that decoding is plain byte shuffling; turning
//! a bit pattern into a float is left to the caller.

use vstd::prelude::*;
use vstd::string::StringExecFns;

verus! {

/// Why a load was rejected, or why a conversion condition is unrecoverable.
#[derive(Clone, Copy, Debug, PartialEq, Eq, Structural)]
pub enum LoadError {
    /// The scanner exhausted the input without finding the signature.
    SignatureNotFound,
    /// Fewer bytes were available than a field or record requires.
    Truncated,
    /// A stored offset addresses a position beyond the end of the input.
    SeekOutOfRange,
    /// A triangle index does not fit the 16-bit render-mesh index width.
    IndexOverflow,
    /// The header declares no animation frames at all.
    EmptyAnimation,
}

/// The diagnostic text of each load error.
pub open spec fn spec_message(e: LoadError) -> Seq<char> {
    match e {
        LoadError::SignatureNotFound => "the format signature was not found in the input"@,
        LoadError::Truncated => "the input ends before a required field or record"@,
        LoadError::SeekOutOfRange => "a stored offset addresses a position outside the input"@,
        LoadError::IndexOverflow => "a triangle index does not fit the 16-bit render index width"@,
        LoadError::EmptyAnimation => "the model declares no animation frames"@,
    }
}

impl LoadError {
    /// A human-readable description of the error.
    pub fn message(&self) -> (r: String)
        ensures
            r@ == spec_message(*self),
    {
        match self {
            LoadError::SignatureNotFound => String::from_str(
                "the format signature was not found in the input",
            ),
            LoadError::Truncated => String::from_str(
                "the input ends before a required field or record",
            ),
            LoadError::SeekOutOfRange => String::from_str(
                "a stored offset addresses a position outside the input",
            ),
            LoadError::IndexOverflow => String::from_str(
                "a triangle index does not fit the 16-bit render index width",
            ),
            LoadError::EmptyAnimation => String::from_str(
                "the model declares no animation frames",
            ),
        }
    }
}

/// Which count field governs how many texture-coordinate pairs a surface
/// carries.  The format intent is one pair per vertex, but the historical
/// reader used the triangle count; both readings stay available.
#[derive(Clone, Copy, Debug, PartialEq, Eq, Structural)]
pub enum StCountMode {
    /// Read `triangle_count` texture-coordinate pairs (historical behaviour).
    PerTriangle,
    /// Read `vertex_count` texture-coordinate pairs (per-vertex data).
    PerVertex,
}

/// A 3-component vector of 32-bit float bit patterns.
#[derive(Clone, Copy, Debug, PartialEq, Eq, Structural)]
pub struct Vec3Bits {
    pub x: u32,
    pub y: u32,
    pub z: u32,
}

/// The fixed-size model header that follows the signature.
#[derive(Clone, Debug, PartialEq, Eq)]
pub struct Md3Header {
    pub version: i32,
    /// Model name, already trimmed to the prefix before its first NUL byte.
    pub name: Vec<u8>,
    pub flags: i32,
    pub frame_count: i32,
    pub tags_count: i32,
    pub surface_count: i32,
    pub skin_count: i32,
    /// Offset of the frames block, measured from the post-signature base.
    pub frames_offset: i32,
    /// Offset of the tags block, measured from the post-signature base.
    pub tags_offset: i32,
    /// Offset of the surfaces block, measured from the post-signature base.
    pub surfaces_offset: i32,
    pub eof_offset: i32,
}

#[verifier::ext_equal]
pub struct HeaderV {
    pub version: i32,
    pub name: Seq<u8>,
    pub flags: i32,
    pub frame_count: i32,
    pub tags_count: i32,
    pub surface_count: i32,
    pub skin_count: i32,
    pub frames_offset: i32,
    pub tags_offset: i32,
    pub surfaces_offset: i32,
    pub eof_offset: i32,
}

impl View for Md3Header {
    type V = HeaderV;

    open spec fn view(&self) -> HeaderV {
        HeaderV {
            version: self.version,
            name: self.name@,
            flags: self.flags,
            frame_count: self.frame_count,
            tags_count: self.tags_count,
            surface_count: self.surface_count,
            skin_count: self.skin_count,
            frames_offset: self.frames_offset,
            tags_offset: self.tags_offset,
            surfaces_offset: self.surfaces_offset,
            eof_offset: self.eof_offset,
        }
    }
}

/// One per-frame bounding record.
#[derive(Clone, Debug, PartialEq, Eq)]
pub struct Md3Frame {
    pub bounds_min: Vec3Bits,
    pub bounds_max: Vec3Bits,
    pub local_origin: Vec3Bits,
    /// Bit pattern of the bounding-sphere radius.
    pub radius_bits: u32,
    /// Fixed 16-byte frame name, kept exactly as stored (not NUL-trimmed).
    pub name: Vec<u8>,
}

#[verifier::ext_equal]
pub struct FrameV {
    pub bounds_min: Vec3Bits,
    pub bounds_max: Vec3Bits,
    pub local_origin: Vec3Bits,
    pub radius_bits: u32,
    pub name: Seq<u8>,
}

impl View for Md3Frame {
    type V = FrameV;

    open spec fn view(&self) -> FrameV {
        FrameV {
            bounds_min: self.bounds_min,
            bounds_max: self.bounds_max,
            local_origin: self.local_origin,
            radius_bits: self.radius_bits,
            name: self.name@,
        }
    }
}

/// A named attachment point with position and orientation.
#[derive(Clone, Debug, PartialEq, Eq)]
pub struct Md3Tag {
    /// Fixed 64-byte tag name, kept exactly as stored.
    pub name: Vec<u8>,
    pub origin: Vec3Bits,
    pub axis: [Vec3Bits; 3],
}

#[verifier::ext_equal]
pub struct TagV {
    pub name: Seq<u8>,
    pub origin: Vec3Bits,
    pub axis: Seq<Vec3Bits>,
}

impl View for Md3Tag {
    type V = TagV;

    open spec fn view(&self) -> TagV {
        TagV { name: self.name@, origin: self.origin, axis: self.axis@ }
    }
}

/// A shader reference held by a surface.
#[derive(Clone, Debug, PartialEq, Eq)]
pub struct Md3Shader {
    /// Fixed 64-byte shader name, kept exactly as stored.
    pub name: Vec<u8>,
    pub shader_index: i32,
}

#[verifier::ext_equal]
pub struct ShaderV {
    pub name: Seq<u8>,
    pub shader_index: i32,
}

impl View for Md3Shader {
    type V = ShaderV;

    open spec fn view(&self) -> ShaderV {
        ShaderV { name: self.name@, shader_index: self.shader_index }
    }
}

/// The sub-header that opens each surface record.  The four section offsets
/// are relative to the start of the surface's own record, unlike the
/// top-level offsets, which are anchored at the post-signature base.
#[derive(Clone, Debug, PartialEq, Eq)]
pub struct Md3SurfaceHeader {
    /// Fixed 64-byte surface name, kept exactly as stored.
    pub name: Vec<u8>,
    pub flags: i32,
    pub frame_count: i32,
    pub shader_count: i32,
    pub vertex_count: i32,
    pub triangle_count: i32,
    /// Offset of the triangle section, relative to the surface start.
    pub triangles_offset: i32,
    /// Offset of the shader section, relative to the surface start.
    pub shaders_offset: i32,
    /// Offset of the texture-coordinate section, relative to the surface start.
    pub st_offset: i32,
    /// Offset of the compressed-vertex section, relative to the surface start.
    pub xyz_normals_offset: i32,
    /// Offset of the next surface record, relative to the surface start.
    pub end_offset: i32,
}

#[verifier::ext_equal]
pub struct SurfaceHeaderV {
    pub name: Seq<u8>,
    pub flags: i32,
    pub frame_count: i32,
    pub shader_count: i32,
    pub vertex_count: i32,
    pub triangle_count: i32,
    pub triangles_offset: i32,
    pub shaders_offset: i32,
    pub st_offset: i32,
    pub xyz_normals_offset: i32,
    pub end_offset: i32,
}

impl View for Md3SurfaceHeader {
    type V = SurfaceHeaderV;

    open spec fn view(&self) -> SurfaceHeaderV {
        SurfaceHeaderV {
            name: self.name@,
            flags: self.flags,
            frame_count: self.frame_count,
            shader_count: self.shader_count,
            vertex_count: self.vertex_count,
            triangle_count: self.triangle_count,
            triangles_offset: self.triangles_offset,
            shaders_offset: self.shaders_offset,
            st_offset: self.st_offset,
            xyz_normals_offset: self.xyz_normals_offset,
            end_offset: self.end_offset,
        }
    }
}

/// Three signed 32-bit vertex indices.
#[derive(Clone, Copy, Debug, PartialEq, Eq)]
pub struct Md3Triangle {
    pub indices: [i32; 3],
}

impl View for Md3Triangle {
    type V = Seq<i32>;

    open spec fn view(&self) -> Seq<i32> {
        self.indices@
    }
}

/// One texture-coordinate pair, as two 32-bit float bit patterns.
#[derive(Clone, Copy, Debug, PartialEq, Eq)]
pub struct Md3St {
    pub st_bits: [u32; 2],
}

impl View for Md3St {
    type V = Seq<u32>;

    open spec fn view(&self) -> Seq<u32> {
        self.st_bits@
    }
}

/// A compressed vertex: three quantized 16-bit coordinates (units of 1/64)
/// plus the 16-bit latitude/longitude normal code.
#[derive(Clone, Copy, Debug, PartialEq, Eq)]
pub struct Md3XyzNormal {
    pub xyz: [i16; 3],
    pub normal: i16,
}

#[verifier::ext_equal]
pub struct XyzNormalV {
    pub xyz: Seq<i16>,
    pub normal: i16,
}

impl View for Md3XyzNormal {
    type V = XyzNormalV;

    open spec fn view(&self) -> XyzNormalV {
        XyzNormalV { xyz: self.xyz@, normal: self.normal }
    }
}


/// View of a sequence of decoded frames.
pub open spec fn frames_view(v: Seq<Md3Frame>) -> Seq<FrameV> {
    v.map_values(|f: Md3Frame| f@)
}

/// View of a sequence of decoded tags.
pub open spec fn tags_view(v: Seq<Md3Tag>) -> Seq<TagV> {
    v.map_values(|t: Md3Tag| t@)
}

/// View of a sequence of decoded shaders.
pub open spec fn shaders_view(v: Seq<Md3Shader>) -> Seq<ShaderV> {
    v.map_values(|sh: Md3Shader| sh@)
}

/// View of a sequence of decoded triangles.
pub open spec fn triangles_view(v: Seq<Md3Triangle>) -> Seq<Seq<i32>> {
    v.map_values(|t: Md3Triangle| t@)
}

/// View of a sequence of decoded texture-coordinate pairs.
pub open spec fn sts_view(v: Seq<Md3St>) -> Seq<Seq<u32>> {
    v.map_values(|st: Md3St| st@)
}

/// View of a sequence of decoded compressed vertices.
pub open spec fn xyz_normals_view(v: Seq<Md3XyzNormal>) -> Seq<XyzNormalV> {
    v.map_values(|xn: Md3XyzNormal| xn@)
}

/// View of a sequence of decoded surfaces.
pub open spec fn surfaces_view(v: Seq<Md3Surface>) -> Seq<SurfaceV> {
    v.map_values(|sf: Md3Surface| sf@)
}

/// The decoded data sections of one surface.
#[derive(Clone, Debug, PartialEq, Eq)]
pub struct Md3SurfaceData {
    pub triangles: Vec<Md3Triangle>,
    pub shaders: Vec<Md3Shader>,
    pub st_data: Vec<Md3St>,
    pub xyz_normals: Vec<Md3XyzNormal>,
}

#[verifier::ext_equal]
pub struct SurfaceDataV {
    pub triangles: Seq<Seq<i32>>,
    pub shaders: Seq<ShaderV>,
    pub st_data: Seq<Seq<u32>>,
    pub xyz_normals: Seq<XyzNormalV>,
}

impl View for Md3SurfaceData {
    type V = SurfaceDataV;

    open spec fn view(&self) -> SurfaceDataV {
        SurfaceDataV {
            triangles: triangles_view(self.triangles@),
            shaders: shaders_view(self.shaders@),
            st_data: sts_view(self.st_data@),
            xyz_normals: xyz_normals_view(self.xyz_normals@),
        }
    }
}

/// One complete surface: its sub-header plus its data sections.
#[derive(Clone, Debug, PartialEq, Eq)]
pub struct Md3Surface {
    pub header: Md3SurfaceHeader,
    pub data: Md3SurfaceData,
}

#[verifier::ext_equal]
pub struct SurfaceV {
    pub header: SurfaceHeaderV,
    pub data: SurfaceDataV,
}

impl View for Md3Surface {
    type V = SurfaceV;

    open spec fn view(&self) -> SurfaceV {
        SurfaceV { header: self.header@, data: self.data@ }
    }
}

/// The fully assembled model.  The three top-level buffers at the end are
/// placeholders kept for forward compatibility; a load leaves them empty.
#[derive(Clone, Debug, PartialEq, Eq)]
pub struct Md3Model {
    pub header: Md3Header,
    pub frames: Vec<Md3Frame>,
    pub surfaces: Vec<Md3Surface>,
    pub st_buffer: Vec<Md3St>,
    pub xyz_normals: Vec<Md3XyzNormal>,
    pub shaders: Vec<Md3Shader>,
}

#[verifier::ext_equal]
pub struct ModelV {
    pub header: HeaderV,
    pub frames: Seq<FrameV>,
    pub surfaces: Seq<SurfaceV>,
    pub st_buffer: Seq<Seq<u32>>,
    pub xyz_normals: Seq<XyzNormalV>,
    pub shaders: Seq<ShaderV>,
}

impl View for Md3Model {
    type V = ModelV;

    open spec fn view(&self) -> ModelV {
        ModelV {
            header: self.header@,
            frames: frames_view(self.frames@),
            surfaces: surfaces_view(self.surfaces@),
            st_buffer: sts_view(self.st_buffer@),
            xyz_normals: xyz_normals_view(self.xyz_normals@),
            shaders: shaders_view(self.shaders@),
        }
    }
}

/// Every index of every triangle of the surface addresses a valid position
/// in the vertex sequence declared by the surface header.
pub open spec fn spec_surface_indices_in_range(sv: SurfaceV) -> bool {
    forall|t: int, j: int|
        0 <= t < sv.data.triangles.len() && 0 <= j < 3 ==> 0 <= #[trigger] sv.data.triangles[t][j]
            < sv.header.vertex_count
}

/// Every surface of the model satisfies `spec_surface_indices_in_range`.
pub open spec fn spec_model_indices_in_range(m: ModelV) -> bool {
    forall|i: int|
        0 <= i < m.surfaces.len() ==> spec_surface_indices_in_range(#[trigger] m.surfaces[i])
}

impl Md3Surface {
    /// Checks referential integrity of the triangle indices: every index
    /// must lie in `[0, vertex_count)`.  The decoder does not enforce this,
    /// so a caller that feeds the indices to a renderer checks it here.
    pub fn triangle_indices_in_range(&self) -> (r: bool)
        ensures
            r == spec_surface_indices_in_range(self@),
    {
        let mut t: usize = 0;
        while t < self.data.triangles.len()
            invariant
                t <= self.data.triangles.len(),
                forall|ti: int, j: int|
                    0 <= ti < t && 0 <= j < 3 ==> 0 <= #[trigger] self@.data.triangles[ti][j]
                        < self@.header.vertex_count,
            decreases self.data.triangles.len() - t,
        {
            let tri = &self.data.triangles[t];
            let mut j: usize = 0;
            while j < 3
                invariant
                    j <= 3,
                    tri@ == self@.data.triangles[t as int],
                    t < self.data.triangles.len(),
                    forall|jj: int| 0 <= jj < j ==> 0 <= #[trigger] tri@[jj] < self@.header.vertex_count,
                decreases 3 - j,
            {
                let idx = tri.indices[j];
                if idx < 0 || idx >= self.header.vertex_count {
                    assert(!spec_surface_indices_in_range(self@));
                    return false;
                }
                j = j + 1;
            }
            t = t + 1;
        }
        true
    }
}

impl Md3Model {
    /// Checks `triangle_indices_in_range` for every surface of the model.
    pub fn validate_triangle_indices(&self) -> (r: bool)
        ensures
            r == spec_model_indices_in_range(self@),
    {
        let mut i: usize = 0;
        while i < self.surfaces.len()
            invariant
                i <= self.surfaces.len(),
                forall|k: int|
                    0 <= k < i ==> spec_surface_indices_in_range(#[trigger] self@.surfaces[k]),
            decreases self.surfaces.len() - i,
        {
            if !self.surfaces[i].triangle_indices_in_range() {
                assert(!spec_surface_indices_in_range(self@.surfaces[i as int]));
                return false;
            }
            i = i + 1;
        }
        true
    }
}

} // verus!
