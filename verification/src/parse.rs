//! The binary deserialization engine: fixed record layouts, section readers
//! and the model assembler.
//!
//! Two kinds of offset appear in the format.  The header's section offsets
//! are anchored at the post-signature base; each surface's four sub-section
//! offsets are anchored at the start of that surface's own record.  Every
//! seek here therefore names its anchor explicitly and goes through
//! `seek_from`, so a value of one kind can never be resolved against the
//! wrong base.

use vstd::prelude::*;

use crate::bytes::{
    find_signature, le_i16_at, le_i32_at, le_u32_at, read_bytes, spec_le_i16_at, spec_le_i32_at,
    spec_le_u32_at, spec_sig_end, spec_trim_nul, trim_nul,
};
use crate::model::{
    frames_view, shaders_view, sts_view, surfaces_view, tags_view, triangles_view,
    xyz_normals_view, FrameV, HeaderV, LoadError, Md3Frame, Md3Header, Md3Model, Md3Shader, Md3St,
    Md3Surface, Md3SurfaceData, Md3SurfaceHeader, Md3Tag, Md3Triangle, Md3XyzNormal, ModelV,
    ShaderV, StCountMode, SurfaceDataV, SurfaceHeaderV, SurfaceV, TagV, Vec3Bits, XyzNormalV,
};

verus! {

/// Bytes of the fixed header that follows the 4-byte signature.
pub const HEADER_BYTES: usize = 104;

/// Bytes of one frame record.
pub const FRAME_BYTES: usize = 56;

/// Bytes of one tag record.
pub const TAG_BYTES: usize = 112;

/// Bytes of one surface sub-header, including the skipped 4-byte signature.
pub const SURFACE_HEADER_BYTES: usize = 108;

/// Bytes of one triangle record.
pub const TRIANGLE_BYTES: usize = 12;

/// Bytes of one shader record.
pub const SHADER_BYTES: usize = 68;

/// Bytes of one texture-coordinate record.
pub const ST_BYTES: usize = 8;

/// Bytes of one compressed-vertex record.
pub const XYZ_NORMAL_BYTES: usize = 8;

/// Record counts are stored as signed 32-bit integers; a non-positive count
/// reads zero records.
pub open spec fn spec_count(c: i32) -> nat {
    if c <= 0 {
        0
    } else {
        c as nat
    }
}

fn count_usize(c: i32) -> (r: usize)
    ensures
        r == spec_count(c),
{
    if c <= 0 {
        0
    } else {
        c as usize
    }
}

/// Resolving a stored offset against its anchor: negative offsets and
/// positions past the end of the input are out of range.
pub open spec fn spec_seek(len: int, anchor: int, off: i32) -> Result<int, LoadError> {
    if off < 0 {
        Err(LoadError::SeekOutOfRange)
    } else if anchor + off > len {
        Err(LoadError::SeekOutOfRange)
    } else {
        Ok(anchor + off)
    }
}

fn seek_from(s: &Vec<u8>, anchor: usize, off: i32) -> (r: Result<usize, LoadError>)
    requires
        anchor <= s.len(),
    ensures
        match r {
            Ok(p) => spec_seek(s@.len() as int, anchor as int, off) == Ok::<int, LoadError>(
                p as int,
            ) && p <= s.len(),
            Err(e) => spec_seek(s@.len() as int, anchor as int, off) == Err::<int, LoadError>(e),
        },
{
    if off < 0 {
        Err(LoadError::SeekOutOfRange)
    } else {
        let off_u = off as usize;
        if off_u > s.len() - anchor {
            Err(LoadError::SeekOutOfRange)
        } else {
            Ok(anchor + off_u)
        }
    }
}

/// A vector of three float bit patterns at `p`.
pub open spec fn spec_vec3_at(s: Seq<u8>, p: int) -> Vec3Bits {
    Vec3Bits {
        x: spec_le_u32_at(s, p),
        y: spec_le_u32_at(s, p + 4),
        z: spec_le_u32_at(s, p + 8),
    }
}

/// The model header decoded at `base`, the position just past the signature.
pub open spec fn spec_header_at(s: Seq<u8>, base: int) -> HeaderV {
    HeaderV {
        version: spec_le_i32_at(s, base),
        name: spec_trim_nul(s.subrange(base + 4, base + 68)),
        flags: spec_le_i32_at(s, base + 68),
        frame_count: spec_le_i32_at(s, base + 72),
        tags_count: spec_le_i32_at(s, base + 76),
        surface_count: spec_le_i32_at(s, base + 80),
        skin_count: spec_le_i32_at(s, base + 84),
        frames_offset: spec_le_i32_at(s, base + 88),
        tags_offset: spec_le_i32_at(s, base + 92),
        surfaces_offset: spec_le_i32_at(s, base + 96),
        eof_offset: spec_le_i32_at(s, base + 100),
    }
}

/// One frame record decoded at `p`.
pub open spec fn spec_frame_at(s: Seq<u8>, p: int) -> FrameV {
    FrameV {
        bounds_min: spec_vec3_at(s, p),
        bounds_max: spec_vec3_at(s, p + 12),
        local_origin: spec_vec3_at(s, p + 24),
        radius_bits: spec_le_u32_at(s, p + 36),
        name: s.subrange(p + 40, p + 56),
    }
}

/// One tag record decoded at `p`.
pub open spec fn spec_tag_at(s: Seq<u8>, p: int) -> TagV {
    TagV {
        name: s.subrange(p, p + 64),
        origin: spec_vec3_at(s, p + 64),
        axis: seq![spec_vec3_at(s, p + 76), spec_vec3_at(s, p + 88), spec_vec3_at(s, p + 100)],
    }
}

/// One shader record decoded at `p`.
pub open spec fn spec_shader_at(s: Seq<u8>, p: int) -> ShaderV {
    ShaderV { name: s.subrange(p, p + 64), shader_index: spec_le_i32_at(s, p + 64) }
}

/// One triangle record decoded at `p`.
pub open spec fn spec_triangle_at(s: Seq<u8>, p: int) -> Seq<i32> {
    seq![spec_le_i32_at(s, p), spec_le_i32_at(s, p + 4), spec_le_i32_at(s, p + 8)]
}

/// One texture-coordinate record decoded at `p`.
pub open spec fn spec_st_at(s: Seq<u8>, p: int) -> Seq<u32> {
    seq![spec_le_u32_at(s, p), spec_le_u32_at(s, p + 4)]
}

/// One compressed-vertex record decoded at `p`.
pub open spec fn spec_xyz_normal_at(s: Seq<u8>, p: int) -> XyzNormalV {
    XyzNormalV {
        xyz: seq![spec_le_i16_at(s, p), spec_le_i16_at(s, p + 2), spec_le_i16_at(s, p + 4)],
        normal: spec_le_i16_at(s, p + 6),
    }
}

/// The surface sub-header decoded at `start`, the first byte of the surface
/// record (the 4-byte per-surface signature is skipped, not validated).
pub open spec fn spec_surface_header_at(s: Seq<u8>, start: int) -> SurfaceHeaderV {
    SurfaceHeaderV {
        name: s.subrange(start + 4, start + 68),
        flags: spec_le_i32_at(s, start + 68),
        frame_count: spec_le_i32_at(s, start + 72),
        shader_count: spec_le_i32_at(s, start + 76),
        vertex_count: spec_le_i32_at(s, start + 80),
        triangle_count: spec_le_i32_at(s, start + 84),
        triangles_offset: spec_le_i32_at(s, start + 88),
        shaders_offset: spec_le_i32_at(s, start + 92),
        st_offset: spec_le_i32_at(s, start + 96),
        xyz_normals_offset: spec_le_i32_at(s, start + 100),
        end_offset: spec_le_i32_at(s, start + 104),
    }
}

/// The frames section: seek to `base + off`, then `count` contiguous records.
pub open spec fn spec_read_frames(s: Seq<u8>, base: int, off: i32, count: i32) -> Result<
    Seq<FrameV>,
    LoadError,
> {
    match spec_seek(s.len() as int, base, off) {
        Err(e) => Err(e),
        Ok(p) => if p + spec_count(count) * (FRAME_BYTES as int) <= s.len() {
            Ok(Seq::new(spec_count(count), |j: int| spec_frame_at(s, p + j * (FRAME_BYTES as int))))
        } else {
            Err(LoadError::Truncated)
        },
    }
}

/// The tags section: `count` contiguous records at `pos`.
pub open spec fn spec_read_tags(s: Seq<u8>, pos: int, count: i32) -> Result<Seq<TagV>, LoadError> {
    if spec_count(count) == 0 {
        Ok(Seq::empty())
    } else if pos + spec_count(count) * (TAG_BYTES as int) <= s.len() {
        Ok(Seq::new(spec_count(count), |j: int| spec_tag_at(s, pos + j * (TAG_BYTES as int))))
    } else {
        Err(LoadError::Truncated)
    }
}

/// A surface's triangle section: seek to `start + off`, then `count` records.
pub open spec fn spec_read_triangles(s: Seq<u8>, start: int, off: i32, count: i32) -> Result<
    Seq<Seq<i32>>,
    LoadError,
> {
    match spec_seek(s.len() as int, start, off) {
        Err(e) => Err(e),
        Ok(p) => if p + spec_count(count) * (TRIANGLE_BYTES as int) <= s.len() {
            Ok(
                Seq::new(
                    spec_count(count),
                    |j: int| spec_triangle_at(s, p + j * (TRIANGLE_BYTES as int)),
                ),
            )
        } else {
            Err(LoadError::Truncated)
        },
    }
}

/// A surface's shader section: seek to `start + off`, then `count` records.
pub open spec fn spec_read_shaders(s: Seq<u8>, start: int, off: i32, count: i32) -> Result<
    Seq<ShaderV>,
    LoadError,
> {
    match spec_seek(s.len() as int, start, off) {
        Err(e) => Err(e),
        Ok(p) => if p + spec_count(count) * (SHADER_BYTES as int) <= s.len() {
            Ok(
                Seq::new(
                    spec_count(count),
                    |j: int| spec_shader_at(s, p + j * (SHADER_BYTES as int)),
                ),
            )
        } else {
            Err(LoadError::Truncated)
        },
    }
}

/// A surface's texture-coordinate section: seek to `start + off`, then
/// `count` records.
pub open spec fn spec_read_sts(s: Seq<u8>, start: int, off: i32, count: i32) -> Result<
    Seq<Seq<u32>>,
    LoadError,
> {
    match spec_seek(s.len() as int, start, off) {
        Err(e) => Err(e),
        Ok(p) => if p + spec_count(count) * (ST_BYTES as int) <= s.len() {
            Ok(Seq::new(spec_count(count), |j: int| spec_st_at(s, p + j * (ST_BYTES as int))))
        } else {
            Err(LoadError::Truncated)
        },
    }
}

/// A surface's compressed-vertex section: seek to `start + off`, then
/// `count` records.
pub open spec fn spec_read_xyz_normals(s: Seq<u8>, start: int, off: i32, count: i32) -> Result<
    Seq<XyzNormalV>,
    LoadError,
> {
    match spec_seek(s.len() as int, start, off) {
        Err(e) => Err(e),
        Ok(p) => if p + spec_count(count) * (XYZ_NORMAL_BYTES as int) <= s.len() {
            Ok(
                Seq::new(
                    spec_count(count),
                    |j: int| spec_xyz_normal_at(s, p + j * (XYZ_NORMAL_BYTES as int)),
                ),
            )
        } else {
            Err(LoadError::Truncated)
        },
    }
}

fn read_vec3_at(s: &Vec<u8>, p: usize) -> (r: Vec3Bits)
    requires
        p + 12 <= s.len(),
    ensures
        r == spec_vec3_at(s@, p as int),
{
    Vec3Bits { x: le_u32_at(s, p), y: le_u32_at(s, p + 4), z: le_u32_at(s, p + 8) }
}

fn read_frame_at(s: &Vec<u8>, p: usize) -> (r: Md3Frame)
    requires
        p + FRAME_BYTES <= s.len(),
    ensures
        r@ == spec_frame_at(s@, p as int),
{
    let r = Md3Frame {
        bounds_min: read_vec3_at(s, p),
        bounds_max: read_vec3_at(s, p + 12),
        local_origin: read_vec3_at(s, p + 24),
        radius_bits: le_u32_at(s, p + 36),
        name: read_bytes(s, p + 40, 16),
    };
    proof {
        assert(r@ =~= spec_frame_at(s@, p as int));
    }
    r
}

fn read_tag_at(s: &Vec<u8>, p: usize) -> (r: Md3Tag)
    requires
        p + TAG_BYTES <= s.len(),
    ensures
        r@ == spec_tag_at(s@, p as int),
{
    let r = Md3Tag {
        name: read_bytes(s, p, 64),
        origin: read_vec3_at(s, p + 64),
        axis: [read_vec3_at(s, p + 76), read_vec3_at(s, p + 88), read_vec3_at(s, p + 100)],
    };
    proof {
        assert(r@.axis =~= spec_tag_at(s@, p as int).axis);
        assert(r@ =~= spec_tag_at(s@, p as int));
    }
    r
}

fn read_shader_at(s: &Vec<u8>, p: usize) -> (r: Md3Shader)
    requires
        p + SHADER_BYTES <= s.len(),
    ensures
        r@ == spec_shader_at(s@, p as int),
{
    let r = Md3Shader { name: read_bytes(s, p, 64), shader_index: le_i32_at(s, p + 64) };
    proof {
        assert(r@ =~= spec_shader_at(s@, p as int));
    }
    r
}

fn read_triangle_at(s: &Vec<u8>, p: usize) -> (r: Md3Triangle)
    requires
        p + TRIANGLE_BYTES <= s.len(),
    ensures
        r@ == spec_triangle_at(s@, p as int),
{
    let r = Md3Triangle {
        indices: [le_i32_at(s, p), le_i32_at(s, p + 4), le_i32_at(s, p + 8)],
    };
    proof {
        assert(r@ =~= spec_triangle_at(s@, p as int));
    }
    r
}

fn read_st_at(s: &Vec<u8>, p: usize) -> (r: Md3St)
    requires
        p + ST_BYTES <= s.len(),
    ensures
        r@ == spec_st_at(s@, p as int),
{
    let r = Md3St { st_bits: [le_u32_at(s, p), le_u32_at(s, p + 4)] };
    proof {
        assert(r@ =~= spec_st_at(s@, p as int));
    }
    r
}

fn read_xyz_normal_at(s: &Vec<u8>, p: usize) -> (r: Md3XyzNormal)
    requires
        p + XYZ_NORMAL_BYTES <= s.len(),
    ensures
        r@ == spec_xyz_normal_at(s@, p as int),
{
    let r = Md3XyzNormal {
        xyz: [le_i16_at(s, p), le_i16_at(s, p + 2), le_i16_at(s, p + 4)],
        normal: le_i16_at(s, p + 6),
    };
    proof {
        assert(r@.xyz =~= spec_xyz_normal_at(s@, p as int).xyz);
        assert(r@ =~= spec_xyz_normal_at(s@, p as int));
    }
    r
}

impl Md3Header {
    /// Decodes the fixed-size header at `base`, the position immediately
    /// after the signature.  The name is trimmed to its first NUL byte.
    pub fn read_from(s: &Vec<u8>, base: usize) -> (r: Result<Md3Header, LoadError>)
        requires
            base <= s.len(),
        ensures
            match r {
                Ok(h) => base + HEADER_BYTES <= s.len() && h@ == spec_header_at(s@, base as int),
                Err(e) => base + HEADER_BYTES > s.len() && e == LoadError::Truncated,
            },
    {
        if s.len() - base < HEADER_BYTES {
            return Err(LoadError::Truncated);
        }
        let h = Md3Header {
            version: le_i32_at(s, base),
            name: trim_nul(read_bytes(s, base + 4, 64)),
            flags: le_i32_at(s, base + 68),
            frame_count: le_i32_at(s, base + 72),
            tags_count: le_i32_at(s, base + 76),
            surface_count: le_i32_at(s, base + 80),
            skin_count: le_i32_at(s, base + 84),
            frames_offset: le_i32_at(s, base + 88),
            tags_offset: le_i32_at(s, base + 92),
            surfaces_offset: le_i32_at(s, base + 96),
            eof_offset: le_i32_at(s, base + 100),
        };
        proof {
            assert(h@ =~= spec_header_at(s@, base as int));
        }
        Ok(h)
    }
}

impl Md3Frame {
    /// Reads the frames section: seeks to `base + off` and decodes `count`
    /// contiguous frame records.
    pub fn read_from(s: &Vec<u8>, base: usize, off: i32, count: i32) -> (r: Result<
        Vec<Md3Frame>,
        LoadError,
    >)
        requires
            base <= s.len(),
        ensures
            ({
                let g = spec_read_frames(s@, base as int, off, count);
                match r {
                    Ok(v) => g == Ok::<Seq<FrameV>, LoadError>(frames_view(v@)),
                    Err(e) => g == Err::<Seq<FrameV>, LoadError>(e),
                }
            }),
    {
        let p = match seek_from(s, base, off) {
            Ok(p) => p,
            Err(e) => return Err(e),
        };
        let c = count_usize(count);
        let mut out: Vec<Md3Frame> = Vec::new();
        let mut cur: usize = p;
        let mut i: usize = 0;
        while i < c
            invariant
                i <= c,
                c == spec_count(count),
                p <= s.len(),
                cur == p + i * FRAME_BYTES,
                cur <= s.len(),
                spec_seek(s@.len() as int, base as int, off) == Ok::<int, LoadError>(p as int),
                out@.len() == i,
                forall|j: int|
                    0 <= j < i ==> (#[trigger] out@[j])@ == spec_frame_at(
                        s@,
                        p + j * (FRAME_BYTES as int),
                    ),
            decreases c - i,
        {
            if s.len() - cur < FRAME_BYTES {
                assert(p + c * (FRAME_BYTES as int) > s@.len());
                return Err(LoadError::Truncated);
            }
            out.push(read_frame_at(s, cur));
            i = i + 1;
            cur = cur + FRAME_BYTES;
        }
        proof {
            assert(p + c * (FRAME_BYTES as int) <= s@.len());
            let g = spec_read_frames(s@, base as int, off, count);
            let gs = g->Ok_0;
            assert forall|j: int| 0 <= j < c implies frames_view(out@)[j] == gs[j] by {
                assert(frames_view(out@)[j] == out@[j]@);
            }
            assert(frames_view(out@) =~= gs);
        }
        Ok(out)
    }
}

impl Md3Tag {
    /// Decodes `count` contiguous tag records starting at `pos`.
    pub fn read_from(s: &Vec<u8>, pos: usize, count: i32) -> (r: Result<Vec<Md3Tag>, LoadError>)
        ensures
            ({
                let g = spec_read_tags(s@, pos as int, count);
                match r {
                    Ok(v) => g == Ok::<Seq<TagV>, LoadError>(tags_view(v@)),
                    Err(e) => g == Err::<Seq<TagV>, LoadError>(e),
                }
            }),
    {
        let c = count_usize(count);
        let mut out: Vec<Md3Tag> = Vec::new();
        let mut cur: usize = pos;
        let mut i: usize = 0;
        while i < c
            invariant
                i <= c,
                c == spec_count(count),
                cur == pos + i * TAG_BYTES,
                i > 0 ==> cur <= s.len(),
                out@.len() == i,
                forall|j: int|
                    0 <= j < i ==> (#[trigger] out@[j])@ == spec_tag_at(
                        s@,
                        pos + j * (TAG_BYTES as int),
                    ),
            decreases c - i,
        {
            if cur > s.len() || s.len() - cur < TAG_BYTES {
                assert(pos + c * (TAG_BYTES as int) > s@.len());
                return Err(LoadError::Truncated);
            }
            out.push(read_tag_at(s, cur));
            i = i + 1;
            cur = cur + TAG_BYTES;
        }
        proof {
            let g = spec_read_tags(s@, pos as int, count);
            if c == 0 {
                assert(tags_view(out@) =~= Seq::<TagV>::empty());
            } else {
                assert(pos + c * (TAG_BYTES as int) <= s@.len());
                let gs = g->Ok_0;
                assert forall|j: int| 0 <= j < c implies tags_view(out@)[j] == gs[j] by {
                    assert(tags_view(out@)[j] == out@[j]@);
                }
                assert(tags_view(out@) =~= gs);
            }
        }
        Ok(out)
    }
}


impl Md3Triangle {
    /// Reads a surface's triangle section: seeks to `start + off` (an offset
    /// relative to the surface record) and decodes `count` records.
    pub fn read_from(s: &Vec<u8>, start: usize, off: i32, count: i32) -> (r: Result<
        Vec<Md3Triangle>,
        LoadError,
    >)
        requires
            start <= s.len(),
        ensures
            ({
                let g = spec_read_triangles(s@, start as int, off, count);
                match r {
                    Ok(v) => g == Ok::<Seq<Seq<i32>>, LoadError>(triangles_view(v@)),
                    Err(e) => g == Err::<Seq<Seq<i32>>, LoadError>(e),
                }
            }),
    {
        let p = match seek_from(s, start, off) {
            Ok(p) => p,
            Err(e) => return Err(e),
        };
        let c = count_usize(count);
        let mut out: Vec<Md3Triangle> = Vec::new();
        let mut cur: usize = p;
        let mut i: usize = 0;
        while i < c
            invariant
                i <= c,
                c == spec_count(count),
                p <= s.len(),
                cur == p + i * TRIANGLE_BYTES,
                cur <= s.len(),
                spec_seek(s@.len() as int, start as int, off) == Ok::<int, LoadError>(p as int),
                out@.len() == i,
                forall|j: int|
                    0 <= j < i ==> (#[trigger] out@[j])@ == spec_triangle_at(
                        s@,
                        p + j * (TRIANGLE_BYTES as int),
                    ),
            decreases c - i,
        {
            if s.len() - cur < TRIANGLE_BYTES {
                assert(p + c * (TRIANGLE_BYTES as int) > s@.len());
                return Err(LoadError::Truncated);
            }
            out.push(read_triangle_at(s, cur));
            i = i + 1;
            cur = cur + TRIANGLE_BYTES;
        }
        proof {
            let g = spec_read_triangles(s@, start as int, off, count);
            let gs = g->Ok_0;
            assert forall|j: int| 0 <= j < c implies triangles_view(out@)[j] == gs[j] by {
                assert(triangles_view(out@)[j] == out@[j]@);
            }
            assert(triangles_view(out@) =~= gs);
        }
        Ok(out)
    }
}

impl Md3Shader {
    /// Reads a surface's shader section: seeks to `start + off` (an offset
    /// relative to the surface record) and decodes `count` records.
    pub fn read_from(s: &Vec<u8>, start: usize, off: i32, count: i32) -> (r: Result<
        Vec<Md3Shader>,
        LoadError,
    >)
        requires
            start <= s.len(),
        ensures
            ({
                let g = spec_read_shaders(s@, start as int, off, count);
                match r {
                    Ok(v) => g == Ok::<Seq<ShaderV>, LoadError>(shaders_view(v@)),
                    Err(e) => g == Err::<Seq<ShaderV>, LoadError>(e),
                }
            }),
    {
        let p = match seek_from(s, start, off) {
            Ok(p) => p,
            Err(e) => return Err(e),
        };
        let c = count_usize(count);
        let mut out: Vec<Md3Shader> = Vec::new();
        let mut cur: usize = p;
        let mut i: usize = 0;
        while i < c
            invariant
                i <= c,
                c == spec_count(count),
                p <= s.len(),
                cur == p + i * SHADER_BYTES,
                cur <= s.len(),
                spec_seek(s@.len() as int, start as int, off) == Ok::<int, LoadError>(p as int),
                out@.len() == i,
                forall|j: int|
                    0 <= j < i ==> (#[trigger] out@[j])@ == spec_shader_at(
                        s@,
                        p + j * (SHADER_BYTES as int),
                    ),
            decreases c - i,
        {
            if s.len() - cur < SHADER_BYTES {
                assert(p + c * (SHADER_BYTES as int) > s@.len());
                return Err(LoadError::Truncated);
            }
            out.push(read_shader_at(s, cur));
            i = i + 1;
            cur = cur + SHADER_BYTES;
        }
        proof {
            let g = spec_read_shaders(s@, start as int, off, count);
            let gs = g->Ok_0;
            assert forall|j: int| 0 <= j < c implies shaders_view(out@)[j] == gs[j] by {
                assert(shaders_view(out@)[j] == out@[j]@);
            }
            assert(shaders_view(out@) =~= gs);
        }
        Ok(out)
    }
}

impl Md3St {
    /// Reads a surface's texture-coordinate section: seeks to `start + off`
    /// (an offset relative to the surface record) and decodes `count`
    /// records.
    pub fn read_from(s: &Vec<u8>, start: usize, off: i32, count: i32) -> (r: Result<
        Vec<Md3St>,
        LoadError,
    >)
        requires
            start <= s.len(),
        ensures
            ({
                let g = spec_read_sts(s@, start as int, off, count);
                match r {
                    Ok(v) => g == Ok::<Seq<Seq<u32>>, LoadError>(sts_view(v@)),
                    Err(e) => g == Err::<Seq<Seq<u32>>, LoadError>(e),
                }
            }),
    {
        let p = match seek_from(s, start, off) {
            Ok(p) => p,
            Err(e) => return Err(e),
        };
        let c = count_usize(count);
        let mut out: Vec<Md3St> = Vec::new();
        let mut cur: usize = p;
        let mut i: usize = 0;
        while i < c
            invariant
                i <= c,
                c == spec_count(count),
                p <= s.len(),
                cur == p + i * ST_BYTES,
                cur <= s.len(),
                spec_seek(s@.len() as int, start as int, off) == Ok::<int, LoadError>(p as int),
                out@.len() == i,
                forall|j: int|
                    0 <= j < i ==> (#[trigger] out@[j])@ == spec_st_at(
                        s@,
                        p + j * (ST_BYTES as int),
                    ),
            decreases c - i,
        {
            if s.len() - cur < ST_BYTES {
                assert(p + c * (ST_BYTES as int) > s@.len());
                return Err(LoadError::Truncated);
            }
            out.push(read_st_at(s, cur));
            i = i + 1;
            cur = cur + ST_BYTES;
        }
        proof {
            let g = spec_read_sts(s@, start as int, off, count);
            let gs = g->Ok_0;
            assert forall|j: int| 0 <= j < c implies sts_view(out@)[j] == gs[j] by {
                assert(sts_view(out@)[j] == out@[j]@);
            }
            assert(sts_view(out@) =~= gs);
        }
        Ok(out)
    }
}

impl Md3XyzNormal {
    /// Reads a surface's compressed-vertex section: seeks to `start + off`
    /// (an offset relative to the surface record) and decodes `count`
    /// records.
    pub fn read_from(s: &Vec<u8>, start: usize, off: i32, count: i32) -> (r: Result<
        Vec<Md3XyzNormal>,
        LoadError,
    >)
        requires
            start <= s.len(),
        ensures
            ({
                let g = spec_read_xyz_normals(s@, start as int, off, count);
                match r {
                    Ok(v) => g == Ok::<Seq<XyzNormalV>, LoadError>(xyz_normals_view(v@)),
                    Err(e) => g == Err::<Seq<XyzNormalV>, LoadError>(e),
                }
            }),
    {
        let p = match seek_from(s, start, off) {
            Ok(p) => p,
            Err(e) => return Err(e),
        };
        let c = count_usize(count);
        let mut out: Vec<Md3XyzNormal> = Vec::new();
        let mut cur: usize = p;
        let mut i: usize = 0;
        while i < c
            invariant
                i <= c,
                c == spec_count(count),
                p <= s.len(),
                cur == p + i * XYZ_NORMAL_BYTES,
                cur <= s.len(),
                spec_seek(s@.len() as int, start as int, off) == Ok::<int, LoadError>(p as int),
                out@.len() == i,
                forall|j: int|
                    0 <= j < i ==> (#[trigger] out@[j])@ == spec_xyz_normal_at(
                        s@,
                        p + j * (XYZ_NORMAL_BYTES as int),
                    ),
            decreases c - i,
        {
            if s.len() - cur < XYZ_NORMAL_BYTES {
                assert(p + c * (XYZ_NORMAL_BYTES as int) > s@.len());
                return Err(LoadError::Truncated);
            }
            out.push(read_xyz_normal_at(s, cur));
            i = i + 1;
            cur = cur + XYZ_NORMAL_BYTES;
        }
        proof {
            let g = spec_read_xyz_normals(s@, start as int, off, count);
            let gs = g->Ok_0;
            assert forall|j: int| 0 <= j < c implies xyz_normals_view(out@)[j] == gs[j] by {
                assert(xyz_normals_view(out@)[j] == out@[j]@);
            }
            assert(xyz_normals_view(out@) =~= gs);
        }
        Ok(out)
    }
}

fn read_surface_header_at(s: &Vec<u8>, start: usize) -> (r: Md3SurfaceHeader)
    requires
        start + SURFACE_HEADER_BYTES <= s.len(),
    ensures
        r@ == spec_surface_header_at(s@, start as int),
{
    let r = Md3SurfaceHeader {
        name: read_bytes(s, start + 4, 64),
        flags: le_i32_at(s, start + 68),
        frame_count: le_i32_at(s, start + 72),
        shader_count: le_i32_at(s, start + 76),
        vertex_count: le_i32_at(s, start + 80),
        triangle_count: le_i32_at(s, start + 84),
        triangles_offset: le_i32_at(s, start + 88),
        shaders_offset: le_i32_at(s, start + 92),
        st_offset: le_i32_at(s, start + 96),
        xyz_normals_offset: le_i32_at(s, start + 100),
        end_offset: le_i32_at(s, start + 104),
    };
    proof {
        assert(r@ =~= spec_surface_header_at(s@, start as int));
    }
    r
}

/// One full surface record at `start`: the sub-header, then the four data
/// sections, each located by its offset relative to `start`.
pub open spec fn spec_surface_at(s: Seq<u8>, start: int, mode: StCountMode) -> Result<
    SurfaceV,
    LoadError,
> {
    if start + (SURFACE_HEADER_BYTES as int) > s.len() {
        Err(LoadError::Truncated)
    } else {
        let h = spec_surface_header_at(s, start);
        match spec_read_triangles(s, start, h.triangles_offset, h.triangle_count) {
            Err(e) => Err(e),
            Ok(tris) => match spec_read_xyz_normals(s, start, h.xyz_normals_offset, h.vertex_count) {
                Err(e) => Err(e),
                Ok(xns) => match spec_read_shaders(s, start, h.shaders_offset, h.shader_count) {
                    Err(e) => Err(e),
                    Ok(shs) => {
                        let st_count = if mode is PerTriangle {
                            h.triangle_count
                        } else {
                            h.vertex_count
                        };
                        match spec_read_sts(s, start, h.st_offset, st_count) {
                            Err(e) => Err(e),
                            Ok(sts) => Ok(
                                SurfaceV {
                                    header: h,
                                    data: SurfaceDataV {
                                        triangles: tris,
                                        shaders: shs,
                                        st_data: sts,
                                        xyz_normals: xns,
                                    },
                                },
                            ),
                        }
                    },
                },
            },
        }
    }
}

fn read_surface_at(s: &Vec<u8>, start: usize, mode: StCountMode) -> (r: Result<
    Md3Surface,
    LoadError,
>)
    requires
        start <= s.len(),
    ensures
        match r {
            Ok(sf) => spec_surface_at(s@, start as int, mode) == Ok::<SurfaceV, LoadError>(sf@),
            Err(e) => spec_surface_at(s@, start as int, mode) == Err::<SurfaceV, LoadError>(e),
        },
{
    if s.len() - start < SURFACE_HEADER_BYTES {
        return Err(LoadError::Truncated);
    }
    let header = read_surface_header_at(s, start);
    let triangles = match Md3Triangle::read_from(
        s,
        start,
        header.triangles_offset,
        header.triangle_count,
    ) {
        Ok(v) => v,
        Err(e) => return Err(e),
    };
    let xyz_normals = match Md3XyzNormal::read_from(
        s,
        start,
        header.xyz_normals_offset,
        header.vertex_count,
    ) {
        Ok(v) => v,
        Err(e) => return Err(e),
    };
    let shaders = match Md3Shader::read_from(
        s,
        start,
        header.shaders_offset,
        header.shader_count,
    ) {
        Ok(v) => v,
        Err(e) => return Err(e),
    };
    let st_count = match mode {
        StCountMode::PerTriangle => header.triangle_count,
        StCountMode::PerVertex => header.vertex_count,
    };
    let st_data = match Md3St::read_from(s, start, header.st_offset, st_count) {
        Ok(v) => v,
        Err(e) => return Err(e),
    };
    let sf = Md3Surface {
        header,
        data: Md3SurfaceData { triangles, shaders, st_data, xyz_normals },
    };
    proof {
        assert(sf@ =~~= spec_surface_at(s@, start as int, mode)->Ok_0);
    }
    Ok(sf)
}

/// `n` consecutive surface records, the first at `start`, each further one
/// located by adding the previous record's `end_offset` to that record's
/// start.
pub open spec fn spec_surfaces_at(s: Seq<u8>, start: int, n: nat, mode: StCountMode) -> Result<
    Seq<SurfaceV>,
    LoadError,
>
    decreases n,
{
    if n == 0 {
        Ok(Seq::empty())
    } else {
        match spec_surface_at(s, start, mode) {
            Err(e) => Err(e),
            Ok(sv) => if n == 1 {
                Ok(seq![sv])
            } else {
                match spec_seek(s.len() as int, start, sv.header.end_offset) {
                    Err(e) => Err(e),
                    Ok(next) => match spec_surfaces_at(s, next, (n - 1) as nat, mode) {
                        Err(e) => Err(e),
                        Ok(rest) => Ok(seq![sv] + rest),
                    },
                }
            },
        }
    }
}

/// The surfaces block: seek to `base + off`, then `count` chained records.
pub open spec fn spec_read_surfaces(
    s: Seq<u8>,
    base: int,
    off: i32,
    count: i32,
    mode: StCountMode,
) -> Result<Seq<SurfaceV>, LoadError> {
    match spec_seek(s.len() as int, base, off) {
        Err(e) => Err(e),
        Ok(p) => spec_surfaces_at(s, p, spec_count(count), mode),
    }
}

impl Md3Surface {
    /// Reads the surfaces block: seeks to `base + off` and decodes `count`
    /// chained surface records.
    pub fn read_from(s: &Vec<u8>, base: usize, off: i32, count: i32, mode: StCountMode) -> (r:
        Result<Vec<Md3Surface>, LoadError>)
        requires
            base <= s.len(),
        ensures
            ({
                let g = spec_read_surfaces(s@, base as int, off, count, mode);
                match r {
                    Ok(v) => g == Ok::<Seq<SurfaceV>, LoadError>(surfaces_view(v@)),
                    Err(e) => g == Err::<Seq<SurfaceV>, LoadError>(e),
                }
            }),
    {
        let p = match seek_from(s, base, off) {
            Ok(p) => p,
            Err(e) => return Err(e),
        };
        let c = count_usize(count);
        let mut out: Vec<Md3Surface> = Vec::new();
        let mut cur: usize = p;
        let mut i: usize = 0;
        proof {
            let full = spec_surfaces_at(s@, p as int, c as nat, mode);
            if full is Ok {
                assert(surfaces_view(out@) + full->Ok_0 =~= full->Ok_0);
            }
        }
        while i < c
            invariant
                i <= c,
                c == spec_count(count),
                cur <= s.len(),
                spec_seek(s@.len() as int, base as int, off) == Ok::<int, LoadError>(p as int),
                out@.len() == i,
                ({
                    let full = spec_surfaces_at(s@, p as int, c as nat, mode);
                    match spec_surfaces_at(s@, cur as int, (c - i) as nat, mode) {
                        Ok(rest) => full == Ok::<Seq<SurfaceV>, LoadError>(
                            surfaces_view(out@) + rest,
                        ),
                        Err(e) => full == Err::<Seq<SurfaceV>, LoadError>(e),
                    }
                }),
            decreases c - i,
        {
            let ghost rem = (c - i) as nat;
            let ghost cur0 = cur as int;
            let ghost prev = out@;
            let sf = match read_surface_at(s, cur, mode) {
                Ok(sf) => sf,
                Err(e) => {
                    proof {
                        assert(spec_surfaces_at(s@, cur0, rem, mode) == Err::<
                            Seq<SurfaceV>,
                            LoadError,
                        >(e));
                    }
                    return Err(e);
                },
            };
            if i + 1 < c {
                match seek_from(s, cur, sf.header.end_offset) {
                    Ok(next) => {
                        out.push(sf);
                        cur = next;
                        proof {
                            assert(surfaces_view(out@) =~= surfaces_view(prev) + seq![sf@]);
                            let g_next = spec_surfaces_at(s@, cur as int, (rem - 1) as nat, mode);
                            if g_next is Ok {
                                let r2 = g_next->Ok_0;
                                assert(spec_surfaces_at(s@, cur0, rem, mode) == Ok::<
                                    Seq<SurfaceV>,
                                    LoadError,
                                >(seq![sf@] + r2));
                                assert(surfaces_view(prev) + (seq![sf@] + r2) =~= surfaces_view(
                                    out@,
                                ) + r2);
                            } else {
                                assert(spec_surfaces_at(s@, cur0, rem, mode) == Err::<
                                    Seq<SurfaceV>,
                                    LoadError,
                                >(g_next->Err_0));
                            }
                        }
                    },
                    Err(e) => {
                        proof {
                            assert(spec_surfaces_at(s@, cur0, rem, mode) == Err::<
                                Seq<SurfaceV>,
                                LoadError,
                            >(e));
                        }
                        return Err(e);
                    },
                }
            } else {
                out.push(sf);
                proof {
                    assert(spec_surfaces_at(s@, cur0, rem, mode) == Ok::<Seq<SurfaceV>, LoadError>(
                        seq![sf@],
                    ));
                    assert(surfaces_view(out@) =~= surfaces_view(prev) + seq![sf@]);
                    assert(spec_surfaces_at(s@, cur as int, 0nat, mode) == Ok::<
                        Seq<SurfaceV>,
                        LoadError,
                    >(Seq::<SurfaceV>::empty()));
                    assert(surfaces_view(out@) + Seq::<SurfaceV>::empty() =~= surfaces_view(prev)
                        + seq![sf@]);
                }
            }
            i = i + 1;
        }
        proof {
            assert(spec_surfaces_at(s@, cur as int, 0nat, mode) == Ok::<Seq<SurfaceV>, LoadError>(
                Seq::<SurfaceV>::empty(),
            ));
            assert(surfaces_view(out@) + Seq::<SurfaceV>::empty() =~= surfaces_view(out@));
        }
        Ok(out)
    }
}

/// The whole load pipeline over a byte sequence: signature scan, header
/// decode, frames section, surfaces block.  The placeholder top-level
/// buffers of the model come out empty.
pub open spec fn spec_load(s: Seq<u8>, mode: StCountMode) -> Result<ModelV, LoadError> {
    match spec_sig_end(s) {
        None => Err(LoadError::SignatureNotFound),
        Some(base) => if base + (HEADER_BYTES as int) > s.len() {
            Err(LoadError::Truncated)
        } else {
            let h = spec_header_at(s, base);
            match spec_read_frames(s, base, h.frames_offset, h.frame_count) {
                Err(e) => Err(e),
                Ok(frames) => match spec_read_surfaces(
                    s,
                    base,
                    h.surfaces_offset,
                    h.surface_count,
                    mode,
                ) {
                    Err(e) => Err(e),
                    Ok(surfaces) => Ok(
                        ModelV {
                            header: h,
                            frames: frames,
                            surfaces: surfaces,
                            st_buffer: Seq::empty(),
                            xyz_normals: Seq::empty(),
                            shaders: Seq::empty(),
                        },
                    ),
                },
            }
        },
    }
}

impl Md3Model {
    /// Loads a model from a complete byte buffer, reading each surface's
    /// texture-coordinate count according to `mode`.  On any failure the
    /// first error is returned and no partial model escapes.
    pub fn load_with(bytes: &Vec<u8>, mode: StCountMode) -> (r: Result<Md3Model, LoadError>)
        ensures
            match r {
                Ok(m) => spec_load(bytes@, mode) == Ok::<ModelV, LoadError>(m@),
                Err(e) => spec_load(bytes@, mode) == Err::<ModelV, LoadError>(e),
            },
    {
        let base = match find_signature(bytes) {
            Some(b) => b,
            None => return Err(LoadError::SignatureNotFound),
        };
        let header = match Md3Header::read_from(bytes, base) {
            Ok(h) => h,
            Err(e) => return Err(e),
        };
        let frames = match Md3Frame::read_from(
            bytes,
            base,
            header.frames_offset,
            header.frame_count,
        ) {
            Ok(v) => v,
            Err(e) => return Err(e),
        };
        let surfaces = match Md3Surface::read_from(
            bytes,
            base,
            header.surfaces_offset,
            header.surface_count,
            mode,
        ) {
            Ok(v) => v,
            Err(e) => return Err(e),
        };
        let m = Md3Model {
            header,
            frames,
            surfaces,
            st_buffer: Vec::new(),
            xyz_normals: Vec::new(),
            shaders: Vec::new(),
        };
        proof {
            assert(m@ =~~= spec_load(bytes@, mode)->Ok_0);
        }
        Ok(m)
    }

    /// Loads a model with the historical texture-coordinate count policy
    /// (`triangle_count` pairs per surface).
    pub fn load(bytes: &Vec<u8>) -> (r: Result<Md3Model, LoadError>)
        ensures
            match r {
                Ok(m) => spec_load(bytes@, StCountMode::PerTriangle) == Ok::<ModelV, LoadError>(
                    m@,
                ),
                Err(e) => spec_load(bytes@, StCountMode::PerTriangle) == Err::<ModelV, LoadError>(
                    e,
                ),
            },
    {
        Self::load_with(bytes, StCountMode::PerTriangle)
    }
}


/// The shape a decoded surface always has: its name buffer is 64 bytes, each
/// data section holds exactly the count its sub-header declares (texture
/// coordinates per the count mode), and every triangle has three indices.
pub open spec fn spec_surface_shape(sv: SurfaceV, mode: StCountMode) -> bool {
    &&& sv.header.name.len() == 64
    &&& sv.data.triangles.len() == spec_count(sv.header.triangle_count)
    &&& sv.data.xyz_normals.len() == spec_count(sv.header.vertex_count)
    &&& sv.data.shaders.len() == spec_count(sv.header.shader_count)
    &&& sv.data.st_data.len() == spec_count(
        if mode is PerTriangle {
            sv.header.triangle_count
        } else {
            sv.header.vertex_count
        },
    )
    &&& forall|t: int|
        0 <= t < sv.data.triangles.len() ==> (#[trigger] sv.data.triangles[t]).len() == 3
}

/// A surface that decodes successfully has its declared shape.
pub proof fn lemma_surface_at_shape(s: Seq<u8>, start: int, mode: StCountMode)
    requires
        0 <= start,
        spec_surface_at(s, start, mode) is Ok,
    ensures
        spec_surface_shape(spec_surface_at(s, start, mode)->Ok_0, mode),
{
    let sv = spec_surface_at(s, start, mode)->Ok_0;
    let h = spec_surface_header_at(s, start);
    assert(sv.header == h);
    let st_count = if mode is PerTriangle {
        h.triangle_count
    } else {
        h.vertex_count
    };
    assert(sv.data.triangles == spec_read_triangles(s, start, h.triangles_offset, h.triangle_count)->Ok_0);
    assert(sv.data.xyz_normals == spec_read_xyz_normals(s, start, h.xyz_normals_offset, h.vertex_count)->Ok_0);
    assert(sv.data.shaders == spec_read_shaders(s, start, h.shaders_offset, h.shader_count)->Ok_0);
    assert(sv.data.st_data == spec_read_sts(s, start, h.st_offset, st_count)->Ok_0);
    let tp = spec_seek(s.len() as int, start, h.triangles_offset)->Ok_0;
    assert(sv.data.triangles.len() == spec_count(h.triangle_count));
    assert(sv.data.xyz_normals.len() == spec_count(h.vertex_count));
    assert(sv.data.shaders.len() == spec_count(h.shader_count));
    assert(sv.data.st_data.len() == spec_count(st_count));
    assert forall|t: int|
        0 <= t < sv.data.triangles.len() implies (#[trigger] sv.data.triangles[t]).len() == 3 by {
        assert(sv.data.triangles[t] == spec_triangle_at(s, tp + t * (TRIANGLE_BYTES as int)));
    }
}

/// Every surface of a successfully decoded surface chain has its declared
/// shape, and the chain holds exactly `n` surfaces.
pub proof fn lemma_surfaces_at_shape(s: Seq<u8>, start: int, n: nat, mode: StCountMode)
    requires
        0 <= start,
        spec_surfaces_at(s, start, n, mode) is Ok,
    ensures
        spec_surfaces_at(s, start, n, mode)->Ok_0.len() == n,
        forall|i: int|
            0 <= i < n ==> spec_surface_shape(
                #[trigger] spec_surfaces_at(s, start, n, mode)->Ok_0[i],
                mode,
            ),
    decreases n,
{
    if n == 0 {
    } else {
        let sv = spec_surface_at(s, start, mode)->Ok_0;
        lemma_surface_at_shape(s, start, mode);
        if n > 1 {
            let next = spec_seek(s.len() as int, start, sv.header.end_offset)->Ok_0;
            assert(next >= start);
            lemma_surfaces_at_shape(s, next, (n - 1) as nat, mode);
        }
    }
}

/// A successful load populates everything the header declares: one frame
/// record per `frame_count`, one fully shaped surface per `surface_count`,
/// 16-byte frame names, and empty placeholder buffers.  No partial model
/// ever comes out of a load.
#[verifier::rlimit(50)]
pub proof fn lemma_load_shape(s: Seq<u8>, mode: StCountMode)
    requires
        spec_load(s, mode) is Ok,
    ensures
        ({
            let m = spec_load(s, mode)->Ok_0;
            &&& m.frames.len() == spec_count(m.header.frame_count)
            &&& m.surfaces.len() == spec_count(m.header.surface_count)
            &&& forall|i: int| 0 <= i < m.frames.len() ==> (#[trigger] m.frames[i]).name.len() == 16
            &&& forall|i: int|
                0 <= i < m.surfaces.len() ==> spec_surface_shape(#[trigger] m.surfaces[i], mode)
            &&& m.st_buffer.len() == 0
            &&& m.xyz_normals.len() == 0
            &&& m.shaders.len() == 0
        }),
{
    let m = spec_load(s, mode)->Ok_0;
    let base = spec_sig_end(s)->0;
    let i0 = crate::bytes::spec_find_sig_from(s, 0)->0;
    crate::bytes::lemma_find_sig_some(s, 0, i0);
    assert(base == i0 + 4);
    assert(base >= 4);
    let h = spec_header_at(s, base);
    assert(m.header == h);
    assert(m.frames == spec_read_frames(s, base, h.frames_offset, h.frame_count)->Ok_0);
    assert(m.surfaces == spec_read_surfaces(s, base, h.surfaces_offset, h.surface_count, mode)->Ok_0);
    let fp = spec_seek(s.len() as int, base, h.frames_offset)->Ok_0;
    assert(m.frames.len() == spec_count(h.frame_count));
    assert forall|i: int| 0 <= i < m.frames.len() implies (#[trigger] m.frames[i]).name.len()
        == 16 by {
        assert(m.frames[i] == spec_frame_at(s, fp + i * (FRAME_BYTES as int)));
    }
    let sp = spec_seek(s.len() as int, base, h.surfaces_offset)->Ok_0;
    assert(m.surfaces == spec_surfaces_at(s, sp, spec_count(h.surface_count), mode)->Ok_0);
    lemma_surfaces_at_shape(s, sp, spec_count(h.surface_count), mode);
}

} // verus!
