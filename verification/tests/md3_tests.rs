//! End-to-end tests over hand-built byte fixtures: signature scanning,
//! header/frame/tag/surface decoding, the render-mesh policy, and the error
//! taxonomy.

use byteorder::{LittleEndian, WriteBytesExt};

use md3_rs::bytes::{find_signature, le_i16_at, le_i32_at, le_u16_at, le_u32_at, trim_nul};
use md3_rs::{LoadError, Md3Model, Md3Tag, RenderMesh, StCountMode};

fn wi32(b: &mut Vec<u8>, v: i32) {
    b.write_i32::<LittleEndian>(v).unwrap();
}

fn wi16(b: &mut Vec<u8>, v: i16) {
    b.write_i16::<LittleEndian>(v).unwrap();
}

fn wf32(b: &mut Vec<u8>, v: f32) {
    b.write_f32::<LittleEndian>(v).unwrap();
}

fn wname(b: &mut Vec<u8>, s: &str, n: usize) {
    let bytes = s.as_bytes();
    assert!(bytes.len() <= n);
    b.extend_from_slice(bytes);
    for _ in bytes.len()..n {
        b.push(0);
    }
}

/// Writes the signature plus the 104-byte header.
fn write_header(
    b: &mut Vec<u8>,
    name: &str,
    frame_count: i32,
    tags_count: i32,
    surface_count: i32,
    frames_off: i32,
    tags_off: i32,
    surfaces_off: i32,
) {
    b.extend_from_slice(b"IDP3");
    wi32(b, 15); // version
    wname(b, name, 64);
    wi32(b, 0); // flags
    wi32(b, frame_count);
    wi32(b, tags_count);
    wi32(b, surface_count);
    wi32(b, 0); // skin_count
    wi32(b, frames_off);
    wi32(b, tags_off);
    wi32(b, surfaces_off);
    wi32(b, 0); // eof_offset
}

/// Writes one 56-byte frame record with the ten given floats and a name.
fn write_frame(b: &mut Vec<u8>, floats: [f32; 10], name: &str) {
    for f in floats {
        wf32(b, f);
    }
    wname(b, name, 16);
}

/// Builds one complete surface record.  Sections follow the sub-header in
/// the order triangles, compressed vertices, shaders, texture coordinates;
/// the stored offsets are relative to the record start and `end_offset` is
/// the record's total size.
fn build_surface(
    name: &str,
    tris: &[[i32; 3]],
    verts: &[([i16; 3], i16)],
    sts: &[(f32, f32)],
    shaders: &[(&str, i32)],
) -> Vec<u8> {
    let tri_off = 108;
    let xyzn_off = tri_off + 12 * tris.len();
    let sh_off = xyzn_off + 8 * verts.len();
    let st_off = sh_off + 68 * shaders.len();
    let end = st_off + 8 * sts.len();
    let mut b = Vec::new();
    b.extend_from_slice(b"IDP3");
    wname(&mut b, name, 64);
    wi32(&mut b, 0); // flags
    wi32(&mut b, 1); // per-surface frame_count
    wi32(&mut b, shaders.len() as i32);
    wi32(&mut b, verts.len() as i32);
    wi32(&mut b, tris.len() as i32);
    wi32(&mut b, tri_off as i32);
    wi32(&mut b, sh_off as i32);
    wi32(&mut b, st_off as i32);
    wi32(&mut b, xyzn_off as i32);
    wi32(&mut b, end as i32);
    for t in tris {
        for &i in t {
            wi32(&mut b, i);
        }
    }
    for (xyz, n) in verts {
        for &c in xyz {
            wi16(&mut b, c);
        }
        wi16(&mut b, *n);
    }
    for (sn, si) in shaders {
        wname(&mut b, sn, 64);
        wi32(&mut b, *si);
    }
    for (u, v) in sts {
        wf32(&mut b, *u);
        wf32(&mut b, *v);
    }
    b
}

/// A model whose frames block follows the header and whose surfaces follow
/// the frames.
fn build_model(frame_count: i32, surfaces: &[Vec<u8>]) -> Vec<u8> {
    let frames_off = 104;
    let surfaces_off = frames_off + 56 * frame_count;
    let mut b = Vec::new();
    write_header(
        &mut b,
        "fixture",
        frame_count,
        0,
        surfaces.len() as i32,
        frames_off,
        0,
        surfaces_off,
    );
    for k in 0..frame_count {
        let base = k as f32;
        write_frame(
            &mut b,
            [
                -base, -base, -base, base, base, base, 0.0, 0.0, 0.0, base + 0.5,
            ],
            "frame",
        );
    }
    for s in surfaces {
        b.extend_from_slice(s);
    }
    b
}

fn simple_surface() -> Vec<u8> {
    build_surface(
        "surf0",
        &[[0, 1, 2]],
        &[([64, -64, 128], 0), ([32767, -32768, 0], 257), ([1, 2, 3], -1)],
        &[(0.0, 0.0), (0.5, 1.25), (1.0, 1.0)],
        &[("textures/skin", 7)],
    )
}

#[test]
fn find_signature_after_junk() {
    let v = b"xxIDP3rest".to_vec();
    assert_eq!(find_signature(&v), Some(6));
}

#[test]
fn find_signature_restarts_after_partial_match() {
    // "IDP" almost matches, then the real signature follows: a scanner that
    // keeps a stale partial-match counter misses it.
    let v = b"IDPIDP3x".to_vec();
    assert_eq!(find_signature(&v), Some(7));
    let v2 = b"IIDP3".to_vec();
    assert_eq!(find_signature(&v2), Some(5));
}

#[test]
fn find_signature_absent() {
    assert_eq!(find_signature(&b"IDP".to_vec()), None);
    assert_eq!(find_signature(&b"IDPXIDPXIDPX".to_vec()), None);
    assert_eq!(find_signature(&Vec::new()), None);
}

#[test]
fn load_reports_missing_signature() {
    let v = b"no signature anywhere".to_vec();
    assert_eq!(Md3Model::load(&v), Err(LoadError::SignatureNotFound));
}

#[test]
fn header_fields_decode() {
    let v = build_model(0, &[]);
    let m = Md3Model::load(&v).unwrap();
    assert_eq!(m.header.version, 15);
    assert_eq!(m.header.name, b"fixture".to_vec());
    assert_eq!(m.header.flags, 0);
    assert_eq!(m.header.frame_count, 0);
    assert_eq!(m.header.tags_count, 0);
    assert_eq!(m.header.surface_count, 0);
    assert_eq!(m.header.skin_count, 0);
    assert_eq!(m.header.frames_offset, 104);
    assert_eq!(m.header.surfaces_offset, 104);
    assert!(m.frames.is_empty());
    assert!(m.surfaces.is_empty());
    assert!(m.st_buffer.is_empty());
    assert!(m.xyz_normals.is_empty());
    assert!(m.shaders.is_empty());
}

#[test]
fn header_name_trims_at_first_nul() {
    // 64-byte buffer holding "abc" then 61 NUL bytes decodes to "abc".
    let mut v = Vec::new();
    write_header(&mut v, "abc", 0, 0, 0, 104, 0, 104);
    let m = Md3Model::load(&v).unwrap();
    assert_eq!(m.header.name, b"abc".to_vec());
}

#[test]
fn header_name_without_nul_keeps_all_bytes() {
    let long = "a".repeat(64);
    let mut v = Vec::new();
    write_header(&mut v, &long, 0, 0, 0, 104, 0, 104);
    let m = Md3Model::load(&v).unwrap();
    assert_eq!(m.header.name.len(), 64);
    assert_eq!(m.header.name, long.as_bytes().to_vec());
}

#[test]
fn trim_nul_edge_cases() {
    assert_eq!(trim_nul(Vec::new()), Vec::<u8>::new());
    assert_eq!(trim_nul(vec![0, 65, 66]), Vec::<u8>::new());
    assert_eq!(trim_nul(vec![65, 66, 67]), vec![65, 66, 67]);
}

#[test]
fn little_endian_primitives() {
    let mut v = Vec::new();
    wi32(&mut v, 0x12345678);
    wi32(&mut v, -2);
    wi16(&mut v, -32768);
    assert_eq!(le_u32_at(&v, 0), 0x12345678);
    assert_eq!(le_i32_at(&v, 0), 0x12345678);
    assert_eq!(le_i32_at(&v, 4), -2);
    assert_eq!(le_u32_at(&v, 4), 0xFFFFFFFE);
    assert_eq!(le_i16_at(&v, 8), -32768);
    assert_eq!(le_u16_at(&v, 8), 0x8000);
}

#[test]
fn frame_records_decode() {
    let v = build_model(2, &[]);
    let m = Md3Model::load(&v).unwrap();
    assert_eq!(m.frames.len(), 2);
    let f1 = &m.frames[1];
    assert_eq!(f1.bounds_min.x, (-1.0f32).to_bits());
    assert_eq!(f1.bounds_max.y, 1.0f32.to_bits());
    assert_eq!(f1.local_origin.z, 0.0f32.to_bits());
    assert_eq!(f1.radius_bits, 1.5f32.to_bits());
    // Frame names keep all 16 raw bytes, padding included.
    assert_eq!(f1.name.len(), 16);
    assert_eq!(&f1.name[..5], b"frame");
    assert_eq!(f1.name[5], 0);
}

#[test]
fn tag_records_decode() {
    let mut v = Vec::new();
    wname(&mut v, "tag_head", 64);
    for k in 0..12 {
        wf32(&mut v, k as f32 * 0.25);
    }
    let tags = Md3Tag::read_from(&v, 0, 1).unwrap();
    assert_eq!(tags.len(), 1);
    assert_eq!(&tags[0].name[..8], b"tag_head");
    assert_eq!(tags[0].name.len(), 64);
    assert_eq!(tags[0].origin.x, 0.0f32.to_bits());
    assert_eq!(tags[0].origin.z, 0.5f32.to_bits());
    assert_eq!(tags[0].axis[0].x, 0.75f32.to_bits());
    assert_eq!(tags[0].axis[2].z, 2.75f32.to_bits());
}

#[test]
fn tag_read_fails_when_truncated() {
    let mut v = Vec::new();
    wname(&mut v, "tag_head", 64);
    assert_eq!(Md3Tag::read_from(&v, 0, 1), Err(LoadError::Truncated));
    // A non-positive count reads nothing and cannot fail.
    assert_eq!(Md3Tag::read_from(&v, 0, 0), Ok(Vec::new()));
    assert_eq!(Md3Tag::read_from(&v, 0, -3), Ok(Vec::new()));
}

#[test]
fn surface_sections_decode() {
    let v = build_model(1, &[simple_surface()]);
    let m = Md3Model::load_with(&v, StCountMode::PerVertex).unwrap();
    assert_eq!(m.surfaces.len(), 1);
    let s = &m.surfaces[0];
    assert_eq!(&s.header.name[..5], b"surf0");
    assert_eq!(s.header.name.len(), 64);
    assert_eq!(s.header.vertex_count, 3);
    assert_eq!(s.header.triangle_count, 1);
    assert_eq!(s.header.shader_count, 1);
    assert_eq!(s.data.triangles.len(), 1);
    assert_eq!(s.data.triangles[0].indices, [0, 1, 2]);
    assert_eq!(s.data.xyz_normals.len(), 3);
    assert_eq!(s.data.xyz_normals[0].xyz, [64, -64, 128]);
    assert_eq!(s.data.xyz_normals[1].xyz, [32767, -32768, 0]);
    assert_eq!(s.data.xyz_normals[1].normal, 257);
    assert_eq!(s.data.xyz_normals[2].normal, -1);
    assert_eq!(s.data.st_data.len(), 3);
    assert_eq!(s.data.st_data[1].st_bits, [0.5f32.to_bits(), 1.25f32.to_bits()]);
    assert_eq!(s.data.shaders.len(), 1);
    assert_eq!(&s.data.shaders[0].name[..13], b"textures/skin");
    assert_eq!(s.data.shaders[0].shader_index, 7);
}

#[test]
fn st_count_follows_the_chosen_mode() {
    // 3 vertices but only 1 triangle: the historical reading takes the
    // triangle count, the per-vertex reading takes the vertex count.
    let v = build_model(1, &[simple_surface()]);
    let per_tri = Md3Model::load(&v).unwrap();
    assert_eq!(per_tri.surfaces[0].data.st_data.len(), 1);
    let per_vert = Md3Model::load_with(&v, StCountMode::PerVertex).unwrap();
    assert_eq!(per_vert.surfaces[0].data.st_data.len(), 3);
}

#[test]
fn two_surfaces_chain_by_end_offset() {
    let s0 = build_surface(
        "first",
        &[[0, 1, 2]],
        &[([1, 1, 1], 0), ([2, 2, 2], 0), ([3, 3, 3], 0)],
        &[(0.0, 0.0), (0.0, 0.0), (0.0, 0.0)],
        &[],
    );
    let s1 = build_surface(
        "second",
        &[[0, 1, 2], [1, 2, 3]],
        &[([9, 9, 9], 1), ([8, 8, 8], 2), ([7, 7, 7], 3), ([6, 6, 6], 4)],
        &[(0.0, 0.0), (0.0, 0.0), (0.0, 0.0), (0.0, 0.0)],
        &[],
    );
    let v = build_model(2, &[s0, s1]);
    let m = Md3Model::load_with(&v, StCountMode::PerVertex).unwrap();
    assert_eq!(m.surfaces.len(), 2);
    assert_eq!(&m.surfaces[0].header.name[..5], b"first");
    assert_eq!(&m.surfaces[1].header.name[..6], b"second");
    assert_eq!(m.surfaces[0].data.xyz_normals.len(), 3);
    assert_eq!(m.surfaces[1].data.xyz_normals.len(), 4);
    assert_eq!(m.surfaces[1].data.triangles.len(), 2);
}

#[test]
fn render_mesh_static_from_single_frame() {
    // One animation frame, one surface with 3 vertices and 1 triangle:
    // a static mesh with exactly 3 vertices and 3 indices.
    let v = build_model(1, &[simple_surface()]);
    let m = Md3Model::load_with(&v, StCountMode::PerVertex).unwrap();
    match m.to_render_mesh() {
        RenderMesh::Static(sm) => {
            assert_eq!(sm.vertices.len(), 3);
            assert_eq!(sm.indices, vec![0u16, 1, 2]);
            assert_eq!(sm.vertices[0].xyz, [64, -64, 128]);
            assert_eq!(sm.vertices[1].normal, 257);
            // Texture-coordinate bit patterns pass through untouched.
            assert_eq!(sm.vertices[1].st_bits[1], 1.25f32.to_bits());
        }
        other => panic!("expected a static mesh, got {:?}", other),
    }
}

#[test]
fn render_mesh_animated_from_two_frames() {
    let s0 = build_surface(
        "first",
        &[[0, 1, 2]],
        &[([1, 0, 0], 0), ([0, 1, 0], 0), ([0, 0, 1], 0)],
        &[(0.0, 0.0), (0.0, 0.0), (0.0, 0.0)],
        &[],
    );
    let s1 = build_surface(
        "second",
        &[[3, 2, 1]],
        &[([9, 9, 9], 1), ([8, 8, 8], 2), ([7, 7, 7], 3), ([6, 6, 6], 4)],
        &[(0.0, 0.0), (0.0, 0.0), (0.0, 0.0), (0.0, 0.0)],
        &[],
    );
    let v = build_model(2, &[s0, s1]);
    let m = Md3Model::load_with(&v, StCountMode::PerVertex).unwrap();
    match m.to_render_mesh() {
        RenderMesh::Animated(frames) => {
            assert_eq!(frames.len(), 2);
            assert_eq!(frames[0].vertices.len(), 3);
            assert_eq!(frames[1].vertices.len(), 4);
            assert_eq!(frames[1].indices, vec![3u16, 2, 1]);
        }
        other => panic!("expected an animated mesh, got {:?}", other),
    }
}

#[test]
fn render_mesh_corrupted_on_zero_frames() {
    let v = build_model(0, &[]);
    let m = Md3Model::load(&v).unwrap();
    match m.to_render_mesh() {
        RenderMesh::Corrupted(msg) => {
            assert_eq!(msg, "the model declares no animation frames");
            assert_eq!(msg, LoadError::EmptyAnimation.message());
        }
        other => panic!("expected a corrupted mesh, got {:?}", other),
    }
}

#[test]
fn render_mesh_corrupted_without_surfaces_on_static_path() {
    let v = build_model(1, &[]);
    let m = Md3Model::load(&v).unwrap();
    match m.to_render_mesh() {
        RenderMesh::Corrupted(msg) => {
            assert_eq!(msg, "cannot build a render mesh: the model has no surfaces");
        }
        other => panic!("expected a corrupted mesh, got {:?}", other),
    }
}

#[test]
fn render_mesh_static_uses_first_surface_only() {
    let s0 = build_surface(
        "first",
        &[[0, 1, 2]],
        &[([1, 1, 1], 0), ([2, 2, 2], 0), ([3, 3, 3], 0)],
        &[(0.0, 0.0), (0.0, 0.0), (0.0, 0.0)],
        &[],
    );
    let s1 = build_surface(
        "second",
        &[[0, 0, 0]],
        &[([9, 9, 9], 1)],
        &[(0.0, 0.0)],
        &[],
    );
    let v = build_model(1, &[s0, s1]);
    let m = Md3Model::load_with(&v, StCountMode::PerVertex).unwrap();
    assert_eq!(m.surfaces.len(), 2);
    match m.to_render_mesh() {
        RenderMesh::Static(sm) => {
            assert_eq!(sm.vertices.len(), 3);
            assert_eq!(sm.vertices[0].xyz, [1, 1, 1]);
        }
        other => panic!("expected a static mesh, got {:?}", other),
    }
}

#[test]
fn index_overflow_is_an_explicit_failure() {
    // One triangle index is above 65535, another fixture holds a negative
    // index: both must surface as IndexOverflow, never a silent truncation.
    let s_big = build_surface(
        "big",
        &[[0, 1, 70000]],
        &[([0, 0, 0], 0), ([1, 1, 1], 0), ([2, 2, 2], 0)],
        &[(0.0, 0.0), (0.0, 0.0), (0.0, 0.0)],
        &[],
    );
    let v = build_model(1, &[s_big]);
    let m = Md3Model::load_with(&v, StCountMode::PerVertex).unwrap();
    assert_eq!(
        m.surfaces[0].to_static_mesh(),
        Err(LoadError::IndexOverflow)
    );
    match m.to_render_mesh() {
        RenderMesh::Corrupted(msg) => {
            assert_eq!(msg, "a triangle index does not fit the 16-bit render index width");
            assert_eq!(msg, LoadError::IndexOverflow.message());
        }
        other => panic!("expected a corrupted mesh, got {:?}", other),
    }

    let s_neg = build_surface(
        "neg",
        &[[-1, 0, 1]],
        &[([0, 0, 0], 0), ([1, 1, 1], 0)],
        &[(0.0, 0.0), (0.0, 0.0)],
        &[],
    );
    let v2 = build_model(2, &[s_neg]);
    let m2 = Md3Model::load_with(&v2, StCountMode::PerVertex).unwrap();
    match m2.to_render_mesh() {
        RenderMesh::Corrupted(msg) => {
            assert_eq!(msg, "a triangle index does not fit the 16-bit render index width");
            assert_eq!(msg, LoadError::IndexOverflow.message());
        }
        other => panic!("expected a corrupted mesh, got {:?}", other),
    }
}

#[test]
fn triangle_index_validation() {
    // Index 5 fits 16 bits, so the mesh converts, but it does not reference
    // a valid vertex: the validator must flag it.
    let s_bad = build_surface(
        "bad",
        &[[0, 1, 5]],
        &[([0, 0, 0], 0), ([1, 1, 1], 0), ([2, 2, 2], 0)],
        &[(0.0, 0.0), (0.0, 0.0), (0.0, 0.0)],
        &[],
    );
    let v = build_model(1, &[s_bad]);
    let m = Md3Model::load_with(&v, StCountMode::PerVertex).unwrap();
    assert!(!m.surfaces[0].triangle_indices_in_range());
    assert!(!m.validate_triangle_indices());
    assert!(matches!(m.to_render_mesh(), RenderMesh::Static(_)));

    let v_ok = build_model(1, &[simple_surface()]);
    let m_ok = Md3Model::load_with(&v_ok, StCountMode::PerVertex).unwrap();
    assert!(m_ok.surfaces[0].triangle_indices_in_range());
    assert!(m_ok.validate_triangle_indices());
}

#[test]
fn truncated_header_is_rejected() {
    let mut v = b"IDP3".to_vec();
    wi32(&mut v, 15);
    assert_eq!(Md3Model::load(&v), Err(LoadError::Truncated));
}

#[test]
fn truncated_surface_block_is_rejected() {
    // The header declares one surface but the stream ends before the
    // surface record: the load fails as Truncated, no partial model.
    let mut v = Vec::new();
    write_header(&mut v, "fixture", 1, 0, 1, 104, 0, 160);
    write_frame(&mut v, [0.0; 10], "frame");
    assert_eq!(Md3Model::load(&v), Err(LoadError::Truncated));
}

#[test]
fn truncated_frame_block_is_rejected() {
    let mut v = Vec::new();
    write_header(&mut v, "fixture", 2, 0, 0, 104, 0, 104);
    write_frame(&mut v, [0.0; 10], "only_one");
    assert_eq!(Md3Model::load(&v), Err(LoadError::Truncated));
}

#[test]
fn negative_offset_is_out_of_range() {
    let mut v = Vec::new();
    write_header(&mut v, "fixture", 0, 0, 0, -8, 0, 104);
    assert_eq!(Md3Model::load(&v), Err(LoadError::SeekOutOfRange));
}

#[test]
fn offset_past_end_is_out_of_range() {
    let mut v = Vec::new();
    write_header(&mut v, "fixture", 0, 0, 0, 104, 0, 100000);
    assert_eq!(Md3Model::load(&v), Err(LoadError::SeekOutOfRange));
}

#[test]
fn load_and_conversion_are_deterministic() {
    let v = build_model(1, &[simple_surface()]);
    let m1 = Md3Model::load_with(&v, StCountMode::PerVertex).unwrap();
    let m2 = Md3Model::load_with(&v, StCountMode::PerVertex).unwrap();
    assert_eq!(m1, m2);
    assert_eq!(m1.to_render_mesh(), m2.to_render_mesh());
    let w = v.clone();
    let m3 = Md3Model::load_with(&w, StCountMode::PerVertex).unwrap();
    assert_eq!(m1, m3);
}
