//! Decoder for the MD3 triangle-mesh binary model format.
//!
//! The crate locates the format signature in a byte buffer, decodes the
//! fixed-layout header, the per-frame bounding records and the geometry
//! surfaces, and assembles the result into a render-ready vertex/index
//! representation.  Every multi-byte integer in the format is little-endian;
//! 32-bit floating-point fields are carried as their IEEE-754 bit patterns
//! so that the decoding logic stays in plain integer arithmetic.

pub mod bytes;
pub mod mesh;
pub mod model;
pub mod parse;

pub use mesh::{RenderMesh, RenderVertex, StaticMesh, MAX_RENDER_INDEX};
pub use model::{
    LoadError, Md3Frame, Md3Header, Md3Model, Md3Shader, Md3St, Md3Surface, Md3SurfaceData,
    Md3SurfaceHeader, Md3Tag, Md3Triangle, Md3XyzNormal, StCountMode, Vec3Bits,
};
