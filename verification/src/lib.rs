//! Verified core of a composite cubic-Bezier track: mapping a global
//! parameter to a segment of adjacent control points, and generating the
//! index buffers that tessellate the sampled track into meshes.
//!
//! The floating-point evaluation of the curve itself (positions,
//! derivatives, orientation) lives outside the verified core; this crate
//! holds the integer logic whose correctness the mesh topology and the
//! sampling domain depend on.

pub mod controls;
pub mod tess;
pub mod track;
