//! Compact binary container ("OPTM") for quantized 3D mesh geometry.
//!
//! The crate covers the container header and object layout with its
//! exact little-endian byte form, the quantization offset/scale
//! derivation over exact coordinates, and the orchestration of a
//! compression codec for vertex and index buffers: buffer sizing,
//! allocation, truncation, and error signaling.

pub mod bounds;
pub mod codec;
pub mod error;
pub mod layout;
pub mod raw;
