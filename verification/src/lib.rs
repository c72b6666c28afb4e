//! A verified core for a textured-mesh renderer: a content-addressed asset
//! cache, an archive-based model loader (OBJ-like meshes, MTL-like material
//! libraries), and a shared GPU pipeline abstraction that heterogeneous
//! drawable entities feed through capability traits.
//!
//! Network, disk and GPU work is performed by the embedding program; the
//! decisions (cache keying and hit/miss logic, parsing, material merging,
//! texture de-duplication, draw-record filling) live here, verified.

pub mod archive;
pub mod cache;
pub mod entity;
pub mod loader;
pub mod material;
pub mod mesh;
pub mod pipeline;
pub mod text;
