//! Voxel terrain: a block grid filled from per-column surface levels, and a
//! face-culled triangle mesh built from it.

pub mod block;
pub mod chunk;
pub mod mesh;
