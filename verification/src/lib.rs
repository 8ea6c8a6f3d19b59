//! A voxel world: a dense block grid cut into cubic chunks, with greedy
//! surface meshing, block picking by ray casting, visibility culling and
//! per-chunk persistence. Every function is verified against the contract
//! it states.

pub mod aabb;
pub mod collections;
pub mod geometry;
pub mod world;
