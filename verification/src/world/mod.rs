//! The block grid and everything that works on it.

pub mod aim;
pub mod block;
pub mod chunk;
pub mod chunk_mesh;
pub mod coords;
pub mod face_flags;
pub mod meshing;
pub mod meshing_laws;
pub mod quad;
pub mod raycast;
pub mod raycast_laws;
pub mod storage;
pub mod terrain;
pub mod world;
