//! Fixed-point entity motion and voxel-grid collision for a block world.

pub mod contact;
pub mod fraction;
pub mod laws;
pub mod motion;
pub mod passage;
pub mod ray;
pub mod response;
pub mod side;
pub mod space;
pub mod spawning;
pub mod system;
pub mod world;
