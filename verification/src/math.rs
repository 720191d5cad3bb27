//! Exact plane geometry on grid points, and faces and meshes as the
//! pipeline carries them.

pub mod geometry;
pub mod mesh;
pub mod triangle;
