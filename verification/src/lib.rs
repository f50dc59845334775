//! Closed 2-D outlines on an integer grid, built from straight segments and
//! tessellated arcs, and what is derived from them: an ear-clipping
//! triangulation, line and triangle meshes, and collider descriptions.
//! Beside that, the decoding of raw multi-mouse events.

pub mod geometry;
pub mod path;
pub mod triangulate;
pub mod area;
pub mod convex;
pub mod export;
pub mod mischief;
