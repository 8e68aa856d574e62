//! Bookkeeping core of a GPU vector renderer: the per-frame record of
//! primitives, transforms, paints and path control vertices, kept in three
//! rotating scenes, with the transform stack and the path pen.
//!
//! Geometry (points, transforms, colours, bounds) is carried through as
//! opaque generic values: every decision of the renderer that does not
//! depend on their contents is stated and proved here.

pub mod defs;
pub mod prim;
pub mod path;
pub mod scene;
pub mod model;
pub mod renderer;
pub mod frame;
pub mod laws;
pub mod vertices;
