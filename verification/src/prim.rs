use vstd::prelude::*;

verus! {

/// The kind of shape a primitive draws.
#[derive(Clone, Copy, Debug, PartialEq, Eq, Structural)]
pub enum PrimType {
    Circle,
    Arc,
    Rect,
    RectStroke,
    Bezier,
    Segment,
    Glyph,
    PathFill,
}

/// One recorded primitive: its kind, the indices of its paint and transform
/// in the scene, the range of path control vertices it reads (path fills
/// only), and its geometry, which this crate carries through unread.
#[derive(Clone, Copy, Debug)]
pub struct Prim<Geom> {
    pub prim_type: PrimType,
    pub paint: u32,
    pub xform: u32,
    pub start: u32,
    pub count: u32,
    pub geometry: Geom,
}

impl<Geom> Prim<Geom> {
    /// A shape primitive: no control-vertex range.
    pub open spec fn shape(prim_type: PrimType, paint: u32, xform: u32, geometry: Geom) -> Prim<Geom> {
        Prim { prim_type, paint, xform, start: 0, count: 0, geometry }
    }

    pub fn new_shape(prim_type: PrimType, paint: u32, xform: u32, geometry: Geom) -> (p: Prim<Geom>)
        ensures
            p == Prim::shape(prim_type, paint, xform, geometry),
            p.prim_type == prim_type,
            p.paint == paint,
            p.xform == xform,
            p.start == 0,
            p.count == 0,
            p.geometry == geometry,
    {
        Prim { prim_type, paint, xform, start: 0, count: 0, geometry }
    }
}

} // verus!
