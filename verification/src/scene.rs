use vstd::prelude::*;
use crate::defs::MAX_LAYERS;
use crate::prim::Prim;

verus! {

/// What one frame records for the GPU: the primitives of each layer, the
/// control vertices of path fills, the transforms and the paints.
pub struct Scene<Xform, Paint, Point, Geom> {
    pub prims: Vec<Vec<Prim<Geom>>>,
    pub cvs: Vec<Point>,
    pub xforms: Vec<Xform>,
    pub paints: Vec<Paint>,
}

/// The contents of a scene.
pub struct SceneView<Xform, Paint, Point, Geom> {
    pub layers: Seq<Seq<Prim<Geom>>>,
    pub cvs: Seq<Point>,
    pub xforms: Seq<Xform>,
    pub paints: Seq<Paint>,
}

impl<Xform, Paint, Point, Geom> SceneView<Xform, Paint, Point, Geom> {
    /// A scene with every layer and list empty.
    pub open spec fn empty() -> Self {
        SceneView {
            layers: Seq::new(MAX_LAYERS as nat, |l: int| Seq::<Prim<Geom>>::empty()),
            cvs: Seq::empty(),
            xforms: Seq::empty(),
            paints: Seq::empty(),
        }
    }

    /// The scene has one list of primitives per layer.
    pub open spec fn wf(self) -> bool {
        self.layers.len() == MAX_LAYERS
    }
}

impl<Xform, Paint, Point, Geom> View for Scene<Xform, Paint, Point, Geom> {
    type V = SceneView<Xform, Paint, Point, Geom>;

    open spec fn view(&self) -> SceneView<Xform, Paint, Point, Geom> {
        SceneView {
            layers: self.prims@.map_values(|v: Vec<Prim<Geom>>| v@),
            cvs: self.cvs@,
            xforms: self.xforms@,
            paints: self.paints@,
        }
    }
}

impl<Xform, Paint, Point, Geom> Scene<Xform, Paint, Point, Geom> {
    /// An empty scene.
    pub fn new() -> (s: Self)
        ensures
            s@ == SceneView::<Xform, Paint, Point, Geom>::empty(),
    {
        let mut prims: Vec<Vec<Prim<Geom>>> = Vec::new();
        for l in 0..MAX_LAYERS
            invariant
                prims@.len() == l,
                forall|k: int| 0 <= k < l ==> (#[trigger] prims@[k])@ == Seq::<Prim<Geom>>::empty(),
        {
            prims.push(Vec::new());
        }
        let s = Scene { prims, cvs: Vec::new(), xforms: Vec::new(), paints: Vec::new() };
        assert(s@.layers =~= SceneView::<Xform, Paint, Point, Geom>::empty().layers);
        s
    }

    /// Empties every layer and list.
    pub fn clear(&mut self)
        requires
            old(self)@.wf(),
        ensures
            final(self)@ == SceneView::<Xform, Paint, Point, Geom>::empty(),
    {
        let mut l: usize = 0;
        while l < self.prims.len()
            invariant
                l <= self.prims@.len(),
                self.prims@.len() == MAX_LAYERS,
                forall|k: int| 0 <= k < l ==> (#[trigger] self.prims@[k])@ == Seq::<Prim<Geom>>::empty(),
            decreases self.prims@.len() - l,
        {
            self.prims[l].clear();
            l = l + 1;
        }
        self.cvs.clear();
        self.xforms.clear();
        self.paints.clear();
        assert(self@.layers =~= SceneView::<Xform, Paint, Point, Geom>::empty().layers);
    }
}

} // verus!
