use vstd::prelude::*;
use crate::defs::{MAX_LAYERS, MAX_PRIMS, SCENE_COUNT};
use crate::path::{chain_cvs, chain_len, PathBand, PathSegment};
use crate::prim::{Prim, PrimType};
use crate::scene::SceneView;

verus! {

/// The state of the renderer as the contracts see it.
pub struct VgerView<Xform, Paint, Point, Geom> {
    pub scenes: Seq<SceneView<Xform, Paint, Point, Geom>>,
    pub cur_scene: nat,
    pub cur_layer: nat,
    pub tx_stack: Seq<Xform>,
    pub paint_count: nat,
    pub xform_count: nat,
    pub segments: Seq<PathSegment<Point>>,
    pub pen: Point,
}

/// Every primitive of the scene names a transform that the scene holds.
pub open spec fn prims_name_stored_xforms<Xform, Paint, Point, Geom>(
    s: SceneView<Xform, Paint, Point, Geom>,
) -> bool {
    forall|l: int, i: int|
        0 <= l < s.layers.len() && 0 <= i < s.layers[l].len() ==> (#[trigger] s.layers[l][i]).xform
            < s.xforms.len()
}

impl<Xform, Paint, Point, Geom> VgerView<Xform, Paint, Point, Geom> {
    /// The state of a renderer that has just been made: three empty scenes,
    /// the first one current, no transform on the stack.
    pub open spec fn initial(origin: Point) -> Self {
        VgerView {
            scenes: Seq::new(SCENE_COUNT as nat, |i: int| SceneView::empty()),
            cur_scene: 0,
            cur_layer: 0,
            tx_stack: Seq::empty(),
            paint_count: 0,
            xform_count: 0,
            segments: Seq::empty(),
            pen: origin,
        }
    }

    /// The invariant that every operation keeps.
    pub open spec fn wf(self) -> bool {
        &&& self.scenes.len() == SCENE_COUNT
        &&& self.cur_scene < SCENE_COUNT
        &&& self.cur_layer == 0
        &&& forall|s: int| 0 <= s < self.scenes.len() ==> (#[trigger] self.scenes[s]).wf()
        &&& forall|s: int|
            0 <= s < self.scenes.len() ==> prims_name_stored_xforms(#[trigger] self.scenes[s])
        &&& self.xform_count <= MAX_PRIMS
        &&& self.paint_count <= MAX_PRIMS
        &&& self.current().xforms.len() == self.xform_count
        &&& self.current().paints.len() == self.paint_count
    }

    /// The scene being recorded.
    pub open spec fn current(self) -> SceneView<Xform, Paint, Point, Geom> {
        self.scenes[self.cur_scene as int]
    }

    /// The primitives of the current layer of the current scene.
    pub open spec fn layer(self) -> Seq<Prim<Geom>> {
        self.current().layers[self.cur_layer as int]
    }

    pub open spec fn set_current(self, s: SceneView<Xform, Paint, Point, Geom>) -> Self {
        VgerView { scenes: self.scenes.update(self.cur_scene as int, s), ..self }
    }

    /// The state after `begin`: the next scene in turn becomes current and is
    /// emptied, the stack holds only `identity`, the counts restart, and the
    /// pen returns to `origin`.
    pub open spec fn begun(self, identity: Xform, origin: Point) -> Self {
        let next = ((self.cur_scene + 1) % (SCENE_COUNT as nat)) as nat;
        VgerView {
            scenes: self.scenes.update(next as int, SceneView::empty()),
            cur_scene: next,
            cur_layer: 0,
            tx_stack: seq![identity],
            paint_count: 0,
            xform_count: 0,
            pen: origin,
            ..self
        }
    }

    /// `move_to`: the pen moves to `p`.
    pub open spec fn moved(self, p: Point) -> Self {
        VgerView { pen: p, ..self }
    }

    /// `quad_to`: a segment from the pen through `b` to `c` is added, and the
    /// pen moves to `c`.
    pub open spec fn quad(self, b: Point, c: Point) -> Self {
        VgerView {
            segments: self.segments.push(PathSegment { cvs: [self.pen, b, c] }),
            pen: c,
            ..self
        }
    }

    /// `save`: the top transform is pushed once more.
    pub open spec fn saved(self) -> Self {
        VgerView { tx_stack: self.tx_stack.push(self.tx_stack.last()), ..self }
    }

    /// `restore`: the top transform is dropped, if there is one.
    pub open spec fn restored(self) -> Self {
        if self.tx_stack.len() > 0 {
            VgerView { tx_stack: self.tx_stack.drop_last(), ..self }
        } else {
            self
        }
    }

    /// The top transform becomes `t`, if there is one.
    pub open spec fn with_top(self, t: Xform) -> Self {
        if self.tx_stack.len() > 0 {
            VgerView { tx_stack: self.tx_stack.update(self.tx_stack.len() - 1, t), ..self }
        } else {
            self
        }
    }

    /// Recording a transform is possible: the stack holds one, or the frame
    /// is full and nothing is recorded.
    pub open spec fn xform_available(self) -> bool {
        self.tx_stack.len() > 0 || self.xform_count >= MAX_PRIMS
    }

    /// The index that the next recorded transform gets: the next free one,
    /// or 0 once the frame holds `MAX_PRIMS` transforms.
    pub open spec fn xform_slot(self) -> nat {
        if self.xform_count < MAX_PRIMS {
            self.xform_count
        } else {
            0
        }
    }

    /// The current top transform is recorded in the current scene, unless the
    /// frame is full.
    pub open spec fn with_xform(self) -> Self {
        if self.xform_count < MAX_PRIMS {
            let cur = self.current();
            VgerView {
                xform_count: self.xform_count + 1,
                ..self.set_current(SceneView { xforms: cur.xforms.push(self.tx_stack.last()), ..cur })
            }
        } else {
            self
        }
    }

    /// The index that the next added paint gets: the next free one, or 0
    /// once the frame holds `MAX_PRIMS` paints.
    pub open spec fn paint_slot(self) -> nat {
        if self.paint_count < MAX_PRIMS {
            self.paint_count
        } else {
            0
        }
    }

    /// `paint` is stored in the current scene, unless the frame is full.
    pub open spec fn with_paint(self, paint: Paint) -> Self {
        if self.paint_count < MAX_PRIMS {
            let cur = self.current();
            VgerView {
                paint_count: self.paint_count + 1,
                ..self.set_current(SceneView { paints: cur.paints.push(paint), ..cur })
            }
        } else {
            self
        }
    }

    /// `ps` are appended to the current layer.
    pub open spec fn with_prims(self, ps: Seq<Prim<Geom>>) -> Self {
        let cur = self.current();
        self.set_current(
            SceneView {
                layers: cur.layers.update(self.cur_layer as int, cur.layers[self.cur_layer as int] + ps),
                ..cur
            },
        )
    }

    /// `ps` are appended to the control vertices of the current scene.
    pub open spec fn with_cvs(self, ps: Seq<Point>) -> Self {
        let cur = self.current();
        self.set_current(SceneView { cvs: cur.cvs + ps, ..cur })
    }

    /// A shape: the top transform is recorded, then one primitive of kind
    /// `t` that names `paint` and that transform.
    pub open spec fn shape(self, t: PrimType, paint: nat, g: Geom) -> Self {
        let x = self.xform_slot();
        self.with_xform().with_prims(seq![Prim::shape(t, paint as u32, x as u32, g)])
    }

    /// One band of a path fill: the control points of the band's chain
    /// through the recorded path segments are appended, then one primitive
    /// that reads them.
    pub open spec fn path_fill(self, band: PathBand<Geom>, paint: nat, xform: nat) -> Self {
        let segs = self.segments;
        let start = self.current().cvs.len();
        let n = chain_len(band.next@, band.first, segs.len());
        let p = Prim {
            prim_type: PrimType::PathFill,
            paint: paint as u32,
            xform: xform as u32,
            start: start as u32,
            count: n as u32,
            geometry: band.bounds,
        };
        self.with_cvs(chain_cvs(segs, band.next@, band.first, segs.len())).with_prims(seq![p])
    }

    /// The bands `bands`, in order, each filled with `paint` and `xform`.
    pub open spec fn path_fills(self, bands: Seq<PathBand<Geom>>, paint: nat, xform: nat) -> Self
        decreases bands.len(),
    {
        if bands.len() == 0 {
            self
        } else {
            self.path_fills(bands.drop_last(), paint, xform).path_fill(bands.last(), paint, xform)
        }
    }

    /// `fill`: the top transform is recorded once, then every band of the
    /// recorded path is filled.
    pub open spec fn filled(self, bands: Seq<PathBand<Geom>>, paint: nat) -> Self {
        let x = self.xform_slot();
        self.with_xform().path_fills(bands, paint, x)
    }

    /// `text`: the paint is added, the top transform recorded, then one glyph
    /// primitive per glyph that has geometry, in order.
    pub open spec fn texted(self, paint: Paint, glyphs: Seq<Option<Geom>>) -> Self {
        let p = self.paint_slot();
        let v = self.with_paint(paint);
        let x = v.xform_slot();
        v.with_xform().with_prims(glyph_prims(glyphs, p as u32, x as u32))
    }
}

/// One operation of a frame, as the renderer's public methods perform it
/// (every one but `begin`).
pub enum Op<Xform, Paint, Point, Geom> {
    Save,
    Restore,
    ReplaceTop(Xform),
    AddPaint(Paint),
    /// `fill_circle`, `stroke_arc`, `fill_rect`, `stroke_rect`,
    /// `stroke_segment` or `stroke_bezier`, by the kind they record.
    Shape(PrimType, nat, Geom),
    Fill(Seq<PathBand<Geom>>, nat),
    Text(Paint, Seq<Option<Geom>>),
    MoveTo(Point),
    QuadTo(Point, Point),
}

impl<Xform, Paint, Point, Geom> VgerView<Xform, Paint, Point, Geom> {
    /// The scene and layer indices are in range.
    pub open spec fn frame_ok(self) -> bool {
        &&& self.scenes.len() == SCENE_COUNT
        &&& self.cur_scene < SCENE_COUNT
        &&& self.cur_layer == 0
        &&& self.current().layers.len() == MAX_LAYERS
    }

    /// The state after `op`, as the contract of the method that performs it
    /// states.
    pub open spec fn step(self, op: Op<Xform, Paint, Point, Geom>) -> Self {
        match op {
            Op::Save => self.saved(),
            Op::Restore => self.restored(),
            Op::ReplaceTop(t) => self.with_top(t),
            Op::AddPaint(p) => self.with_paint(p),
            Op::Shape(t, paint, g) => self.shape(t, paint, g),
            Op::Fill(bands, paint) => self.filled(bands, paint),
            Op::Text(p, glyphs) => self.texted(p, glyphs),
            Op::MoveTo(p) => self.moved(p),
            Op::QuadTo(b, c) => self.quad(b, c),
        }
    }

    /// The state after `ops`, in order.
    pub open spec fn run(self, ops: Seq<Op<Xform, Paint, Point, Geom>>) -> Self
        decreases ops.len(),
    {
        if ops.len() == 0 {
            self
        } else {
            self.run(ops.drop_last()).step(ops.last())
        }
    }
}

/// The glyph primitives for `glyphs`: one per glyph that has geometry, in
/// order, each naming `paint` and `xform`; glyphs without geometry are
/// skipped.
pub open spec fn glyph_prims<Geom>(glyphs: Seq<Option<Geom>>, paint: u32, xform: u32) -> Seq<Prim<Geom>>
    decreases glyphs.len(),
{
    if glyphs.len() == 0 {
        Seq::empty()
    } else {
        glyph_prims(glyphs.drop_last(), paint, xform) + match glyphs.last() {
            Some(g) => seq![Prim::shape(PrimType::Glyph, paint, xform, g)],
            None => Seq::empty(),
        }
    }
}

/// Appending primitives twice appends their concatenation.
pub proof fn lemma_with_prims_concat<Xform, Paint, Point, Geom>(
    v: VgerView<Xform, Paint, Point, Geom>,
    a: Seq<Prim<Geom>>,
    b: Seq<Prim<Geom>>,
)
    requires
        v.wf(),
    ensures
        v.with_prims(a).with_prims(b) == v.with_prims(a + b),
{
    let l = v.cur_layer as int;
    assert(v.with_prims(a).cur_scene == v.cur_scene);
    assert(v.with_prims(a).current().layers[l] == v.layer() + a);
    assert((v.layer() + a) + b =~= v.layer() + (a + b));
    assert(v.with_prims(a).with_prims(b).current().layers =~= v.with_prims(a + b).current().layers);
    assert(v.with_prims(a).with_prims(b).scenes =~= v.with_prims(a + b).scenes);
}

/// Appending control vertices twice appends their concatenation.
pub proof fn lemma_with_cvs_concat<Xform, Paint, Point, Geom>(
    v: VgerView<Xform, Paint, Point, Geom>,
    a: Seq<Point>,
    b: Seq<Point>,
)
    requires
        v.wf(),
    ensures
        v.with_cvs(a).with_cvs(b) == v.with_cvs(a + b),
{
    assert((v.current().cvs + a) + b =~= v.current().cvs + (a + b));
    assert(v.with_cvs(a).with_cvs(b).scenes =~= v.with_cvs(a + b).scenes);
}

/// Appending nothing changes nothing.
pub proof fn lemma_with_nothing<Xform, Paint, Point, Geom>(v: VgerView<Xform, Paint, Point, Geom>)
    requires
        v.wf(),
    ensures
        v.with_prims(Seq::empty()) == v,
        v.with_cvs(Seq::empty()) == v,
{
    assert(v.layer() + Seq::<Prim<Geom>>::empty() =~= v.layer());
    assert(v.current().layers.update(v.cur_layer as int, v.layer()) =~= v.current().layers);
    assert(v.current().cvs + Seq::<Point>::empty() =~= v.current().cvs);
    assert(v.with_prims(Seq::empty()).scenes =~= v.scenes);
    assert(v.with_cvs(Seq::empty()).scenes =~= v.scenes);
}

} // verus!
