use vstd::prelude::*;
use crate::defs::{MAX_PRIMS, SCENE_COUNT};
use crate::frame::lemma_with_xform_frame;
use crate::laws::{lemma_fill_names_its_paint, lemma_quad_to_extends_path, lemma_shape_names_its_paint, lemma_text_names_its_paint};
use crate::model::{glyph_prims, lemma_with_cvs_concat, lemma_with_nothing, lemma_with_prims_concat, prims_name_stored_xforms, VgerView};
use crate::path::{band_cvs, band_ok, chain_ends, chain_len, lemma_chain_cvs_len, PathBand, PathSegment};
use crate::prim::{Prim, PrimType};
use crate::scene::{Scene, SceneView};

verus! {

/// The index of a paint in the scene it was added to.
#[derive(Clone, Copy, Debug)]
pub struct PaintIndex {
    index: usize,
}

impl View for PaintIndex {
    type V = nat;

    closed spec fn view(&self) -> nat {
        self.index as nat
    }
}

impl PaintIndex {
    /// The index.
    pub fn index(&self) -> (r: usize)
        ensures
            r == self@,
    {
        self.index
    }
}

/// The glyphs of one laid-out line of text, and the line's bounds.
#[derive(Clone, Copy, Debug)]
pub struct LineMetrics<Bounds> {
    pub glyph_start: usize,
    pub glyph_end: usize,
    pub bounds: Bounds,
}

/// The renderer's record of a frame: three scenes used in turn, the current
/// scene and layer, the transform stack, the counts of transforms and paints
/// recorded this frame, the segments of the path being built, and its pen.
pub struct Vger<Xform, Paint, Point, Geom> {
    scenes: Vec<Scene<Xform, Paint, Point, Geom>>,
    cur_scene: usize,
    cur_layer: usize,
    tx_stack: Vec<Xform>,
    paint_count: usize,
    xform_count: usize,
    segments: Vec<PathSegment<Point>>,
    pen: Point,
}

impl<Xform, Paint, Point, Geom> View for Vger<Xform, Paint, Point, Geom> {
    type V = VgerView<Xform, Paint, Point, Geom>;

    closed spec fn view(&self) -> VgerView<Xform, Paint, Point, Geom> {
        VgerView {
            scenes: self.scenes@.map_values(|s: Scene<Xform, Paint, Point, Geom>| s@),
            cur_scene: self.cur_scene as nat,
            cur_layer: self.cur_layer as nat,
            tx_stack: self.tx_stack@,
            paint_count: self.paint_count as nat,
            xform_count: self.xform_count as nat,
            segments: self.segments@,
            pen: self.pen,
        }
    }
}

impl<Xform: Copy, Paint, Point: Copy, Geom: Copy> Vger<Xform, Paint, Point, Geom> {
    /// A renderer with three empty scenes and an empty transform stack, its
    /// pen at `origin`.
    pub fn new(origin: Point) -> (v: Self)
        ensures
            v@ == VgerView::<Xform, Paint, Point, Geom>::initial(origin),
            v@.wf(),
    {
        let mut scenes: Vec<Scene<Xform, Paint, Point, Geom>> = Vec::new();
        for i in 0..SCENE_COUNT
            invariant
                scenes@.len() == i,
                forall|k: int| 0 <= k < i ==> (#[trigger] scenes@[k])@ == SceneView::<Xform, Paint, Point, Geom>::empty(),
        {
            scenes.push(Scene::new());
        }
        let v = Vger {
            scenes,
            cur_scene: 0,
            cur_layer: 0,
            tx_stack: Vec::new(),
            paint_count: 0,
            xform_count: 0,
            segments: Vec::new(),
            pen: origin,
        };
        assert(v@.scenes =~= VgerView::<Xform, Paint, Point, Geom>::initial(origin).scenes);
        v
    }

    /// Starts a frame: the next scene in turn becomes current and is emptied,
    /// the transform stack holds only `identity`, and the pen is at `origin`.
    pub fn begin(&mut self, identity: Xform, origin: Point)
        requires
            old(self)@.wf(),
        ensures
            final(self)@ == old(self)@.begun(identity, origin),
            final(self)@.wf(),
            final(self)@.tx_stack == seq![identity],
            final(self)@.xform_count == 0,
            final(self)@.paint_count == 0,
            final(self)@.layer().len() == 0,
    {
        let ghost old_v = self@;
        self.cur_layer = 0;
        self.cur_scene = (self.cur_scene + 1) % SCENE_COUNT;
        assert(old_v.scenes[self.cur_scene as int].wf());
        assert(self.scenes@[self.cur_scene as int]@ == old_v.scenes[self.cur_scene as int]);
        self.scenes[self.cur_scene].clear();
        self.tx_stack.clear();
        self.tx_stack.push(identity);
        self.paint_count = 0;
        self.xform_count = 0;
        self.pen = origin;
        assert(self@.scenes =~= old_v.begun(identity, origin).scenes);
        assert(self@.tx_stack =~= seq![identity]);
    }

    /// Saves the rendering state: the top transform is pushed once more.
    pub fn save(&mut self)
        requires
            old(self)@.wf(),
            old(self)@.tx_stack.len() > 0,
        ensures
            final(self)@ == old(self)@.saved(),
            final(self)@.wf(),
    {
        let m = self.tx_stack[self.tx_stack.len() - 1];
        self.tx_stack.push(m);
    }

    /// Restores the rendering state saved last: the top transform is dropped,
    /// if there is one.
    pub fn restore(&mut self)
        requires
            old(self)@.wf(),
        ensures
            final(self)@ == old(self)@.restored(),
            final(self)@.wf(),
    {
        let _ = self.tx_stack.pop();
    }

    /// The top transform, if the stack holds one.
    pub fn current_transform(&self) -> (r: Option<Xform>)
        ensures
            r == (if self@.tx_stack.len() > 0 {
                Some(self@.tx_stack.last())
            } else {
                None::<Xform>
            }),
    {
        if self.tx_stack.len() > 0 {
            Some(self.tx_stack[self.tx_stack.len() - 1])
        } else {
            None
        }
    }

    /// Replaces the top transform with `t`, if the stack holds one.
    pub fn replace_current_transform(&mut self, t: Xform)
        requires
            old(self)@.wf(),
        ensures
            final(self)@ == old(self)@.with_top(t),
            final(self)@.wf(),
    {
        let n = self.tx_stack.len();
        if n > 0 {
            self.tx_stack.set(n - 1, t);
        }
    }

    /// Records the top transform in the current scene and returns its index;
    /// once the frame holds `MAX_PRIMS` transforms, records nothing and
    /// returns 0.
    fn add_xform(&mut self) -> (n: usize)
        requires
            old(self)@.wf(),
            old(self)@.xform_available(),
        ensures
            n == old(self)@.xform_slot(),
            final(self)@ == old(self)@.with_xform(),
            final(self)@.wf(),
            n < final(self)@.current().xforms.len(),
    {
        let ghost old_v = self@;
        if self.xform_count < MAX_PRIMS {
            let m = self.tx_stack[self.tx_stack.len() - 1];
            assert(self.scenes@[self.cur_scene as int]@ == old_v.current());
            self.scenes[self.cur_scene].xforms.push(m);
            let n = self.xform_count;
            self.xform_count = self.xform_count + 1;
            assert(self@.scenes =~= old_v.with_xform().scenes);
            assert(prims_name_stored_xforms(self@.current()));
            return n;
        }
        0
    }

    /// Stores `paint` in the current scene and returns its index; once the
    /// frame holds `MAX_PRIMS` paints, stores nothing and returns index 0.
    /// Either way the index names a paint of the current scene.
    pub fn add_paint(&mut self, paint: Paint) -> (r: PaintIndex)
        requires
            old(self)@.wf(),
        ensures
            r@ == old(self)@.paint_slot(),
            final(self)@ == old(self)@.with_paint(paint),
            final(self)@.wf(),
            r@ < final(self)@.current().paints.len(),
            r@ < MAX_PRIMS,
            old(self)@.paint_count < MAX_PRIMS ==> final(self)@.current().paints[r@ as int] == paint,
    {
        let ghost old_v = self@;
        if self.paint_count < MAX_PRIMS {
            assert(self.scenes@[self.cur_scene as int]@ == old_v.current());
            self.scenes[self.cur_scene].paints.push(paint);
            self.paint_count = self.paint_count + 1;
            assert(self@.scenes =~= old_v.with_paint(paint).scenes);
            return PaintIndex { index: self.paint_count - 1 };
        }
        PaintIndex { index: 0 }
    }

    /// Appends `prim` to the current layer of the current scene.
    fn render(&mut self, prim: Prim<Geom>)
        requires
            old(self)@.wf(),
            prim.xform < old(self)@.current().xforms.len(),
        ensures
            final(self)@ == old(self)@.with_prims(seq![prim]),
            final(self)@.wf(),
    {
        let ghost old_v = self@;
        assert(self.scenes@[self.cur_scene as int]@ == old_v.current());
        assert(old_v.current().wf());
        assert(self.scenes@[self.cur_scene as int].prims@[self.cur_layer as int]@ == old_v.layer());
        self.scenes[self.cur_scene].prims[self.cur_layer].push(prim);
        assert(self.scenes@[self.cur_scene as int].prims@[self.cur_layer as int]@ == old_v.layer().push(prim));
        assert(old_v.layer().push(prim) == old_v.layer() + seq![prim]);
        assert(self@.current().layers =~= old_v.with_prims(seq![prim]).current().layers);
        assert(self@.scenes =~= old_v.with_prims(seq![prim]).scenes);
    }
    /// Fills a circle; `geometry` holds its centre, radius and bounds.
    /// The top transform is recorded, then one primitive that names it and
    /// `paint_index`.
    pub fn fill_circle(&mut self, geometry: Geom, paint_index: PaintIndex)
        requires
            old(self)@.wf(),
            old(self)@.xform_available(),
        ensures
            final(self)@ == old(self)@.shape(PrimType::Circle, paint_index@, geometry),
            final(self)@.wf(),
            final(self)@.layer().drop_last() == old(self)@.layer(),
            final(self)@.layer().last() == (Prim {
                prim_type: PrimType::Circle,
                paint: paint_index@ as u32,
                xform: old(self)@.xform_slot() as u32,
                start: 0,
                count: 0,
                geometry,
            }),
    {
        self.push_shape(PrimType::Circle, geometry, paint_index);
        proof {
            lemma_shape_names_its_paint(old(self)@, PrimType::Circle, paint_index@, geometry);
            lemma_with_xform_frame(old(self)@);
        }
    }

    /// Strokes an arc; `geometry` holds its centre, radius, width, rotation, aperture and bounds.
    /// The top transform is recorded, then one primitive that names it and
    /// `paint_index`.
    pub fn stroke_arc(&mut self, geometry: Geom, paint_index: PaintIndex)
        requires
            old(self)@.wf(),
            old(self)@.xform_available(),
        ensures
            final(self)@ == old(self)@.shape(PrimType::Arc, paint_index@, geometry),
            final(self)@.wf(),
            final(self)@.layer().drop_last() == old(self)@.layer(),
            final(self)@.layer().last() == (Prim {
                prim_type: PrimType::Arc,
                paint: paint_index@ as u32,
                xform: old(self)@.xform_slot() as u32,
                start: 0,
                count: 0,
                geometry,
            }),
    {
        self.push_shape(PrimType::Arc, geometry, paint_index);
        proof {
            lemma_shape_names_its_paint(old(self)@, PrimType::Arc, paint_index@, geometry);
            lemma_with_xform_frame(old(self)@);
        }
    }

    /// Fills a rounded rectangle; `geometry` holds its corners, radius and bounds.
    /// The top transform is recorded, then one primitive that names it and
    /// `paint_index`.
    pub fn fill_rect(&mut self, geometry: Geom, paint_index: PaintIndex)
        requires
            old(self)@.wf(),
            old(self)@.xform_available(),
        ensures
            final(self)@ == old(self)@.shape(PrimType::Rect, paint_index@, geometry),
            final(self)@.wf(),
            final(self)@.layer().drop_last() == old(self)@.layer(),
            final(self)@.layer().last() == (Prim {
                prim_type: PrimType::Rect,
                paint: paint_index@ as u32,
                xform: old(self)@.xform_slot() as u32,
                start: 0,
                count: 0,
                geometry,
            }),
    {
        self.push_shape(PrimType::Rect, geometry, paint_index);
        proof {
            lemma_shape_names_its_paint(old(self)@, PrimType::Rect, paint_index@, geometry);
            lemma_with_xform_frame(old(self)@);
        }
    }

    /// Strokes a rounded rectangle; `geometry` holds its corners, radius, width and bounds.
    /// The top transform is recorded, then one primitive that names it and
    /// `paint_index`.
    pub fn stroke_rect(&mut self, geometry: Geom, paint_index: PaintIndex)
        requires
            old(self)@.wf(),
            old(self)@.xform_available(),
        ensures
            final(self)@ == old(self)@.shape(PrimType::RectStroke, paint_index@, geometry),
            final(self)@.wf(),
            final(self)@.layer().drop_last() == old(self)@.layer(),
            final(self)@.layer().last() == (Prim {
                prim_type: PrimType::RectStroke,
                paint: paint_index@ as u32,
                xform: old(self)@.xform_slot() as u32,
                start: 0,
                count: 0,
                geometry,
            }),
    {
        self.push_shape(PrimType::RectStroke, geometry, paint_index);
        proof {
            lemma_shape_names_its_paint(old(self)@, PrimType::RectStroke, paint_index@, geometry);
            lemma_with_xform_frame(old(self)@);
        }
    }

    /// Strokes a line segment; `geometry` holds its end points, width and bounds.
    /// The top transform is recorded, then one primitive that names it and
    /// `paint_index`.
    pub fn stroke_segment(&mut self, geometry: Geom, paint_index: PaintIndex)
        requires
            old(self)@.wf(),
            old(self)@.xform_available(),
        ensures
            final(self)@ == old(self)@.shape(PrimType::Segment, paint_index@, geometry),
            final(self)@.wf(),
            final(self)@.layer().drop_last() == old(self)@.layer(),
            final(self)@.layer().last() == (Prim {
                prim_type: PrimType::Segment,
                paint: paint_index@ as u32,
                xform: old(self)@.xform_slot() as u32,
                start: 0,
                count: 0,
                geometry,
            }),
    {
        self.push_shape(PrimType::Segment, geometry, paint_index);
        proof {
            lemma_shape_names_its_paint(old(self)@, PrimType::Segment, paint_index@, geometry);
            lemma_with_xform_frame(old(self)@);
        }
    }

    /// Strokes a quadratic bezier segment; `geometry` holds its control points, width and bounds.
    /// The top transform is recorded, then one primitive that names it and
    /// `paint_index`.
    pub fn stroke_bezier(&mut self, geometry: Geom, paint_index: PaintIndex)
        requires
            old(self)@.wf(),
            old(self)@.xform_available(),
        ensures
            final(self)@ == old(self)@.shape(PrimType::Bezier, paint_index@, geometry),
            final(self)@.wf(),
            final(self)@.layer().drop_last() == old(self)@.layer(),
            final(self)@.layer().last() == (Prim {
                prim_type: PrimType::Bezier,
                paint: paint_index@ as u32,
                xform: old(self)@.xform_slot() as u32,
                start: 0,
                count: 0,
                geometry,
            }),
    {
        self.push_shape(PrimType::Bezier, geometry, paint_index);
        proof {
            lemma_shape_names_its_paint(old(self)@, PrimType::Bezier, paint_index@, geometry);
            lemma_with_xform_frame(old(self)@);
        }
    }

    fn push_shape(&mut self, prim_type: PrimType, geometry: Geom, paint_index: PaintIndex)
        requires
            old(self)@.wf(),
            old(self)@.xform_available(),
        ensures
            final(self)@ == old(self)@.shape(prim_type, paint_index@, geometry),
            final(self)@.wf(),
    {
        let xform = self.add_xform();
        let prim = Prim::new_shape(prim_type, paint_index.index as u32, xform as u32, geometry);
        self.render(prim);
    }

    /// Moves the pen to `p` (path fills only).
    pub fn move_to(&mut self, p: Point)
        requires
            old(self)@.wf(),
        ensures
            final(self)@ == old(self)@.moved(p),
            final(self)@.wf(),
            final(self)@.segments == old(self)@.segments,
            final(self)@.pen == p,
    {
        self.pen = p;
    }

    /// Adds a quadratic curve from the pen through `b` to `c`, and moves the
    /// pen to `c` (path fills only).
    pub fn quad_to(&mut self, b: Point, c: Point)
        requires
            old(self)@.wf(),
        ensures
            final(self)@ == old(self)@.quad(b, c),
            final(self)@.wf(),
            final(self)@.segments.drop_last() == old(self)@.segments,
            final(self)@.segments.last().cvs@ == seq![old(self)@.pen, b, c],
            final(self)@.pen == c,
    {
        let seg = PathSegment::new(self.pen, b, c);
        self.segments.push(seg);
        self.pen = c;
        proof {
            lemma_quad_to_extends_path(old(self)@, b, c);
        }
    }

    /// The segments of the path built so far.
    pub fn path_segments(&self) -> (r: &Vec<PathSegment<Point>>)
        ensures
            r@ == self@.segments,
    {
        &self.segments
    }

    /// Appends `p` to the control vertices of the current scene.
    fn add_cv(&mut self, p: Point)
        requires
            old(self)@.wf(),
        ensures
            final(self)@ == old(self)@.with_cvs(seq![p]),
            final(self)@.wf(),
    {
        let ghost old_v = self@;
        assert(self.scenes@[self.cur_scene as int]@ == old_v.current());
        self.scenes[self.cur_scene].cvs.push(p);
        assert(old_v.current().cvs.push(p) == old_v.current().cvs + seq![p]);
        assert(self@.scenes =~= old_v.with_cvs(seq![p]).scenes);
    }

    /// Fills one band of the recorded path: the control points of the chain
    /// of segments from `band.first` along `band.next` are appended to the
    /// scene, then a primitive that reads them.
    fn fill_band(&mut self, band: &PathBand<Geom>, paint_index: PaintIndex, xform: usize)
        requires
            old(self)@.wf(),
            xform < old(self)@.current().xforms.len(),
            band_ok(old(self)@.segments, *band),
        ensures
            final(self)@ == old(self)@.path_fill(*band, paint_index@, xform as nat),
            final(self)@.wf(),
    {
        let ghost old_v = self@;
        let start = self.scenes[self.cur_scene].cvs.len() as u32;
        let pts = band_cvs(&self.segments, &band.next, band.first);
        proof {
            lemma_chain_cvs_len(self.segments@, band.next@, band.first, self.segments@.len());
            lemma_with_nothing(old_v);
        }
        for i in 0..pts.len()
            invariant
                old_v.wf(),
                self@ == old_v.with_cvs(pts@.take(i as int)),
                self@.wf(),
                self@.current().xforms == old_v.current().xforms,
        {
            proof {
                lemma_with_cvs_concat(old_v, pts@.take(i as int), seq![pts@[i as int]]);
                assert(pts@.take(i as int) + seq![pts@[i as int]] =~= pts@.take(i + 1));
            }
            self.add_cv(pts[i]);
        }
        assert(pts@.take(pts@.len() as int) =~= pts@);
        let count = (pts.len() / 3) as u32;
        let prim = Prim {
            prim_type: PrimType::PathFill,
            paint: paint_index.index as u32,
            xform: xform as u32,
            start,
            count,
            geometry: band.bounds,
        };
        self.render(prim);
    }

    /// Whether `band` can be filled over the recorded path: it links every
    /// segment, its chain ends, and its length fits a `u32`.
    pub fn check_band(&self, band: &PathBand<Geom>) -> (r: bool)
        ensures
            r == band_ok(self@.segments, *band),
    {
        let n = self.segments.len();
        if band.next.len() != n {
            return false;
        }
        let mut index = band.first;
        let mut fuel: usize = n;
        let mut count: usize = 0;
        while index.is_some()
            invariant
                band.next@.len() == n,
                n == self@.segments.len(),
                fuel <= n,
                count + fuel == n,
                chain_ends(band.next@, band.first, n as nat) == chain_ends(band.next@, index, fuel as nat),
                chain_len(band.next@, band.first, n as nat) == count + chain_len(band.next@, index, fuel as nat),
            decreases fuel,
        {
            let a = index.unwrap();
            if fuel == 0 || a >= n {
                return false;
            }
            index = band.next[a];
            fuel = fuel - 1;
            count = count + 1;
        }
        count <= 0xffff_ffff
    }

    /// Fills the recorded path: the top transform is recorded once, then each
    /// band into which the path's segments were scanned, in order, is filled
    /// with `paint_index`.
    pub fn fill(&mut self, paint_index: PaintIndex, bands: &Vec<PathBand<Geom>>)
        requires
            old(self)@.wf(),
            old(self)@.xform_available(),
            forall|i: int| 0 <= i < bands@.len() ==> #[trigger] band_ok(old(self)@.segments, bands@[i]),
        ensures
            final(self)@ == old(self)@.filled(bands@, paint_index@),
            final(self)@.wf(),
            final(self)@.layer().len() == old(self)@.layer().len() + bands@.len(),
            final(self)@.layer().subrange(0, old(self)@.layer().len() as int) == old(self)@.layer(),
            forall|i: int|
                old(self)@.layer().len() <= i < final(self)@.layer().len() ==> {
                    &&& (#[trigger] final(self)@.layer()[i]).paint == paint_index@ as u32
                    &&& final(self)@.layer()[i].prim_type == PrimType::PathFill
                    &&& final(self)@.layer()[i].geometry == bands@[i - old(self)@.layer().len()].bounds
                },
            final(self)@.segments == old(self)@.segments,
    {
        proof {
            lemma_fill_names_its_paint(old(self)@, bands@, paint_index@);
        }
        let ghost old_v = self@;
        let xform = self.add_xform();
        let ghost mid = self@;
        for i in 0..bands.len()
            invariant
                self@ == mid.path_fills(bands@.take(i as int), paint_index@, xform as nat),
                self@.wf(),
                self@.segments == old_v.segments,
                xform < self@.current().xforms.len(),
                forall|k: int| 0 <= k < bands@.len() ==> #[trigger] band_ok(old_v.segments, bands@[k]),
        {
            let band = &bands[i];
            assert(band_ok(old_v.segments, bands@[i as int]));
            assert(bands@.take(i + 1).drop_last() =~= bands@.take(i as int));
            assert(bands@.take(i + 1).last() == bands@[i as int]);
            self.fill_band(band, paint_index, xform);
        }
        assert(bands@.take(bands@.len() as int) =~= bands@);
    }

    /// Renders glyphs: `paint` is added, the top transform recorded, then one
    /// glyph primitive per entry of `glyphs` that has geometry, in order,
    /// naming both; entries without geometry (glyphs with no place in the
    /// atlas) are skipped.
    pub fn text(&mut self, paint: Paint, glyphs: &Vec<Option<Geom>>)
        requires
            old(self)@.wf(),
            old(self)@.xform_available(),
        ensures
            final(self)@ == old(self)@.texted(paint, glyphs@),
            final(self)@.wf(),
            final(self)@.layer().subrange(0, old(self)@.layer().len() as int) == old(self)@.layer(),
            final(self)@.layer().len() <= old(self)@.layer().len() + glyphs@.len(),
            forall|i: int|
                old(self)@.layer().len() <= i < final(self)@.layer().len() ==> {
                    &&& (#[trigger] final(self)@.layer()[i]).paint == old(self)@.paint_slot() as u32
                    &&& final(self)@.layer()[i].prim_type == PrimType::Glyph
                },
    {
        proof {
            lemma_text_names_its_paint(old(self)@, paint, glyphs@);
        }
        let paint_index = self.add_paint(paint);
        let xform = self.add_xform();
        let ghost mid = self@;
        let ghost p = paint_index@ as u32;
        let ghost x = xform as u32;
        proof {
            lemma_with_nothing(mid);
            assert(glyphs@.take(0) =~= Seq::<Option<Geom>>::empty());
        }
        for i in 0..glyphs.len()
            invariant
                mid.wf(),
                self@ == mid.with_prims(glyph_prims(glyphs@.take(i as int), p, x)),
                self@.wf(),
                xform < self@.current().xforms.len(),
                self@.current().xforms == mid.current().xforms,
                p == paint_index@ as u32,
                x == xform as u32,
        {
            let ghost before = glyph_prims(glyphs@.take(i as int), p, x);
            assert(glyphs@.take(i + 1).drop_last() =~= glyphs@.take(i as int));
            assert(glyphs@.take(i + 1).last() == glyphs@[i as int]);
            match glyphs[i] {
                Some(g) => {
                    let prim = Prim::new_shape(PrimType::Glyph, paint_index.index as u32, xform as u32, g);
                    proof {
                        lemma_with_prims_concat(mid, before, seq![prim]);
                    }
                    self.render(prim);
                },
                None => {
                    assert(before + Seq::<Prim<Geom>>::empty() =~= before);
                },
            }
        }
        assert(glyphs@.take(glyphs@.len() as int) =~= glyphs@);
    }

    /// The index of the current scene.
    pub fn cur_scene(&self) -> (r: usize)
        ensures
            r == self@.cur_scene,
    {
        self.cur_scene
    }

    /// The index of the current layer.
    pub fn cur_layer(&self) -> (r: usize)
        ensures
            r == self@.cur_layer,
    {
        self.cur_layer
    }

    /// The scene with index `i`.
    pub fn scene(&self, i: usize) -> (r: &Scene<Xform, Paint, Point, Geom>)
        requires
            self@.wf(),
            i < SCENE_COUNT,
        ensures
            r@ == self@.scenes[i as int],
    {
        &self.scenes[i]
    }

    /// The scene being recorded.
    pub fn current_scene(&self) -> (r: &Scene<Xform, Paint, Point, Geom>)
        requires
            self@.wf(),
        ensures
            r@ == self@.current(),
    {
        &self.scenes[self.cur_scene]
    }

    /// The primitives of the current layer of the current scene.
    pub fn layer_prims(&self) -> (r: &Vec<Prim<Geom>>)
        requires
            self@.wf(),
        ensures
            r@ == self@.layer(),
    {
        assert(self@.current().wf());
        &self.scenes[self.cur_scene].prims[self.cur_layer]
    }

    /// The number of transforms on the stack.
    pub fn transform_depth(&self) -> (r: usize)
        ensures
            r == self@.tx_stack.len(),
    {
        self.tx_stack.len()
    }

    /// The number of transforms recorded this frame.
    pub fn xform_count(&self) -> (r: usize)
        ensures
            r == self@.xform_count,
    {
        self.xform_count
    }

    /// The number of paints added this frame.
    pub fn paint_count(&self) -> (r: usize)
        ensures
            r == self@.paint_count,
    {
        self.paint_count
    }

    /// The pen.
    pub fn pen(&self) -> (r: Point)
        ensures
            r == self@.pen,
    {
        self.pen
    }
}

} // verus!
