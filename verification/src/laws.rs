use vstd::prelude::*;
use crate::defs::{MAX_PRIMS, SCENE_COUNT};
use crate::frame::{is_prefix, lemma_glyph_prims_xform, lemma_path_fills_frame, lemma_run_frame, lemma_run_keeps_stack_bottom, lemma_with_paint_frame, lemma_with_prims_frame, lemma_with_xform_frame};
use crate::model::{glyph_prims, Op, VgerView};
use crate::path::{band_ok, chain_cvs, chain_len, lemma_chain_cvs_len, PathBand};
use crate::prim::{Prim, PrimType};

verus! {

/// `restore` undoes `save`: saving and then restoring leaves the renderer as
/// it was, and so does saving, replacing the top transform, and restoring.
pub proof fn lemma_save_then_restore<Xform, Paint, Point, Geom>(
    v: VgerView<Xform, Paint, Point, Geom>,
    t: Xform,
)
    requires
        v.wf(),
        v.tx_stack.len() > 0,
    ensures
        v.saved().restored() == v,
        v.saved().with_top(t).restored() == v,
        v.saved().tx_stack.last() == v.tx_stack.last(),
{
    assert(v.saved().restored().tx_stack =~= v.tx_stack);
    assert(v.saved().with_top(t).restored().tx_stack =~= v.tx_stack);
}

/// `begin` makes the next scene current, after three frames the first scene
/// is current again, and the scenes of the two frames before are left as
/// they were.
pub proof fn lemma_begin_rotates_scenes<Xform, Paint, Point, Geom>(
    v: VgerView<Xform, Paint, Point, Geom>,
    identity: Xform,
    origin: Point,
)
    requires
        v.wf(),
    ensures
        v.begun(identity, origin).cur_scene != v.cur_scene,
        v.begun(identity, origin).begun(identity, origin).begun(identity, origin).cur_scene == v.cur_scene,
        forall|s: int|
            0 <= s < SCENE_COUNT && s != v.begun(identity, origin).cur_scene ==> #[trigger] v.begun(
                identity,
                origin,
            ).scenes[s] == v.scenes[s],
{
}

/// The index that a paint gets names a paint of the current scene, and,
/// until the frame holds `MAX_PRIMS` paints, that paint is the one added.
pub proof fn lemma_paint_index_names_paint<Xform, Paint, Point, Geom>(
    v: VgerView<Xform, Paint, Point, Geom>,
    paint: Paint,
)
    requires
        v.wf(),
    ensures
        v.paint_slot() < v.with_paint(paint).current().paints.len(),
        v.paint_count < MAX_PRIMS ==> v.with_paint(paint).current().paints[v.paint_slot() as int] == paint,
{
}

/// A shape names the transform that was on top of the stack when it was
/// drawn, until the frame holds `MAX_PRIMS` transforms; either way it names
/// a transform of the current scene.
pub proof fn lemma_shape_names_top_transform<Xform, Paint, Point, Geom>(
    v: VgerView<Xform, Paint, Point, Geom>,
    t: PrimType,
    paint: nat,
    g: Geom,
)
    requires
        v.wf(),
        v.xform_available(),
    ensures
        v.shape(t, paint, g).layer().last().xform < v.shape(t, paint, g).current().xforms.len(),
        v.xform_count < MAX_PRIMS ==> v.shape(t, paint, g).current().xforms[v.shape(
            t,
            paint,
            g,
        ).layer().last().xform as int] == v.tx_stack.last(),
        v.shape(t, paint, g).layer().drop_last() == v.layer(),
        v.shape(t, paint, g).tx_stack == v.tx_stack,
{
    let w = v.with_xform();
    assert(v.xform_slot() < MAX_PRIMS);
    assert(v.shape(t, paint, g).layer() == w.layer() + seq![
        crate::prim::Prim::shape(t, paint as u32, v.xform_slot() as u32, g),
    ]);
    assert(v.shape(t, paint, g).layer().drop_last() =~= v.layer());
}

/// The primitive of a path-fill band reads exactly the control points of its
/// chain through the recorded path segments, as long as the control vertices
/// of the scene fit the `u32` indices a primitive holds.
pub proof fn lemma_path_fill_reads_its_chain<Xform, Paint, Point, Geom>(
    v: VgerView<Xform, Paint, Point, Geom>,
    band: PathBand<Geom>,
    paint: nat,
    xform: nat,
)
    requires
        v.wf(),
        band_ok(v.segments, band),
        v.current().cvs.len() + 3 * chain_len(band.next@, band.first, v.segments.len()) <= u32::MAX,
    ensures
        ({
            let w = v.path_fill(band, paint, xform);
            let p = w.layer().last();
            &&& p.prim_type == PrimType::PathFill
            &&& p.count == chain_len(band.next@, band.first, v.segments.len())
            &&& w.current().cvs.subrange(p.start as int, p.start + 3 * p.count)
                == chain_cvs(v.segments, band.next@, band.first, v.segments.len())
        }),
{
    lemma_chain_cvs_len(v.segments, band.next@, band.first, v.segments.len());
    let start = v.current().cvs.len();
    let w = v.path_fill(band, paint, xform);
    let c = chain_cvs(v.segments, band.next@, band.first, v.segments.len());
    assert(w.current().cvs == v.current().cvs + c);
    assert(w.layer().last().start == start);
    assert(w.current().cvs.subrange(start as int, (start + c.len()) as int) =~= c);
}

/// Drawing only ever uses the first layer: a new renderer is well formed
/// with layer 0 current, and neither `begin` nor any other operation moves
/// off it.
pub proof fn lemma_layer_stays_zero<Xform, Paint, Point, Geom>(
    v: VgerView<Xform, Paint, Point, Geom>,
    ops: Seq<Op<Xform, Paint, Point, Geom>>,
    identity: Xform,
    origin: Point,
)
    requires
        v.wf(),
    ensures
        VgerView::<Xform, Paint, Point, Geom>::initial(origin).wf(),
        VgerView::<Xform, Paint, Point, Geom>::initial(origin).cur_layer == 0,
        v.cur_layer == 0,
        v.begun(identity, origin).cur_layer == 0,
        v.run(ops).cur_layer == 0,
{
    let i = VgerView::<Xform, Paint, Point, Geom>::initial(origin);
    assert forall|s: int| 0 <= s < i.scenes.len() implies (#[trigger] i.scenes[s]).wf() by {}
    lemma_run_frame(v, ops);
}

/// `restore` gives back the stack as it was before the matching `save`,
/// whatever is drawn, painted, translated, and saved and restored in
/// balanced pairs in between: that is, whatever operations (none of them
/// `begin`) keep the stack deeper than it was before the `save`, and leave
/// it one deeper at the end.
pub proof fn lemma_restore_returns_saved_stack<Xform, Paint, Point, Geom>(
    v: VgerView<Xform, Paint, Point, Geom>,
    ops: Seq<Op<Xform, Paint, Point, Geom>>,
)
    requires
        v.wf(),
        v.tx_stack.len() > 0,
        forall|k: int|
            0 <= k <= ops.len() ==> #[trigger] v.saved().run(ops.take(k)).tx_stack.len() > v.tx_stack.len(),
        v.saved().run(ops).tx_stack.len() == v.tx_stack.len() + 1,
    ensures
        v.saved().run(ops).restored().tx_stack == v.tx_stack,
{
    let n = v.tx_stack.len();
    lemma_run_keeps_stack_bottom(v.saved(), ops, n);
    assert(v.saved().tx_stack.take(n as int) =~= v.tx_stack);
    let w = v.saved().run(ops);
    assert(w.restored().tx_stack =~= w.tx_stack.take(n as int));
}

/// A shape, a path fill or text, drawn while the frame holds fewer than
/// `MAX_PRIMS` transforms, records primitives that name the transform on top
/// of the stack when they were drawn; and whatever operations but `begin`
/// follow, those primitives stay in place and keep naming that transform.
pub proof fn lemma_prim_keeps_its_transform<Xform, Paint, Point, Geom>(
    v: VgerView<Xform, Paint, Point, Geom>,
    op: Op<Xform, Paint, Point, Geom>,
    rest: Seq<Op<Xform, Paint, Point, Geom>>,
)
    requires
        v.wf(),
        v.tx_stack.len() > 0,
        v.xform_count < MAX_PRIMS,
        op is Shape || op is Fill || op is Text,
    ensures
        v.layer().len() <= v.step(op).layer().len(),
        forall|i: int|
            v.layer().len() <= i < v.step(op).layer().len() ==> {
                &&& #[trigger] v.step(op).run(rest).layer()[i] == v.step(op).layer()[i]
                &&& v.step(op).run(rest).current().xforms[v.step(op).layer()[i].xform as int]
                    == v.tx_stack.last()
            },
{
    let x = v.xform_count;
    let w = v.step(op);
    match op {
        Op::Shape(t, paint, g) => {
            lemma_with_xform_frame(v);
            lemma_with_prims_frame(v.with_xform(), seq![Prim::shape(t, paint as u32, x as u32, g)]);
        },
        Op::Fill(bands, paint) => {
            lemma_with_xform_frame(v);
            lemma_path_fills_frame(v.with_xform(), bands, paint, x);
            assert(w.layer().subrange(0, v.layer().len() as int) == v.layer());
        },
        Op::Text(p, glyphs) => {
            lemma_with_paint_frame(v, p);
            let u = v.with_paint(p);
            lemma_with_xform_frame(u);
            let ps = glyph_prims(glyphs, v.paint_slot() as u32, x as u32);
            lemma_with_prims_frame(u.with_xform(), ps);
            lemma_glyph_prims_xform(glyphs, v.paint_slot() as u32, x as u32);
            assert forall|i: int| v.layer().len() <= i < w.layer().len() implies w.layer()[i].xform == x as u32 by {
                assert(w.layer()[i] == ps[i - v.layer().len()]);
            }
        },
        _ => {},
    }
    assert(w.current().xforms[x as int] == v.tx_stack.last());
    assert(x < w.current().xforms.len());
    lemma_run_frame(w, rest);
    let u = w.run(rest);
    assert forall|i: int| v.layer().len() <= i < w.layer().len() implies {
        &&& #[trigger] u.layer()[i] == w.layer()[i]
        &&& u.current().xforms[w.layer()[i].xform as int] == v.tx_stack.last()
    } by {
        assert(u.layer()[i] == u.layer().subrange(0, w.layer().len() as int)[i]);
        assert(w.layer()[i].xform == x as u32);
        assert(u.current().xforms[x as int] == u.current().xforms.subrange(0, w.current().xforms.len() as int)[x as int]);
    }
}

/// `fill` records one path-fill primitive per band, in band order, after the
/// primitives already there; each names the paint index passed to `fill`
/// and carries its band's bounds. The recorded path is left as it was.
pub proof fn lemma_fill_names_its_paint<Xform, Paint, Point, Geom>(
    v: VgerView<Xform, Paint, Point, Geom>,
    bands: Seq<PathBand<Geom>>,
    paint: nat,
)
    requires
        v.wf(),
    ensures
        is_prefix(v.layer(), v.filled(bands, paint).layer()),
        v.filled(bands, paint).layer().len() == v.layer().len() + bands.len(),
        forall|i: int|
            v.layer().len() <= i < v.filled(bands, paint).layer().len() ==> {
                &&& (#[trigger] v.filled(bands, paint).layer()[i]).paint == paint as u32
                &&& v.filled(bands, paint).layer()[i].prim_type == PrimType::PathFill
                &&& v.filled(bands, paint).layer()[i].geometry == bands[i - v.layer().len()].bounds
            },
        v.filled(bands, paint).segments == v.segments,
{
    lemma_with_xform_frame(v);
    lemma_path_fills_frame(v.with_xform(), bands, paint, v.xform_slot());
}

/// `move_to` only moves the pen: the segments built so far, the transform
/// stack and the scenes are left as they were.
pub proof fn lemma_move_to_keeps_path<Xform, Paint, Point, Geom>(v: VgerView<Xform, Paint, Point, Geom>, p: Point)
    ensures
        v.moved(p).segments == v.segments,
        v.moved(p).pen == p,
        v.moved(p).tx_stack == v.tx_stack,
        v.moved(p).scenes == v.scenes,
{
}

/// `quad_to` adds exactly one segment after those already built: from the
/// pen, through `b`, to `c`; and the pen moves to `c`.
pub proof fn lemma_quad_to_extends_path<Xform, Paint, Point, Geom>(
    v: VgerView<Xform, Paint, Point, Geom>,
    b: Point,
    c: Point,
)
    ensures
        v.quad(b, c).segments.len() == v.segments.len() + 1,
        v.quad(b, c).segments.drop_last() == v.segments,
        v.quad(b, c).segments.last().cvs@ == seq![v.pen, b, c],
        v.quad(b, c).pen == c,
        v.quad(b, c).scenes == v.scenes,
{
    assert(v.quad(b, c).segments.drop_last() =~= v.segments);
}

/// The path only grows: no operation but `begin` drops or changes a segment
/// already built, so every subpath started with `move_to` stays in the path.
pub proof fn lemma_path_only_grows<Xform, Paint, Point, Geom>(
    v: VgerView<Xform, Paint, Point, Geom>,
    ops: Seq<Op<Xform, Paint, Point, Geom>>,
)
    requires
        v.wf(),
    ensures
        is_prefix(v.segments, v.run(ops).segments),
{
    lemma_run_frame(v, ops);
}

/// Whatever the state before, after `begin` the transform stack holds
/// exactly `identity`, no transform or paint is recorded, and the current
/// scene is empty; two frames in a row leave one transform on the stack.
pub proof fn lemma_begin_resets_frame<Xform, Paint, Point, Geom>(
    v: VgerView<Xform, Paint, Point, Geom>,
    identity: Xform,
    origin: Point,
    identity2: Xform,
)
    requires
        v.wf(),
    ensures
        v.begun(identity, origin).tx_stack.len() == 1,
        v.begun(identity, origin).tx_stack[0] == identity,
        v.begun(identity, origin).begun(identity2, origin).tx_stack.len() == 1,
        v.begun(identity, origin).begun(identity2, origin).tx_stack[0] == identity2,
        v.begun(identity, origin).xform_count == 0,
        v.begun(identity, origin).paint_count == 0,
        v.begun(identity, origin).pen == origin,
        v.begun(identity, origin).layer().len() == 0,
        v.begun(identity, origin).current().xforms.len() == 0,
        v.begun(identity, origin).current().paints.len() == 0,
        v.begun(identity, origin).current().cvs.len() == 0,
{
}

/// A shape appends exactly one primitive after those already there: of the
/// kind asked for, naming the paint index it was drawn with, carrying its
/// geometry, and reading no control vertices.
pub proof fn lemma_shape_names_its_paint<Xform, Paint, Point, Geom>(
    v: VgerView<Xform, Paint, Point, Geom>,
    t: PrimType,
    paint: nat,
    g: Geom,
)
    requires
        v.wf(),
    ensures
        v.shape(t, paint, g).layer().len() == v.layer().len() + 1,
        v.shape(t, paint, g).layer().drop_last() == v.layer(),
        v.shape(t, paint, g).layer().last().paint == paint as u32,
        v.shape(t, paint, g).layer().last().prim_type == t,
        v.shape(t, paint, g).layer().last().geometry == g,
        v.shape(t, paint, g).layer().last().start == 0,
        v.shape(t, paint, g).layer().last().count == 0,
{
    lemma_with_xform_frame(v);
    let p = Prim::shape(t, paint as u32, v.xform_slot() as u32, g);
    lemma_with_prims_frame(v.with_xform(), seq![p]);
    assert(v.shape(t, paint, g).layer().drop_last() =~= v.layer());
}

/// `text` adds its paint at the next paint index, and every primitive it
/// records, at most one per glyph and after those already there, is a
/// glyph that names that index.
pub proof fn lemma_text_names_its_paint<Xform, Paint, Point, Geom>(
    v: VgerView<Xform, Paint, Point, Geom>,
    paint: Paint,
    glyphs: Seq<Option<Geom>>,
)
    requires
        v.wf(),
    ensures
        is_prefix(v.layer(), v.texted(paint, glyphs).layer()),
        v.texted(paint, glyphs).layer().len() <= v.layer().len() + glyphs.len(),
        forall|i: int|
            v.layer().len() <= i < v.texted(paint, glyphs).layer().len() ==> {
                &&& (#[trigger] v.texted(paint, glyphs).layer()[i]).paint == v.paint_slot() as u32
                &&& v.texted(paint, glyphs).layer()[i].prim_type == PrimType::Glyph
            },
        v.paint_count < MAX_PRIMS ==> v.texted(paint, glyphs).current().paints[v.paint_slot() as int] == paint,
{
    lemma_with_paint_frame(v, paint);
    let u = v.with_paint(paint);
    lemma_with_xform_frame(u);
    let ps = glyph_prims(glyphs, v.paint_slot() as u32, u.xform_slot() as u32);
    lemma_with_prims_frame(u.with_xform(), ps);
    lemma_glyph_prims_xform(glyphs, v.paint_slot() as u32, u.xform_slot() as u32);
    crate::frame::lemma_prefix_append(v.layer(), ps);
    let w = v.texted(paint, glyphs);
    assert forall|i: int| v.layer().len() <= i < w.layer().len() implies {
        &&& (#[trigger] w.layer()[i]).paint == v.paint_slot() as u32
        &&& w.layer()[i].prim_type == PrimType::Glyph
    } by {
        assert(w.layer()[i] == ps[i - v.layer().len()]);
    }
}

} // verus!
