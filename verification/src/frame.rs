use vstd::prelude::*;
use crate::defs::MAX_PRIMS;
use crate::model::{glyph_prims, Op, VgerView};
use crate::path::PathBand;
use crate::prim::{Prim, PrimType};

verus! {

/// `a` is a prefix of `b`.
pub open spec fn is_prefix<A>(a: Seq<A>, b: Seq<A>) -> bool {
    a.len() <= b.len() && b.subrange(0, a.len() as int) == a
}

pub proof fn lemma_prefix_trans<A>(a: Seq<A>, b: Seq<A>, c: Seq<A>)
    requires
        is_prefix(a, b),
        is_prefix(b, c),
    ensures
        is_prefix(a, c),
{
    assert(c.subrange(0, a.len() as int) =~= b.subrange(0, a.len() as int));
}

pub proof fn lemma_prefix_append<A>(a: Seq<A>, b: Seq<A>)
    ensures
        is_prefix(a, a + b),
{
    assert((a + b).subrange(0, a.len() as int) =~= a);
}

pub proof fn lemma_prefix_refl<A>(a: Seq<A>)
    ensures
        is_prefix(a, a),
{
    assert(a.subrange(0, a.len() as int) =~= a);
}

/// What appending primitives changes and keeps.
pub proof fn lemma_with_prims_frame<Xform, Paint, Point, Geom>(
    v: VgerView<Xform, Paint, Point, Geom>,
    ps: Seq<Prim<Geom>>,
)
    requires
        v.frame_ok(),
    ensures
        v.with_prims(ps).frame_ok(),
        v.with_prims(ps).cur_scene == v.cur_scene,
        v.with_prims(ps).tx_stack == v.tx_stack,
        v.with_prims(ps).xform_count == v.xform_count,
        v.with_prims(ps).current().xforms == v.current().xforms,
        v.with_prims(ps).layer() == v.layer() + ps,
{
}

/// What appending control vertices changes and keeps.
pub proof fn lemma_with_cvs_frame<Xform, Paint, Point, Geom>(
    v: VgerView<Xform, Paint, Point, Geom>,
    ps: Seq<Point>,
)
    requires
        v.frame_ok(),
    ensures
        v.with_cvs(ps).frame_ok(),
        v.with_cvs(ps).cur_scene == v.cur_scene,
        v.with_cvs(ps).tx_stack == v.tx_stack,
        v.with_cvs(ps).xform_count == v.xform_count,
        v.with_cvs(ps).current().xforms == v.current().xforms,
        v.with_cvs(ps).layer() == v.layer(),
{
}

/// What recording a transform changes and keeps.
pub proof fn lemma_with_xform_frame<Xform, Paint, Point, Geom>(v: VgerView<Xform, Paint, Point, Geom>)
    requires
        v.frame_ok(),
    ensures
        v.with_xform().frame_ok(),
        v.with_xform().cur_scene == v.cur_scene,
        v.with_xform().tx_stack == v.tx_stack,
        v.with_xform().layer() == v.layer(),
        is_prefix(v.current().xforms, v.with_xform().current().xforms),
        v.xform_count < MAX_PRIMS ==> v.with_xform().current().xforms == v.current().xforms.push(
            v.tx_stack.last(),
        ),
        v.xform_count < MAX_PRIMS ==> v.with_xform().xform_count == v.xform_count + 1,
{
    if v.xform_count < MAX_PRIMS {
        assert(v.current().xforms.push(v.tx_stack.last()).subrange(0, v.current().xforms.len() as int)
            =~= v.current().xforms);
    } else {
        lemma_prefix_refl(v.current().xforms);
    }
}

/// What adding a paint changes and keeps.
pub proof fn lemma_with_paint_frame<Xform, Paint, Point, Geom>(v: VgerView<Xform, Paint, Point, Geom>, p: Paint)
    requires
        v.frame_ok(),
    ensures
        v.with_paint(p).frame_ok(),
        v.with_paint(p).cur_scene == v.cur_scene,
        v.with_paint(p).tx_stack == v.tx_stack,
        v.with_paint(p).xform_count == v.xform_count,
        v.with_paint(p).current().xforms == v.current().xforms,
        v.with_paint(p).layer() == v.layer(),
{
}

/// Filling bands appends path-fill primitives that all name `xform`, and
/// keeps the stack, the transforms and the path segments.
pub proof fn lemma_path_fills_frame<Xform, Paint, Point, Geom>(
    v: VgerView<Xform, Paint, Point, Geom>,
    bands: Seq<PathBand<Geom>>,
    paint: nat,
    xform: nat,
)
    requires
        v.frame_ok(),
    ensures
        v.path_fills(bands, paint, xform).frame_ok(),
        v.path_fills(bands, paint, xform).cur_scene == v.cur_scene,
        v.path_fills(bands, paint, xform).tx_stack == v.tx_stack,
        v.path_fills(bands, paint, xform).segments == v.segments,
        v.path_fills(bands, paint, xform).xform_count == v.xform_count,
        v.path_fills(bands, paint, xform).current().xforms == v.current().xforms,
        is_prefix(v.layer(), v.path_fills(bands, paint, xform).layer()),
        v.path_fills(bands, paint, xform).layer().len() == v.layer().len() + bands.len(),
        forall|i: int|
            v.layer().len() <= i < v.path_fills(bands, paint, xform).layer().len() ==> {
                &&& (#[trigger] v.path_fills(bands, paint, xform).layer()[i]).xform == xform as u32
                &&& v.path_fills(bands, paint, xform).layer()[i].paint == paint as u32
                &&& v.path_fills(bands, paint, xform).layer()[i].prim_type == PrimType::PathFill
                &&& v.path_fills(bands, paint, xform).layer()[i].geometry == bands[i - v.layer().len()].bounds
            },
    decreases bands.len(),
{
    if bands.len() == 0 {
        lemma_prefix_refl(v.layer());
    } else {
        let b = bands.last();
        let u = v.path_fills(bands.drop_last(), paint, xform);
        lemma_path_fills_frame(v, bands.drop_last(), paint, xform);
        let c = crate::path::chain_cvs(u.segments, b.next@, b.first, u.segments.len());
        lemma_with_cvs_frame(u, c);
        let u1 = u.with_cvs(c);
        let w = u.path_fill(b, paint, xform);
        let p = w.layer().last();
        lemma_with_prims_frame(u1, seq![p]);
        assert(w.layer() == u.layer() + seq![p]);
        lemma_prefix_append(u.layer(), seq![p]);
        lemma_prefix_trans(v.layer(), u.layer(), w.layer());
        assert forall|i: int| v.layer().len() <= i < w.layer().len() implies {
            &&& (#[trigger] w.layer()[i]).xform == xform as u32
            &&& w.layer()[i].paint == paint as u32
            &&& w.layer()[i].prim_type == PrimType::PathFill
            &&& w.layer()[i].geometry == bands[i - v.layer().len()].bounds
        } by {
            if i < u.layer().len() {
                assert(w.layer()[i] == u.layer()[i]);
                assert(bands.drop_last()[i - v.layer().len()] == bands[i - v.layer().len()]);
            } else {
                assert(w.layer()[i] == p);
            }
        }
    }
}

/// Every glyph primitive is a glyph that names `paint` and `xform`, and
/// there is at most one per glyph.
pub proof fn lemma_glyph_prims_xform<Geom>(glyphs: Seq<Option<Geom>>, paint: u32, xform: u32)
    ensures
        glyph_prims(glyphs, paint, xform).len() <= glyphs.len(),
        forall|i: int|
            0 <= i < glyph_prims(glyphs, paint, xform).len() ==> {
                &&& (#[trigger] glyph_prims(glyphs, paint, xform)[i]).xform == xform
                &&& glyph_prims(glyphs, paint, xform)[i].paint == paint
                &&& glyph_prims(glyphs, paint, xform)[i].prim_type == PrimType::Glyph
            },
    decreases glyphs.len(),
{
    if glyphs.len() > 0 {
        lemma_glyph_prims_xform(glyphs.drop_last(), paint, xform);
    }
}

/// Every operation but `begin` keeps the scene and layer, only appends to
/// the current layer and to the current scene's transforms, and changes the
/// transform stack only as `save`, `restore` and `replace_current_transform`
/// do.
pub proof fn lemma_step_frame<Xform, Paint, Point, Geom>(
    v: VgerView<Xform, Paint, Point, Geom>,
    op: Op<Xform, Paint, Point, Geom>,
)
    requires
        v.frame_ok(),
    ensures
        v.step(op).frame_ok(),
        v.step(op).cur_scene == v.cur_scene,
        is_prefix(v.layer(), v.step(op).layer()),
        is_prefix(v.current().xforms, v.step(op).current().xforms),
        is_prefix(v.segments, v.step(op).segments),
        v.step(op).tx_stack == match op {
            Op::Save => v.tx_stack.push(v.tx_stack.last()),
            Op::Restore => if v.tx_stack.len() > 0 {
                v.tx_stack.drop_last()
            } else {
                v.tx_stack
            },
            Op::ReplaceTop(t) => if v.tx_stack.len() > 0 {
                v.tx_stack.update(v.tx_stack.len() - 1, t)
            } else {
                v.tx_stack
            },
            _ => v.tx_stack,
        },
{
    lemma_prefix_refl(v.layer());
    lemma_prefix_refl(v.current().xforms);
    lemma_prefix_refl(v.segments);
    match op {
        Op::QuadTo(b, c) => {
            let seg = crate::path::PathSegment { cvs: [v.pen, b, c] };
            assert(v.segments.push(seg) == v.segments + seq![seg]);
            lemma_prefix_append(v.segments, seq![seg]);
        },
        Op::AddPaint(p) => {
            lemma_with_paint_frame(v, p);
        },
        Op::Shape(t, paint, g) => {
            lemma_with_xform_frame(v);
            let ps = seq![Prim::shape(t, paint as u32, v.xform_slot() as u32, g)];
            lemma_with_prims_frame(v.with_xform(), ps);
            lemma_prefix_append(v.layer(), ps);
        },
        Op::Fill(bands, paint) => {
            lemma_with_xform_frame(v);
            lemma_path_fills_frame(v.with_xform(), bands, paint, v.xform_slot());
            lemma_prefix_trans(v.layer(), v.with_xform().layer(), v.step(op).layer());
        },
        Op::Text(p, glyphs) => {
            lemma_with_paint_frame(v, p);
            let u = v.with_paint(p);
            lemma_with_xform_frame(u);
            let ps = glyph_prims(glyphs, v.paint_slot() as u32, u.xform_slot() as u32);
            lemma_with_prims_frame(u.with_xform(), ps);
            lemma_prefix_append(v.layer(), ps);
        },
        _ => {},
    }
}

/// Running operations (none of them `begin`) keeps the scene and layer, and
/// only appends to the current layer and the current scene's transforms.
pub proof fn lemma_run_frame<Xform, Paint, Point, Geom>(
    v: VgerView<Xform, Paint, Point, Geom>,
    ops: Seq<Op<Xform, Paint, Point, Geom>>,
)
    requires
        v.frame_ok(),
    ensures
        v.run(ops).frame_ok(),
        v.run(ops).cur_scene == v.cur_scene,
        is_prefix(v.layer(), v.run(ops).layer()),
        is_prefix(v.current().xforms, v.run(ops).current().xforms),
        is_prefix(v.segments, v.run(ops).segments),
    decreases ops.len(),
{
    if ops.len() == 0 {
        lemma_prefix_refl(v.layer());
        lemma_prefix_refl(v.current().xforms);
        lemma_prefix_refl(v.segments);
    } else {
        let u = v.run(ops.drop_last());
        lemma_run_frame(v, ops.drop_last());
        lemma_step_frame(u, ops.last());
        lemma_prefix_trans(v.layer(), u.layer(), v.run(ops).layer());
        lemma_prefix_trans(v.current().xforms, u.current().xforms, v.run(ops).current().xforms);
        lemma_prefix_trans(v.segments, u.segments, v.run(ops).segments);
    }
}

/// While the stack stays deeper than `n`, its bottom `n` transforms are
/// left as they were.
pub proof fn lemma_run_keeps_stack_bottom<Xform, Paint, Point, Geom>(
    v: VgerView<Xform, Paint, Point, Geom>,
    ops: Seq<Op<Xform, Paint, Point, Geom>>,
    n: nat,
)
    requires
        v.frame_ok(),
        forall|k: int| 0 <= k <= ops.len() ==> #[trigger] v.run(ops.take(k)).tx_stack.len() > n,
    ensures
        v.run(ops).tx_stack.take(n as int) == v.tx_stack.take(n as int),
    decreases ops.len(),
{
    assert(ops.take(0) =~= Seq::<Op<Xform, Paint, Point, Geom>>::empty());
    assert(ops.take(ops.len() as int) =~= ops);
    if ops.len() > 0 {
        let front = ops.drop_last();
        assert forall|k: int| 0 <= k <= front.len() implies #[trigger] v.run(front.take(k)).tx_stack.len() > n by {
            assert(front.take(k) =~= ops.take(k));
        }
        lemma_run_keeps_stack_bottom(v, front, n);
        let u = v.run(front);
        assert(front.take(front.len() as int) =~= front);
        assert(u.tx_stack.len() > n);
        lemma_run_frame(v, front);
        lemma_step_frame(u, ops.last());
        assert(v.run(ops).tx_stack.take(n as int) =~= u.tx_stack.take(n as int));
    }
}

} // verus!
