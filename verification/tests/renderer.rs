use vger::defs::{MAX_PRIMS, SCENE_COUNT};
use vger::path::{band_cvs, PathBand, PathSegment};
use vger::prim::PrimType;
use vger::renderer::Vger;
use vger::vertices::Vertices;

// Transforms, paints, points and geometry stand in as small integers.
type V = Vger<u32, u32, (i32, i32), u32>;

fn started() -> V {
    let mut v: V = Vger::new((0, 0));
    v.begin(100, (0, 0));
    v
}

#[test]
fn new_renderer_is_empty() {
    let v: V = Vger::new((5, 6));
    assert_eq!(v.cur_scene(), 0);
    assert_eq!(v.cur_layer(), 0);
    assert_eq!(v.transform_depth(), 0);
    assert_eq!(v.paint_count(), 0);
    assert_eq!(v.xform_count(), 0);
    assert_eq!(v.pen(), (5, 6));
    assert!(v.path_segments().is_empty());
    for i in 0..SCENE_COUNT {
        let s = v.scene(i);
        assert_eq!(s.prims.len(), 4);
        assert!(s.prims.iter().all(|l| l.is_empty()));
        assert!(s.cvs.is_empty() && s.xforms.is_empty() && s.paints.is_empty());
    }
}

#[test]
fn begin_moves_to_next_scene_and_resets() {
    let mut v = started();
    assert_eq!(v.cur_scene(), 1);
    assert_eq!(v.transform_depth(), 1);
    assert_eq!(v.current_transform(), Some(100));
    v.move_to((3, 4));
    let p = v.add_paint(7);
    v.fill_circle(1, p);
    v.begin(200, (0, 0));
    assert_eq!(v.cur_scene(), 2);
    assert_eq!(v.paint_count(), 0);
    assert_eq!(v.xform_count(), 0);
    assert_eq!(v.pen(), (0, 0));
    assert_eq!(v.current_transform(), Some(200));
    assert!(v.layer_prims().is_empty());
    // The scene of the frame before is left as it was.
    let prev = v.scene(1);
    assert_eq!(prev.paints, vec![7]);
    assert_eq!(prev.xforms, vec![100]);
    assert_eq!(prev.prims[0].len(), 1);
}

#[test]
fn scenes_rotate_with_period_three() {
    let mut v = started();
    let first = v.cur_scene();
    v.begin(1, (0, 0));
    v.begin(1, (0, 0));
    assert_ne!(v.cur_scene(), first);
    v.begin(1, (0, 0));
    assert_eq!(v.cur_scene(), first);
}

#[test]
fn save_then_restore_leaves_stack_unchanged() {
    let mut v = started();
    v.replace_current_transform(5);
    v.save();
    assert_eq!(v.transform_depth(), 2);
    assert_eq!(v.current_transform(), Some(5));
    v.replace_current_transform(9);
    assert_eq!(v.current_transform(), Some(9));
    v.restore();
    assert_eq!(v.transform_depth(), 1);
    assert_eq!(v.current_transform(), Some(5));
}

#[test]
fn restore_on_empty_stack_does_nothing() {
    let mut v: V = Vger::new((0, 0));
    v.restore();
    assert_eq!(v.transform_depth(), 0);
    assert_eq!(v.current_transform(), None);
    v.replace_current_transform(3);
    assert_eq!(v.current_transform(), None);
}

#[test]
fn paints_get_consecutive_indices() {
    let mut v = started();
    let a = v.add_paint(10);
    let b = v.add_paint(11);
    let c = v.add_paint(12);
    assert_eq!((a.index(), b.index(), c.index()), (0, 1, 2));
    assert_eq!(v.current_scene().paints, vec![10, 11, 12]);
    assert_eq!(v.paint_count(), 3);
}

#[test]
fn paints_beyond_the_limit_get_index_zero() {
    let mut v = started();
    for i in 0..MAX_PRIMS {
        let p = v.add_paint(i as u32);
        assert_eq!(p.index(), i);
    }
    let extra = v.add_paint(99_999);
    assert_eq!(extra.index(), 0);
    assert_eq!(v.paint_count(), MAX_PRIMS);
    assert_eq!(v.current_scene().paints.len(), MAX_PRIMS);
    assert_eq!(v.current_scene().paints[0], 0);
}

#[test]
fn shapes_record_kind_paint_and_top_transform() {
    let mut v = started();
    let p0 = v.add_paint(1);
    let p1 = v.add_paint(2);
    v.fill_circle(10, p0);
    v.save();
    v.replace_current_transform(300);
    v.stroke_arc(11, p1);
    v.restore();
    v.fill_rect(12, p0);
    v.stroke_rect(13, p1);
    v.stroke_segment(14, p0);
    v.stroke_bezier(15, p1);
    let prims = v.layer_prims();
    let kinds: Vec<PrimType> = prims.iter().map(|p| p.prim_type).collect();
    assert_eq!(
        kinds,
        vec![
            PrimType::Circle,
            PrimType::Arc,
            PrimType::Rect,
            PrimType::RectStroke,
            PrimType::Segment,
            PrimType::Bezier
        ]
    );
    let paints: Vec<u32> = prims.iter().map(|p| p.paint).collect();
    assert_eq!(paints, vec![0, 1, 0, 1, 0, 1]);
    let xforms: Vec<u32> = prims.iter().map(|p| p.xform).collect();
    assert_eq!(xforms, vec![0, 1, 2, 3, 4, 5]);
    let geoms: Vec<u32> = prims.iter().map(|p| p.geometry).collect();
    assert_eq!(geoms, vec![10, 11, 12, 13, 14, 15]);
    assert!(prims.iter().all(|p| p.start == 0 && p.count == 0));
    assert_eq!(v.current_scene().xforms, vec![100, 300, 100, 100, 100, 100]);
    assert_eq!(v.xform_count(), 6);
}

#[test]
fn transforms_beyond_the_limit_get_index_zero() {
    let mut v = started();
    let p = v.add_paint(1);
    for _ in 0..MAX_PRIMS {
        v.fill_circle(0, p);
    }
    v.replace_current_transform(7);
    v.fill_rect(1, p);
    let last = *v.layer_prims().last().unwrap();
    assert_eq!(last.xform, 0);
    assert_eq!(last.prim_type, PrimType::Rect);
    assert_eq!(v.xform_count(), MAX_PRIMS);
    assert_eq!(v.current_scene().xforms.len(), MAX_PRIMS);
    assert_eq!(v.current_scene().xforms[0], 100);
}

#[test]
fn quad_to_chains_segments_from_the_pen() {
    let mut v = started();
    v.move_to((1, 1));
    v.quad_to((2, 3), (4, 5));
    v.quad_to((6, 7), (8, 9));
    assert_eq!(v.pen(), (8, 9));
    let segs = v.path_segments();
    assert_eq!(segs.len(), 2);
    assert_eq!(segs[0].cvs, [(1, 1), (2, 3), (4, 5)]);
    assert_eq!(segs[1].cvs, [(4, 5), (6, 7), (8, 9)]);
}

fn build_path(v: &mut V) {
    v.move_to((0, 0));
    v.quad_to((1, 1), (2, 2));
    v.quad_to((3, 3), (4, 4));
    v.quad_to((5, 5), (0, 0));
}

fn bands() -> Vec<PathBand<u32>> {
    // Band A: segment 2, then segment 0; band B is empty; band C: segment 1.
    vec![
        PathBand { first: Some(2), next: vec![None, None, Some(0)], bounds: 70 },
        PathBand { first: None, next: vec![None, None, None], bounds: 71 },
        PathBand { first: Some(1), next: vec![None, None, None], bounds: 72 },
    ]
}

#[test]
fn band_control_points_follow_the_chain() {
    let segs = vec![
        PathSegment::new((0, 0), (1, 1), (2, 2)),
        PathSegment::new((10, 10), (11, 11), (12, 12)),
        PathSegment::new((20, 20), (21, 21), (22, 22)),
    ];
    let next = vec![None, None, Some(0)];
    assert_eq!(
        band_cvs(&segs, &next, Some(2)),
        vec![(20, 20), (21, 21), (22, 22), (0, 0), (1, 1), (2, 2)]
    );
    assert_eq!(band_cvs(&segs, &next, Some(1)), vec![(10, 10), (11, 11), (12, 12)]);
    assert!(band_cvs(&segs, &next, None).is_empty());
}

#[test]
fn fill_records_one_primitive_per_band_of_the_built_path() {
    let mut v = started();
    let p = v.add_paint(5);
    v.fill_circle(0, p);
    build_path(&mut v);
    v.fill(p, &bands());
    let prims = v.layer_prims();
    assert_eq!(prims.len(), 4);
    let fills: Vec<(PrimType, u32, u32, u32, u32, u32)> = prims[1..]
        .iter()
        .map(|q| (q.prim_type, q.paint, q.xform, q.start, q.count, q.geometry))
        .collect();
    assert_eq!(
        fills,
        vec![
            (PrimType::PathFill, 0, 1, 0, 2, 70),
            (PrimType::PathFill, 0, 1, 6, 0, 71),
            (PrimType::PathFill, 0, 1, 6, 1, 72),
        ]
    );
    assert_eq!(
        v.current_scene().cvs,
        vec![(4, 4), (5, 5), (0, 0), (0, 0), (1, 1), (2, 2), (2, 2), (3, 3), (4, 4)]
    );
    assert_eq!(v.xform_count(), 2);
    assert_eq!(v.path_segments().len(), 3);
}

#[test]
fn text_records_one_glyph_per_rect() {
    let mut v = started();
    v.add_paint(1);
    let p = v.add_paint(2);
    v.fill_circle(0, p);
    v.text(3, &vec![Some(40), Some(41), Some(42)]);
    assert_eq!(v.current_scene().paints, vec![1, 2, 3]);
    let glyphs: Vec<(PrimType, u32, u32, u32)> = v.layer_prims()[1..]
        .iter()
        .map(|q| (q.prim_type, q.paint, q.xform, q.geometry))
        .collect();
    assert_eq!(
        glyphs,
        vec![(PrimType::Glyph, 2, 1, 40), (PrimType::Glyph, 2, 1, 41), (PrimType::Glyph, 2, 1, 42)]
    );
}

#[test]
fn text_without_glyphs_still_adds_paint_and_transform() {
    let mut v = started();
    v.text(3, &Vec::new());
    assert_eq!(v.paint_count(), 1);
    assert_eq!(v.xform_count(), 1);
    assert!(v.layer_prims().is_empty());
}

#[test]
fn vertices_keep_their_lists() {
    let m = Vertices::new(vec![(0, 0), (1, 0), (0, 1)], vec![0u32, 1, 2]);
    assert_eq!(m.vertex_list(), &vec![(0, 0), (1, 0), (0, 1)]);
    assert_eq!(m.index_list(), &vec![0, 1, 2]);
}

#[test]
fn text_skips_glyphs_without_geometry() {
    let mut v = started();
    v.text(8, &vec![None, Some(50), None, Some(51)]);
    let glyphs: Vec<(PrimType, u32, u32, u32)> = v
        .layer_prims()
        .iter()
        .map(|q| (q.prim_type, q.paint, q.xform, q.geometry))
        .collect();
    assert_eq!(glyphs, vec![(PrimType::Glyph, 0, 0, 50), (PrimType::Glyph, 0, 0, 51)]);
    assert_eq!(v.current_scene().paints, vec![8]);
    assert_eq!(v.current_scene().xforms, vec![100]);
}

#[test]
fn layer_stays_zero_across_frames() {
    let mut v: V = Vger::new((0, 0));
    assert_eq!(v.cur_layer(), 0);
    for f in 0..4 {
        v.begin(f, (0, 0));
        let p = v.add_paint(f);
        v.fill_circle(f, p);
        v.save();
        v.text(f, &vec![Some(f)]);
        v.restore();
        assert_eq!(v.cur_layer(), 0);
    }
}

#[test]
fn restore_returns_stack_across_draws_and_nested_pairs() {
    let mut v = started();
    v.save();
    v.replace_current_transform(10);
    let p = v.add_paint(1);
    v.fill_circle(1, p);
    v.save();
    v.replace_current_transform(20);
    v.stroke_segment(2, p);
    v.text(3, &vec![Some(3)]);
    v.restore();
    assert_eq!(v.current_transform(), Some(10));
    build_path(&mut v);
    v.fill(p, &vec![PathBand { first: Some(1), next: vec![None, None, None], bounds: 4 }]);
    v.restore();
    assert_eq!(v.transform_depth(), 1);
    assert_eq!(v.current_transform(), Some(100));
}

#[test]
fn primitives_keep_naming_the_transform_they_were_drawn_with() {
    let mut v = started();
    let p = v.add_paint(1);
    v.replace_current_transform(11);
    v.fill_circle(1, p);
    v.save();
    v.replace_current_transform(22);
    build_path(&mut v);
    v.fill(p, &vec![PathBand { first: Some(2), next: vec![None, None, None], bounds: 2 }]);
    v.replace_current_transform(33);
    v.text(5, &vec![Some(3)]);
    v.restore();
    v.replace_current_transform(44);
    v.save();
    v.stroke_bezier(4, p);
    v.restore();
    let xforms = v.current_scene().xforms.clone();
    let named: Vec<(u32, u32)> = v
        .layer_prims()
        .iter()
        .map(|q| (q.geometry, xforms[q.xform as usize]))
        .collect();
    assert_eq!(named, vec![(1, 11), (2, 22), (3, 33), (4, 44)]);
}

#[test]
fn check_band_accepts_exactly_the_fillable_bands() {
    let mut v = started();
    build_path(&mut v);
    for b in bands() {
        assert!(v.check_band(&b));
    }
    // Wrong number of links.
    assert!(!v.check_band(&PathBand { first: None, next: vec![None], bounds: 0 }));
    // A link past the segments.
    assert!(!v.check_band(&PathBand { first: Some(0), next: vec![Some(5), None, None], bounds: 0 }));
    // A cycle never ends.
    assert!(!v.check_band(&PathBand { first: Some(0), next: vec![Some(1), Some(0), None], bounds: 0 }));
    // The first segment itself out of range.
    assert!(!v.check_band(&PathBand { first: Some(3), next: vec![None, None, None], bounds: 0 }));
}
