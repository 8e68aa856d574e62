use vstd::prelude::*;

verus! {

/// A quadratic segment of a path: its three control points.
#[derive(Clone, Copy, Debug)]
pub struct PathSegment<Point> {
    pub cvs: [Point; 3],
}

impl<Point> PathSegment<Point> {
    /// A segment from `a` through control point `b` to `c`.
    pub fn new(a: Point, b: Point, c: Point) -> (s: PathSegment<Point>)
        ensures
            s == (PathSegment { cvs: [a, b, c] }),
            s.cvs@ == seq![a, b, c],
    {
        PathSegment { cvs: [a, b, c] }
    }
}

/// One band of a scanned path, which one path-fill primitive covers: the
/// first segment of its chain, the scanner's links from each segment to the
/// next one in the band, and the primitive's geometry.
#[derive(Clone, Debug)]
pub struct PathBand<Geom> {
    pub first: Option<usize>,
    pub next: Vec<Option<usize>>,
    pub bounds: Geom,
}

/// Following the links `next` from `at`, within `fuel` steps every index met
/// has a link and the chain ends.
pub open spec fn chain_ends(next: Seq<Option<usize>>, at: Option<usize>, fuel: nat) -> bool
    decreases fuel,
{
    match at {
        None => true,
        Some(a) => fuel > 0 && a < next.len() && chain_ends(next, next[a as int], (fuel - 1) as nat),
    }
}

/// The number of segments in the chain from `at`.
pub open spec fn chain_len(next: Seq<Option<usize>>, at: Option<usize>, fuel: nat) -> nat
    decreases fuel,
{
    match at {
        None => 0,
        Some(a) => if fuel == 0 || a >= next.len() {
            0
        } else {
            1 + chain_len(next, next[a as int], (fuel - 1) as nat)
        },
    }
}

/// The control points of the segments of the chain from `at`, three per
/// segment, in chain order.
pub open spec fn chain_cvs<Point>(
    segs: Seq<PathSegment<Point>>,
    next: Seq<Option<usize>>,
    at: Option<usize>,
    fuel: nat,
) -> Seq<Point>
    decreases fuel,
{
    match at {
        None => Seq::empty(),
        Some(a) => if fuel == 0 || a >= next.len() || a >= segs.len() {
            Seq::empty()
        } else {
            segs[a as int].cvs@ + chain_cvs(segs, next, next[a as int], (fuel - 1) as nat)
        },
    }
}

/// A chain has exactly three control points per segment.
pub proof fn lemma_chain_cvs_len<Point>(
    segs: Seq<PathSegment<Point>>,
    next: Seq<Option<usize>>,
    at: Option<usize>,
    fuel: nat,
)
    requires
        next.len() == segs.len(),
    ensures
        chain_cvs(segs, next, at, fuel).len() == 3 * chain_len(next, at, fuel),
    decreases fuel,
{
    match at {
        None => {},
        Some(a) => {
            if fuel > 0 && a < next.len() {
                lemma_chain_cvs_len(segs, next, next[a as int], (fuel - 1) as nat);
            }
        },
    }
}

/// The band links every segment of `segs`, its chain ends, and its segments
/// can be counted in the `u32` that a primitive holds.
pub open spec fn band_ok<Point, Geom>(segs: Seq<PathSegment<Point>>, band: PathBand<Geom>) -> bool {
    &&& band.next@.len() == segs.len()
    &&& chain_ends(band.next@, band.first, segs.len())
    &&& chain_len(band.next@, band.first, segs.len()) <= u32::MAX
}

/// The control points of the band of `segs` that starts at `first` and
/// follows `next`, in the order a path fill reads them.
pub fn band_cvs<Point: Copy>(
    segs: &Vec<PathSegment<Point>>,
    next: &Vec<Option<usize>>,
    first: Option<usize>,
) -> (out: Vec<Point>)
    requires
        next@.len() == segs@.len(),
        chain_ends(next@, first, segs@.len()),
    ensures
        out@ == chain_cvs(segs@, next@, first, segs@.len()),
{
    let mut out: Vec<Point> = Vec::new();
    let mut index = first;
    let ghost mut fuel: nat = segs@.len();
    while index.is_some()
        invariant
            next@.len() == segs@.len(),
            chain_ends(next@, index, fuel),
            out@ + chain_cvs(segs@, next@, index, fuel) == chain_cvs(segs@, next@, first, segs@.len()),
        decreases fuel,
    {
        let a = index.unwrap();
        let seg = &segs[a];
        let ghost before = out@;
        for i in 0..3usize
            invariant
                out@ == before + seg.cvs@.take(i as int),
        {
            out.push(seg.cvs[i]);
            assert(seg.cvs@.take(i + 1) == seg.cvs@.take(i as int).push(seg.cvs@[i as int]));
        }
        assert(seg.cvs@.take(3) == seg.cvs@);
        assert(before + chain_cvs(segs@, next@, index, fuel)
            == (before + seg.cvs@) + chain_cvs(segs@, next@, next@[a as int], (fuel - 1) as nat));
        index = next[a];
        proof {
            fuel = (fuel - 1) as nat;
        }
    }
    assert(out@ + Seq::<Point>::empty() == out@);
    out
}

} // verus!
