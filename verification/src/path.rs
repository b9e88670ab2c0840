//! Path normalization: resolving drawing instructions into explicit segments,
//! rebuilding instruction lists from segments, and splitting the seam out of a
//! stroked outline.

use vstd::prelude::*;

use crate::geometry::{
    path_in_bounds, point_in_bounds, rect_in_bounds, seg_in_bounds, BezPath, PathEl, PathSeg,
    Point, Rect, MAX_COORD,
};
use vstd::arithmetic::div_mod::{
    lemma_div_nonincreasing, lemma_fundamental_div_mod, lemma_mod_division_less_than_divisor,
};

verus! {

/// Matching tolerance for seam detection, in micro-units (half a source unit).
pub const SEAM_TOLERANCE: i64 = 500_000;

/// The start point of a segment.
pub open spec fn seg_start(s: PathSeg) -> Point {
    match s {
        PathSeg::Line(p0, _) => p0,
        PathSeg::Quad(p0, _, _) => p0,
        PathSeg::Cubic(p0, _, _, _) => p0,
    }
}

/// The end point of a segment.
pub open spec fn seg_end(s: PathSeg) -> Point {
    match s {
        PathSeg::Line(_, p1) => p1,
        PathSeg::Quad(_, _, p2) => p2,
        PathSeg::Cubic(_, _, _, p3) => p3,
    }
}

/// Segments emitted for one instruction, given the current subpath start and
/// current point.
pub open spec fn el_segs(start: Point, last: Point, el: PathEl) -> Seq<PathSeg> {
    match el {
        PathEl::MoveTo(_) => Seq::empty(),
        PathEl::LineTo(p) => seq![PathSeg::Line(last, p)],
        PathEl::QuadTo(c, p) => seq![PathSeg::Quad(last, c, p)],
        PathEl::CurveTo(c1, c2, p) => seq![PathSeg::Cubic(last, c1, c2, p)],
        PathEl::ClosePath => if last != start {
            seq![PathSeg::Line(last, start)]
        } else {
            Seq::empty()
        },
    }
}

/// Subpath start point after one instruction.
pub open spec fn next_start(start: Point, el: PathEl) -> Point {
    match el {
        PathEl::MoveTo(p) => p,
        _ => start,
    }
}

/// Current point after one instruction.
pub open spec fn next_last(start: Point, last: Point, el: PathEl) -> Point {
    match el {
        PathEl::MoveTo(p) => p,
        PathEl::LineTo(p) => p,
        PathEl::QuadTo(_, p) => p,
        PathEl::CurveTo(_, _, p) => p,
        PathEl::ClosePath => if last != start {
            start
        } else {
            last
        },
    }
}

/// Segments of an instruction suffix, given the subpath start and current
/// point reached so far.
pub open spec fn segs_rec(els: Seq<PathEl>, start: Point, last: Point) -> Seq<PathSeg>
    decreases els.len(),
{
    if els.len() == 0 {
        Seq::empty()
    } else {
        el_segs(start, last, els[0]) + segs_rec(
            els.drop_first(),
            next_start(start, els[0]),
            next_last(start, last, els[0]),
        )
    }
}

/// The segments of an instruction sequence that begins with a move.
pub open spec fn path_segments(els: Seq<PathEl>) -> Seq<PathSeg> {
    segs_rec(els, Point { x: 0, y: 0 }, Point { x: 0, y: 0 })
}

/// Whether an instruction sequence is empty or begins with a move, so that
/// every segment has an explicit start.
pub open spec fn starts_with_move(els: Seq<PathEl>) -> bool {
    els.len() == 0 || els[0] is MoveTo
}

/// Resolves a path's instructions into explicit segments.
///
/// A move sets the subpath start; line, quadratic and cubic instructions each
/// yield one segment from the current point; closing a subpath yields the
/// closing line segment only when the current point differs from the subpath
/// start.
pub fn to_segments(path: &BezPath) -> (segs: Vec<PathSeg>)
    requires
        starts_with_move(path.elements@),
    ensures
        segs@ == path_segments(path.elements@),
        path_in_bounds(path.elements@) ==> forall|j: int|
            0 <= j < segs@.len() ==> seg_in_bounds(#[trigger] segs@[j]),
{
    let els = &path.elements;
    let n = els.len();
    let mut segs: Vec<PathSeg> = Vec::new();
    let mut start = Point { x: 0, y: 0 };
    let mut last = Point { x: 0, y: 0 };
    let mut i: usize = 0;
    proof {
        assert(els@.skip(0) =~= els@);
        assert(segs@ + segs_rec(els@, start, last) =~= segs_rec(els@, start, last));
    }
    while i < n
        invariant
            n == els@.len(),
            0 <= i <= n,
            path_segments(els@) == segs@ + segs_rec(els@.skip(i as int), start, last),
            path_in_bounds(els@) ==> point_in_bounds(start) && point_in_bounds(last) && forall|
                j: int,
            |
                0 <= j < segs@.len() ==> seg_in_bounds(#[trigger] segs@[j]),
        decreases n - i,
    {
        let el = els[i];
        let ghost old_segs = segs@;
        let ghost old_start = start;
        let ghost old_last = last;
        proof {
            assert(els@.skip(i as int).drop_first() =~= els@.skip(i + 1));
            assert(els@.skip(i as int)[0] == els@[i as int]);
        }
        match el {
            PathEl::MoveTo(p) => {
                start = p;
                last = p;
            },
            PathEl::LineTo(p) => {
                segs.push(PathSeg::Line(last, p));
                last = p;
            },
            PathEl::QuadTo(c, p) => {
                segs.push(PathSeg::Quad(last, c, p));
                last = p;
            },
            PathEl::CurveTo(c1, c2, p) => {
                segs.push(PathSeg::Cubic(last, c1, c2, p));
                last = p;
            },
            PathEl::ClosePath => {
                if !(last.x == start.x && last.y == start.y) {
                    segs.push(PathSeg::Line(last, start));
                    last = start;
                }
            },
        }
        proof {
            assert(start == next_start(old_start, els@[i as int]));
            assert(last == next_last(old_start, old_last, els@[i as int]));
            assert(segs@ =~= old_segs + el_segs(old_start, old_last, els@[i as int]));
            assert(old_segs + segs_rec(els@.skip(i as int), old_start, old_last) =~= segs@
                + segs_rec(els@.skip(i + 1), start, last));
        }
        i = i + 1;
    }
    proof {
        assert(els@.skip(n as int) =~= Seq::<PathEl>::empty());
        assert(segs@ + Seq::<PathSeg>::empty() =~= segs@);
    }
    segs
}

/// Instructions rebuilt from a segment suffix, given the point the pen
/// currently rests on (if any).
pub open spec fn els_rec(segs: Seq<PathSeg>, current: Option<Point>) -> Seq<PathEl>
    decreases segs.len(),
{
    if segs.len() == 0 {
        Seq::empty()
    } else {
        let s = segs[0];
        let lead: Seq<PathEl> = if current != Some(seg_start(s)) {
            seq![PathEl::MoveTo(seg_start(s))]
        } else {
            Seq::empty()
        };
        let el = match s {
            PathSeg::Line(_, p1) => PathEl::LineTo(p1),
            PathSeg::Quad(_, c, p2) => PathEl::QuadTo(c, p2),
            PathSeg::Cubic(_, c1, c2, p3) => PathEl::CurveTo(c1, c2, p3),
        };
        lead + seq![el] + els_rec(segs.drop_first(), Some(seg_end(s)))
    }
}

/// The instruction sequence that stands for a segment list: a move is
/// inserted wherever a segment does not start at the previous endpoint.
pub open spec fn els_from_segments(segs: Seq<PathSeg>) -> Seq<PathEl> {
    els_rec(segs, Option::None)
}

/// Rebuilds a path from explicit segments, inserting a move wherever a
/// segment does not start at the previous segment's endpoint.
pub fn from_segments(segs: &Vec<PathSeg>) -> (path: BezPath)
    ensures
        path.elements@ == els_from_segments(segs@),
{
    let n = segs.len();
    let mut els: Vec<PathEl> = Vec::new();
    let mut current: Option<Point> = Option::None;
    let mut i: usize = 0;
    proof {
        assert(segs@.skip(0) =~= segs@);
        assert(els@ + els_rec(segs@, current) =~= els_rec(segs@, current));
    }
    while i < n
        invariant
            n == segs@.len(),
            0 <= i <= n,
            els_from_segments(segs@) == els@ + els_rec(segs@.skip(i as int), current),
        decreases n - i,
    {
        let s = segs[i];
        let ghost old_els = els@;
        let ghost old_current = current;
        proof {
            assert(segs@.skip(i as int).drop_first() =~= segs@.skip(i + 1));
            assert(segs@.skip(i as int)[0] == segs@[i as int]);
        }
        let start = match s {
            PathSeg::Line(p0, _) => p0,
            PathSeg::Quad(p0, _, _) => p0,
            PathSeg::Cubic(p0, _, _, _) => p0,
        };
        let needs_move = match current {
            Option::Some(c) => !(c.x == start.x && c.y == start.y),
            Option::None => true,
        };
        if needs_move {
            els.push(PathEl::MoveTo(start));
        }
        match s {
            PathSeg::Line(_, p1) => {
                els.push(PathEl::LineTo(p1));
                current = Option::Some(p1);
            },
            PathSeg::Quad(_, c, p2) => {
                els.push(PathEl::QuadTo(c, p2));
                current = Option::Some(p2);
            },
            PathSeg::Cubic(_, c1, c2, p3) => {
                els.push(PathEl::CurveTo(c1, c2, p3));
                current = Option::Some(p3);
            },
        }
        proof {
            let s_spec = segs@[i as int];
            let lead: Seq<PathEl> = if old_current != Some(seg_start(s_spec)) {
                seq![PathEl::MoveTo(seg_start(s_spec))]
            } else {
                Seq::empty()
            };
            let el_spec = match s_spec {
                PathSeg::Line(_, p1) => PathEl::LineTo(p1),
                PathSeg::Quad(_, c, p2) => PathEl::QuadTo(c, p2),
                PathSeg::Cubic(_, c1, c2, p3) => PathEl::CurveTo(c1, c2, p3),
            };
            assert(current == Some(seg_end(s_spec)));
            assert(els@ =~= old_els + lead + seq![el_spec]);
            assert(els_rec(segs@.skip(i as int), old_current) == lead + seq![el_spec] + els_rec(
                segs@.skip(i + 1),
                current,
            ));
            assert(old_els + els_rec(segs@.skip(i as int), old_current) =~= els@ + els_rec(
                segs@.skip(i + 1),
                current,
            ));
        }
        i = i + 1;
    }
    proof {
        assert(segs@.skip(n as int) =~= Seq::<PathSeg>::empty());
        assert(els@ + Seq::<PathEl>::empty() =~= els@);
    }
    BezPath { elements: els }
}

/// Whether two points coincide within the seam tolerance on both axes.
pub open spec fn points_match(p: Point, q: Point) -> bool {
    -SEAM_TOLERANCE <= p.x - q.x <= SEAM_TOLERANCE && -SEAM_TOLERANCE <= p.y - q.y
        <= SEAM_TOLERANCE
}

/// Whether a segment coincides with the seam segment, in either direction.
/// Only straight segments can match a seam.
pub open spec fn matches_seam(s: PathSeg, seam: PathSeg) -> bool {
    match (s, seam) {
        (PathSeg::Line(p0, p1), PathSeg::Line(q0, q1)) => (points_match(p0, q0) && points_match(
            p1,
            q1,
        )) || (points_match(p0, q1) && points_match(p1, q0)),
        _ => false,
    }
}

/// The maximal runs of segments that do not match the seam, in order; empty
/// runs are dropped. Matching segments themselves are discarded.
pub open spec fn split_rec(segs: Seq<PathSeg>, seam: PathSeg, run: Seq<PathSeg>) -> Seq<
    Seq<PathSeg>,
>
    decreases segs.len(),
{
    if segs.len() == 0 {
        Seq::empty()
    } else if matches_seam(segs[0], seam) {
        if run.len() > 0 {
            seq![run] + split_rec(segs.drop_first(), seam, Seq::empty())
        } else {
            split_rec(segs.drop_first(), seam, Seq::empty())
        }
    } else {
        split_rec(segs.drop_first(), seam, run.push(segs[0]))
    }
}

/// The subpaths obtained by cutting a segment list at every segment that
/// matches the seam. A trailing run that never meets another seam match is
/// dropped, as the seam itself is always the final segment.
pub open spec fn split_at_seam(segs: Seq<PathSeg>) -> Seq<Seq<PathSeg>> {
    if segs.len() == 0 {
        Seq::empty()
    } else {
        split_rec(segs, segs.last(), Seq::empty())
    }
}

/// Splits a stroked outline at its seam.
///
/// Stroking a closed path yields a single ring whose final segment doubles an
/// adjacent edge. That final segment is taken as the seam; the path is cut at
/// every segment whose endpoints coincide with the seam's within half a
/// source unit, in either direction, and the pieces between the cuts are
/// returned as separate paths.
pub fn separate_stroked_path(path: &BezPath) -> (parts: Vec<BezPath>)
    requires
        starts_with_move(path.elements@),
    ensures
        parts@.len() == split_at_seam(path_segments(path.elements@)).len(),
        forall|i: int|
            0 <= i < parts@.len() ==> (#[trigger] parts@[i]).elements@ == els_from_segments(
                split_at_seam(path_segments(path.elements@))[i],
            ),
{
    let segs = to_segments(path);
    let n = segs.len();
    let mut parts: Vec<BezPath> = Vec::new();
    if n == 0 {
        return parts;
    }
    let seam = segs[n - 1];
    let mut run: Vec<PathSeg> = Vec::new();
    let ghost mut groups: Seq<Seq<PathSeg>> = Seq::empty();
    let mut i: usize = 0;
    proof {
        assert(segs@.skip(0) =~= segs@);
    }
    while i < n
        invariant
            n == segs@.len(),
            0 < n <= usize::MAX,
            0 <= i <= n,
            seam == segs@.last(),
            split_at_seam(segs@) == groups + split_rec(segs@.skip(i as int), seam, run@),
            parts@.len() == groups.len(),
            forall|j: int|
                0 <= j < groups.len() ==> (#[trigger] parts@[j]).elements@ == els_from_segments(
                    groups[j],
                ),
        decreases n - i,
    {
        let s = segs[i];
        let ghost old_groups = groups;
        let ghost old_run = run@;
        proof {
            assert(segs@.skip(i as int).drop_first() =~= segs@.skip(i + 1));
            assert(segs@.skip(i as int)[0] == segs@[i as int]);
        }
        if seg_matches_seam(&s, &seam) {
            if run.len() > 0 {
                let part = from_segments(&run);
                parts.push(part);
                proof {
                    groups = groups.push(run@);
                }
                run = Vec::new();
                proof {
                    assert(run@ =~= Seq::<PathSeg>::empty());
                    assert(groups =~= old_groups + seq![old_run]);
                    assert(split_rec(segs@.skip(i as int), seam, old_run) == seq![old_run]
                        + split_rec(segs@.skip(i + 1), seam, Seq::empty()));
                    assert(old_groups + split_rec(segs@.skip(i as int), seam, old_run) =~= groups
                        + split_rec(segs@.skip(i + 1), seam, run@));
                }
            } else {
                proof {
                    assert(run@ =~= Seq::<PathSeg>::empty());
                }
            }
        } else {
            run.push(s);
            proof {
                assert(run@ =~= old_run.push(segs@[i as int]));
            }
        }
        i = i + 1;
    }
    proof {
        assert(segs@.skip(n as int) =~= Seq::<PathSeg>::empty());
        assert(split_at_seam(segs@) =~= groups);
    }
    parts
}

/// Whether a segment coincides with the seam within the seam tolerance,
/// in either direction.
fn seg_matches_seam(s: &PathSeg, seam: &PathSeg) -> (r: bool)
    ensures
        r == matches_seam(*s, *seam),
{
    match (s, seam) {
        (PathSeg::Line(p0, p1), PathSeg::Line(q0, q1)) => {
            (points_match_exec(p0, q0) && points_match_exec(p1, q1)) || (points_match_exec(p0, q1)
                && points_match_exec(p1, q0))
        },
        _ => false,
    }
}

/// Whether two points coincide within the seam tolerance on both axes.
fn points_match_exec(p: &Point, q: &Point) -> (r: bool)
    ensures
        r == points_match(*p, *q),
{
    let dx: i128 = p.x as i128 - q.x as i128;
    let dy: i128 = p.y as i128 - q.y as i128;
    let tol: i128 = SEAM_TOLERANCE as i128;
    -tol <= dx && dx <= tol && -tol <= dy && dy <= tol
}

/// Division by a positive divisor, rounded toward minus infinity.
pub open spec fn floor_div(n: int, d: int) -> int
    recommends
        d > 0,
{
    if n >= 0 {
        n / d
    } else {
        -(((-n) + d - 1) / d)
    }
}

/// Division by a positive divisor, rounded toward plus infinity.
pub open spec fn ceil_div(n: int, d: int) -> int
    recommends
        d > 0,
{
    if n >= 0 {
        (n + d - 1) / d
    } else {
        -((-n) / d)
    }
}

/// The axis minimum a quadratic reaches between its endpoints when its
/// control coordinate lies below both: the curve's extremum
/// (p0 p2 - c^2) / (p0 + p2 - 2 c), rounded down.
pub open spec fn quad_min_ext(p0: int, c: int, p2: int) -> int
    recommends
        c < p0 && c < p2,
{
    floor_div(p0 * p2 - c * c, p0 + p2 - 2 * c)
}

/// The axis maximum a quadratic reaches between its endpoints when its
/// control coordinate lies above both: the curve's extremum, rounded up.
pub open spec fn quad_max_ext(p0: int, c: int, p2: int) -> int
    recommends
        c > p0 && c > p2,
{
    ceil_div(c * c - p0 * p2, 2 * c - p0 - p2)
}

/// The interior extremum points of a quadratic, one per axis whose control
/// coordinate lies strictly outside the endpoints: the curve's true
/// extremum on that axis, rounded outward, carried by a point whose other
/// coordinate repeats the start point so it widens nothing.
pub open spec fn quad_extrema(p0: Point, c: Point, p2: Point) -> Seq<Point> {
    let ex: Seq<Point> = if c.x < p0.x && c.x < p2.x {
        seq![Point { x: quad_min_ext(p0.x as int, c.x as int, p2.x as int) as i64, y: p0.y }]
    } else if c.x > p0.x && c.x > p2.x {
        seq![Point { x: quad_max_ext(p0.x as int, c.x as int, p2.x as int) as i64, y: p0.y }]
    } else {
        Seq::empty()
    };
    let ey: Seq<Point> = if c.y < p0.y && c.y < p2.y {
        seq![Point { x: p0.x, y: quad_min_ext(p0.y as int, c.y as int, p2.y as int) as i64 }]
    } else if c.y > p0.y && c.y > p2.y {
        seq![Point { x: p0.x, y: quad_max_ext(p0.y as int, c.y as int, p2.y as int) as i64 }]
    } else {
        Seq::empty()
    };
    ex + ey
}

/// The points that bound a segment: its endpoints, and for a quadratic the
/// rounded-outward interior extremum of each axis whose control coordinate
/// protrudes. A quadratic's control point itself lies outside the curve
/// and contributes nothing. A cubic's extrema are not rational, so its
/// control points stand in; cubics never reach the coordinate mapper.
pub open spec fn seg_points(s: PathSeg) -> Seq<Point> {
    match s {
        PathSeg::Line(p0, p1) => seq![p0, p1],
        PathSeg::Quad(p0, c, p2) => seq![p0, p2] + quad_extrema(p0, c, p2),
        PathSeg::Cubic(p0, c1, c2, p3) => seq![p0, c1, c2, p3],
    }
}

/// All points of a segment list, in order.
pub open spec fn segs_points(segs: Seq<PathSeg>) -> Seq<Point>
    decreases segs.len(),
{
    if segs.len() == 0 {
        Seq::empty()
    } else {
        seg_points(segs[0]) + segs_points(segs.drop_first())
    }
}

/// Grows a rectangle to cover one more point.
pub open spec fn rect_add_point(r: Rect, p: Point) -> Rect {
    Rect {
        x0: if p.x < r.x0 {
            p.x
        } else {
            r.x0
        },
        y0: if p.y < r.y0 {
            p.y
        } else {
            r.y0
        },
        x1: if p.x > r.x1 {
            p.x
        } else {
            r.x1
        },
        y1: if p.y > r.y1 {
            p.y
        } else {
            r.y1
        },
    }
}

/// Folds a point list into a rectangle, starting from the given one.
pub open spec fn rect_fold(pts: Seq<Point>, acc: Rect) -> Rect
    decreases pts.len(),
{
    if pts.len() == 0 {
        acc
    } else {
        rect_fold(pts.drop_first(), rect_add_point(acc, pts[0]))
    }
}

/// The degenerate rectangle at a single point.
pub open spec fn rect_at(p: Point) -> Rect {
    Rect { x0: p.x, y0: p.y, x1: p.x, y1: p.y }
}

/// The rectangle with all four sides at zero.
pub open spec fn zero_rect() -> Rect {
    Rect { x0: 0, y0: 0, x1: 0, y1: 0 }
}

/// The smallest rectangle that holds every point of the list; the zero
/// rectangle when the list is empty.
pub open spec fn hull(pts: Seq<Point>) -> Rect {
    if pts.len() == 0 {
        zero_rect()
    } else {
        rect_fold(pts.drop_first(), rect_at(pts[0]))
    }
}

proof fn lemma_floor_div_bounds(n: int, d: int, lo: int, hi: int)
    requires
        d > 0,
        lo * d <= n,
        n <= hi * d,
    ensures
        lo <= floor_div(n, d) <= hi,
{
    if n >= 0 {
        lemma_fundamental_div_mod(n, d);
        lemma_mod_division_less_than_divisor(n, d);
        let q = n / d;
        let r = n % d;
        assert(lo <= q && q <= hi) by (nonlinear_arith)
            requires
                n == d * q + r,
                0 <= r < d,
                lo * d <= n,
                n <= hi * d,
                d > 0,
        ;
    } else {
        let m = -n;
        lemma_fundamental_div_mod(m + d - 1, d);
        lemma_mod_division_less_than_divisor(m + d - 1, d);
        let q = (m + d - 1) / d;
        let r = (m + d - 1) % d;
        assert(-hi <= q && q <= -lo) by (nonlinear_arith)
            requires
                m + d - 1 == d * q + r,
                0 <= r < d,
                lo * d <= -m,
                -m <= hi * d,
                d > 0,
                m > 0,
        ;
    }
}

proof fn lemma_ceil_div_bounds(n: int, d: int, lo: int, hi: int)
    requires
        d > 0,
        lo * d <= n,
        n <= hi * d,
    ensures
        lo <= ceil_div(n, d) <= hi,
{
    if n >= 0 {
        lemma_fundamental_div_mod(n + d - 1, d);
        lemma_mod_division_less_than_divisor(n + d - 1, d);
        let q = (n + d - 1) / d;
        let r = (n + d - 1) % d;
        assert(lo <= q && q <= hi) by (nonlinear_arith)
            requires
                n + d - 1 == d * q + r,
                0 <= r < d,
                lo * d <= n,
                n <= hi * d,
                d > 0,
                n >= 0,
        ;
    } else {
        let m = -n;
        lemma_fundamental_div_mod(m, d);
        lemma_mod_division_less_than_divisor(m, d);
        let q = m / d;
        let r = m % d;
        assert(-hi <= q && q <= -lo) by (nonlinear_arith)
            requires
                m == d * q + r,
                0 <= r < d,
                lo * d <= -m,
                -m <= hi * d,
                d > 0,
                m > 0,
        ;
    }
}

/// The rounded-down extremum of a low control coordinate lies between the
/// control and both endpoints.
proof fn lemma_quad_min_ext_range(p0: int, c: int, p2: int)
    requires
        c < p0,
        c < p2,
    ensures
        c <= quad_min_ext(p0, c, p2),
        quad_min_ext(p0, c, p2) <= p0,
        quad_min_ext(p0, c, p2) <= p2,
{
    let d = p0 + p2 - 2 * c;
    let n = p0 * p2 - c * c;
    assert(c * d <= n && n <= p0 * d && n <= p2 * d) by (nonlinear_arith)
        requires
            c < p0,
            c < p2,
            d == p0 + p2 - 2 * c,
            n == p0 * p2 - c * c,
    ;
    lemma_floor_div_bounds(n, d, c, p0);
    lemma_floor_div_bounds(n, d, c, p2);
}

/// The rounded-up extremum of a high control coordinate lies between both
/// endpoints and the control.
proof fn lemma_quad_max_ext_range(p0: int, c: int, p2: int)
    requires
        c > p0,
        c > p2,
    ensures
        quad_max_ext(p0, c, p2) <= c,
        p0 <= quad_max_ext(p0, c, p2),
        p2 <= quad_max_ext(p0, c, p2),
{
    let d = 2 * c - p0 - p2;
    let n = c * c - p0 * p2;
    assert(p0 * d <= n && p2 * d <= n && n <= c * d) by (nonlinear_arith)
        requires
            c > p0,
            c > p2,
            d == 2 * c - p0 - p2,
            n == c * c - p0 * p2,
    ;
    lemma_ceil_div_bounds(n, d, p0, c);
    lemma_ceil_div_bounds(n, d, p2, c);
}

/// Division by a positive divisor, rounded toward minus infinity.
fn floor_div_i128(n: i128, d: i128) -> (r: i128)
    requires
        0 < d < 0x1000000000000000000000000000000,
        -0x1000000000000000000000000000000 < n < 0x1000000000000000000000000000000,
    ensures
        r as int == floor_div(n as int, d as int),
{
    if n >= 0 {
        ((n as u128) / (d as u128)) as i128
    } else {
        let m: u128 = (-n) as u128;
        let q: u128 = (m + (d as u128) - 1) / (d as u128);
        proof {
            lemma_div_nonincreasing(m as int + d as int - 1, d as int);
        }
        -(q as i128)
    }
}

/// Division by a positive divisor, rounded toward plus infinity.
fn ceil_div_i128(n: i128, d: i128) -> (r: i128)
    requires
        0 < d < 0x1000000000000000000000000000000,
        -0x1000000000000000000000000000000 < n < 0x1000000000000000000000000000000,
    ensures
        r as int == ceil_div(n as int, d as int),
{
    if n >= 0 {
        let q: u128 = ((n as u128) + (d as u128) - 1) / (d as u128);
        proof {
            lemma_div_nonincreasing(n as int + d as int - 1, d as int);
        }
        q as i128
    } else {
        let m: u128 = (-n) as u128;
        let q: u128 = m / (d as u128);
        proof {
            lemma_div_nonincreasing(m as int, d as int);
        }
        -(q as i128)
    }
}

/// The rounded-down axis minimum of a quadratic whose control coordinate
/// lies below both endpoints.
fn quad_min_ext_exec(p0: i64, c: i64, p2: i64) -> (r: i64)
    requires
        c < p0,
        c < p2,
        -MAX_COORD <= p0 <= MAX_COORD,
        -MAX_COORD <= c <= MAX_COORD,
        -MAX_COORD <= p2 <= MAX_COORD,
    ensures
        r as int == quad_min_ext(p0 as int, c as int, p2 as int),
        c <= r && r <= p0 && r <= p2,
{
    proof {
        lemma_quad_min_ext_range(p0 as int, c as int, p2 as int);
        let b: int = MAX_COORD as int;
        assert(-b * b <= p0 as int * p2 as int <= b * b && 0 <= c as int * c as int <= b
            * b) by (nonlinear_arith)
            requires
                -b <= p0 as int <= b,
                -b <= c as int <= b,
                -b <= p2 as int <= b,
                b > 0,
        ;
    }
    let n: i128 = p0 as i128 * p2 as i128 - c as i128 * c as i128;
    let d: i128 = p0 as i128 + p2 as i128 - 2 * c as i128;
    let q = floor_div_i128(n, d);
    q as i64
}

/// The rounded-up axis maximum of a quadratic whose control coordinate
/// lies above both endpoints.
fn quad_max_ext_exec(p0: i64, c: i64, p2: i64) -> (r: i64)
    requires
        c > p0,
        c > p2,
        -MAX_COORD <= p0 <= MAX_COORD,
        -MAX_COORD <= c <= MAX_COORD,
        -MAX_COORD <= p2 <= MAX_COORD,
    ensures
        r as int == quad_max_ext(p0 as int, c as int, p2 as int),
        r <= c && p0 <= r && p2 <= r,
{
    proof {
        lemma_quad_max_ext_range(p0 as int, c as int, p2 as int);
        let b: int = MAX_COORD as int;
        assert(-b * b <= p0 as int * p2 as int <= b * b && 0 <= c as int * c as int <= b
            * b) by (nonlinear_arith)
            requires
                -b <= p0 as int <= b,
                -b <= c as int <= b,
                -b <= p2 as int <= b,
                b > 0,
        ;
    }
    let n: i128 = c as i128 * c as i128 - p0 as i128 * p2 as i128;
    let d: i128 = 2 * c as i128 - p0 as i128 - p2 as i128;
    let q = ceil_div_i128(n, d);
    q as i64
}

/// The bounding rectangle of one path: the hull of the points of its
/// resolved segments.
pub open spec fn path_rect(els: Seq<PathEl>) -> Rect {
    hull(segs_points(path_segments(els)))
}

/// The smallest rectangle covering two rectangles.
pub open spec fn rect_union(a: Rect, b: Rect) -> Rect {
    Rect {
        x0: if b.x0 < a.x0 {
            b.x0
        } else {
            a.x0
        },
        y0: if b.y0 < a.y0 {
            b.y0
        } else {
            a.y0
        },
        x1: if b.x1 > a.x1 {
            b.x1
        } else {
            a.x1
        },
        y1: if b.y1 > a.y1 {
            b.y1
        } else {
            a.y1
        },
    }
}

/// Union of the per-path rectangles of a path-list suffix, folded onto an
/// accumulator.
pub open spec fn paths_rect_fold(paths: Seq<Seq<PathEl>>, acc: Rect) -> Rect
    decreases paths.len(),
{
    if paths.len() == 0 {
        acc
    } else {
        paths_rect_fold(paths.drop_first(), rect_union(acc, path_rect(paths[0])))
    }
}

/// The bounding rectangle of a list of paths: the union of the per-path
/// rectangles, or the zero rectangle when the list is empty. A path with no
/// segments contributes the zero rectangle.
pub open spec fn paths_rect(paths: Seq<Seq<PathEl>>) -> Rect {
    if paths.len() == 0 {
        zero_rect()
    } else {
        paths_rect_fold(paths.drop_first(), path_rect(paths[0]))
    }
}

/// The instruction sequences of a list of paths.
pub open spec fn paths_view(paths: Seq<BezPath>) -> Seq<Seq<PathEl>> {
    paths.map_values(|p: BezPath| p.elements@)
}

/// Whether every path of the list is empty or begins with a move.
pub open spec fn all_start_with_move(paths: Seq<BezPath>) -> bool {
    forall|i: int| 0 <= i < paths.len() ==> starts_with_move(#[trigger] paths[i].elements@)
}

/// Whether every coordinate of every path lies within the coordinate bound.
pub open spec fn all_in_bounds(paths: Seq<BezPath>) -> bool {
    forall|i: int| 0 <= i < paths.len() ==> path_in_bounds(#[trigger] paths[i].elements@)
}

/// Whether a rectangle's sides are ordered.
pub open spec fn rect_ordered(r: Rect) -> bool {
    r.x0 <= r.x1 && r.y0 <= r.y1
}

proof fn lemma_rect_fold_ordered(pts: Seq<Point>, acc: Rect)
    requires
        rect_ordered(acc),
    ensures
        rect_ordered(rect_fold(pts, acc)),
    decreases pts.len(),
{
    if pts.len() > 0 {
        lemma_rect_fold_ordered(pts.drop_first(), rect_add_point(acc, pts[0]));
    }
}

proof fn lemma_paths_rect_fold_ordered(paths: Seq<Seq<PathEl>>, acc: Rect)
    requires
        rect_ordered(acc),
    ensures
        rect_ordered(paths_rect_fold(paths, acc)),
    decreases paths.len(),
{
    if paths.len() > 0 {
        lemma_path_rect_ordered(paths[0]);
        lemma_paths_rect_fold_ordered(paths.drop_first(), rect_union(acc, path_rect(paths[0])));
    }
}

proof fn lemma_path_rect_ordered(els: Seq<PathEl>)
    ensures
        rect_ordered(path_rect(els)),
{
    let pts = segs_points(path_segments(els));
    if pts.len() == 0 {
    } else {
        lemma_rect_fold_ordered(pts.drop_first(), rect_at(pts[0]));
    }
}

/// The bounding rectangle of a list of paths is ordered on both axes.
pub proof fn lemma_paths_rect_ordered(paths: Seq<Seq<PathEl>>)
    ensures
        rect_ordered(paths_rect(paths)),
{
    if paths.len() > 0 {
        lemma_path_rect_ordered(paths[0]);
        lemma_paths_rect_fold_ordered(paths.drop_first(), path_rect(paths[0]));
    }
}

/// Returns the smallest rectangle that encloses all paths.
///
/// The rectangle covers every segment endpoint, and for quadratics the
/// curve's own interior extrema, computed exactly as rationals and rounded
/// outward by at most one micro-unit — a protruding control point widens
/// nothing. A cubic's control points stand in for its extrema; cubics
/// never reach the coordinate mapper. A list without any segment yields
/// the rectangle of all zeros, and so does a segment-free path among
/// others, whose zero rectangle joins the union.
pub fn bounding_box(bez_paths: &Vec<BezPath>) -> (r: Rect)
    requires
        all_start_with_move(bez_paths@),
        all_in_bounds(bez_paths@),
    ensures
        r == paths_rect(paths_view(bez_paths@)),
        rect_ordered(r),
        rect_in_bounds(r),
{
    let n = bez_paths.len();
    let mut r = Rect { x0: 0, y0: 0, x1: 0, y1: 0 };
    let mut i: usize = 0;
    proof {
        if n > 0 {
            assert(paths_view(bez_paths@)[0] == bez_paths@[0].elements@);
        }
    }
    while i < n
        invariant
            n == bez_paths@.len(),
            0 <= i <= n,
            all_start_with_move(bez_paths@),
            i == 0 ==> r == zero_rect(),
            i > 0 ==> paths_rect_fold(paths_view(bez_paths@).skip(i as int), r) == paths_rect(
                paths_view(bez_paths@),
            ),
            all_in_bounds(bez_paths@),
            rect_in_bounds(r),
        decreases n - i,
    {
        let pr = single_path_rect(&bez_paths[i]);
        proof {
            let pv = paths_view(bez_paths@);
            assert(pv[i as int] == bez_paths@[i as int].elements@);
            assert(pv.skip(i as int).drop_first() =~= pv.skip(i + 1));
            assert(pv.skip(i as int)[0] == pv[i as int]);
            if i == 0 {
                assert(pv.skip(0) =~= pv);
            }
        }
        if i == 0 {
            r = pr;
        } else {
            r = rect_union_exec(&r, &pr);
        }
        i = i + 1;
    }
    proof {
        if n > 0 {
            assert(paths_view(bez_paths@).skip(n as int) =~= Seq::<Seq<PathEl>>::empty());
        }
        lemma_paths_rect_ordered(paths_view(bez_paths@));
    }
    r
}

/// The union of two rectangles.
fn rect_union_exec(a: &Rect, b: &Rect) -> (r: Rect)
    ensures
        r == rect_union(*a, *b),
{
    Rect {
        x0: if b.x0 < a.x0 {
            b.x0
        } else {
            a.x0
        },
        y0: if b.y0 < a.y0 {
            b.y0
        } else {
            a.y0
        },
        x1: if b.x1 > a.x1 {
            b.x1
        } else {
            a.x1
        },
        y1: if b.y1 > a.y1 {
            b.y1
        } else {
            a.y1
        },
    }
}

/// The bounding rectangle of one path.
fn single_path_rect(path: &BezPath) -> (r: Rect)
    requires
        starts_with_move(path.elements@),
        path_in_bounds(path.elements@),
    ensures
        r == path_rect(path.elements@),
        rect_ordered(r),
        rect_in_bounds(r),
{
    let segs = to_segments(path);
    let n = segs.len();
    let mut r = Rect { x0: 0, y0: 0, x1: 0, y1: 0 };
    let mut started = false;
    let mut i: usize = 0;
    let ghost mut done: Seq<Point> = Seq::empty();
    proof {
        assert(segs@.skip(0) =~= segs@);
        assert(done + segs_points(segs@) =~= segs_points(segs@));
    }
    while i < n
        invariant
            n == segs@.len(),
            0 <= i <= n,
            segs@ == path_segments(path.elements@),
            segs_points(segs@) == done + segs_points(segs@.skip(i as int)),
            !started ==> done.len() == 0 && r == zero_rect(),
            started ==> done.len() > 0 && r == hull(done),
            rect_in_bounds(r),
            forall|j: int| 0 <= j < segs@.len() ==> seg_in_bounds(#[trigger] segs@[j]),
        decreases n - i,
    {
        let s = segs[i];
        proof {
            assert(segs@.skip(i as int).drop_first() =~= segs@.skip(i + 1));
            assert(segs@.skip(i as int)[0] == segs@[i as int]);
            assert(seg_in_bounds(segs@[i as int]));
        }
        let mut pts: Vec<Point> = Vec::new();
        match s {
            PathSeg::Line(p0, p1) => {
                pts.push(p0);
                pts.push(p1);
            },
            PathSeg::Quad(p0, c, p2) => {
                pts.push(p0);
                pts.push(p2);
                if c.x < p0.x && c.x < p2.x {
                    let v = quad_min_ext_exec(p0.x, c.x, p2.x);
                    pts.push(Point { x: v, y: p0.y });
                } else if c.x > p0.x && c.x > p2.x {
                    let v = quad_max_ext_exec(p0.x, c.x, p2.x);
                    pts.push(Point { x: v, y: p0.y });
                }
                if c.y < p0.y && c.y < p2.y {
                    let v = quad_min_ext_exec(p0.y, c.y, p2.y);
                    pts.push(Point { x: p0.x, y: v });
                } else if c.y > p0.y && c.y > p2.y {
                    let v = quad_max_ext_exec(p0.y, c.y, p2.y);
                    pts.push(Point { x: p0.x, y: v });
                }
            },
            PathSeg::Cubic(p0, c1, c2, p3) => {
                pts.push(p0);
                pts.push(c1);
                pts.push(c2);
                pts.push(p3);
            },
        }
        proof {
            assert(pts@ =~= seg_points(segs@[i as int]));
            assert(pts@.skip(0) =~= pts@);
        }
        let count = pts.len();
        let mut j: usize = 0;
        while j < count
            invariant
                0 <= j <= count == pts@.len(),
                pts@ == seg_points(segs@[i as int]),
                i < n == segs@.len(),
                segs@ == path_segments(path.elements@),
                segs_points(segs@) == done + pts@.skip(j as int) + segs_points(
                    segs@.skip(i + 1),
                ),
                !started ==> done.len() == 0 && r == zero_rect(),
                started ==> done.len() > 0 && r == hull(done),
                rect_in_bounds(r),
                forall|k: int| 0 <= k < pts@.len() ==> point_in_bounds(#[trigger] pts@[k]),
            decreases count - j,
        {
            let p = pts[j];
            proof {
                assert(pts@.skip(j as int).drop_first() =~= pts@.skip(j + 1));
                assert(pts@.skip(j as int)[0] == pts@[j as int]);
            }
            let ghost old_done = done;
            if !started {
                r = Rect { x0: p.x, y0: p.y, x1: p.x, y1: p.y };
                started = true;
                proof {
                    done = done.push(p);
                    assert(done =~= seq![p]);
                    assert(done.drop_first() =~= Seq::<Point>::empty());
                    assert(hull(done) == rect_at(p));
                }
            } else {
                r = rect_add_point_exec(&r, &p);
                proof {
                    done = done.push(p);
                    lemma_hull_push(old_done, p);
                }
            }
            proof {
                assert(old_done + pts@.skip(j as int) =~= done + pts@.skip(j + 1));
                assert(done + pts@.skip(j + 1) + segs_points(segs@.skip(i + 1)) =~= old_done
                    + pts@.skip(j as int) + segs_points(segs@.skip(i + 1)));
            }
            j = j + 1;
        }
        proof {
            assert(pts@.skip(count as int) =~= Seq::<Point>::empty());
            assert(done + pts@.skip(count as int) + segs_points(segs@.skip(i + 1)) =~= done
                + segs_points(segs@.skip(i + 1)));
        }
        i = i + 1;
    }
    proof {
        assert(segs@.skip(n as int) =~= Seq::<PathSeg>::empty());
        assert(done + Seq::<Point>::empty() =~= done);
        assert(done == segs_points(segs@));
        if done.len() > 0 {
            lemma_rect_fold_ordered(done.drop_first(), rect_at(done[0]));
        }
    }
    r
}

/// Grows a rectangle to cover one more point.
fn rect_add_point_exec(r: &Rect, p: &Point) -> (res: Rect)
    ensures
        res == rect_add_point(*r, *p),
{
    Rect {
        x0: if p.x < r.x0 {
            p.x
        } else {
            r.x0
        },
        y0: if p.y < r.y0 {
            p.y
        } else {
            r.y0
        },
        x1: if p.x > r.x1 {
            p.x
        } else {
            r.x1
        },
        y1: if p.y > r.y1 {
            p.y
        } else {
            r.y1
        },
    }
}

/// Folding one more point into a hull is the hull of the longer list.
proof fn lemma_hull_push(pts: Seq<Point>, p: Point)
    requires
        pts.len() > 0,
    ensures
        hull(pts.push(p)) == rect_add_point(hull(pts), p),
{
    lemma_rect_fold_push(pts.drop_first(), rect_at(pts[0]), p);
    assert(pts.push(p).drop_first() =~= pts.drop_first().push(p));
}

proof fn lemma_rect_fold_push(pts: Seq<Point>, acc: Rect, p: Point)
    ensures
        rect_fold(pts.push(p), acc) == rect_add_point(rect_fold(pts, acc), p),
    decreases pts.len(),
{
    if pts.len() == 0 {
        assert(pts.push(p).drop_first() =~= Seq::<Point>::empty());
        assert(pts.push(p)[0] == p);
        assert(rect_fold(pts.push(p), acc) == rect_fold(
            pts.push(p).drop_first(),
            rect_add_point(acc, p),
        ));
        assert(rect_fold(Seq::<Point>::empty(), rect_add_point(acc, p)) == rect_add_point(
            acc,
            p,
        ));
        assert(rect_fold(pts, acc) == acc);
    } else {
        assert(pts.push(p).drop_first() =~= pts.drop_first().push(p));
        assert(pts.push(p)[0] == pts[0]);
        assert(rect_fold(pts.push(p), acc) == rect_fold(
            pts.drop_first().push(p),
            rect_add_point(acc, pts[0]),
        ));
        assert(rect_fold(pts, acc) == rect_fold(pts.drop_first(), rect_add_point(acc, pts[0])));
        lemma_rect_fold_push(pts.drop_first(), rect_add_point(acc, pts[0]), p);
    }
}

} // verus!
