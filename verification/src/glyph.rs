//! Glyph synthesis: mapping source outlines into the em square and building
//! integer contour records.

use vstd::prelude::*;

use crate::error::Error;
use crate::geometry::{el_in_bounds, path_in_bounds, point_in_bounds, BezPath, PathEl, Point, MAX_COORD};
use crate::path::{
    all_in_bounds, all_start_with_move, bounding_box, paths_rect, paths_view, rect_ordered,
};
use crate::ADVANCE;

verus! {

/// Squared closing tolerance, in squared micro-units. Two points this close
/// count as coincident when a contour is closed (the tolerance is a hundred
/// thousandth of a source unit).
pub const CLOSE_TOLERANCE_SQ: i64 = 100;

/// One point of a glyph contour, in font units.
#[derive(Clone, Copy, Debug, PartialEq, Eq, Structural)]
pub struct CurvePoint {
    pub x: i16,
    pub y: i16,
    /// True for a point on the outline, false for a quadratic control point.
    pub on_curve: bool,
}

/// A glyph bounding box, in font units.
#[derive(Clone, Copy, Debug, PartialEq, Eq, Structural)]
pub struct Bbox {
    pub x_min: i16,
    pub y_min: i16,
    pub x_max: i16,
    pub y_max: i16,
}

/// Derived measures of a bounding box.
pub trait BboxMetrics {
    /// The box width as a mathematical integer.
    spec fn spec_width(&self) -> int;

    /// The box height as a mathematical integer.
    spec fn spec_height(&self) -> int;

    /// The four sides as mathematical integers.
    spec fn spec_bounds(&self) -> (int, int, int, int);

    /// The absolute horizontal extent of the box.
    fn width(&self) -> (r: u16)
        ensures
            r as int == self.spec_width(),
    ;

    /// The absolute vertical extent of the box.
    fn height(&self) -> (r: u16)
        ensures
            r as int == self.spec_height(),
    ;

    /// The four sides, minima first.
    fn bounds(&self) -> (r: (i16, i16, i16, i16))
        ensures
            (r.0 as int, r.1 as int, r.2 as int, r.3 as int) == self.spec_bounds(),
    ;
}

impl BboxMetrics for Bbox {
    open spec fn spec_width(&self) -> int {
        if self.x_max >= self.x_min {
            self.x_max - self.x_min
        } else {
            self.x_min - self.x_max
        }
    }

    open spec fn spec_height(&self) -> int {
        if self.y_max >= self.y_min {
            self.y_max - self.y_min
        } else {
            self.y_min - self.y_max
        }
    }

    open spec fn spec_bounds(&self) -> (int, int, int, int) {
        (self.x_min as int, self.y_min as int, self.x_max as int, self.y_max as int)
    }

    fn width(&self) -> (r: u16) {
        let d: i32 = self.x_max as i32 - self.x_min as i32;
        if d >= 0 {
            d as u16
        } else {
            (-d) as u16
        }
    }

    fn height(&self) -> (r: u16) {
        let d: i32 = self.y_max as i32 - self.y_min as i32;
        if d >= 0 {
            d as u16
        } else {
            (-d) as u16
        }
    }

    fn bounds(&self) -> (r: (i16, i16, i16, i16)) {
        (self.x_min, self.y_min, self.x_max, self.y_max)
    }
}

/// A synthesized glyph: its contours and their bounding box, in font units.
#[derive(Clone, Debug, PartialEq, Eq)]
pub struct Glyph {
    pub bbox: Bbox,
    pub contours: Vec<Vec<CurvePoint>>,
}

/// The point sequences of a contour list.
pub open spec fn contours_view(cs: Seq<Vec<CurvePoint>>) -> Seq<Seq<CurvePoint>> {
    cs.map_values(|c: Vec<CurvePoint>| c@)
}

/// Division rounded to the nearest integer, halves away from zero; the
/// divisor must be positive.
pub open spec fn round_div_away(n: int, d: int) -> int
    recommends
        d > 0,
{
    if n >= 0 {
        (2 * n + d) / (2 * d)
    } else {
        -((2 * (-n) + d) / (2 * d))
    }
}

/// Clamps a value into the signed 16-bit range.
pub open spec fn clamp_i16(v: int) -> int {
    if v < -32768 {
        -32768
    } else if v > 32767 {
        32767
    } else {
        v
    }
}

/// A micro-unit coordinate scaled by the advance width over the largest
/// bounding-box side, rounded to the nearest font unit and clamped into the
/// 16-bit range. A degenerate box (no extent) saturates by sign.
pub open spec fn project_spec(v: int, max_side: int) -> int {
    if max_side <= 0 {
        if v == 0 {
            0
        } else if v > 0 {
            32767
        } else {
            -32768
        }
    } else {
        clamp_i16(round_div_away(v * (ADVANCE as int), max_side))
    }
}

/// The vertical offset that centers the scaled, flipped outline within the
/// advance box, given the projected outline height.
pub open spec fn delta_y_spec(max_side: int, height: int) -> int {
    let ph = project_spec(height, max_side);
    let lack = if ph >= ADVANCE as int || ph < 0 {
        0
    } else {
        ADVANCE as int - ph
    };
    ADVANCE as int - lack / 2
}

/// The scale and vertical offset that map one icon's outlines into the em
/// square.
#[derive(Clone, Copy, Debug, PartialEq, Eq, Structural)]
pub struct FontTransform {
    /// The larger side of the source bounding box, in micro-units.
    pub max_side: i64,
    /// Vertical centering offset, in font units.
    pub delta_y: i16,
}

/// The larger side of the bounding rectangle of the paths.
pub open spec fn max_side_of(paths: Seq<Seq<PathEl>>) -> int {
    let r = paths_rect(paths);
    let w = r.x1 - r.x0;
    let h = r.y1 - r.y0;
    if w >= h {
        w
    } else {
        h
    }
}

/// The height of the bounding rectangle of the paths.
pub open spec fn height_of(paths: Seq<Seq<PathEl>>) -> int {
    paths_rect(paths).y1 - paths_rect(paths).y0
}

/// The transform an icon's outlines are mapped by.
pub open spec fn transform_of(paths: Seq<Seq<PathEl>>) -> FontTransform {
    FontTransform {
        max_side: max_side_of(paths) as i64,
        delta_y: delta_y_spec(max_side_of(paths), height_of(paths)) as i16,
    }
}

/// A mapped contour point.
pub open spec fn tp_spec(t: FontTransform, p: Point, on_curve: bool) -> CurvePoint {
    CurvePoint {
        x: project_spec(p.x as int, t.max_side as int) as i16,
        y: clamp_i16(-project_spec(p.y as int, t.max_side as int) + t.delta_y as int) as i16,
        on_curve,
    }
}

impl FontTransform {
    /// Computes the transform for one icon's outlines: the scale comes from
    /// the larger side of their joint bounding rectangle, the offset centers
    /// the projected height within the advance box.
    pub fn new(bez_paths: &Vec<BezPath>) -> (t: Self)
        requires
            all_start_with_move(bez_paths@),
            all_in_bounds(bez_paths@),
        ensures
            t == transform_of(paths_view(bez_paths@)),
            t.max_side >= 0,
    {
        let rect = bounding_box(bez_paths);
        let w: i64 = rect.x1 - rect.x0;
        let h: i64 = rect.y1 - rect.y0;
        let max_side: i64 = if w >= h {
            w
        } else {
            h
        };
        let ph: i16 = Self::project(h, max_side);
        proof {
            assert(ph >= 0);
        }
        let ph32: i32 = ph as i32;
        let advance32: i32 = ADVANCE as i32;
        let lack: i32 = if ph32 >= advance32 {
            0
        } else {
            advance32 - ph32
        };
        let delta_y: i16 = (advance32 - lack / 2) as i16;
        FontTransform { max_side, delta_y }
    }

    /// Maps one micro-unit coordinate to font units: scaled by the advance
    /// width over `max_side`, rounded half away from zero, clamped to the
    /// 16-bit range; a zero `max_side` saturates by sign.
    pub fn project(value: i64, max_side: i64) -> (r: i16)
        requires
            max_side >= 0,
        ensures
            r as int == project_spec(value as int, max_side as int),
    {
        if max_side == 0 {
            if value == 0 {
                0
            } else if value > 0 {
                32767
            } else {
                -32768
            }
        } else {
            let n: i128 = value as i128 * ADVANCE as i128;
            let neg: bool = n < 0;
            let m: u128 = if neg {
                (-n) as u128
            } else {
                n as u128
            };
            let d: u128 = max_side as u128;
            let q: u128 = (2 * m + d) / (2 * d);
            if neg {
                if q >= 32768 {
                    -32768
                } else {
                    -(q as i32) as i16
                }
            } else {
                if q >= 32767 {
                    32767
                } else {
                    q as i16
                }
            }
        }
    }

    /// Maps a source point into the em square. The vertical axis flips: the
    /// source space grows downward, the font space upward.
    pub fn transform_point(&self, point: &Point, on_curve: bool) -> (cp: CurvePoint)
        requires
            self.max_side >= 0,
        ensures
            cp == tp_spec(*self, *point, on_curve),
    {
        let x = Self::project(point.x, self.max_side);
        let py = Self::project(point.y, self.max_side);
        let y_wide: i32 = -(py as i32) + self.delta_y as i32;
        let y: i16 = if y_wide < -32768 {
            -32768
        } else if y_wide > 32767 {
            32767
        } else {
            y_wide as i16
        };
        CurvePoint { x, y, on_curve }
    }
}

/// Whether two source points lie farther apart than the closing tolerance.
pub open spec fn far_apart(a: Point, b: Point) -> bool {
    (b.x - a.x) * (b.x - a.x) + (b.y - a.y) * (b.y - a.y) > CLOSE_TOLERANCE_SQ
}

/// Whether a path holds a cubic segment.
pub open spec fn path_has_cubic(els: Seq<PathEl>) -> bool {
    exists|i: int| 0 <= i < els.len() && (els[i] is CurveTo)
}

/// Whether any path of the list holds a cubic segment.
pub open spec fn any_cubic(paths: Seq<Seq<PathEl>>) -> bool {
    exists|i: int| 0 <= i < paths.len() && path_has_cubic(paths[i])
}

/// The contours accumulated after one path's remaining instructions, given
/// the subpath start, the current point, the mapped points gathered so far,
/// and the contours already finished. A cubic instruction never reaches this
/// fold; the fold leaves the accumulator unchanged there.
pub open spec fn contours_rec(
    t: FontTransform,
    els: Seq<PathEl>,
    start: Point,
    cur: Point,
    pts: Seq<CurvePoint>,
    acc: Seq<Seq<CurvePoint>>,
) -> Seq<Seq<CurvePoint>>
    decreases els.len(),
{
    if els.len() == 0 {
        if pts.len() > 0 {
            acc.push(pts)
        } else {
            acc
        }
    } else {
        let rest = els.drop_first();
        match els[0] {
            PathEl::MoveTo(p) => contours_rec(t, rest, p, p, pts.push(tp_spec(t, p, true)), acc),
            PathEl::LineTo(p) => contours_rec(
                t,
                rest,
                start,
                p,
                pts.push(tp_spec(t, p, true)),
                acc,
            ),
            PathEl::QuadTo(c, p) => contours_rec(
                t,
                rest,
                start,
                p,
                pts.push(tp_spec(t, c, false)).push(tp_spec(t, p, true)),
                acc,
            ),
            PathEl::CurveTo(_, _, _) => acc,
            PathEl::ClosePath => {
                let pts2 = if far_apart(start, cur) {
                    pts.push(tp_spec(t, start, true))
                } else {
                    pts
                };
                if pts2.len() > 0 {
                    contours_rec(t, rest, start, cur, Seq::empty(), acc.push(pts2))
                } else {
                    contours_rec(t, rest, start, cur, pts2, acc)
                }
            },
        }
    }
}

/// The contours accumulated over a list of paths; each path starts afresh at
/// the origin with no gathered points, and gathered points left at a path's
/// end are flushed as a contour.
pub open spec fn glyph_contours_rec(
    t: FontTransform,
    paths: Seq<Seq<PathEl>>,
    acc: Seq<Seq<CurvePoint>>,
) -> Seq<Seq<CurvePoint>>
    decreases paths.len(),
{
    if paths.len() == 0 {
        acc
    } else {
        glyph_contours_rec(
            t,
            paths.drop_first(),
            contours_rec(
                t,
                paths[0],
                Point { x: 0, y: 0 },
                Point { x: 0, y: 0 },
                Seq::empty(),
                acc,
            ),
        )
    }
}

/// The contours of an icon's outlines under the icon's own transform.
pub open spec fn glyph_contours(t: FontTransform, paths: Seq<Seq<PathEl>>) -> Seq<
    Seq<CurvePoint>,
> {
    glyph_contours_rec(t, paths, Seq::empty())
}

/// Closing a contour whose current point already lies within the closing
/// tolerance of its start appends no point: the gathered points are flushed
/// exactly as they stand.
pub proof fn lemma_close_no_duplicate(
    t: FontTransform,
    els: Seq<PathEl>,
    start: Point,
    cur: Point,
    pts: Seq<CurvePoint>,
    acc: Seq<Seq<CurvePoint>>,
)
    requires
        els.len() > 0,
        els[0] is ClosePath,
        !far_apart(start, cur),
        pts.len() > 0,
    ensures
        contours_rec(t, els, start, cur, pts, acc) == contours_rec(
            t,
            els.drop_first(),
            start,
            cur,
            Seq::empty(),
            acc.push(pts),
        ),
{
}

/// Closing a contour whose current point lies farther from its start than
/// the closing tolerance appends one on-curve point at the mapped start.
pub proof fn lemma_close_appends_start(
    t: FontTransform,
    els: Seq<PathEl>,
    start: Point,
    cur: Point,
    pts: Seq<CurvePoint>,
    acc: Seq<Seq<CurvePoint>>,
)
    requires
        els.len() > 0,
        els[0] is ClosePath,
        far_apart(start, cur),
    ensures
        contours_rec(t, els, start, cur, pts, acc) == contours_rec(
            t,
            els.drop_first(),
            start,
            cur,
            Seq::empty(),
            acc.push(pts.push(tp_spec(t, start, true))),
        ),
{
}

/// A bounding box grown to cover one more point; an absent box becomes the
/// degenerate box at the point.
pub open spec fn bbox_add_pt(acc: Option<Bbox>, p: CurvePoint) -> Option<Bbox> {
    match acc {
        Option::None => Option::Some(Bbox { x_min: p.x, y_min: p.y, x_max: p.x, y_max: p.y }),
        Option::Some(b) => Option::Some(
            Bbox {
                x_min: if p.x < b.x_min {
                    p.x
                } else {
                    b.x_min
                },
                y_min: if p.y < b.y_min {
                    p.y
                } else {
                    b.y_min
                },
                x_max: if p.x > b.x_max {
                    p.x
                } else {
                    b.x_max
                },
                y_max: if p.y > b.y_max {
                    p.y
                } else {
                    b.y_max
                },
            },
        ),
    }
}

/// A bounding box folded over the points of one contour.
pub open spec fn bbox_pts(pts: Seq<CurvePoint>, acc: Option<Bbox>) -> Option<Bbox>
    decreases pts.len(),
{
    if pts.len() == 0 {
        acc
    } else {
        bbox_pts(pts.drop_first(), bbox_add_pt(acc, pts[0]))
    }
}

/// A bounding box folded over every point of every contour.
pub open spec fn bbox_contours(cs: Seq<Seq<CurvePoint>>, acc: Option<Bbox>) -> Option<Bbox>
    decreases cs.len(),
{
    if cs.len() == 0 {
        acc
    } else {
        bbox_contours(cs.drop_first(), bbox_pts(cs[0], acc))
    }
}

/// The bounding box of a contour list: the fold over all points, or the box
/// of all zeros when there is no point at all.
pub open spec fn glyph_bbox(cs: Seq<Seq<CurvePoint>>) -> Bbox {
    match bbox_contours(cs, Option::None) {
        Option::None => Bbox { x_min: 0, y_min: 0, x_max: 0, y_max: 0 },
        Option::Some(b) => b,
    }
}

/// Whether two source points lie farther apart than the closing tolerance.
fn far_apart_exec(a: &Point, b: &Point) -> (r: bool)
    requires
        point_in_bounds(*a),
        point_in_bounds(*b),
    ensures
        r == far_apart(*a, *b),
{
    let dx: i128 = b.x as i128 - a.x as i128;
    let dy: i128 = b.y as i128 - a.y as i128;
    proof {
        let bound: int = 2 * MAX_COORD as int;
        assert(-bound <= dx <= bound);
        assert(-bound <= dy <= bound);
        assert(0 <= dx * dx <= bound * bound) by (nonlinear_arith)
            requires
                -bound <= dx <= bound,
        ;
        assert(0 <= dy * dy <= bound * bound) by (nonlinear_arith)
            requires
                -bound <= dy <= bound,
        ;
    }
    dx * dx + dy * dy > CLOSE_TOLERANCE_SQ as i128
}

/// Creates a glyph from an icon's normalized outlines.
///
/// Every outline is mapped into the em square by one shared transform, the
/// mapped points form one contour per closed subpath, and the bounding box
/// covers every mapped point. A cubic segment anywhere in the input is a
/// conversion error: cubics must have been replaced upstream.
pub fn create_glyph(bez_paths: Vec<BezPath>) -> (r: Result<Glyph, Error>)
    requires
        all_start_with_move(bez_paths@),
        all_in_bounds(bez_paths@),
    ensures
        r is Err <==> any_cubic(paths_view(bez_paths@)),
        r is Err ==> r->Err_0 is GlyphConversion,
        r is Ok ==> contours_view(r->Ok_0.contours@) == glyph_contours(
            transform_of(paths_view(bez_paths@)),
            paths_view(bez_paths@),
        ),
        r is Ok ==> r->Ok_0.bbox == glyph_bbox(
            glyph_contours(transform_of(paths_view(bez_paths@)), paths_view(bez_paths@)),
        ),
{
    let ghost pv = paths_view(bez_paths@);
    let transform = FontTransform::new(&bez_paths);
    let ghost total = glyph_contours(transform, pv);
    let mut contours: Vec<Vec<CurvePoint>> = Vec::new();
    let n = bez_paths.len();
    let mut i: usize = 0;
    proof {
        assert(pv.skip(0) =~= pv);
        assert(contours_view(contours@) =~= Seq::<Seq<CurvePoint>>::empty());
    }
    while i < n
        invariant
            n == bez_paths@.len(),
            0 <= i <= n,
            pv == paths_view(bez_paths@),
            total == glyph_contours(transform, pv),
            all_start_with_move(bez_paths@),
            all_in_bounds(bez_paths@),
            transform.max_side >= 0,
            glyph_contours_rec(transform, pv.skip(i as int), contours_view(contours@)) == total,
            forall|k: int| 0 <= k < i ==> !path_has_cubic(#[trigger] pv[k]),
        decreases n - i,
    {
        let els = &bez_paths[i].elements;
        proof {
            assert(pv[i as int] == bez_paths@[i as int].elements@);
            assert(pv.skip(i as int).drop_first() =~= pv.skip(i + 1));
            assert(pv.skip(i as int)[0] == pv[i as int]);
            assert(path_in_bounds(els@));
        }
        let m = els.len();
        let mut pts: Vec<CurvePoint> = Vec::new();
        let mut start = Point { x: 0, y: 0 };
        let mut cur = Point { x: 0, y: 0 };
        proof {
            assert(els@.skip(0) =~= els@);
            assert(pts@ =~= Seq::<CurvePoint>::empty());
            assert(glyph_contours_rec(transform, pv.skip(i as int), contours_view(contours@))
                == glyph_contours_rec(
                transform,
                pv.skip(i + 1),
                contours_rec(
                    transform,
                    pv[i as int],
                    Point { x: 0, y: 0 },
                    Point { x: 0, y: 0 },
                    Seq::empty(),
                    contours_view(contours@),
                ),
            ));
        }
        let mut j: usize = 0;
        while j < m
            invariant
                m == els@.len(),
                0 <= j <= m,
                i < n == bez_paths@.len(),
                els@ == bez_paths@[i as int].elements@,
                pv == paths_view(bez_paths@),
                pv[i as int] == els@,
                total == glyph_contours(transform, pv),
                all_in_bounds(bez_paths@),
                path_in_bounds(els@),
                transform.max_side >= 0,
                point_in_bounds(start),
                point_in_bounds(cur),
                glyph_contours_rec(
                    transform,
                    pv.skip(i + 1),
                    contours_rec(
                        transform,
                        els@.skip(j as int),
                        start,
                        cur,
                        pts@,
                        contours_view(contours@),
                    ),
                ) == total,
                forall|k: int| 0 <= k < i ==> !path_has_cubic(#[trigger] pv[k]),
                forall|k: int| 0 <= k < j ==> !((#[trigger] els@[k]) is CurveTo),
            decreases m - j,
        {
            let el = els[j];
            proof {
                assert(els@.skip(j as int).drop_first() =~= els@.skip(j + 1));
                assert(els@.skip(j as int)[0] == els@[j as int]);
                assert(el_in_bounds(els@[j as int]));
            }
            match el {
                PathEl::MoveTo(p) => {
                    let cp = transform.transform_point(&p, true);
                    pts.push(cp);
                    start = p;
                    cur = p;
                },
                PathEl::LineTo(p) => {
                    let cp = transform.transform_point(&p, true);
                    pts.push(cp);
                    cur = p;
                },
                PathEl::QuadTo(c, p) => {
                    let ccp = transform.transform_point(&c, false);
                    let cp = transform.transform_point(&p, true);
                    pts.push(ccp);
                    pts.push(cp);
                    cur = p;
                },
                PathEl::CurveTo(_, _, _) => {
                    proof {
                        assert(els@[j as int] is CurveTo);
                        assert(path_has_cubic(pv[i as int]));
                        assert(any_cubic(pv));
                    }
                    return Result::Err(
                        Error::GlyphConversion("cubic curve segments are not allowed".to_owned()),
                    );
                },
                PathEl::ClosePath => {
                    if far_apart_exec(&start, &cur) {
                        let cp = transform.transform_point(&start, true);
                        pts.push(cp);
                    }
                    let ghost pts2 = pts@;
                    if pts.len() > 0 {
                        let ghost old_cv = contours_view(contours@);
                        contours.push(pts);
                        pts = Vec::new();
                        proof {
                            assert(contours_view(contours@) =~= old_cv.push(pts2));
                            assert(pts@ =~= Seq::<CurvePoint>::empty());
                        }
                    }
                },
            }
            j = j + 1;
        }
        proof {
            assert(els@.skip(m as int) =~= Seq::<PathEl>::empty());
        }
        let ghost final_pts = pts@;
        if pts.len() > 0 {
            let ghost old_cv = contours_view(contours@);
            contours.push(pts);
            proof {
                assert(contours_view(contours@) =~= old_cv.push(final_pts));
            }
        }
        proof {
            assert(forall|k: int| 0 <= k < i + 1 ==> !path_has_cubic(#[trigger] pv[k]));
        }
        i = i + 1;
    }
    proof {
        assert(pv.skip(n as int) =~= Seq::<Seq<PathEl>>::empty());
        assert(contours_view(contours@) == total);
        assert(!any_cubic(pv));
    }
    let bbox = compute_bbox(&contours);
    Result::Ok(Glyph { bbox, contours })
}

/// The bounding box of a finished contour list.
fn compute_bbox(contours: &Vec<Vec<CurvePoint>>) -> (b: Bbox)
    ensures
        b == glyph_bbox(contours_view(contours@)),
{
    let ghost cv = contours_view(contours@);
    let mut acc: Option<Bbox> = Option::None;
    let n = contours.len();
    let mut i: usize = 0;
    proof {
        assert(cv.skip(0) =~= cv);
    }
    while i < n
        invariant
            n == contours@.len(),
            0 <= i <= n,
            cv == contours_view(contours@),
            bbox_contours(cv.skip(i as int), acc) == bbox_contours(cv, Option::None),
        decreases n - i,
    {
        let c = &contours[i];
        proof {
            assert(cv.skip(i as int).drop_first() =~= cv.skip(i + 1));
            assert(cv.skip(i as int)[0] == cv[i as int]);
            assert(cv[i as int] == contours@[i as int]@);
            assert(c@.skip(0) =~= c@);
        }
        let m = c.len();
        let mut j: usize = 0;
        while j < m
            invariant
                m == c@.len(),
                0 <= j <= m,
                i < n == contours@.len(),
                c@ == contours@[i as int]@,
                cv == contours_view(contours@),
                cv[i as int] == c@,
                bbox_contours(cv.skip(i + 1), bbox_pts(c@.skip(j as int), acc)) == bbox_contours(
                    cv,
                    Option::None,
                ),
            decreases m - j,
        {
            let p = c[j];
            proof {
                assert(c@.skip(j as int).drop_first() =~= c@.skip(j + 1));
                assert(c@.skip(j as int)[0] == c@[j as int]);
            }
            acc = bbox_add_pt_exec(&acc, &p);
            j = j + 1;
        }
        proof {
            assert(c@.skip(m as int) =~= Seq::<CurvePoint>::empty());
        }
        i = i + 1;
    }
    proof {
        assert(cv.skip(n as int) =~= Seq::<Seq<CurvePoint>>::empty());
    }
    match acc {
        Option::None => Bbox { x_min: 0, y_min: 0, x_max: 0, y_max: 0 },
        Option::Some(b) => b,
    }
}

/// Grows the running bounding box by one point.
fn bbox_add_pt_exec(acc: &Option<Bbox>, p: &CurvePoint) -> (r: Option<Bbox>)
    ensures
        r == bbox_add_pt(*acc, *p),
{
    match acc {
        Option::None => Option::Some(
            Bbox { x_min: p.x, y_min: p.y, x_max: p.x, y_max: p.y },
        ),
        Option::Some(b) => Option::Some(
            Bbox {
                x_min: if p.x < b.x_min {
                    p.x
                } else {
                    b.x_min
                },
                y_min: if p.y < b.y_min {
                    p.y
                } else {
                    b.y_min
                },
                x_max: if p.x > b.x_max {
                    p.x
                } else {
                    b.x_max
                },
                y_max: if p.y > b.y_max {
                    p.y
                } else {
                    b.y_max
                },
            },
        ),
    }
}

} // verus!
