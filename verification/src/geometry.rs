//! Integer model of vector path geometry.
//!
//! Coordinates are held in micro-units: one micro-unit is one millionth of a
//! source unit. Fixed-point integers keep every geometric comparison and
//! every rounding step exact, where the same computation on machine floats
//! could not be reasoned about.

use vstd::prelude::*;

verus! {

/// Largest coordinate magnitude the library accepts, in micro-units
/// (one thousand million source units). The bound keeps every intermediate
/// product of the coordinate mapper inside `i128`.
pub const MAX_COORD: i64 = 1_000_000_000_000_000;

/// A point in source space, in micro-units.
#[derive(Clone, Copy, Debug, PartialEq, Eq, Structural)]
pub struct Point {
    pub x: i64,
    pub y: i64,
}

/// One drawing instruction of a vector path.
#[derive(Clone, Copy, Debug, PartialEq, Eq, Structural)]
pub enum PathEl {
    /// Start a new subpath at the point.
    MoveTo(Point),
    /// A straight segment to the point.
    LineTo(Point),
    /// A quadratic curve: control point, then endpoint.
    QuadTo(Point, Point),
    /// A cubic curve: two control points, then endpoint.
    CurveTo(Point, Point, Point),
    /// Close the current subpath.
    ClosePath,
}

/// One resolved segment of a path: the implicit current point has been
/// turned into an explicit start point.
#[derive(Clone, Copy, Debug, PartialEq, Eq, Structural)]
pub enum PathSeg {
    /// A straight segment from the first point to the second.
    Line(Point, Point),
    /// A quadratic curve: start, control, end.
    Quad(Point, Point, Point),
    /// A cubic curve: start, two controls, end.
    Cubic(Point, Point, Point, Point),
}

/// An ordered list of drawing instructions.
#[derive(Clone, Debug, PartialEq, Eq)]
pub struct BezPath {
    pub elements: Vec<PathEl>,
}

/// An axis-aligned rectangle in source space, in micro-units.
#[derive(Clone, Copy, Debug, PartialEq, Eq, Structural)]
pub struct Rect {
    pub x0: i64,
    pub y0: i64,
    pub x1: i64,
    pub y1: i64,
}

/// Whether a point lies within the coordinate bound.
pub open spec fn point_in_bounds(p: Point) -> bool {
    -MAX_COORD <= p.x <= MAX_COORD && -MAX_COORD <= p.y <= MAX_COORD
}

/// Whether every point named by an element lies within the coordinate bound.
pub open spec fn el_in_bounds(el: PathEl) -> bool {
    match el {
        PathEl::MoveTo(p) => point_in_bounds(p),
        PathEl::LineTo(p) => point_in_bounds(p),
        PathEl::QuadTo(c, p) => point_in_bounds(c) && point_in_bounds(p),
        PathEl::CurveTo(c1, c2, p) => point_in_bounds(c1) && point_in_bounds(c2)
            && point_in_bounds(p),
        PathEl::ClosePath => true,
    }
}

/// Whether every coordinate of the path lies within the coordinate bound.
pub open spec fn path_in_bounds(els: Seq<PathEl>) -> bool {
    forall|i: int| 0 <= i < els.len() ==> el_in_bounds(#[trigger] els[i])
}

/// Whether every point of a segment lies within the coordinate bound.
pub open spec fn seg_in_bounds(s: PathSeg) -> bool {
    match s {
        PathSeg::Line(p0, p1) => point_in_bounds(p0) && point_in_bounds(p1),
        PathSeg::Quad(p0, c, p2) => point_in_bounds(p0) && point_in_bounds(c) && point_in_bounds(
            p2,
        ),
        PathSeg::Cubic(p0, c1, c2, p3) => point_in_bounds(p0) && point_in_bounds(c1)
            && point_in_bounds(c2) && point_in_bounds(p3),
    }
}

/// Whether every side of a rectangle lies within the coordinate bound.
pub open spec fn rect_in_bounds(r: Rect) -> bool {
    -MAX_COORD <= r.x0 <= MAX_COORD && -MAX_COORD <= r.y0 <= MAX_COORD && -MAX_COORD <= r.x1
        <= MAX_COORD && -MAX_COORD <= r.y1 <= MAX_COORD
}

} // verus!
