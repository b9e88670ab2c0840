//! Tests of segment resolution, seam splitting and the bounding box.

use verglas::{bounding_box, from_segments, separate_stroked_path, to_segments};
use verglas::{BezPath, PathEl, PathSeg, Point};

/// One source unit in micro-units.
const UNIT: i64 = 1_000_000;

fn pt(x: i64, y: i64) -> Point {
    Point { x: x * UNIT, y: y * UNIT }
}

#[test]
fn close_emits_closing_segment() {
    let path = BezPath {
        elements: vec![
            PathEl::MoveTo(pt(0, 0)),
            PathEl::LineTo(pt(10, 0)),
            PathEl::LineTo(pt(10, 10)),
            PathEl::ClosePath,
        ],
    };
    let segs = to_segments(&path);
    assert_eq!(segs.len(), 3);
    assert_eq!(segs[2], PathSeg::Line(pt(10, 10), pt(0, 0)));
}

#[test]
fn close_at_start_emits_nothing() {
    let path = BezPath {
        elements: vec![
            PathEl::MoveTo(pt(0, 0)),
            PathEl::LineTo(pt(10, 0)),
            PathEl::LineTo(pt(0, 0)),
            PathEl::ClosePath,
        ],
    };
    let segs = to_segments(&path);
    assert_eq!(segs.len(), 2);
}

#[test]
fn from_segments_inserts_moves() {
    let segs = vec![
        PathSeg::Line(pt(0, 0), pt(1, 0)),
        PathSeg::Line(pt(1, 0), pt(1, 1)),
        PathSeg::Line(pt(5, 5), pt(6, 5)),
    ];
    let path = from_segments(&segs);
    let moves = path
        .elements
        .iter()
        .filter(|e| matches!(e, PathEl::MoveTo(_)))
        .count();
    assert_eq!(moves, 2);
    assert_eq!(path.elements.len(), 5);
}

#[test]
fn seam_splitting_cuts_ring() {
    // Two nested rings joined by a seam edge: the final segment doubles
    // the edge from (2,2) to (2,0) within tolerance, so the path splits
    // into the inner ring and the outer ring.
    let elements = vec![
        PathEl::MoveTo(pt(2, 2)),
        PathEl::LineTo(pt(8, 2)),
        PathEl::LineTo(pt(8, 8)),
        PathEl::LineTo(pt(2, 8)),
        PathEl::LineTo(pt(2, 2)),
        // seam into the inner ring
        PathEl::LineTo(pt(2, 0)),
        PathEl::LineTo(pt(10, 0)),
        PathEl::LineTo(pt(10, 10)),
        PathEl::LineTo(pt(0, 10)),
        PathEl::LineTo(pt(0, 0)),
        PathEl::LineTo(pt(2, 0)),
        PathEl::LineTo(pt(2, 2)),
    ];
    let parts = separate_stroked_path(&BezPath { elements });
    assert_eq!(parts.len(), 2);
    // the retained outer ring is one contour
    let outer = parts.last().unwrap();
    let moves = outer
        .elements
        .iter()
        .filter(|e| matches!(e, PathEl::MoveTo(_)))
        .count();
    assert_eq!(moves, 1);
}

#[test]
fn seam_removal_of_stroked_square() {
    // A closed square, stroked and filled, leaves the stroker as a single
    // ring: the inner square, a seam edge out to the outer square, the
    // outer square, and the seam edge doubled on the way back. Splitting
    // at the seam and keeping the last piece leaves exactly one retained
    // contour, the outer ring.
    let elements = vec![
        PathEl::MoveTo(pt(2, 2)),
        PathEl::LineTo(pt(8, 2)),
        PathEl::LineTo(pt(8, 8)),
        PathEl::LineTo(pt(2, 8)),
        PathEl::LineTo(pt(2, 2)),
        // seam edge out to the outer ring
        PathEl::LineTo(pt(0, 0)),
        PathEl::LineTo(pt(10, 0)),
        PathEl::LineTo(pt(10, 10)),
        PathEl::LineTo(pt(0, 10)),
        PathEl::LineTo(pt(0, 0)),
        // the seam edge again, closing back onto the start
        PathEl::LineTo(pt(2, 2)),
        PathEl::ClosePath,
    ];
    let parts = separate_stroked_path(&BezPath { elements });
    let retained = parts.last().expect("should return subpaths");
    let moves = retained
        .elements
        .iter()
        .filter(|e| matches!(e, PathEl::MoveTo(_)))
        .count();
    assert_eq!(moves, 1);
    // and the retained piece is the outer ring
    assert!(retained.elements.contains(&PathEl::LineTo(pt(10, 10))));
    assert!(!retained.elements.contains(&PathEl::LineTo(pt(8, 8))));
}

#[test]
fn bounding_box_one_rectangle() {
    let path = BezPath {
        elements: vec![
            PathEl::MoveTo(pt(10, 10)),
            PathEl::LineTo(pt(110, 10)),
            PathEl::LineTo(pt(110, 60)),
            PathEl::LineTo(pt(10, 60)),
            PathEl::ClosePath,
        ],
    };
    let r = bounding_box(&vec![path]);
    assert_eq!((r.x0, r.y0, r.x1, r.y1), (10 * UNIT, 10 * UNIT, 110 * UNIT, 60 * UNIT));
}

#[test]
fn bounding_box_quad_extremum() {
    // The curve dips to -50, halfway toward its control at -100: the box
    // holds the curve's own extremum, not the control point.
    let path = BezPath {
        elements: vec![
            PathEl::MoveTo(pt(0, 0)),
            PathEl::QuadTo(pt(50, -100), pt(100, 0)),
            PathEl::ClosePath,
        ],
    };
    let r = bounding_box(&vec![path]);
    assert_eq!((r.x0, r.y0, r.x1, r.y1), (0, -50 * UNIT, 100 * UNIT, 0));
}

#[test]
fn bounding_box_two_rectangles() {
    let a = BezPath {
        elements: vec![
            PathEl::MoveTo(pt(10, 10)),
            PathEl::LineTo(pt(110, 10)),
            PathEl::LineTo(pt(110, 60)),
            PathEl::LineTo(pt(10, 60)),
            PathEl::ClosePath,
        ],
    };
    let b = BezPath {
        elements: vec![
            PathEl::MoveTo(pt(40, 40)),
            PathEl::LineTo(pt(80, 40)),
            PathEl::LineTo(pt(80, 80)),
            PathEl::LineTo(pt(40, 80)),
            PathEl::ClosePath,
        ],
    };
    let r = bounding_box(&vec![a, b]);
    assert_eq!((r.x0, r.y0, r.x1, r.y1), (10 * UNIT, 10 * UNIT, 110 * UNIT, 80 * UNIT));
}
