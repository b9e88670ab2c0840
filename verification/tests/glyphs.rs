//! Tests of the coordinate mapper and glyph synthesizer.

use verglas::{create_glyph, BboxMetrics, BezPath, Error, FontTransform, PathEl, Point};

/// One source unit in micro-units.
const UNIT: i64 = 1_000_000;

fn pt(x: i64, y: i64) -> Point {
    Point { x: x * UNIT, y: y * UNIT }
}

fn rect_path(x0: i64, y0: i64, x1: i64, y1: i64) -> BezPath {
    BezPath {
        elements: vec![
            PathEl::MoveTo(pt(x0, y0)),
            PathEl::LineTo(pt(x1, y0)),
            PathEl::LineTo(pt(x1, y1)),
            PathEl::LineTo(pt(x0, y1)),
            PathEl::ClosePath,
        ],
    }
}

#[test]
fn bounding_box_determinism() {
    // A 100 by 50 outline at offset (10, 10): scale 10, projected height
    // 500, vertical offset 750. The mapped box must be exactly the
    // analytically scaled, flipped and offset rectangle.
    let glyph = create_glyph(vec![rect_path(10, 10, 110, 60)]).expect("glyph");
    assert_eq!(glyph.bbox.x_min, 100);
    assert_eq!(glyph.bbox.x_max, 1100);
    assert_eq!(glyph.bbox.y_min, 150);
    assert_eq!(glyph.bbox.y_max, 650);
    assert_eq!(glyph.contours.len(), 1);
}

#[test]
fn cubic_rejection() {
    let path = BezPath {
        elements: vec![
            PathEl::MoveTo(pt(0, 0)),
            PathEl::CurveTo(pt(1, 1), pt(2, 2), pt(3, 0)),
            PathEl::ClosePath,
        ],
    };
    let r = create_glyph(vec![path]);
    assert!(matches!(r, Err(Error::GlyphConversion(_))));
}

#[test]
fn closed_path_idempotence() {
    // The last line returns exactly to the start: closing must not append
    // a duplicate terminal point.
    let path = BezPath {
        elements: vec![
            PathEl::MoveTo(pt(0, 0)),
            PathEl::LineTo(pt(100, 0)),
            PathEl::LineTo(pt(100, 100)),
            PathEl::LineTo(pt(0, 100)),
            PathEl::LineTo(pt(0, 0)),
            PathEl::ClosePath,
        ],
    };
    let glyph = create_glyph(vec![path]).expect("glyph");
    assert_eq!(glyph.contours.len(), 1);
    assert_eq!(glyph.contours[0].len(), 5);
}

#[test]
fn close_within_tolerance_appends_nothing() {
    // The current point sits five millionths of a unit from the start,
    // within the closing tolerance of a hundred thousandth.
    let path = BezPath {
        elements: vec![
            PathEl::MoveTo(Point { x: 0, y: 0 }),
            PathEl::LineTo(Point { x: 50 * UNIT, y: 0 }),
            PathEl::LineTo(Point { x: 5, y: 0 }),
            PathEl::ClosePath,
        ],
    };
    let glyph = create_glyph(vec![path]).expect("glyph");
    assert_eq!(glyph.contours[0].len(), 3);
}

#[test]
fn close_outside_tolerance_appends_start() {
    // The gap to the start is two hundred-thousandths of a unit: the
    // closing point is appended.
    let path = BezPath {
        elements: vec![
            PathEl::MoveTo(Point { x: 0, y: 0 }),
            PathEl::LineTo(Point { x: 50 * UNIT, y: 0 }),
            PathEl::LineTo(Point { x: 20, y: 0 }),
            PathEl::ClosePath,
        ],
    };
    let glyph = create_glyph(vec![path]).expect("glyph");
    assert_eq!(glyph.contours[0].len(), 4);
    // the flat outline centers at half the advance: the mapped start is
    // (0, 500)
    let last = glyph.contours[0][3];
    assert_eq!((last.x, last.y, last.on_curve), (0, 500, true));
}

#[test]
fn quad_control_points_off_curve() {
    let path = BezPath {
        elements: vec![
            PathEl::MoveTo(pt(0, 0)),
            PathEl::LineTo(pt(100, 0)),
            PathEl::QuadTo(pt(100, 100), pt(0, 100)),
            PathEl::ClosePath,
        ],
    };
    let glyph = create_glyph(vec![path]).expect("glyph");
    let flags: Vec<bool> = glyph.contours[0].iter().map(|p| p.on_curve).collect();
    assert_eq!(flags, vec![true, true, false, true, true]);
}

#[test]
fn zero_paths_gives_empty_glyph() {
    let glyph = create_glyph(Vec::new()).expect("glyph");
    assert!(glyph.contours.is_empty());
    assert_eq!(
        (glyph.bbox.x_min, glyph.bbox.y_min, glyph.bbox.x_max, glyph.bbox.y_max),
        (0, 0, 0, 0)
    );
}

#[test]
fn project_rounds_half_away() {
    // 3 * 1000 / 2000 = 1.5 rounds to 2; 1 * 1000 / 3000 = 0.33 rounds
    // to 0; negative values mirror.
    assert_eq!(FontTransform::project(3, 2000), 2);
    assert_eq!(FontTransform::project(1, 3000), 0);
    assert_eq!(FontTransform::project(-3, 2000), -2);
    assert_eq!(FontTransform::project(55 * UNIT, 100 * UNIT), 550);
}

#[test]
fn project_saturates() {
    assert_eq!(FontTransform::project(i64::MAX / 1000, 1), 32767);
    assert_eq!(FontTransform::project(-(i64::MAX / 1000), 1), -32768);
    assert_eq!(FontTransform::project(7, 0), 32767);
    assert_eq!(FontTransform::project(-7, 0), -32768);
    assert_eq!(FontTransform::project(0, 0), 0);
}

#[test]
fn bbox_metrics() {
    let glyph = create_glyph(vec![rect_path(0, 0, 100, 50)]).expect("glyph");
    assert_eq!(glyph.bbox.width(), 1000);
    assert_eq!(glyph.bbox.height(), 500);
    let (x0, y0, x1, y1) = glyph.bbox.bounds();
    assert_eq!((x0, y0, x1, y1), (0, 250, 1000, 750));
}
