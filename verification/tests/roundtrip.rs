//! Round trip: a font assembled from icons decodes back to exactly the
//! assigned name-to-codepoint pairs, and its tables carry the expected
//! values when read back.

use read_fonts::{FontRef, TableProvider};
use verglas::{assemble_font_bytes, build_icon_map_from_bytes, process_svg_files};
use verglas::{BezPath, PathEl, Point};

/// One source unit in micro-units.
const UNIT: i64 = 1_000_000;

fn pt(x: i64, y: i64) -> Point {
    Point { x: x * UNIT, y: y * UNIT }
}

fn rect(x0: i64, y0: i64, w: i64, h: i64) -> BezPath {
    BezPath {
        elements: vec![
            PathEl::MoveTo(pt(x0, y0)),
            PathEl::LineTo(pt(x0 + w, y0)),
            PathEl::LineTo(pt(x0 + w, y0 + h)),
            PathEl::LineTo(pt(x0, y0 + h)),
            PathEl::ClosePath,
        ],
    }
}

fn square(x0: i64, y0: i64, side: i64) -> BezPath {
    rect(x0, y0, side, side)
}

fn build_test_font() -> Vec<u8> {
    let icons = vec![
        ("cat-left".to_string(), vec![square(0, 0, 100)]),
        ("jam/book".to_string(), vec![rect(10, 10, 50, 100)]),
        ("box".to_string(), vec![square(0, 0, 10), square(20, 20, 10)]),
    ];
    let glyphs = process_svg_files(icons).expect("glyphs");
    assemble_font_bytes(glyphs, "example-icons").expect("font bytes")
}

#[test]
fn round_trip_reproduces_assignment() {
    let bytes = build_test_font();
    let map = build_icon_map_from_bytes(&bytes).expect("mapping");
    // the three pairs, in input order from the private-use base; the
    // character map's conventional final segment maps 0xFFFF to the
    // missing glyph, whose standard name resolves, so that one extra
    // entry rides along
    assert_eq!(map.len(), 4);
    assert_eq!(map.get("cat-left").copied(), Some('\u{E000}'));
    assert_eq!(map.get("jam/book").copied(), Some('\u{E001}'));
    assert_eq!(map.get("box").copied(), Some('\u{E002}'));
    assert_eq!(map.get(".notdef").copied(), Some('\u{FFFF}'));
}

#[test]
fn assembled_font_is_loadable() {
    let bytes = build_test_font();
    let font = FontRef::new(&bytes).expect("font parses");
    let head = font.head().expect("head");
    assert_eq!(head.units_per_em(), 1000);
    assert_eq!(head.index_to_loc_format(), 0);
    let maxp = font.maxp().expect("maxp");
    assert_eq!(maxp.num_glyphs(), 4);
    let hhea = font.hhea().expect("hhea");
    assert_eq!(hhea.ascender().to_i16(), 1000);
    assert_eq!(hhea.descender().to_i16(), 0);
    assert_eq!(hhea.number_of_h_metrics(), 4);
    let loca = font.loca(None).expect("loca");
    let glyf = font.glyf().expect("glyf");
    let notdef = loca
        .get_glyf(font_types::GlyphId::new(0), &glyf)
        .expect("notdef outline");
    assert!(notdef.is_none());
    let first = loca
        .get_glyf(font_types::GlyphId::new(1), &glyf)
        .expect("first outline")
        .expect("nonempty");
    match first {
        read_fonts::tables::glyf::Glyph::Simple(s) => {
            assert_eq!(s.number_of_contours(), 1);
        },
        _ => panic!("expected a simple glyph"),
    }
    let post = font.post().expect("post");
    assert_eq!(post.glyph_name(font_types::GlyphId16::new(0)), Some(".notdef"));
    assert_eq!(post.glyph_name(font_types::GlyphId16::new(1)), Some("cat-left"));
    assert_eq!(post.glyph_name(font_types::GlyphId16::new(2)), Some("jam/book"));
    assert_eq!(post.glyph_name(font_types::GlyphId16::new(3)), Some("box"));
}

#[test]
fn header_box_is_union_of_glyph_boxes() {
    // One icon whose mapped box is (100, 150, 1100, 650): the header
    // carries exactly the union of the glyph boxes, with no origin mixed
    // in.
    let icons = vec![("icon".to_string(), vec![rect(10, 10, 100, 50)])];
    let glyphs = process_svg_files(icons).expect("glyphs");
    let bytes = assemble_font_bytes(glyphs, "one").expect("font bytes");
    let font = FontRef::new(&bytes).expect("font parses");
    let head = font.head().expect("head");
    assert_eq!(head.x_min(), 100);
    assert_eq!(head.y_min(), 150);
    assert_eq!(head.x_max(), 1100);
    assert_eq!(head.y_max(), 650);
}

#[test]
fn metrics_center_each_glyph() {
    let bytes = build_test_font();
    let font = FontRef::new(&bytes).expect("font parses");
    let hmtx = font.hmtx().expect("hmtx");
    let metrics: Vec<(u16, i16)> = hmtx
        .h_metrics()
        .iter()
        .map(|m| (m.advance(), m.side_bearing()))
        .collect();
    // the missing glyph and the full-width square get bearing 0; the 50
    // by 50 square scales to width 500 and is centered with bearing 250
    assert_eq!(metrics[0], (1000, 0));
    assert_eq!(metrics[1], (1000, 0));
    assert_eq!(metrics[2], (1000, 250));
    // the third icon spans 30 units, scaled to width 1000: bearing 0
    assert_eq!(metrics[3], (1000, 0));
}

#[test]
fn identity_table_carries_font_name() {
    let bytes = build_test_font();
    let font = FontRef::new(&bytes).expect("font parses");
    let name = font.name().expect("name");
    let mut found_family = false;
    for rec in name.name_record() {
        if rec.name_id().to_u16() == 1 {
            let s = rec
                .string(name.string_data())
                .expect("string")
                .chars()
                .collect::<String>();
            assert_eq!(s, "example-icons");
            found_family = true;
        }
    }
    assert!(found_family);
}
