//! Builds a TrueType icon font from vector icon outlines and decodes the
//! icon-name-to-codepoint mapping back out of a compiled font.

use vstd::prelude::*;

pub mod error;
pub mod file;
pub mod forge;
pub mod geometry;
pub mod glyph;
pub mod index;
pub mod path;
pub mod tables;

pub use crate::error::Error;
pub use crate::file::{collect_svg_paths, get_font_name};
pub use crate::forge::{outer_ring, path_plan, process_svg_files, StrokePlan};
pub use crate::geometry::{BezPath, PathEl, PathSeg, Point, Rect};
pub use crate::glyph::{create_glyph, Bbox, BboxMetrics, CurvePoint, FontTransform, Glyph};
pub use crate::index::{build_icon_map_from_bytes, IconMap};
pub use crate::path::{bounding_box, from_segments, separate_stroked_path, to_segments};
pub use crate::tables::{add_font_tables, assemble_font_bytes, build_font, head, hhea, maxp, name};

verus! {

/// Fixed advance width of every glyph, in font units.
pub const ADVANCE: u16 = 1000;

} // verus!
