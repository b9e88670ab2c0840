//! Font generation: turning parsed icon outlines into named glyphs, and
//! the decision of how a path's paint attributes are normalized.

use vstd::prelude::*;

use crate::error::Error;
use crate::geometry::{BezPath, PathEl};
use crate::glyph::{
    any_cubic, contours_view, create_glyph, glyph_bbox, glyph_contours, transform_of, Glyph,
};
use crate::path::{all_in_bounds, all_start_with_move, paths_view};

verus! {

/// How one path of an icon is normalized, by its paint attributes.
#[derive(Clone, Copy, Debug, PartialEq, Eq, Structural)]
pub enum StrokePlan {
    /// The path draws nothing and yields no outline.
    Skip,
    /// A filled path is kept as it stands, cubics reduced to quadratics.
    FillOnly,
    /// A stroked and filled path is stroked, then split at its seam and
    /// only the outer ring kept.
    StrokeAndSplit,
    /// A stroked path without fill keeps the whole stroked outline.
    StrokeOnly,
}

/// The normalization an icon path calls for, by whether its instruction
/// list is empty and which paint attributes it carries.
pub open spec fn plan_spec(data_empty: bool, has_stroke: bool, has_fill: bool) -> StrokePlan {
    if data_empty {
        StrokePlan::Skip
    } else if has_stroke {
        if has_fill {
            StrokePlan::StrokeAndSplit
        } else {
            StrokePlan::StrokeOnly
        }
    } else if has_fill {
        StrokePlan::FillOnly
    } else {
        StrokePlan::Skip
    }
}

/// Decides how a path is normalized: an empty or paint-less path yields
/// nothing; a stroked path is stroked, and additionally seam-split when it
/// is also filled; a merely filled path is kept.
pub fn path_plan(data_empty: bool, has_stroke: bool, has_fill: bool) -> (r: StrokePlan)
    ensures
        r == plan_spec(data_empty, has_stroke, has_fill),
{
    if data_empty {
        StrokePlan::Skip
    } else if has_stroke {
        if has_fill {
            StrokePlan::StrokeAndSplit
        } else {
            StrokePlan::StrokeOnly
        }
    } else if has_fill {
        StrokePlan::FillOnly
    } else {
        StrokePlan::Skip
    }
}

/// Whether any icon of the batch holds a cubic segment.
pub open spec fn batch_has_cubic(files: Seq<(String, Vec<BezPath>)>) -> bool {
    exists|i: int| 0 <= i < files.len() && any_cubic(paths_view((#[trigger] files[i]).1@))
}

/// Whether the glyph batch matches the icon batch: same length, names kept
/// in order, and every glyph's contours and box are those of its icon's
/// outlines under the icon's own transform.
pub open spec fn glyphs_match(
    files: Seq<(String, Vec<BezPath>)>,
    out: Seq<(String, Glyph)>,
) -> bool {
    &&& out.len() == files.len()
    &&& forall|i: int|
        0 <= i < files.len() ==> (#[trigger] out[i]).0@ == files[i].0@ && contours_view(
            out[i].1.contours@,
        ) == glyph_contours(transform_of(paths_view(files[i].1@)), paths_view(files[i].1@))
            && out[i].1.bbox == glyph_bbox(
            glyph_contours(transform_of(paths_view(files[i].1@)), paths_view(files[i].1@)),
        )
}

/// Creates one named glyph per icon, each from its own normalized
/// outlines; the first cubic segment anywhere aborts the batch with a
/// glyph-conversion error.
pub fn process_svg_files(files: Vec<(String, Vec<BezPath>)>) -> (r: Result<
    Vec<(String, Glyph)>,
    Error,
>)
    requires
        forall|i: int|
            0 <= i < files@.len() ==> all_start_with_move((#[trigger] files@[i]).1@)
                && all_in_bounds(files@[i].1@),
    ensures
        r is Ok <==> !batch_has_cubic(files@),
        r is Err ==> r->Err_0 is GlyphConversion,
        r is Ok ==> glyphs_match(files@, r->Ok_0@),
{
    let n = files.len();
    let mut out: Vec<(String, Glyph)> = Vec::new();
    let mut i: usize = 0;
    while i < n
        invariant
            n == files@.len(),
            0 <= i <= n,
            out@.len() == i,
            forall|k: int|
                0 <= k < files@.len() ==> all_start_with_move((#[trigger] files@[k]).1@)
                    && all_in_bounds(files@[k].1@),
            forall|k: int| 0 <= k < i ==> !any_cubic(paths_view((#[trigger] files@[k]).1@)),
            forall|k: int|
                0 <= k < i ==> (#[trigger] out@[k]).0@ == files@[k].0@ && contours_view(
                    out@[k].1.contours@,
                ) == glyph_contours(
                    transform_of(paths_view(files@[k].1@)),
                    paths_view(files@[k].1@),
                ) && out@[k].1.bbox == glyph_bbox(
                    glyph_contours(
                        transform_of(paths_view(files@[k].1@)),
                        paths_view(files@[k].1@),
                    ),
                ),
        decreases n - i,
    {
        let paths = clone_paths(&files[i].1);
        let icon_id = files[i].0.clone();
        proof {
            assert(paths_view(paths@) =~= paths_view(files@[i as int].1@));
        }
        match create_glyph(paths) {
            Result::Ok(glyph) => {
                out.push((icon_id, glyph));
            },
            Result::Err(e) => {
                proof {
                    assert(any_cubic(paths_view(files@[i as int].1@)));
                    assert(batch_has_cubic(files@));
                }
                return Result::Err(e);
            },
        }
        i = i + 1;
    }
    proof {
        assert(!batch_has_cubic(files@)) by {
            if batch_has_cubic(files@) {
                let k = choose|k: int|
                    0 <= k < files@.len() && any_cubic(paths_view((#[trigger] files@[k]).1@));
            }
        }
        assert(glyphs_match(files@, out@));
    }
    Result::Ok(out)
}

/// The ring kept after seam-splitting a stroked and filled outline: the
/// stroker lays the inner ring out first, so the outer ring is the last
/// piece of the split; nothing when the split yielded no piece.
pub fn outer_ring(parts: &Vec<BezPath>) -> (r: Option<BezPath>)
    ensures
        r is Some <==> parts@.len() > 0,
        r is Some ==> r->0.elements@ == parts@[parts@.len() - 1].elements@,
{
    let n = parts.len();
    if n == 0 {
        Option::None
    } else {
        Option::Some(clone_path(&parts[n - 1]))
    }
}

/// Copies one path.
fn clone_path(p: &BezPath) -> (r: BezPath)
    ensures
        r.elements@ == p.elements@,
{
    let n = p.elements.len();
    let mut els: Vec<PathEl> = Vec::new();
    let mut i: usize = 0;
    while i < n
        invariant
            n == p.elements@.len(),
            0 <= i <= n,
            els@ == p.elements@.take(i as int),
        decreases n - i,
    {
        els.push(p.elements[i]);
        proof {
            assert(p.elements@.take(i + 1) =~= p.elements@.take(i as int).push(
                p.elements@[i as int],
            ));
        }
        i = i + 1;
    }
    proof {
        assert(p.elements@.take(n as int) =~= p.elements@);
    }
    BezPath { elements: els }
}

/// Copies an icon's paths.
fn clone_paths(ps: &Vec<BezPath>) -> (r: Vec<BezPath>)
    ensures
        r@.len() == ps@.len(),
        forall|k: int| 0 <= k < ps@.len() ==> (#[trigger] r@[k]).elements@ == ps@[k].elements@,
{
    let n = ps.len();
    let mut r: Vec<BezPath> = Vec::new();
    let mut i: usize = 0;
    while i < n
        invariant
            n == ps@.len(),
            0 <= i <= n,
            r@.len() == i,
            forall|k: int| 0 <= k < i ==> (#[trigger] r@[k]).elements@ == ps@[k].elements@,
        decreases n - i,
    {
        r.push(clone_path(&ps[i]));
        i = i + 1;
    }
    r
}

} // verus!
