//! Table assembly: the binary tables of the compiled font, serialized by
//! the font-writing library and keyed into the container builder.

use vstd::prelude::*;

use write_fonts::tables::cmap::Cmap;
use write_fonts::tables::glyf::{Bbox as WriteBbox, GlyfLocaBuilder, SimpleGlyph};
use write_fonts::tables::head::Head;
use write_fonts::tables::hhea::Hhea;
use write_fonts::tables::hmtx::Hmtx;
use write_fonts::tables::maxp::Maxp;
use write_fonts::tables::name::{Name, NameRecord};
use write_fonts::tables::post::Post;
use write_fonts::FontBuilder;

use crate::error::Error;
use crate::glyph::{contours_view, Bbox, BboxMetrics, CurvePoint, Glyph};
use crate::ADVANCE;

verus! {

#[verifier::external_type_specification]
#[verifier::external_body]
pub struct ExFontBuilder<'a>(FontBuilder<'a>);

#[verifier::external_type_specification]
#[verifier::external_body]
pub struct ExGlyfLocaBuilder(GlyfLocaBuilder);

/// The serialized header table with the given field values; every other
/// field keeps the serializer's fixed default.
pub uninterp spec fn head_table_bytes(
    font_revision: int,
    created: int,
    modified: int,
    units_per_em: int,
    x_min: int,
    y_min: int,
    x_max: int,
    y_max: int,
    index_to_loc_format: int,
) -> Seq<u8>;

/// The serialized horizontal-header table with the given field values.
pub uninterp spec fn hhea_table_bytes(
    ascender: int,
    descender: int,
    line_gap: int,
    advance_width_max: int,
    number_of_long_metrics: int,
) -> Seq<u8>;

/// The serialized glyph-count table for the given glyph count.
pub uninterp spec fn maxp_table_bytes(num_glyphs: int) -> Seq<u8>;

/// The serialized identity table for the given records, each a platform,
/// encoding, language, name kind and string.
pub uninterp spec fn name_table_bytes(records: Seq<(u16, u16, u16, u16, Seq<char>)>) -> Seq<u8>;

/// The serialized character-map table for the given codepoint-to-glyph
/// mapping.
pub uninterp spec fn cmap_table_bytes(mappings: Seq<(u32, u16)>) -> Seq<u8>;

/// The serialized metrics table for the given long metrics and side
/// bearings.
pub uninterp spec fn hmtx_table_bytes(metrics: Seq<(u16, i16)>, bearings: Seq<i16>) -> Seq<u8>;

/// The serialized glyph-name table for the given glyph order.
pub uninterp spec fn post_table_bytes(order: Seq<Seq<char>>) -> Seq<u8>;

/// The glyphs added to an outline builder so far, in order: `None` for an
/// empty glyph, otherwise the bounding box and contours.
pub uninterp spec fn glyf_contents(b: &GlyfLocaBuilder) -> Seq<
    Option<(Bbox, Seq<Seq<CurvePoint>>)>,
>;

/// The serialized outline table for the given glyphs.
pub uninterp spec fn glyf_table_bytes(entries: Seq<Option<(Bbox, Seq<Seq<CurvePoint>>)>>) -> Seq<
    u8,
>;

/// The serialized offset table for the given glyphs.
pub uninterp spec fn loca_table_bytes(entries: Seq<Option<(Bbox, Seq<Seq<CurvePoint>>)>>) -> Seq<
    u8,
>;

/// Whether the offset table for the given glyphs needs the long format.
pub uninterp spec fn loca_long_format(
    entries: Seq<Option<(Bbox, Seq<Seq<CurvePoint>>)>>,
) -> bool;

/// The tables a container builder holds, keyed by their four-byte tag.
pub uninterp spec fn builder_tables(b: &FontBuilder<'static>) -> Map<Seq<u8>, Seq<u8>>;

/// The serialized font container holding the given tables. The builder
/// writes the table directory, pads and checksums each table, and fills the
/// header's checksum field, all determined by the table map alone.
pub uninterp spec fn font_container_bytes(tables: Map<Seq<u8>, Seq<u8>>) -> Seq<u8>;

/// Whether the identity table serializes for the given records; a function
/// of the records alone.
pub uninterp spec fn name_serializes(records: Seq<(u16, u16, u16, u16, Seq<char>)>) -> bool;

/// Whether the character-map table serializes for the given mapping; a
/// function of the mapping alone.
pub uninterp spec fn cmap_serializes(mappings: Seq<(u32, u16)>) -> bool;

/// Whether the metrics table serializes for the given metrics; a function
/// of the metrics alone.
pub uninterp spec fn hmtx_serializes(metrics: Seq<(u16, i16)>, bearings: Seq<i16>) -> bool;

/// Whether the glyph-name table serializes for the given order; a function
/// of the order alone.
pub uninterp spec fn post_serializes(order: Seq<Seq<char>>) -> bool;

/// The number of points over all contours.
pub open spec fn total_points(cs: Seq<Seq<CurvePoint>>) -> int
    decreases cs.len(),
{
    if cs.len() == 0 {
        0
    } else {
        cs[0].len() + total_points(cs.drop_first())
    }
}

/// Whether the per-point deltas of a flattened point sequence fit sixteen
/// bits: each point lies within the signed sixteen-bit range of the point
/// before it, and the first of the origin.
pub open spec fn deltas_fit(ps: Seq<CurvePoint>) -> bool {
    forall|i: int|
        0 <= i < ps.len() ==> {
            let px: int = if i == 0 {
                0
            } else {
                ps[i - 1].x as int
            };
            let py: int = if i == 0 {
                0
            } else {
                ps[i - 1].y as int
            };
            -32768 <= (#[trigger] ps[i]).x - px <= 32767 && -32768 <= ps[i].y - py <= 32767
        }
}

/// Whether a glyph fits the serialized outline layout: fewer than 32767
/// contours, none of them empty, fewer than 65536 points in all, and
/// consecutive points never farther apart than a signed sixteen-bit delta.
pub open spec fn glyph_serializable(g: Glyph) -> bool {
    &&& g.contours@.len() < 32767
    &&& forall|i: int| 0 <= i < g.contours@.len() ==> (#[trigger] g.contours@[i])@.len() > 0
    &&& total_points(contours_view(g.contours@)) < 65536
    &&& deltas_fit(contours_view(g.contours@).flatten())
}

/// Whether every glyph of the list fits the serialized outline layout.
pub open spec fn glyphs_serializable(glyphs: Seq<(String, Glyph)>) -> bool {
    forall|i: int| 0 <= i < glyphs.len() ==> glyph_serializable((#[trigger] glyphs[i]).1)
}

/// Relies on write_fonts::dump_table of tables::head::Head: serializes the
/// header table; fields not passed here keep `Head::default()`. The
/// header's validation checks nothing, so serialization succeeds.
#[verifier::external_body]
fn head_bytes_raw(
    font_revision: i32,
    created: i64,
    modified: i64,
    units_per_em: u16,
    x_min: i16,
    y_min: i16,
    x_max: i16,
    y_max: i16,
    index_to_loc_format: i16,
) -> (r: Result<Vec<u8>, Error>)
    ensures
        r is Ok ==> r->Ok_0@ == head_table_bytes(
            font_revision as int,
            created as int,
            modified as int,
            units_per_em as int,
            x_min as int,
            y_min as int,
            x_max as int,
            y_max as int,
            index_to_loc_format as int,
        ),
        r is Ok,
{
    let table = Head {
        font_revision: font_types::Fixed::from_i32(font_revision),
        created: font_types::LongDateTime::new(created),
        modified: font_types::LongDateTime::new(modified),
        units_per_em,
        x_min,
        y_min,
        x_max,
        y_max,
        index_to_loc_format,
        ..Head::default()
    };
    write_fonts::dump_table(&table).map_err(|e| Error::BuildFontTable(format!("{}", e)))
}

/// Relies on write_fonts::dump_table of tables::hhea::Hhea: serializes the
/// horizontal-header table; fields not passed here keep `Hhea::default()`.
/// The table's validation checks nothing, so serialization succeeds.
#[verifier::external_body]
fn hhea_bytes_raw(
    ascender: i16,
    descender: i16,
    line_gap: i16,
    advance_width_max: u16,
    number_of_long_metrics: u16,
) -> (r: Result<Vec<u8>, Error>)
    ensures
        r is Ok ==> r->Ok_0@ == hhea_table_bytes(
            ascender as int,
            descender as int,
            line_gap as int,
            advance_width_max as int,
            number_of_long_metrics as int,
        ),
        r is Ok,
{
    let table = Hhea {
        ascender: ascender.into(),
        descender: descender.into(),
        line_gap: line_gap.into(),
        advance_width_max: advance_width_max.into(),
        number_of_h_metrics: number_of_long_metrics,
        ..Hhea::default()
    };
    write_fonts::dump_table(&table).map_err(|e| Error::BuildFontTable(format!("{}", e)))
}

/// Relies on write_fonts::dump_table of tables::maxp::Maxp: serializes the
/// glyph-count table; fields not passed here keep `Maxp::default()`. With
/// every optional field absent the computed version is 0.5 and validation
/// checks nothing, so serialization succeeds.
#[verifier::external_body]
fn maxp_bytes_raw(num_glyphs: u16) -> (r: Result<Vec<u8>, Error>)
    ensures
        r is Ok ==> r->Ok_0@ == maxp_table_bytes(num_glyphs as int),
        r is Ok,
{
    let table = Maxp { num_glyphs, ..Maxp::default() };
    write_fonts::dump_table(&table).map_err(|e| Error::BuildFontTable(format!("{}", e)))
}

/// The view of an identity-table record list.
pub open spec fn records_view(records: Seq<(u16, u16, u16, u16, String)>) -> Seq<
    (u16, u16, u16, u16, Seq<char>),
> {
    records.map_values(|r: (u16, u16, u16, u16, String)| (r.0, r.1, r.2, r.3, r.4@))
}

/// Relies on write_fonts::dump_table of tables::name::Name: serializes the
/// identity table from one record per entry.
#[verifier::external_body]
fn name_bytes_raw(records: &Vec<(u16, u16, u16, u16, String)>) -> (r: Result<Vec<u8>, Error>)
    ensures
        r is Ok <==> name_serializes(records_view(records@)),
        r is Ok ==> r->Ok_0@ == name_table_bytes(records_view(records@)),
        r is Err ==> r->Err_0 is BuildFontTable,
{
    let recs = records.iter().map(
        |r: &(u16, u16, u16, u16, String)|
            NameRecord::new(
                r.0,
                r.1,
                r.2,
                font_types::NameId::new(r.3),
                write_fonts::OffsetMarker::new(r.4.clone()),
            ),
    ).collect();
    write_fonts::dump_table(&Name::new(recs)).map_err(
        |e| Error::BuildFontTable(format!("{}", e)),
    )
}

/// Relies on write_fonts::tables::cmap::Cmap::from_mappings and
/// write_fonts::dump_table: serializes the character map for the given
/// mapping. The mapping must be the library's contiguous private-use
/// assignment: its codes are distinct scalar values (so the source finds
/// no conflict), its code-to-glyph delta is one constant that reduces to
/// a sixteen-bit value, so the serializer forms a single delta segment
/// and never reaches its own sixteen-bit delta or range-offset
/// conversions, which panic outside that range, and its glyph indices
/// stay within sixteen bits.
#[verifier::external_body]
fn cmap_bytes_raw(mappings: &Vec<(u32, u16)>) -> (r: Result<Vec<u8>, Error>)
    requires
        mappings@ == cmap_mappings_spec(mappings@.len() as int),
        mappings@.len() < 0xFFFF,
    ensures
        r is Ok <==> cmap_serializes(mappings@),
        r is Ok ==> r->Ok_0@ == cmap_table_bytes(mappings@),
        r is Err ==> r->Err_0 is BuildFontTable,
{
    let pairs = mappings.iter().map(
        |m: &(u32, u16)|
            (char::from_u32(m.0).expect("scalar value"), font_types::GlyphId::new(m.1 as u32)),
    );
    let table = match Cmap::from_mappings(pairs) {
        Ok(t) => t,
        Err(e) => return Err(Error::BuildFontTable(format!("{}", e))),
    };
    write_fonts::dump_table(&table).map_err(|e| Error::BuildFontTable(format!("{}", e)))
}

/// Relies on write_fonts::dump_table of tables::hmtx::Hmtx: serializes the
/// metrics table from (advance, side bearing) pairs and the bearing list.
#[verifier::external_body]
fn hmtx_bytes_raw(metrics: &Vec<(u16, i16)>, bearings: &Vec<i16>) -> (r: Result<Vec<u8>, Error>)
    ensures
        r is Ok <==> hmtx_serializes(metrics@, bearings@),
        r is Ok ==> r->Ok_0@ == hmtx_table_bytes(metrics@, bearings@),
        r is Err ==> r->Err_0 is BuildFontTable,
{
    let table = Hmtx::new(
        metrics.iter().map(
            |m: &(u16, i16)| write_fonts::tables::hmtx::LongMetric::new(m.0, m.1),
        ).collect(),
        bearings.clone(),
    );
    write_fonts::dump_table(&table).map_err(|e| Error::BuildFontTable(format!("{}", e)))
}

/// The character views of a glyph-order list.
pub open spec fn order_view(order: Seq<String>) -> Seq<Seq<char>> {
    order.map_values(|s: String| s@)
}

/// Relies on write_fonts::tables::post::Post::new_v2 and
/// write_fonts::dump_table: serializes the glyph-name table for the given
/// glyph order. The builder counts 258 standard names plus one index per
/// distinct non-standard name in sixteen bits, so more than 65277 names
/// could overflow that count; the bound excludes it.
#[verifier::external_body]
fn post_bytes_raw(order: &Vec<String>) -> (r: Result<Vec<u8>, Error>)
    requires
        order@.len() <= 65277,
    ensures
        r is Ok <==> post_serializes(order_view(order@)),
        r is Ok ==> r->Ok_0@ == post_table_bytes(order_view(order@)),
        r is Err ==> r->Err_0 is BuildFontTable,
{
    let table = Post::new_v2(order.iter().map(|s: &String| s.as_str()));
    write_fonts::dump_table(&table).map_err(|e| Error::BuildFontTable(format!("{}", e)))
}

/// An outline-builder contents list with no glyphs.
pub open spec fn no_glyphs() -> Seq<Option<(Bbox, Seq<Seq<CurvePoint>>)>> {
    Seq::empty()
}

/// A table map with no tables.
pub open spec fn no_tables() -> Map<Seq<u8>, Seq<u8>> {
    Map::empty()
}

/// Relies on write_fonts::tables::glyf::GlyfLocaBuilder::new: an outline
/// builder with no glyphs yet.
#[verifier::external_body]
fn glyf_builder_new() -> (b: GlyfLocaBuilder)
    ensures
        glyf_contents(&b) == no_glyphs(),
{
    GlyfLocaBuilder::new()
}

/// Relies on write_fonts::tables::glyf::GlyfLocaBuilder::add_glyph with
/// write_fonts::tables::glyf::Glyph::Empty: records an empty glyph. An
/// empty glyph validates without checks, so the call succeeds.
#[verifier::external_body]
fn glyf_add_empty(b: &mut GlyfLocaBuilder) -> (r: Result<(), Error>)
    ensures
        r is Ok,
        glyf_contents(final(b)) == glyf_contents(old(b)).push(
            Option::<(Bbox, Seq<Seq<CurvePoint>>)>::None,
        ),
{
    match b.add_glyph(&write_fonts::tables::glyf::Glyph::Empty) {
        Ok(_) => Ok(()),
        Err(e) => Err(Error::BuildFontTable(format!("{}", e))),
    }
}

/// Relies on write_fonts::tables::glyf::GlyfLocaBuilder::add_glyph with a
/// tables::glyf::SimpleGlyph built from the glyph's box and contours.
/// Validation checks only the instruction list, which stays empty, so the
/// call succeeds; the serialized layout demands the bounds in `requires`
/// (a sixteen-bit contour count, contour end points as running sixteen-bit
/// point counts, no end point before the first point, and point deltas
/// computed in sixteen-bit arithmetic).
#[verifier::external_body]
fn glyf_add_glyph(b: &mut GlyfLocaBuilder, g: &Glyph) -> (r: Result<(), Error>)
    requires
        glyph_serializable(*g),
    ensures
        r is Ok,
        glyf_contents(final(b)) == glyf_contents(old(b)).push(
            Option::Some((g.bbox, contours_view(g.contours@))),
        ),
{
    let bb = g.bbox;
    let simple = SimpleGlyph {
        bbox: WriteBbox { x_min: bb.x_min, y_min: bb.y_min, x_max: bb.x_max, y_max: bb.y_max },
        contours: g.contours.iter().map(|c| {
            c.iter().map(|p| read_fonts::tables::glyf::CurvePoint::new(p.x, p.y, p.on_curve))
                .collect::<Vec<_>>().into()
        }).collect(),
        instructions: vec![],
        overlaps: false,
    };
    match b.add_glyph(&simple) {
        Ok(_) => Ok(()),
        Err(e) => Err(Error::BuildFontTable(format!("{}", e))),
    }
}

/// Relies on write_fonts::tables::glyf::GlyfLocaBuilder::build and
/// write_fonts::dump_table: the serialized outline and offset tables and
/// whether the offsets use the long format. Both tables validate without
/// checks, so serialization succeeds.
#[verifier::external_body]
fn glyf_finish(b: GlyfLocaBuilder) -> (r: Result<(Vec<u8>, Vec<u8>, bool), Error>)
    ensures
        r is Ok,
        r is Ok ==> r->Ok_0.0@ == glyf_table_bytes(glyf_contents(&b)) && r->Ok_0.1@
            == loca_table_bytes(glyf_contents(&b)) && r->Ok_0.2 == loca_long_format(
            glyf_contents(&b),
        ),
{
    let (glyf, loca, format) = b.build();
    let glyf_bytes = write_fonts::dump_table(&glyf).map_err(
        |e| Error::BuildFontTable(format!("{}", e)),
    )?;
    let loca_bytes = write_fonts::dump_table(&loca).map_err(
        |e| Error::BuildFontTable(format!("{}", e)),
    )?;
    Ok((glyf_bytes, loca_bytes, format == write_fonts::tables::loca::LocaFormat::Long))
}

/// Relies on write_fonts::FontBuilder::new: a container builder holding no
/// tables.
#[verifier::external_body]
fn font_builder_new() -> (b: FontBuilder<'static>)
    ensures
        builder_tables(&b) == no_tables(),
{
    FontBuilder::new()
}

/// Relies on write_fonts::FontBuilder::add_raw: stores the bytes under the
/// four-byte tag, replacing any previous entry.
#[verifier::external_body]
fn font_add_raw(b: &mut FontBuilder<'static>, tag: [u8; 4], data: Vec<u8>)
    ensures
        builder_tables(final(b)) == builder_tables(old(b)).insert(tag@, data@),
{
    b.add_raw(font_types::Tag::new(&tag), data);
}

/// Relies on write_fonts::FontBuilder::build: assembles the held tables
/// into one font container, a function of the table map alone. The table
/// directory counts its records in sixteen bits, so the builder asserts
/// at most 65535 tables; the bound excludes that.
#[verifier::external_body]
fn font_builder_build(b: &mut FontBuilder<'static>) -> (r: Vec<u8>)
    requires
        builder_tables(old(b)).dom().finite(),
        builder_tables(old(b)).dom().len() <= 65535,
    ensures
        r@ == font_container_bytes(builder_tables(old(b))),
{
    b.build()
}


/// The identity-table records of a font: nine name kinds, each under the
/// legacy platform and under the Unicode-capable Windows platform.
pub open spec fn name_records_spec(font_name: Seq<char>) -> Seq<(u16, u16, u16, u16, Seq<char>)> {
    seq![
        (1u16, 0u16, 0u16, 0u16, "Copyright remains with the copyright holders of the SVG icons"@),
        (1u16, 0u16, 0u16, 1u16, font_name),
        (1u16, 0u16, 0u16, 2u16, "Regular"@),
        (1u16, 0u16, 0u16, 3u16, font_name),
        (1u16, 0u16, 0u16, 4u16, font_name),
        (1u16, 0u16, 0u16, 5u16, "Version 1.0"@),
        (1u16, 0u16, 0u16, 6u16, font_name),
        (1u16, 0u16, 0u16, 10u16, "Icon font generated from SVG files"@),
        (1u16, 0u16, 0u16, 11u16, "https://github.com/kardwen/verglas"@),
        (3u16, 1u16, 0x0409u16, 0u16,
            "Copyright remains with the copyright holders of the SVG icons"@),
        (3u16, 1u16, 0x0409u16, 1u16, font_name),
        (3u16, 1u16, 0x0409u16, 2u16, "Regular"@),
        (3u16, 1u16, 0x0409u16, 3u16, font_name),
        (3u16, 1u16, 0x0409u16, 4u16, font_name),
        (3u16, 1u16, 0x0409u16, 5u16, "Version 1.0"@),
        (3u16, 1u16, 0x0409u16, 6u16, font_name),
        (3u16, 1u16, 0x0409u16, 10u16, "Icon font generated from SVG files"@),
        (3u16, 1u16, 0x0409u16, 11u16, "https://github.com/kardwen/verglas"@),
    ]
}

/// Builds the identity-table records for a font name.
pub fn name_records(font_name: &str) -> (r: Vec<(u16, u16, u16, u16, String)>)
    ensures
        records_view(r@) == name_records_spec(font_name@),
{
    let mut v: Vec<(u16, u16, u16, u16, String)> = Vec::new();
    let copyright = "Copyright remains with the copyright holders of the SVG icons";
    let description = "Icon font generated from SVG files";
    let vendor = "https://github.com/kardwen/verglas";
    v.push((1, 0, 0, 0, copyright.to_owned()));
    v.push((1, 0, 0, 1, font_name.to_owned()));
    v.push((1, 0, 0, 2, "Regular".to_owned()));
    v.push((1, 0, 0, 3, font_name.to_owned()));
    v.push((1, 0, 0, 4, font_name.to_owned()));
    v.push((1, 0, 0, 5, "Version 1.0".to_owned()));
    v.push((1, 0, 0, 6, font_name.to_owned()));
    v.push((1, 0, 0, 10, description.to_owned()));
    v.push((1, 0, 0, 11, vendor.to_owned()));
    v.push((3, 1, 0x0409, 0, copyright.to_owned()));
    v.push((3, 1, 0x0409, 1, font_name.to_owned()));
    v.push((3, 1, 0x0409, 2, "Regular".to_owned()));
    v.push((3, 1, 0x0409, 3, font_name.to_owned()));
    v.push((3, 1, 0x0409, 4, font_name.to_owned()));
    v.push((3, 1, 0x0409, 5, "Version 1.0".to_owned()));
    v.push((3, 1, 0x0409, 6, font_name.to_owned()));
    v.push((3, 1, 0x0409, 10, description.to_owned()));
    v.push((3, 1, 0x0409, 11, vendor.to_owned()));
    proof {
        assert(records_view(v@) =~= name_records_spec(font_name@));
    }
    v
}

/// Serializes the identity table for a font name.
pub fn name(font_name: &str) -> (r: Result<Vec<u8>, Error>)
    ensures
        r is Ok <==> name_serializes(name_records_spec(font_name@)),
        r is Ok ==> r->Ok_0@ == name_table_bytes(name_records_spec(font_name@)),
        r is Err ==> r->Err_0 is BuildFontTable,
{
    let records = name_records(font_name);
    name_bytes_raw(&records)
}

/// Serializes the header table: revision one, zeroed timestamps, one
/// thousand units per em, the given global bounding box, short offsets.
pub fn head(x_min: i16, y_min: i16, x_max: i16, y_max: i16) -> (r: Result<Vec<u8>, Error>)
    ensures
        r is Ok ==> r->Ok_0@ == head_table_bytes(
            1,
            0,
            0,
            1000,
            x_min as int,
            y_min as int,
            x_max as int,
            y_max as int,
            0,
        ),
        r is Ok,
{
    head_bytes_raw(1, 0, 0, 1000, x_min, y_min, x_max, y_max, 0)
}

/// Serializes the horizontal-header table: the ascender equals the advance
/// width, descender and line gap are zero.
pub fn hhea(number_of_long_metrics: u16) -> (r: Result<Vec<u8>, Error>)
    ensures
        r is Ok ==> r->Ok_0@ == hhea_table_bytes(
            ADVANCE as int,
            0,
            0,
            ADVANCE as int,
            number_of_long_metrics as int,
        ),
        r is Ok,
{
    hhea_bytes_raw(ADVANCE as i16, 0, 0, ADVANCE, number_of_long_metrics)
}

/// Serializes the glyph-count table.
pub fn maxp(num_glyphs: u16) -> (r: Result<Vec<u8>, Error>)
    ensures
        r is Ok ==> r->Ok_0@ == maxp_table_bytes(num_glyphs as int),
        r is Ok,
{
    maxp_bytes_raw(num_glyphs)
}

/// The codepoint assignment: the i-th icon gets the private-use codepoint
/// 0xE000 + i, mapped to glyph index i + 1; the assignment maps no
/// codepoint to glyph index zero, which stays the missing glyph's.
pub open spec fn cmap_mappings_spec(n: int) -> Seq<(u32, u16)> {
    Seq::new(n as nat, |i: int| ((0xE000 + i) as u32, (i + 1) as u16))
}

/// Assigns each of `n` icons its codepoint, in input order.
pub fn cmap_mappings(n: usize) -> (r: Vec<(u32, u16)>)
    requires
        n < 0xFFFF,
    ensures
        r@ == cmap_mappings_spec(n as int),
{
    let mut r: Vec<(u32, u16)> = Vec::new();
    let mut i: usize = 0;
    while i < n
        invariant
            0 <= i <= n < 0xFFFF,
            r@.len() == i,
            forall|k: int| 0 <= k < i ==> r@[k] == (((0xE000 + k) as u32, (k + 1) as u16)),
        decreases n - i,
    {
        r.push((0xE000u32 + i as u32, (i + 1) as u16));
        i = i + 1;
    }
    proof {
        assert(r@ =~= cmap_mappings_spec(n as int));
    }
    r
}

/// The horizontal side bearing that centers a glyph's box within the
/// advance width; a box at least as wide as the advance gets zero.
pub open spec fn side_bearing_spec(b: Bbox) -> int {
    if b.spec_width() >= ADVANCE as int {
        0
    } else {
        (ADVANCE as int - b.spec_width()) / 2
    }
}

/// The long metrics of a glyph list: the missing glyph first, then each
/// glyph with the constant advance and its centering side bearing.
pub open spec fn metrics_spec(glyphs: Seq<(String, Glyph)>) -> Seq<(u16, i16)> {
    seq![(ADVANCE, 0i16)] + glyphs.map_values(
        |g: (String, Glyph)| (ADVANCE, side_bearing_spec(g.1.bbox) as i16),
    )
}

/// The side-bearing list of a glyph list, aligned with the long metrics.
pub open spec fn lsbs_spec(glyphs: Seq<(String, Glyph)>) -> Seq<i16> {
    seq![0i16] + glyphs.map_values(|g: (String, Glyph)| side_bearing_spec(g.1.bbox) as i16)
}

/// Computes the per-glyph metrics: the constant advance width and a side
/// bearing that centers each glyph, with the missing glyph first.
pub fn glyph_metrics(glyphs: &Vec<(String, Glyph)>) -> (r: (Vec<(u16, i16)>, Vec<i16>))
    ensures
        r.0@ == metrics_spec(glyphs@),
        r.1@ == lsbs_spec(glyphs@),
{
    let n = glyphs.len();
    let mut metrics: Vec<(u16, i16)> = Vec::new();
    let mut lsbs: Vec<i16> = Vec::new();
    metrics.push((ADVANCE, 0));
    lsbs.push(0);
    let mut i: usize = 0;
    while i < n
        invariant
            n == glyphs@.len(),
            0 <= i <= n,
            metrics@.len() == i + 1,
            lsbs@.len() == i + 1,
            metrics@[0] == ((ADVANCE, 0i16)),
            lsbs@[0] == 0i16,
            forall|k: int|
                0 <= k < i ==> metrics@[k + 1] == ((
                    ADVANCE,
                    side_bearing_spec(glyphs@[k].1.bbox) as i16,
                )),
            forall|k: int| 0 <= k < i ==> lsbs@[k + 1] == side_bearing_spec(glyphs@[k].1.bbox) as i16,
        decreases n - i,
    {
        let w = glyphs[i].1.bbox.width();
        let sb: u16 = if w >= ADVANCE {
            0
        } else {
            (ADVANCE - w) / 2
        };
        metrics.push((ADVANCE, sb as i16));
        lsbs.push(sb as i16);
        i = i + 1;
    }
    proof {
        assert(metrics@ =~= metrics_spec(glyphs@));
        assert(lsbs@ =~= lsbs_spec(glyphs@));
    }
    (metrics, lsbs)
}

/// The glyph order of the name table: the missing glyph's name first, then
/// each icon's identifier, verbatim and in input order.
pub open spec fn order_spec(glyphs: Seq<(String, Glyph)>) -> Seq<Seq<char>> {
    seq![".notdef"@] + glyphs.map_values(|g: (String, Glyph)| g.0@)
}

/// Builds the glyph-name order.
pub fn glyph_order(glyphs: &Vec<(String, Glyph)>) -> (r: Vec<String>)
    ensures
        order_view(r@) == order_spec(glyphs@),
{
    let n = glyphs.len();
    let mut order: Vec<String> = Vec::new();
    order.push(".notdef".to_owned());
    let mut i: usize = 0;
    while i < n
        invariant
            n == glyphs@.len(),
            0 <= i <= n,
            order@.len() == i + 1,
            order@[0]@ == ".notdef"@,
            forall|k: int| 1 <= k < i + 1 ==> (#[trigger] order@[k])@ == glyphs@[k - 1].0@,
        decreases n - i,
    {
        order.push(glyphs[i].0.clone());
        i = i + 1;
    }
    proof {
        assert(order_view(order@) =~= order_spec(glyphs@));
    }
    order
}

/// The smallest box covering two glyph boxes.
pub open spec fn bbox_union_spec(a: Bbox, b: Bbox) -> Bbox {
    Bbox {
        x_min: if b.x_min < a.x_min {
            b.x_min
        } else {
            a.x_min
        },
        y_min: if b.y_min < a.y_min {
            b.y_min
        } else {
            a.y_min
        },
        x_max: if b.x_max > a.x_max {
            b.x_max
        } else {
            a.x_max
        },
        y_max: if b.y_max > a.y_max {
            b.y_max
        } else {
            a.y_max
        },
    }
}

/// The union of the remaining glyph boxes folded onto an accumulator.
pub open spec fn bbox_union_fold(glyphs: Seq<(String, Glyph)>, acc: Bbox) -> Bbox
    decreases glyphs.len(),
{
    if glyphs.len() == 0 {
        acc
    } else {
        bbox_union_fold(glyphs.drop_first(), bbox_union_spec(acc, glyphs[0].1.bbox))
    }
}

/// The global bounding box: the union of every glyph's box, folded from
/// the first glyph's own box; the box of all zeros only when there is no
/// glyph at all.
pub open spec fn global_bbox(glyphs: Seq<(String, Glyph)>) -> Bbox {
    if glyphs.len() == 0 {
        Bbox { x_min: 0, y_min: 0, x_max: 0, y_max: 0 }
    } else {
        bbox_union_fold(glyphs.drop_first(), glyphs[0].1.bbox)
    }
}

/// Computes the global bounding box of a glyph list.
pub fn union_bbox(glyphs: &Vec<(String, Glyph)>) -> (r: Bbox)
    ensures
        r == global_bbox(glyphs@),
{
    let n = glyphs.len();
    if n == 0 {
        return Bbox { x_min: 0, y_min: 0, x_max: 0, y_max: 0 };
    }
    let mut acc = glyphs[0].1.bbox;
    let mut i: usize = 1;
    proof {
        assert(glyphs@.drop_first() =~= glyphs@.skip(1));
    }
    while i < n
        invariant
            n == glyphs@.len(),
            1 <= i <= n,
            bbox_union_fold(glyphs@.skip(i as int), acc) == global_bbox(glyphs@),
        decreases n - i,
    {
        let b = glyphs[i].1.bbox;
        proof {
            assert(glyphs@.skip(i as int).drop_first() =~= glyphs@.skip(i + 1));
            assert(glyphs@.skip(i as int)[0] == glyphs@[i as int]);
        }
        acc = Bbox {
            x_min: if b.x_min < acc.x_min {
                b.x_min
            } else {
                acc.x_min
            },
            y_min: if b.y_min < acc.y_min {
                b.y_min
            } else {
                acc.y_min
            },
            x_max: if b.x_max > acc.x_max {
                b.x_max
            } else {
                acc.x_max
            },
            y_max: if b.y_max > acc.y_max {
                b.y_max
            } else {
                acc.y_max
            },
        };
        i = i + 1;
    }
    proof {
        assert(glyphs@.skip(n as int) =~= Seq::<(String, Glyph)>::empty());
    }
    acc
}

/// The four-byte tag of the identity table.
pub open spec fn tag_name() -> Seq<u8> {
    seq![0x6Eu8, 0x61u8, 0x6Du8, 0x65u8]
}

/// The four-byte tag of the header table.
pub open spec fn tag_head() -> Seq<u8> {
    seq![0x68u8, 0x65u8, 0x61u8, 0x64u8]
}

/// The four-byte tag of the horizontal-header table.
pub open spec fn tag_hhea() -> Seq<u8> {
    seq![0x68u8, 0x68u8, 0x65u8, 0x61u8]
}

/// The four-byte tag of the glyph-count table.
pub open spec fn tag_maxp() -> Seq<u8> {
    seq![0x6Du8, 0x61u8, 0x78u8, 0x70u8]
}

/// The four-byte tag of the character-map table.
pub open spec fn tag_cmap() -> Seq<u8> {
    seq![0x63u8, 0x6Du8, 0x61u8, 0x70u8]
}

/// The four-byte tag of the metrics table.
pub open spec fn tag_hmtx() -> Seq<u8> {
    seq![0x68u8, 0x6Du8, 0x74u8, 0x78u8]
}

/// The four-byte tag of the outline table.
pub open spec fn tag_glyf() -> Seq<u8> {
    seq![0x67u8, 0x6Cu8, 0x79u8, 0x66u8]
}

/// The four-byte tag of the offset table.
pub open spec fn tag_loca() -> Seq<u8> {
    seq![0x6Cu8, 0x6Fu8, 0x63u8, 0x61u8]
}

/// The four-byte tag of the glyph-name table.
pub open spec fn tag_post() -> Seq<u8> {
    seq![0x70u8, 0x6Fu8, 0x73u8, 0x74u8]
}

/// The outline-table entries of a glyph list: the empty missing glyph
/// first, then each glyph's box and contours, in the same order as every
/// other glyph-indexed table.
pub open spec fn glyf_entries_spec(glyphs: Seq<(String, Glyph)>) -> Seq<
    Option<(Bbox, Seq<Seq<CurvePoint>>)>,
> {
    seq![Option::None] + glyphs.map_values(
        |g: (String, Glyph)| Option::Some((g.1.bbox, contours_view(g.1.contours@))),
    )
}

/// Whether every table of the assembled font serializes: the four
/// serializers that validate their input, applied to the values the
/// assembly derives from the font name and the one glyph sequence. The
/// header, horizontal-header, glyph-count, outline and offset tables
/// always serialize.
pub open spec fn tables_serialize(font_name: Seq<char>, glyphs: Seq<(String, Glyph)>) -> bool {
    &&& name_serializes(name_records_spec(font_name))
    &&& cmap_serializes(cmap_mappings_spec(glyphs.len() as int))
    &&& hmtx_serializes(metrics_spec(glyphs), lsbs_spec(glyphs))
    &&& post_serializes(order_spec(glyphs))
}

/// The table map of a fully assembled font: every glyph-indexed table is
/// derived from the one glyph sequence, the header carries the union of
/// the glyph boxes, the glyph count covers the missing glyph, and the
/// codepoint assignment is contiguous from the private-use base.
pub open spec fn assembled_tables(
    prev: Map<Seq<u8>, Seq<u8>>,
    font_name: Seq<char>,
    glyphs: Seq<(String, Glyph)>,
) -> Map<Seq<u8>, Seq<u8>> {
    let bbox = global_bbox(glyphs);
    let n_glyphs = glyphs.len() + 1;
    prev.insert(tag_name(), name_table_bytes(name_records_spec(font_name))).insert(
        tag_head(),
        head_table_bytes(
            1,
            0,
            0,
            1000,
            bbox.x_min as int,
            bbox.y_min as int,
            bbox.x_max as int,
            bbox.y_max as int,
            0,
        ),
    ).insert(
        tag_hhea(),
        hhea_table_bytes(ADVANCE as int, 0, 0, ADVANCE as int, n_glyphs as int),
    ).insert(tag_maxp(), maxp_table_bytes(n_glyphs as int)).insert(
        tag_cmap(),
        cmap_table_bytes(cmap_mappings_spec(glyphs.len() as int)),
    ).insert(tag_hmtx(), hmtx_table_bytes(metrics_spec(glyphs), lsbs_spec(glyphs))).insert(
        tag_glyf(),
        glyf_table_bytes(glyf_entries_spec(glyphs)),
    ).insert(tag_loca(), loca_table_bytes(glyf_entries_spec(glyphs))).insert(
        tag_post(),
        post_table_bytes(order_spec(glyphs)),
    )
}

/// Adds every table of the font to the container builder, all derived from
/// the one glyph sequence: identity, header with the global bounding box,
/// horizontal header, glyph count, character map, metrics, outlines with
/// their offsets, and glyph names.
pub fn add_font_tables(
    font: &mut FontBuilder<'static>,
    font_name: &str,
    named_glyphs: &Vec<(String, Glyph)>,
) -> (r: Result<(), Error>)
    requires
        named_glyphs@.len() + 1 <= 65277,
        glyphs_serializable(named_glyphs@),
    ensures
        r is Ok <==> tables_serialize(font_name@, named_glyphs@),
        r is Ok ==> builder_tables(final(font)) == assembled_tables(
            builder_tables(old(font)),
            font_name@,
            named_glyphs@,
        ),
        r is Err ==> r->Err_0 is BuildFontTable,
{
    let num_glyphs: u16 = (named_glyphs.len() + 1) as u16;
    let bbox = union_bbox(named_glyphs);

    let name_bytes = match name(font_name) {
        Result::Ok(b) => b,
        Result::Err(e) => {
            return Result::Err(e);
        },
    };
    let name_tag: [u8; 4] = [0x6E, 0x61, 0x6D, 0x65];
    proof {
        assert(name_tag@ =~= tag_name());
    }
    font_add_raw(font, name_tag, name_bytes);

    let head_bytes = match head(bbox.x_min, bbox.y_min, bbox.x_max, bbox.y_max) {
        Result::Ok(b) => b,
        Result::Err(e) => {
            return Result::Err(e);
        },
    };
    let head_tag: [u8; 4] = [0x68, 0x65, 0x61, 0x64];
    proof {
        assert(head_tag@ =~= tag_head());
    }
    font_add_raw(font, head_tag, head_bytes);

    let hhea_bytes = match hhea(num_glyphs) {
        Result::Ok(b) => b,
        Result::Err(e) => {
            return Result::Err(e);
        },
    };
    let hhea_tag: [u8; 4] = [0x68, 0x68, 0x65, 0x61];
    proof {
        assert(hhea_tag@ =~= tag_hhea());
    }
    font_add_raw(font, hhea_tag, hhea_bytes);

    let maxp_bytes = match maxp(num_glyphs) {
        Result::Ok(b) => b,
        Result::Err(e) => {
            return Result::Err(e);
        },
    };
    let maxp_tag: [u8; 4] = [0x6D, 0x61, 0x78, 0x70];
    proof {
        assert(maxp_tag@ =~= tag_maxp());
    }
    font_add_raw(font, maxp_tag, maxp_bytes);

    let mappings = cmap_mappings(named_glyphs.len());
    let cmap_bytes = match cmap_bytes_raw(&mappings) {
        Result::Ok(b) => b,
        Result::Err(e) => {
            return Result::Err(e);
        },
    };
    let cmap_tag: [u8; 4] = [0x63, 0x6D, 0x61, 0x70];
    proof {
        assert(cmap_tag@ =~= tag_cmap());
    }
    font_add_raw(font, cmap_tag, cmap_bytes);

    let mut glyf_builder = glyf_builder_new();
    match glyf_add_empty(&mut glyf_builder) {
        Result::Ok(_) => {},
        Result::Err(e) => {
            return Result::Err(e);
        },
    }
    proof {
        assert(glyf_contents(&glyf_builder) =~= glyf_entries_spec(named_glyphs@).take(1));
    }
    let n = named_glyphs.len();
    let mut i: usize = 0;
    while i < n
        invariant
            n == named_glyphs@.len(),
            0 <= i <= n,
            glyphs_serializable(named_glyphs@),
            glyf_contents(&glyf_builder) == glyf_entries_spec(named_glyphs@).take(i + 1),
        decreases n - i,
    {
        let ghost before = glyf_contents(&glyf_builder);
        proof {
            assert(glyph_serializable(named_glyphs@[i as int].1));
        }
        match glyf_add_glyph(&mut glyf_builder, &named_glyphs[i].1) {
            Result::Ok(_) => {},
            Result::Err(e) => {
                return Result::Err(e);
            },
        }
        proof {
            assert(glyf_entries_spec(named_glyphs@)[i + 1] == Option::Some(
                (
                    named_glyphs@[i as int].1.bbox,
                    contours_view(named_glyphs@[i as int].1.contours@),
                ),
            ));
            assert(glyf_contents(&glyf_builder) =~= glyf_entries_spec(named_glyphs@).take(
                i + 2,
            ));
        }
        i = i + 1;
    }
    proof {
        assert(glyf_entries_spec(named_glyphs@).take(n + 1) =~= glyf_entries_spec(
            named_glyphs@,
        ));
    }

    let (h_metrics, left_side_bearings) = glyph_metrics(named_glyphs);
    let hmtx_bytes = match hmtx_bytes_raw(&h_metrics, &left_side_bearings) {
        Result::Ok(b) => b,
        Result::Err(e) => {
            return Result::Err(e);
        },
    };
    let hmtx_tag: [u8; 4] = [0x68, 0x6D, 0x74, 0x78];
    proof {
        assert(hmtx_tag@ =~= tag_hmtx());
    }
    font_add_raw(font, hmtx_tag, hmtx_bytes);

    let (glyf_bytes, loca_bytes, _loca_long) = match glyf_finish(glyf_builder) {
        Result::Ok(t) => t,
        Result::Err(e) => {
            return Result::Err(e);
        },
    };
    let glyf_tag: [u8; 4] = [0x67, 0x6C, 0x79, 0x66];
    proof {
        assert(glyf_tag@ =~= tag_glyf());
    }
    font_add_raw(font, glyf_tag, glyf_bytes);
    let loca_tag: [u8; 4] = [0x6C, 0x6F, 0x63, 0x61];
    proof {
        assert(loca_tag@ =~= tag_loca());
    }
    font_add_raw(font, loca_tag, loca_bytes);

    let order = glyph_order(named_glyphs);
    proof {
        assert(order@.len() == order_view(order@).len());
        assert(order@.len() <= 65277);
    }
    let post_bytes = match post_bytes_raw(&order) {
        Result::Ok(b) => b,
        Result::Err(e) => {
            return Result::Err(e);
        },
    };
    let post_tag: [u8; 4] = [0x70, 0x6F, 0x73, 0x74];
    proof {
        assert(post_tag@ =~= tag_post());
    }
    font_add_raw(font, post_tag, post_bytes);

    Result::Ok(())
}

/// Creates a container builder holding all the tables of a font built from
/// the given glyphs under the given name.
pub fn build_font(named_glyphs: Vec<(String, Glyph)>, name: &str) -> (r: Result<
    FontBuilder<'static>,
    Error,
>)
    requires
        named_glyphs@.len() + 1 <= 65277,
        glyphs_serializable(named_glyphs@),
    ensures
        r is Ok <==> tables_serialize(name@, named_glyphs@),
        r is Ok ==> builder_tables(&r->Ok_0) == assembled_tables(
            no_tables(),
            name@,
            named_glyphs@,
        ),
        r is Err ==> r->Err_0 is BuildFontTable,
{
    let mut font = font_builder_new();
    match add_font_tables(&mut font, name, &named_glyphs) {
        Result::Ok(_) => Result::Ok(font),
        Result::Err(e) => Result::Err(e),
    }
}

/// Assembles the binary font for the given glyphs and name: the container
/// bytes hold exactly the nine tables, all derived from the one glyph
/// sequence.
pub fn assemble_font_bytes(named_glyphs: Vec<(String, Glyph)>, font_name: &str) -> (r: Result<
    Vec<u8>,
    Error,
>)
    requires
        named_glyphs@.len() + 1 <= 65277,
        glyphs_serializable(named_glyphs@),
    ensures
        r is Ok <==> tables_serialize(font_name@, named_glyphs@),
        r is Ok ==> r->Ok_0@ == font_container_bytes(
            assembled_tables(no_tables(), font_name@, named_glyphs@),
        ),
        r is Err ==> r->Err_0 is BuildFontTable,
{
    let ghost gv = named_glyphs@;
    match build_font(named_glyphs, font_name) {
        Result::Ok(mut font) => {
            proof {
                lemma_assembled_tables_count(font_name@, gv);
            }
            Result::Ok(font_builder_build(&mut font))
        },
        Result::Err(e) => Result::Err(e),
    }
}

/// An assembled table map holds at most its nine tables.
proof fn lemma_assembled_tables_count(font_name: Seq<char>, glyphs: Seq<(String, Glyph)>)
    ensures
        assembled_tables(no_tables(), font_name, glyphs).dom().finite(),
        assembled_tables(no_tables(), font_name, glyphs).dom().len() <= 9,
{
    broadcast use vstd::set::axiom_set_insert_finite, vstd::set::axiom_set_insert_len;

    assert(no_tables().dom() =~= Set::<Seq<u8>>::empty());
    assert(assembled_tables(no_tables(), font_name, glyphs).dom().finite() && assembled_tables(
        no_tables(),
        font_name,
        glyphs,
    ).dom().len() <= 9);
}

} // verus!
