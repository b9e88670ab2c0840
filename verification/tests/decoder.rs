//! Tests of the character-map decoder and icon-map assembly.

use verglas::index::{assemble_icon_map, decode_cmap4, pick_record};
use verglas::{build_icon_map_from_bytes, Error};

#[test]
fn delta_segment_decodes() {
    // One segment over 0xE000..=0xE002 with wrapped delta 8193 maps each
    // code to glyph indices 1, 2, 3.
    let pairs = decode_cmap4(
        &vec![0xE000],
        &vec![0xE002],
        &vec![8193],
        &vec![0],
        &Vec::new(),
    );
    assert_eq!(pairs, vec![(0xE000, 1), (0xE001, 2), (0xE002, 3)]);
}

#[test]
fn delta_wraps_modulo_65536() {
    // 0x0002 + delta -4 wraps to 0xFFFE.
    let pairs = decode_cmap4(&vec![2], &vec![2], &vec![-4], &vec![0], &Vec::new());
    assert_eq!(pairs, vec![(2, 0xFFFE)]);
}

#[test]
fn delta_to_glyph_zero_is_kept() {
    // The conventional final segment maps 0xFFFF to glyph 0 by wrapped
    // delta addition; the delta method never skips, so the pair is
    // emitted and name resolution decides its fate.
    let pairs = decode_cmap4(&vec![0xFFFF], &vec![0xFFFF], &vec![1], &vec![0], &Vec::new());
    assert_eq!(pairs, vec![(0xFFFF, 0)]);
}

#[test]
fn range_offset_is_self_relative() {
    // The offset counts from its own slot: with one segment, offset 2
    // lands exactly at the start of the glyph array, so codes 10 and 11
    // read entries 0 and 1.
    let pairs = decode_cmap4(&vec![10], &vec![11], &vec![0], &vec![2], &vec![7, 9]);
    assert_eq!(pairs, vec![(10, 7), (11, 9)]);
}

#[test]
fn range_offset_segment_decodes() {
    // Offset 4 in a one-segment table points one entry past the array
    // start: codes 10, 11, 12 read entries 1, 2, 3 of the glyph array; a
    // zero entry leaves its code unmapped.
    let pairs = decode_cmap4(
        &vec![10],
        &vec![12],
        &vec![0],
        &vec![4],
        &vec![9, 5, 0, 7],
    );
    assert_eq!(pairs, vec![(10, 5), (12, 7)]);
}

#[test]
fn range_offset_out_of_bounds_is_skipped() {
    let pairs = decode_cmap4(&vec![10], &vec![12], &vec![0], &vec![4], &vec![9, 5]);
    assert_eq!(pairs, vec![(10, 5)]);
}

#[test]
fn truncated_arrays_stop_the_walk() {
    // Four start codes but only one end code: only one segment is walked.
    let pairs = decode_cmap4(
        &vec![10, 20, 30, 40],
        &vec![10],
        &vec![1, 1, 1, 1],
        &vec![0, 0, 0, 0],
        &Vec::new(),
    );
    assert_eq!(pairs, vec![(10, 11)]);
}

#[test]
fn preferred_record_selection() {
    assert_eq!(pick_record(&vec![(3, 0), (0, 3), (3, 1)]), Some(1));
    assert_eq!(pick_record(&vec![(3, 0), (3, 1)]), Some(1));
    assert_eq!(pick_record(&vec![(3, 0), (1, 0)]), None);
    assert_eq!(pick_record(&Vec::new()), None);
}

#[test]
fn icon_map_assembly_skips_and_overwrites() {
    let pairs = vec![(0xE000u16, 1u16), (0xD900, 2), (0xE001, 3), (0xE002, 4)];
    let names = vec![
        Some("book".to_string()),
        Some("surrogate".to_string()),
        None,
        Some("book".to_string()),
    ];
    let map = assemble_icon_map(&pairs, &names);
    // the surrogate code and the nameless glyph are skipped; the later
    // "book" entry overwrites the earlier one
    assert_eq!(map.len(), 1);
    assert_eq!(map.get("book").copied(), Some('\u{E002}'));
}

#[test]
fn range_offset_subtable_round_trips() {
    // A non-arithmetic glyph assignment forces the serializer onto the
    // range-offset method; self-relative addressing must read it back.
    let mappings = vec![
        ('\u{E000}', write_fonts::types::GlyphId::new(5)),
        ('\u{E001}', write_fonts::types::GlyphId::new(3)),
        ('\u{E002}', write_fonts::types::GlyphId::new(9)),
    ];
    let cmap = write_fonts::tables::cmap::Cmap::from_mappings(mappings).expect("cmap");
    let names: Vec<String> = (1..=9).map(|i| format!("g{}", i)).collect();
    let mut order: Vec<&str> = vec![".notdef"];
    for n in &names {
        order.push(n);
    }
    let post = write_fonts::tables::post::Post::new_v2(order);
    let mut builder = write_fonts::FontBuilder::new();
    builder.add_table(&cmap).expect("add cmap");
    builder.add_table(&post).expect("add post");
    let bytes = builder.build();
    let map = build_icon_map_from_bytes(&bytes).expect("mapping");
    assert_eq!(map.get("g5").copied(), Some('\u{E000}'));
    assert_eq!(map.get("g3").copied(), Some('\u{E001}'));
    assert_eq!(map.get("g9").copied(), Some('\u{E002}'));
}

#[test]
fn garbage_bytes_are_a_parse_error() {
    let r = build_icon_map_from_bytes(&[1, 2, 3, 4]);
    assert!(matches!(r, Err(Error::FontRead(_))));
}

#[test]
fn font_without_character_map_gives_empty_mapping() {
    // A syntactically valid container holding only a header table has no
    // usable character map: the decoder yields an empty mapping, not an
    // error.
    let head = write_fonts::tables::head::Head::default();
    let mut builder = write_fonts::FontBuilder::new();
    builder.add_table(&head).expect("add head");
    let bytes = builder.build();
    let map = build_icon_map_from_bytes(&bytes).expect("mapping");
    assert!(map.is_empty());
}

#[test]
fn font_without_name_table_gives_empty_mapping() {
    // A container with a character map but no glyph-name table resolves
    // no names: every code is silently omitted.
    let mappings = vec![('\u{E000}', write_fonts::types::GlyphId::new(1))];
    let cmap = write_fonts::tables::cmap::Cmap::from_mappings(mappings).expect("cmap");
    let mut builder = write_fonts::FontBuilder::new();
    builder.add_table(&cmap).expect("add cmap");
    let bytes = builder.build();
    let map = build_icon_map_from_bytes(&bytes).expect("mapping");
    assert!(map.is_empty());
}
