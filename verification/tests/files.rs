//! Tests of destination validation and icon-path collection.

use verglas::{collect_svg_paths, get_font_name, path_plan, Error, StrokePlan};

#[test]
fn font_name_from_destination() {
    let name = get_font_name("assets/example-icons.ttf").expect("name");
    assert_eq!(name, "example-icons");
}

#[test]
fn font_name_accepts_upper_case_extension() {
    let name = get_font_name("Fonts.d/X.TTF").expect("name");
    assert_eq!(name, "X");
}

#[test]
fn wrong_extension_is_invalid_destination() {
    assert!(matches!(get_font_name("icons.png"), Err(Error::InvalidDestination(_))));
    assert!(matches!(get_font_name("noextension"), Err(Error::InvalidDestination(_))));
    assert!(matches!(get_font_name("dir/.ttf"), Err(Error::InvalidDestination(_))));
    assert!(matches!(get_font_name(""), Err(Error::InvalidDestination(_))));
}

#[test]
fn collects_icon_ids() {
    let files = vec![
        "icons/cat-left.svg".to_string(),
        "icons/jam/book.SVG".to_string(),
        "icons/readme.txt".to_string(),
    ];
    let entries = collect_svg_paths("icons", &files).expect("entries");
    assert_eq!(entries.len(), 2);
    assert_eq!(entries[0].0, "cat-left");
    assert_eq!(entries[0].1, "icons/cat-left.svg");
    assert_eq!(entries[1].0, "jam/book");
    assert_eq!(entries[1].1, "icons/jam/book.SVG");
}

#[test]
fn empty_source_is_no_icons_found() {
    let r = collect_svg_paths("icons", &Vec::new());
    assert!(matches!(r, Err(Error::NoIconsFound)));
}

#[test]
fn source_without_icons_is_no_icons_found() {
    let files = vec!["icons/readme.txt".to_string(), "icons/a/b.png".to_string()];
    let r = collect_svg_paths("icons", &files);
    assert!(matches!(r, Err(Error::NoIconsFound)));
}

#[test]
fn stroke_plan_dispatch() {
    assert_eq!(path_plan(true, true, true), StrokePlan::Skip);
    assert_eq!(path_plan(false, true, true), StrokePlan::StrokeAndSplit);
    assert_eq!(path_plan(false, true, false), StrokePlan::StrokeOnly);
    assert_eq!(path_plan(false, false, true), StrokePlan::FillOnly);
    assert_eq!(path_plan(false, false, false), StrokePlan::Skip);
}
