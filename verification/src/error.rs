//! Error taxonomy for font generation and decoding.

use vstd::prelude::*;

verus! {

/// Everything that can go wrong while generating a font or decoding one.
///
/// Messages from outside libraries are carried as plain strings.
#[derive(Debug)]
pub enum Error {
    /// Reading or writing a file failed.
    Io(String),
    /// The bytes handed to the decoder could not be parsed as a font container.
    FontRead(String),
    /// The source directory holds no icon files.
    NoIconsFound,
    /// The destination path has the wrong extension or no usable file stem.
    InvalidDestination(String),
    /// An icon's vector markup could not be parsed.
    SvgParse(String),
    /// Assembling the font failed.
    FontCreation(String),
    /// A disallowed curve segment reached the glyph synthesizer.
    GlyphConversion(String),
    /// Serializing one of the font tables failed.
    BuildFontTable(String),
    /// The font serializer reported an error.
    WriteFont(String),
}

} // verus!
