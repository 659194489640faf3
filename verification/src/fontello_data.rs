//! The data of a fontello configuration file.
use vstd::prelude::*;

verus! {

/// A fontello font configuration.
#[derive(Clone, Debug)]
pub struct FontelloConfig {
    pub name: String,
    pub css_prefix_text: String,
    pub css_use_suffix: bool,
    pub hinting: bool,
    pub units_per_em: u32,
    pub ascent: u32,
    pub glyphs: Vec<Glyph>,
}

/// One glyph of a font: its identity, its CSS name, its code point and its
/// outline.
#[derive(Clone, Debug)]
pub struct Glyph {
    pub uid: String,
    pub css: String,
    pub code: u32,
    pub src: String,
    pub selected: bool,
    pub svg: SvgData,
    pub search: Vec<String>,
}

/// The outline of a glyph: SVG path data and the width it is drawn in.
#[derive(Clone, Debug)]
pub struct SvgData {
    pub path: String,
    pub width: u32,
}

} // verus!
