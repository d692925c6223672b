//! The theme record: a frozen description of a complete color scheme, as it
//! is exchanged with catalogs, collections and the config-apply sink.

use vstd::prelude::*;
use crate::color::{parse_hex_rgb, spec_hex_body, spec_hex_rgb, spec_valid_hex6};

verus! {

/// A complete theme record: raw configuration text plus the named colors,
/// palette and metadata it was built from. Counts and flags mirror what a
/// remote catalog reports.
#[derive(Debug, Clone)]
pub struct GhosttyConfig {
    pub id: String,
    pub slug: String,
    pub title: String,
    pub description: Option<String>,
    pub raw_config: String,
    pub background: String,
    pub foreground: String,
    pub cursor_color: Option<String>,
    pub cursor_text: Option<String>,
    pub selection_bg: Option<String>,
    pub selection_fg: Option<String>,
    pub palette: Vec<String>,
    pub font_family: Option<String>,
    pub cursor_style: Option<String>,
    pub is_dark: bool,
    pub tags: Vec<String>,
    pub source_url: Option<String>,
    pub author_name: Option<String>,
    pub author_url: Option<String>,
    pub is_featured: bool,
    pub vote_count: i32,
    pub view_count: i32,
    pub download_count: i32,
}

impl GhosttyConfig {
    /// Parse a hex color string like `#ff00aa` into `(r, g, b)`. One
    /// leading `#` is stripped; exactly six hex digits must remain.
    pub fn parse_hex(hex: &str) -> (r: Option<(u8, u8, u8)>)
        ensures
            r is Some <==> spec_valid_hex6(spec_hex_body(hex@)),
            r is Some ==> ({
                let (a, b, c) = r->0;
                (a as int, b as int, c as int) == spec_hex_rgb(spec_hex_body(hex@))
            }),
    {
        parse_hex_rgb(hex)
    }
}

} // verus!
