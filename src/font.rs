//! Glyphs of the bitmap font used for on-screen text.
use noto_sans_mono_bitmap::{get_raster, FontWeight, RasterHeight};
use vstd::prelude::*;

verus! {

/// Width of a glyph in pixels.
pub const GLYPH_WIDTH: usize = 9;

/// Height of a glyph in pixels, which is also the line height.
pub const GLYPH_HEIGHT: usize = 16;

/// The raster rows of the font's glyph for `c` (one grey intensity per pixel),
/// or `None` where the font has no glyph for it.
pub uninterp spec fn glyph_of(c: char) -> Option<Seq<Seq<u8>>>;

/// A rasterised character.
pub struct Glyph {
    pub width: usize,
    pub height: usize,
    pub rows: Vec<Vec<u8>>,
}

/// Relies on `noto_sans_mono_bitmap::get_raster` with the regular weight and
/// the 16-pixel raster: whether a glyph exists and its raster depend on the
/// character alone, and every glyph of that weight and size reports a width of
/// 9 (`get_raster_width`) and a height of 16 (`RasterHeight::Size16`), its
/// raster being 16 rows of 9 intensities.
#[verifier::external_body]
pub(crate) fn raster(c: char) -> (r: Option<Glyph>)
    ensures
        r is Some <==> glyph_of(c) is Some,
        r matches Some(g) ==> {
            &&& g.width == GLYPH_WIDTH
            &&& g.height == GLYPH_HEIGHT
            &&& g.rows.deep_view() == glyph_of(c)->0
            &&& g.rows@.len() == GLYPH_HEIGHT
            &&& forall|i: int| 0 <= i < GLYPH_HEIGHT ==> (#[trigger] g.rows@[i])@.len() == GLYPH_WIDTH
        },
{
    match get_raster(c, FontWeight::Regular, RasterHeight::Size16) {
        Some(g) => Some(
            Glyph {
                width: g.width(),
                height: g.height(),
                rows: g.raster().iter().map(|row| row.to_vec()).collect(),
            },
        ),
        None => None,
    }
}

} // verus!
