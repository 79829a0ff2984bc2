use vstd::prelude::*;
use vstd::arithmetic::power2::lemma_pow2_pos;
use crate::blend::{blend_fallback, blended};
use crate::color::{Color, ColorError};
use crate::distance::{blend_threshold, lemma_blend_threshold_value, Distance};
use crate::matcher::{
    best_match,
    find_closest_color,
    lemma_best_match_is_nearest,
    lemma_exact_entry_wins,
};
use crate::palette::{parsed_colors, Palette, Scheme};

verus! {

/// Reads the palette with which a run recolours. A scheme in which no
/// colour is well formed gives no palette: nothing could be matched against
/// it, so the run ends before it has begun.
pub fn load_palette(scheme: &Scheme) -> (loaded: Result<Palette, ColorError>)
    ensures
        parsed_colors(scheme.entries()).len() == 0 ==> loaded == Err::<Palette, ColorError>(
            ColorError::EmptyPalette,
        ),
        parsed_colors(scheme.entries()).len() > 0 ==> loaded is Ok && loaded.unwrap()@
            == parsed_colors(scheme.entries()),
{
    let palette = Palette::from_scheme(scheme);
    if palette.is_empty() {
        Err(ColorError::EmptyPalette)
    } else {
        Ok(palette)
    }
}

/// Recolours one pixel: finds the palette entry nearest to it, given the
/// distance of the pixel to each entry, and softens the match where it is
/// distant. A palette without entries recolours nothing.
pub fn recolor_pixel(pixel: Color, palette: &Palette, distances: &Vec<Distance>) -> (out: Result<
    Color,
    ColorError,
>)
    requires
        distances@.len() == palette@.len(),
    ensures
        palette@.len() == 0 ==> out == Err::<Color, ColorError>(ColorError::EmptyPalette),
        palette@.len() > 0 ==> out == Ok::<Color, ColorError>(
            blended(pixel, best_match(palette@, distances@)),
        ),
{
    match find_closest_color(palette, distances) {
        Ok(matched) => Ok(blend_fallback(pixel, matched)),
        Err(e) => Err(e),
    }
}

/// A pixel whose colour the palette holds keeps its colour, provided that the
/// distance is zero for that colour and for no other.
pub proof fn lemma_palette_color_is_kept(
    palette: Seq<Color>,
    distances: Seq<Distance>,
    pixel: Color,
    k: int,
)
    requires
        distances.len() == palette.len(),
        0 <= k < palette.len(),
        palette[k] == pixel,
        forall|i: int|
            0 <= i < palette.len() ==> ((#[trigger] distances[i])@ == 0 <==> palette[i] == pixel),
    ensures
        blended(pixel, best_match(palette, distances)) == pixel,
{
    lemma_exact_entry_wins(palette, distances, pixel, k);
    lemma_blend_threshold_value();
    lemma_pow2_pos(129);
}

/// A pixel whose match lies nearer than the blending threshold is given a
/// colour of the palette.
pub proof fn lemma_near_match_is_palette_color(
    palette: Seq<Color>,
    distances: Seq<Distance>,
    pixel: Color,
)
    requires
        distances.len() == palette.len(),
        palette.len() > 0,
        best_match(palette, distances).distance@ < blend_threshold(),
    ensures
        palette.contains(blended(pixel, best_match(palette, distances))),
{
    lemma_best_match_is_nearest(palette, distances);
}

} // verus!
