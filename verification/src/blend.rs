use vstd::prelude::*;
use crate::color::Color;
use crate::distance::blend_threshold;
use crate::matcher::MatchResult;

verus! {

/// The mean of two channel values, rounded down.
pub open spec fn channel_average(a: u8, b: u8) -> u8 {
    ((a as int + b as int) / 2) as u8
}

/// The colour halfway between two colours, channel by channel.
pub open spec fn middle_color(a: Color, b: Color) -> Color {
    Color {
        r: channel_average(a.r, b.r),
        g: channel_average(a.g, b.g),
        b: channel_average(a.b, b.b),
    }
}

fn average(a: u8, b: u8) -> (m: u8)
    ensures
        m == channel_average(a, b),
        m as int == (a as int + b as int) / 2,
{
    let sum: u16 = a as u16 + b as u16;
    (sum / 2) as u8
}

/// Averages two colours channel by channel, rounding each channel down.
/// The sum of two channels is formed without wrapping.
pub fn find_middle_color(color_a: Color, color_b: Color) -> (color_c: Color)
    ensures
        color_c == middle_color(color_a, color_b),
        color_c.r as int == (color_a.r as int + color_b.r as int) / 2,
        color_c.g as int == (color_a.g as int + color_b.g as int) / 2,
        color_c.b as int == (color_a.b as int + color_b.b as int) / 2,
{
    Color {
        r: average(color_a.r, color_b.r),
        g: average(color_a.g, color_b.g),
        b: average(color_a.b, color_b.b),
    }
}

/// What stands in for a match: the match itself while it lies nearer than the
/// blending threshold, else the colour halfway between it and the colour that
/// was asked for.
pub open spec fn blended(query: Color, matched: MatchResult) -> Color {
    if matched.distance@ >= blend_threshold() {
        middle_color(query, matched.color)
    } else {
        matched.color
    }
}

/// Softens a distant match. A match at or beyond the blending threshold is
/// replaced by its average with the colour asked for; a nearer one is kept.
pub fn blend_fallback(query: Color, matched: MatchResult) -> (color: Color)
    ensures
        color == blended(query, matched),
{
    if matched.distance.reaches_blend_threshold() {
        find_middle_color(query, matched.color)
    } else {
        matched.color
    }
}

} // verus!
