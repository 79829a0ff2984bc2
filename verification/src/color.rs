use vstd::prelude::*;

verus! {

/// An sRGB colour with eight bits per channel.
#[derive(Clone, Copy, Debug, PartialEq, Eq, Structural, Hash)]
pub struct Color {
    pub r: u8,
    pub g: u8,
    pub b: u8,
}

/// The ways in which colour matching can fail.
#[derive(Clone, Copy, Debug, PartialEq, Eq, Structural)]
pub enum ColorError {
    /// A hex colour text is not `#` followed by six hexadecimal digits.
    InvalidFormat,
    /// A match was asked of a palette without entries.
    EmptyPalette,
}

impl Color {
    /// Builds a colour from its three channels.
    pub fn new(r: u8, g: u8, b: u8) -> (c: Color)
        ensures
            c == (Color { r, g, b }),
    {
        Color { r, g, b }
    }
}

} // verus!
