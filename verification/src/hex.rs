use vstd::prelude::*;
use vstd::string::*;
use crate::color::{Color, ColorError};

verus! {

/// The value of one hexadecimal digit, in either letter case.
pub open spec fn hex_digit_value(c: char) -> Option<u8> {
    if '0' <= c <= '9' {
        Some((c as u32 - '0' as u32) as u8)
    } else if 'a' <= c <= 'f' {
        Some((c as u32 - 'a' as u32 + 10) as u8)
    } else if 'A' <= c <= 'F' {
        Some((c as u32 - 'A' as u32 + 10) as u8)
    } else {
        None
    }
}

/// The channel value written by two hexadecimal digits, the high one first.
pub open spec fn parse_channel(hi: char, lo: char) -> Option<u8> {
    match (hex_digit_value(hi), hex_digit_value(lo)) {
        (Some(h), Some(l)) => Some((16 * h + l) as u8),
        _ => None,
    }
}

/// The colour that a text denotes: `#` followed by exactly six hexadecimal
/// digits, two each for red, green and blue. Every other text denotes none.
pub open spec fn parse_hex(s: Seq<char>) -> Option<Color> {
    if s.len() == 7 && s[0] == '#' {
        match (parse_channel(s[1], s[2]), parse_channel(s[3], s[4]), parse_channel(s[5], s[6])) {
            (Some(r), Some(g), Some(b)) => Some(Color { r, g, b }),
            _ => None,
        }
    } else {
        None
    }
}

fn digit_value(c: char) -> (v: Option<u8>)
    ensures
        v == hex_digit_value(c),
        v matches Some(d) ==> d < 16,
{
    let n: u32 = c as u32;
    if '0' <= c && c <= '9' {
        Some((n - '0' as u32) as u8)
    } else if 'a' <= c && c <= 'f' {
        Some((n - 'a' as u32 + 10) as u8)
    } else if 'A' <= c && c <= 'F' {
        Some((n - 'A' as u32 + 10) as u8)
    } else {
        None
    }
}

fn channel(hi: char, lo: char) -> (v: Option<u8>)
    ensures
        v == parse_channel(hi, lo),
{
    match (digit_value(hi), digit_value(lo)) {
        (Some(h), Some(l)) => Some(16 * h + l),
        _ => None,
    }
}

/// Reads a colour written as `#rrggbb`. Any other length, a missing `#` or a
/// character that is no hexadecimal digit gives `InvalidFormat`.
pub fn hex_to_rgb(hex: &str) -> (parsed: Result<Color, ColorError>)
    ensures
        parsed == match parse_hex(hex@) {
            Some(c) => Ok::<Color, ColorError>(c),
            None => Err(ColorError::InvalidFormat),
        },
{
    if hex.unicode_len() != 7 {
        return Err(ColorError::InvalidFormat);
    }
    if hex.get_char(0) != '#' {
        return Err(ColorError::InvalidFormat);
    }
    let r = channel(hex.get_char(1), hex.get_char(2));
    let g = channel(hex.get_char(3), hex.get_char(4));
    let b = channel(hex.get_char(5), hex.get_char(6));
    match (r, g, b) {
        (Some(r), Some(g), Some(b)) => Ok(Color { r, g, b }),
        _ => Err(ColorError::InvalidFormat),
    }
}

} // verus!
