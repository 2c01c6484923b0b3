//! RGBA colors and the color-key transparency predicate.

use vstd::prelude::*;

verus! {

/// A 4-channel color; each channel is an 8-bit unsigned integer.
/// Equality is exact channel equality.
#[derive(Clone, Copy, PartialEq, Eq, Structural, Debug)]
pub struct Color {
    pub r: u8,
    pub g: u8,
    pub b: u8,
    pub a: u8,
}

impl Color {
    pub fn rgba(r: u8, g: u8, b: u8, a: u8) -> (c: Color)
        ensures
            c == (Color { r, g, b, a }),
    {
        Color { r, g, b, a }
    }

    pub fn rgb(r: u8, g: u8, b: u8) -> (c: Color)
        ensures
            c == (Color { r, g, b, a: 255u8 }),
    {
        Color { r, g, b, a: 255 }
    }
}

/// Whether a color is one of the two designated key colors: pure magenta or
/// pure black, whatever the alpha channel holds.
pub open spec fn is_key_color(c: Color) -> bool {
    (c.r == 255 && c.g == 0 && c.b == 255) || (c.r == 0 && c.g == 0 && c.b == 0)
}

/// The color-key predicate: key colors become fully transparent, every other
/// color passes through unchanged.
pub open spec fn key_to_transparent(c: Color) -> Color {
    if is_key_color(c) {
        Color { r: 0, g: 0, b: 0, a: 0 }
    } else {
        c
    }
}

/// Applying the color-key predicate twice is the same as applying it once:
/// the fully transparent color is itself a key color, and a non-key color is
/// a fixed point.
pub proof fn lemma_key_predicate_idempotent(c: Color)
    ensures
        key_to_transparent(key_to_transparent(c)) == key_to_transparent(c),
{
}

/// Executable form of [`key_to_transparent`].
pub fn apply_color_key(c: Color) -> (r: Color)
    ensures
        r == key_to_transparent(c),
{
    if (c.r == 255 && c.g == 0 && c.b == 255) || (c.r == 0 && c.g == 0 && c.b == 0) {
        Color { r: 0, g: 0, b: 0, a: 0 }
    } else {
        c
    }
}

} // verus!
