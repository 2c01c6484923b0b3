//! Per-cell tile records and the default palette.

use vstd::prelude::*;
use crate::color::Color;

verus! {

/// Index of one glyph tile in a sprite sheet; by convention it equals the
/// code point of the character the tile depicts.
pub type SpriteIndex = u32;

/// The default foreground color: a light teal.
pub open spec fn default_fg() -> Color {
    Color { r: 180, g: 220, b: 200, a: 255 }
}

/// The default background color: a dark teal.
pub open spec fn default_bg() -> Color {
    Color { r: 5, g: 30, b: 25, a: 255 }
}

/// Executable form of [`default_fg`].
pub fn default_foreground() -> (c: Color)
    ensures
        c == default_fg(),
{
    Color { r: 180, g: 220, b: 200, a: 255 }
}

/// Executable form of [`default_bg`].
pub fn default_background() -> (c: Color)
    ensures
        c == default_bg(),
{
    Color { r: 5, g: 30, b: 25, a: 255 }
}

/// One cell of the screen grid: a glyph and its two colors.
#[derive(Clone, Copy, PartialEq, Eq, Structural, Debug)]
pub struct ScreenTile {
    pub sprite: SpriteIndex,
    pub fg_color: Color,
    pub bg_color: Color,
}

impl ScreenTile {
    /// The blank tile: glyph 0 with the default palette.
    pub fn new() -> (t: ScreenTile)
        ensures
            t == (ScreenTile { sprite: 0u32, fg_color: default_fg(), bg_color: default_bg() }),
    {
        ScreenTile { sprite: 0, fg_color: default_foreground(), bg_color: default_background() }
    }

    /// A tile showing `character` in the default palette.
    pub fn from_char(character: char) -> (t: ScreenTile)
        ensures
            t == (ScreenTile {
                sprite: character as SpriteIndex,
                fg_color: default_fg(),
                bg_color: default_bg(),
            }),
    {
        ScreenTile {
            sprite: character as SpriteIndex,
            fg_color: default_foreground(),
            bg_color: default_background(),
        }
    }
}

} // verus!
