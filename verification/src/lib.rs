//! A verified core for a glyph-tile renderer.
//!
//! The library models a grid of colored glyph tiles drawn from a fixed-size
//! sprite sheet: the color-key transparency transform applied to a freshly
//! loaded sheet image, the sheet's tile addressing, a screen grid of tile
//! records, and a rich-text tree that flattens into a run of colored tiles.
//! Platform work (window, textures, the frame loop) stays outside; drawing is
//! described here as a sequence of explicit draw commands for a backend to
//! execute.

pub mod color;
pub mod draw;
pub mod error;
pub mod grid;
pub mod image;
pub mod rich_text;
pub mod sprite_sheet;
pub mod tile;
