//! Rectangles and the draw commands the core hands to a rendering backend.

use vstd::prelude::*;
use crate::color::Color;

verus! {

/// An axis-aligned rectangle in pixel space: top-left corner plus size.
#[derive(Clone, Copy, PartialEq, Eq, Structural, Debug)]
pub struct Rect {
    pub x: i32,
    pub y: i32,
    pub w: u32,
    pub h: u32,
}

/// One drawing primitive for the backend to execute, in order.
///
/// `CopyTile`'s tint modulates only the RGB channels of the copied pixels;
/// its alpha channel is not applied.
#[derive(Clone, Copy, PartialEq, Eq, Structural, Debug)]
pub enum DrawCommand {
    /// Fill `rect` with `color`.
    FillRect { color: Color, rect: Rect },
    /// Copy the sheet sub-region `src` to `dst`, tinted by `tint`'s RGB.
    CopyTile { tint: Color, src: Rect, dst: Rect },
}

} // verus!
