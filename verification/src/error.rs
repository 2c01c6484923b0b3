//! Error kinds for the renderer core.

use vstd::prelude::*;

verus! {

/// The fatal configuration and environment failures the renderer can meet.
/// Construction and draw operations surface these as typed results instead
/// of aborting.
#[derive(Clone, Copy, PartialEq, Eq, Structural, Debug)]
pub enum RenderError {
    /// A sheet image file could not be loaded or decoded.
    ImageLoadError,
    /// A pixel buffer does not have the required 4-byte-per-pixel layout.
    UnsupportedPixelFormat,
    /// A sheet image's dimensions are not evenly divisible by the tile size.
    NonDivisibleTileGeometry,
    /// A graphics-backend call failed.
    RenderBackendError,
}

impl RenderError {
    /// A short, fixed description of the error kind.
    pub fn describe(&self) -> (s: &'static str)
        ensures
            s@ == match *self {
                RenderError::ImageLoadError => "image load failed"@,
                RenderError::UnsupportedPixelFormat => "unsupported pixel format"@,
                RenderError::NonDivisibleTileGeometry => "non-divisible tile geometry"@,
                RenderError::RenderBackendError => "render backend failure"@,
            },
    {
        match *self {
            RenderError::ImageLoadError => "image load failed",
            RenderError::UnsupportedPixelFormat => "unsupported pixel format",
            RenderError::NonDivisibleTileGeometry => "non-divisible tile geometry",
            RenderError::RenderBackendError => "render backend failure",
        }
    }
}

} // verus!
