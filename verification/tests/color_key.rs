use glyph_grid::color::{apply_color_key, Color};
use glyph_grid::error::RenderError;
use glyph_grid::image::Image;

fn rgba(r: u8, g: u8, b: u8, a: u8) -> Color {
    Color::rgba(r, g, b, a)
}

#[test]
fn key_predicate_maps_keys_to_transparent() {
    assert_eq!(apply_color_key(rgba(255, 0, 255, 0)), rgba(0, 0, 0, 0));
    assert_eq!(apply_color_key(rgba(255, 0, 255, 200)), rgba(0, 0, 0, 0));
    assert_eq!(apply_color_key(rgba(0, 0, 0, 255)), rgba(0, 0, 0, 0));
    assert_eq!(apply_color_key(rgba(1, 2, 3, 4)), rgba(1, 2, 3, 4));
    assert_eq!(apply_color_key(rgba(255, 0, 254, 9)), rgba(255, 0, 254, 9));
}

#[test]
fn color_key_transform_rewrites_key_pixels() {
    // One row of three pixels: magenta, black, and an ordinary color.
    let bytes = vec![
        255, 0, 255, 77, // magenta, arbitrary alpha
        0, 0, 0, 13, // black, arbitrary alpha
        12, 34, 56, 255, // unaffected color
    ];
    let img = Image::new(bytes, 3, 1, 12).unwrap();
    let keyed = img.color_keyed();
    assert_eq!(
        keyed.bytes,
        vec![0, 0, 0, 0, 0, 0, 0, 0, 12, 34, 56, 255]
    );
    assert_eq!(keyed.width, 3);
    assert_eq!(keyed.height, 1);
    assert_eq!(keyed.pitch, 12);
}

#[test]
fn color_key_transform_keeps_row_padding() {
    // Two rows of one pixel each, with a pitch of 6: two padding bytes per
    // row must come through untouched.
    let bytes = vec![
        255, 0, 255, 1, 111, 112, // keyed pixel, then padding
        9, 9, 9, 9, 113, 114, // ordinary pixel, then padding
    ];
    let img = Image::new(bytes, 1, 2, 6).unwrap();
    let keyed = img.color_keyed();
    assert_eq!(
        keyed.bytes,
        vec![0, 0, 0, 0, 111, 112, 9, 9, 9, 9, 113, 114]
    );
}

#[test]
fn color_key_transform_is_idempotent() {
    let bytes = vec![
        255, 0, 255, 77, 0, 0, 0, 13, 12, 34, 56, 255, 200, 0, 200, 3, // pixels
        250, 251, // padding
    ];
    let img = Image::new(bytes, 4, 1, 18).unwrap();
    let once = img.color_keyed();
    let twice = once.color_keyed();
    assert_eq!(twice.bytes, once.bytes);
    assert_eq!(twice.width, once.width);
    assert_eq!(twice.height, once.height);
    assert_eq!(twice.pitch, once.pitch);
}

#[test]
fn image_new_rejects_wrong_length() {
    let r = Image::new(vec![0; 11], 1, 1, 12);
    assert!(matches!(r, Err(RenderError::UnsupportedPixelFormat)));
}

#[test]
fn image_new_rejects_short_pitch() {
    let r = Image::new(vec![0; 8], 2, 1, 4);
    assert!(matches!(r, Err(RenderError::UnsupportedPixelFormat)));
}

#[test]
fn render_error_descriptions_are_distinct() {
    assert_eq!(
        RenderError::ImageLoadError.describe(),
        "image load failed"
    );
    assert_eq!(
        RenderError::UnsupportedPixelFormat.describe(),
        "unsupported pixel format"
    );
    assert_eq!(
        RenderError::NonDivisibleTileGeometry.describe(),
        "non-divisible tile geometry"
    );
    assert_eq!(
        RenderError::RenderBackendError.describe(),
        "render backend failure"
    );
}
