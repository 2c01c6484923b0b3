//! A normalized 4-byte-per-pixel image buffer and the color-key transform.
//!
//! The buffer stores rows of `pitch` bytes; each row holds `width` pixels of
//! four bytes (red, green, blue, alpha in that order), and the row may end in
//! padding bytes beyond `4 * width`. The color-key transform rewrites every
//! pixel through the key predicate — magenta and black become fully
//! transparent — visiting each pixel exactly once, row-major, and leaving
//! padding bytes as they are.

use vstd::prelude::*;
use vstd::arithmetic::div_mod::{lemma_fundamental_div_mod, lemma_fundamental_div_mod_converse};
use crate::color::{Color, apply_color_key, key_to_transparent};
use crate::error::RenderError;

verus! {

/// The index of the first byte of pixel `(x, y)` in a buffer of row stride
/// `pitch`.
pub open spec fn pixel_base(pitch: int, x: int, y: int) -> int {
    y * pitch + 4 * x
}

/// The color stored at pixel `(x, y)`: four bytes, red first.
pub open spec fn spec_pixel(bytes: Seq<u8>, pitch: int, x: int, y: int) -> Color {
    Color {
        r: bytes[pixel_base(pitch, x, y)],
        g: bytes[pixel_base(pitch, x, y) + 1],
        b: bytes[pixel_base(pitch, x, y) + 2],
        a: bytes[pixel_base(pitch, x, y) + 3],
    }
}

/// Channel `k` of `c`, in storage order: red, green, blue, alpha.
pub open spec fn channel(c: Color, k: int) -> u8 {
    if k == 0 {
        c.r
    } else if k == 1 {
        c.g
    } else if k == 2 {
        c.b
    } else {
        c.a
    }
}

/// Byte `i` of the color-keyed buffer: a pixel byte carries its channel of
/// the keyed pixel color, a padding byte is unchanged.
pub open spec fn keyed_byte(bytes: Seq<u8>, width: int, pitch: int, i: int) -> u8 {
    if i % pitch < 4 * width {
        channel(
            key_to_transparent(spec_pixel(bytes, pitch, (i % pitch) / 4, i / pitch)),
            (i % pitch) % 4,
        )
    } else {
        bytes[i]
    }
}

/// The whole color-keyed buffer.
pub open spec fn keyed_bytes(bytes: Seq<u8>, width: int, pitch: int) -> Seq<u8> {
    Seq::new(bytes.len(), |i: int| keyed_byte(bytes, width, pitch, i))
}

/// An owned pixel buffer in the normalized layout.
pub struct Image {
    pub bytes: Vec<u8>,
    pub width: u32,
    pub height: u32,
    pub pitch: u32,
}

impl Image {
    /// Well-formedness: each row has room for its pixels, and the buffer
    /// holds exactly `height` rows of `pitch` bytes.
    pub open spec fn wf(self) -> bool {
        &&& 4 * self.width as int <= self.pitch as int
        &&& self.bytes@.len() == self.height as int * self.pitch as int
    }

    /// Wraps a raw buffer, checking that it has the normalized layout:
    /// `pitch` covers `4 * width` bytes of pixels per row and the buffer is
    /// exactly `height` rows long.
    pub fn new(bytes: Vec<u8>, width: u32, height: u32, pitch: u32) -> (r: Result<
        Image,
        RenderError,
    >)
        ensures
            match r {
                Ok(img) => {
                    &&& img.wf()
                    &&& img.bytes@ == bytes@
                    &&& img.width == width
                    &&& img.height == height
                    &&& img.pitch == pitch
                },
                Err(e) => {
                    &&& e == RenderError::UnsupportedPixelFormat
                    &&& !(4 * width as int <= pitch as int && bytes@.len() == height as int
                        * pitch as int)
                },
            },
    {
        let len: usize = bytes.len();
        if (pitch as u64) < 4 * (width as u64) {
            return Err(RenderError::UnsupportedPixelFormat);
        }
        match (height as usize).checked_mul(pitch as usize) {
            Some(expected) => {
                if expected == len {
                    Ok(Image { bytes, width, height, pitch })
                } else {
                    Err(RenderError::UnsupportedPixelFormat)
                }
            },
            None => Err(RenderError::UnsupportedPixelFormat),
        }
    }

    /// The color-keyed copy of this image: every pixel is rewritten through
    /// the key predicate, every padding byte kept; the source is not touched.
    #[verifier::loop_isolation(false)]
    pub fn color_keyed(&self) -> (out: Image)
        requires
            self.wf(),
        ensures
            out.wf(),
            out.width == self.width,
            out.height == self.height,
            out.pitch == self.pitch,
            out.bytes@ == keyed_bytes(self.bytes@, self.width as int, self.pitch as int),
    {
        let width = self.width;
        let height = self.height;
        let pitch = self.pitch;
        // The source length, a usize, bounds every index computed below.
        let _src_len: usize = self.bytes.len();
        let ghost target = keyed_bytes(self.bytes@, width as int, pitch as int);
        let mut bytes: Vec<u8> = Vec::new();
        let mut y: u32 = 0;
        while y < height
            invariant
                y <= height,
                bytes@.len() == y as int * pitch as int,
                bytes@ =~= target.subrange(0, bytes@.len() as int),
            decreases height - y,
        {
            proof {
                assert((y as int + 1) * pitch as int <= height as int * pitch as int)
                    by (nonlinear_arith)
                    requires
                        y as int + 1 <= height as int,
                        pitch as int >= 0,
                ;
            }
            for x in 0..width
                invariant
                    bytes@.len() == y as int * pitch as int + 4 * x as int,
                    bytes@ =~= target.subrange(0, bytes@.len() as int),
                decreases width - x,
            {
                proof {
                    let pi = pitch as int;
                    let yi = y as int;
                    let xi = x as int;
                    assert((yi + 1) * pi <= height as int * pi) by (nonlinear_arith)
                        requires
                            yi + 1 <= height as int,
                            pi >= 0,
                    ;
                    assert(4 * xi + 4 <= 4 * width as int);
                    assert(yi * pi + 4 * xi + 4 <= height as int * pi) by (nonlinear_arith)
                        requires
                            0 <= yi,
                            yi + 1 <= height as int,
                            0 <= xi,
                            4 * xi + 4 <= pi,
                            pi >= 0,
                    ;
                    lemma_fundamental_div_mod_converse(yi * pi + (4 * xi), pi, yi, 4 * xi);
                    lemma_fundamental_div_mod_converse(yi * pi + (4 * xi + 1), pi, yi, 4 * xi + 1);
                    lemma_fundamental_div_mod_converse(yi * pi + (4 * xi + 2), pi, yi, 4 * xi + 2);
                    lemma_fundamental_div_mod_converse(yi * pi + (4 * xi + 3), pi, yi, 4 * xi + 3);
                    lemma_fundamental_div_mod_converse(4 * xi, 4, xi, 0);
                    lemma_fundamental_div_mod_converse(4 * xi + 1, 4, xi, 1);
                    lemma_fundamental_div_mod_converse(4 * xi + 2, 4, xi, 2);
                    lemma_fundamental_div_mod_converse(4 * xi + 3, 4, xi, 3);
                }
                let base: usize = y as usize * pitch as usize + 4 * x as usize;
                let c = Color {
                    r: self.bytes[base],
                    g: self.bytes[base + 1],
                    b: self.bytes[base + 2],
                    a: self.bytes[base + 3],
                };
                let nc = apply_color_key(c);
                proof {
                    assert(spec_pixel(self.bytes@, pitch as int, x as int, y as int) == c);
                    assert(target[base as int] == nc.r);
                    assert(target[base as int + 1] == nc.g);
                    assert(target[base as int + 2] == nc.b);
                    assert(target[base as int + 3] == nc.a);
                }
                bytes.push(nc.r);
                proof {
                    assert(bytes@ =~= target.subrange(0, bytes@.len() as int));
                }
                bytes.push(nc.g);
                proof {
                    assert(bytes@ =~= target.subrange(0, bytes@.len() as int));
                }
                bytes.push(nc.b);
                proof {
                    assert(bytes@ =~= target.subrange(0, bytes@.len() as int));
                }
                bytes.push(nc.a);
                proof {
                    assert(bytes@ =~= target.subrange(0, bytes@.len() as int));
                }
            }
            let mut p: u32 = 4 * width;
            while p < pitch
                invariant
                    4 * width <= p <= pitch,
                    bytes@.len() == y as int * pitch as int + p as int,
                    bytes@ =~= target.subrange(0, bytes@.len() as int),
                decreases pitch - p,
            {
                proof {
                    assert(y as int * pitch as int + p as int + 1 <= height as int
                        * pitch as int) by (nonlinear_arith)
                        requires
                            0 <= y as int,
                            y as int + 1 <= height as int,
                            0 <= p as int,
                            (p as int) < pitch as int,
                    ;
                }
                let idx: usize = y as usize * pitch as usize + p as usize;
                proof {
                    lemma_fundamental_div_mod_converse(
                        y as int * pitch as int + p as int,
                        pitch as int,
                        y as int,
                        p as int,
                    );
                    assert(target[idx as int] == self.bytes@[idx as int]);
                }
                bytes.push(self.bytes[idx]);
                proof {
                    assert(bytes@ =~= target.subrange(0, bytes@.len() as int));
                }
                p = p + 1;
            }
            proof {
                assert((y as int + 1) * pitch as int == y as int * pitch as int + pitch as int)
                    by (nonlinear_arith);
            }
            y = y + 1;
        }
        proof {
            assert(bytes@ =~= target);
        }
        Image { bytes, width, height, pitch }
    }
}

/// The color-key transform is idempotent: transforming an already
/// transformed buffer changes nothing. Key pixels are already fully
/// transparent — and the transparent color is itself a key color — while
/// every other pixel is a fixed point of the key predicate.
pub proof fn lemma_color_key_idempotent(bytes: Seq<u8>, width: int, height: int, pitch: int)
    requires
        0 <= width,
        0 <= height,
        4 * width <= pitch,
        bytes.len() == height * pitch,
    ensures
        keyed_bytes(keyed_bytes(bytes, width, pitch), width, pitch) =~= keyed_bytes(
            bytes,
            width,
            pitch,
        ),
{
    let once = keyed_bytes(bytes, width, pitch);
    let twice = keyed_bytes(once, width, pitch);
    assert forall|i: int| 0 <= i < bytes.len() implies twice[i] == once[i] by {
        assert(pitch > 0) by (nonlinear_arith)
            requires
                0 <= i < height * pitch,
                pitch >= 0,
        ;
        lemma_fundamental_div_mod(i, pitch);
        let y = i / pitch;
        let r = i % pitch;
        if r < 4 * width {
            lemma_fundamental_div_mod(r, 4);
            let x = r / 4;
            let ch = r % 4;
            assert(x < width);
            assert(y < height) by (nonlinear_arith)
                requires
                    i == pitch * y + r,
                    0 <= r < pitch,
                    0 <= i < height * pitch,
                    pitch > 0,
                    y >= 0,
            ;
            assert(y * pitch + 4 * x + 4 <= height * pitch) by (nonlinear_arith)
                requires
                    0 <= y,
                    y + 1 <= height,
                    0 <= x,
                    4 * x + 4 <= pitch,
                    pitch >= 0,
            ;
            lemma_fundamental_div_mod_converse(y * pitch + (4 * x), pitch, y, 4 * x);
            lemma_fundamental_div_mod_converse(y * pitch + (4 * x + 1), pitch, y, 4 * x + 1);
            lemma_fundamental_div_mod_converse(y * pitch + (4 * x + 2), pitch, y, 4 * x + 2);
            lemma_fundamental_div_mod_converse(y * pitch + (4 * x + 3), pitch, y, 4 * x + 3);
            lemma_fundamental_div_mod_converse(4 * x, 4, x, 0);
            lemma_fundamental_div_mod_converse(4 * x + 1, 4, x, 1);
            lemma_fundamental_div_mod_converse(4 * x + 2, 4, x, 2);
            lemma_fundamental_div_mod_converse(4 * x + 3, 4, x, 3);
            let c = spec_pixel(bytes, pitch, x, y);
            assert(spec_pixel(once, pitch, x, y) == key_to_transparent(c));
        }
    }
}

} // verus!
