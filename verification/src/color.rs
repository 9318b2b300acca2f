//! Per-pixel color transforms: grayscale conversion, channel inversion,
//! binarization by threshold, and the four-band pseudo-color remap. Each one
//! maps the pixel buffer pointwise and touches every pixel, borders included.

use vstd::prelude::*;
use crate::raster::{lemma_index_bound, RasterImage, Rgba};

verus! {

/// Pure white, fully opaque.
pub open spec fn white_pix() -> Rgba {
    Rgba { r: 255, g: 255, b: 255, a: 255 }
}

/// Pure black, fully opaque.
pub open spec fn black_pix() -> Rgba {
    Rgba { r: 0, g: 0, b: 0, a: 255 }
}

/// BT.601 luma of a pixel, truncated to an integer in 0..=255.
pub open spec fn luma601(p: Rgba) -> int {
    (299 * p.r + 587 * p.g + 114 * p.b) / 1000
}

/// Grayscale: the BT.601 luma replicated into R, G and B; alpha preserved.
pub open spec fn gray_pix(p: Rgba) -> Rgba {
    Rgba { r: luma601(p) as u8, g: luma601(p) as u8, b: luma601(p) as u8, a: p.a }
}

/// Inversion: each color channel replaced by its complement; alpha preserved.
pub open spec fn invert_pix(p: Rgba) -> Rgba {
    Rgba { r: (255 - p.r) as u8, g: (255 - p.g) as u8, b: (255 - p.b) as u8, a: p.a }
}

/// Binarization: pure white where the luma exceeds the threshold, else pure
/// black; alpha forced to 255 either way.
pub open spec fn bin_pix(t: u8, p: Rgba) -> Rgba {
    if luma601(p) > t {
        white_pix()
    } else {
        black_pix()
    }
}

/// The pseudo-color ramp on an intensity: four contiguous bands, each varying
/// one channel by 4 per intensity unit; alpha fixed at 255.
pub open spec fn pseudo_map(i: u8) -> Rgba {
    if i < 64 {
        Rgba { r: 0, g: 0, b: (i * 4) as u8, a: 255 }
    } else if i < 128 {
        Rgba { r: 0, g: ((i - 64) * 4) as u8, b: 255, a: 255 }
    } else if i < 192 {
        Rgba { r: 0, g: 255, b: (255 - (i - 128) * 4) as u8, a: 255 }
    } else {
        Rgba { r: ((i - 192) * 4) as u8, g: 255, b: 0, a: 255 }
    }
}

/// Pseudo-color reads the red channel of its input as the intensity.
pub open spec fn pseudo_pix(p: Rgba) -> Rgba {
    pseudo_map(p.r)
}

/// Which per-pixel transform to run.
pub enum PixelOp {
    Grayscale,
    Invert,
    Binarize(u8),
    PseudoColor,
}

/// What one pixel becomes under a per-pixel transform.
pub open spec fn pixel_op_spec(op: PixelOp, p: Rgba) -> Rgba {
    match op {
        PixelOp::Grayscale => gray_pix(p),
        PixelOp::Invert => invert_pix(p),
        PixelOp::Binarize(t) => bin_pix(t, p),
        PixelOp::PseudoColor => pseudo_pix(p),
    }
}

/// Run one per-pixel transform on one pixel.
pub fn apply_pixel_op(op: &PixelOp, p: Rgba) -> (q: Rgba)
    ensures
        q == pixel_op_spec(*op, p),
{
    match op {
        PixelOp::Grayscale => {
            let luma: u32 = (299 * (p.r as u32) + 587 * (p.g as u32) + 114 * (p.b as u32))
                / 1000;
            let l: u8 = luma as u8;
            Rgba { r: l, g: l, b: l, a: p.a }
        },
        PixelOp::Invert => Rgba { r: 255 - p.r, g: 255 - p.g, b: 255 - p.b, a: p.a },
        PixelOp::Binarize(t) => {
            let luma: u32 = (299 * (p.r as u32) + 587 * (p.g as u32) + 114 * (p.b as u32))
                / 1000;
            if luma > *t as u32 {
                Rgba { r: 255, g: 255, b: 255, a: 255 }
            } else {
                Rgba { r: 0, g: 0, b: 0, a: 255 }
            }
        },
        PixelOp::PseudoColor => {
            let i = p.r;
            if i < 64 {
                Rgba { r: 0, g: 0, b: i * 4, a: 255 }
            } else if i < 128 {
                Rgba { r: 0, g: (i - 64) * 4, b: 255, a: 255 }
            } else if i < 192 {
                Rgba { r: 0, g: 255, b: 255 - (i - 128) * 4, a: 255 }
            } else {
                Rgba { r: (i - 192) * 4, g: 255, b: 0, a: 255 }
            }
        },
    }
}

/// Map a per-pixel transform over the whole buffer, producing a fresh image
/// of the same dimensions.
pub fn map_pixels(img: &RasterImage, op: &PixelOp) -> (out: RasterImage)
    requires
        img.wf(),
    ensures
        out.wf(),
        out.w() == img.w(),
        out.h() == img.h(),
        out.buf() =~= img.buf().map_values(|p: Rgba| pixel_op_spec(*op, p)),
        forall|x: int, y: int|
            img.valid(x, y) ==> #[trigger] out.pix(x, y) == pixel_op_spec(*op, img.pix(x, y)),
    {
    let n = img.pixels.len();
    let mut v: Vec<Rgba> = Vec::new();
    let mut i: usize = 0;
    while i < n
        invariant
            i <= n,
            n == img.buf().len(),
            v@.len() == i,
            forall|j: int| 0 <= j < i ==> #[trigger] v@[j] == pixel_op_spec(*op, img.buf()[j]),
        decreases n - i,
    {
        let q = apply_pixel_op(op, img.pixels[i]);
        v.push(q);
        i = i + 1;
    }
    let out = RasterImage::from_parts(img.width, img.height, v);
    proof {
        assert(out.buf() =~= img.buf().map_values(|p: Rgba| pixel_op_spec(*op, p)));
        assert forall|x: int, y: int| img.valid(x, y) implies #[trigger] out.pix(x, y)
            == pixel_op_spec(*op, img.pix(x, y)) by {
            lemma_index_bound(img.w(), img.h(), x, y);
            assert(img.h() * img.w() == img.w() * img.h()) by (nonlinear_arith);
        }
    }
    out
}

/// Grayscale conversion of a whole image (BT.601 weights).
pub fn to_grayscale(img: &RasterImage) -> (out: RasterImage)
    requires
        img.wf(),
    ensures
        out.wf(),
        out.w() == img.w(),
        out.h() == img.h(),
        forall|x: int, y: int|
            img.valid(x, y) ==> #[trigger] out.pix(x, y) == gray_pix(img.pix(x, y)),
{
    map_pixels(img, &PixelOp::Grayscale)
}

/// Per-channel inversion of a whole image.
pub fn invert(img: &RasterImage) -> (out: RasterImage)
    requires
        img.wf(),
    ensures
        out.wf(),
        out.w() == img.w(),
        out.h() == img.h(),
        forall|x: int, y: int|
            img.valid(x, y) ==> #[trigger] out.pix(x, y) == invert_pix(img.pix(x, y)),
{
    map_pixels(img, &PixelOp::Invert)
}

/// Binarization of a whole image against a threshold.
pub fn binarize(img: &RasterImage, t: u8) -> (out: RasterImage)
    requires
        img.wf(),
    ensures
        out.wf(),
        out.w() == img.w(),
        out.h() == img.h(),
        forall|x: int, y: int|
            img.valid(x, y) ==> #[trigger] out.pix(x, y) == bin_pix(t, img.pix(x, y)),
{
    map_pixels(img, &PixelOp::Binarize(t))
}

/// Pseudo-color remap of a whole image.
pub fn pseudo_color(img: &RasterImage) -> (out: RasterImage)
    requires
        img.wf(),
    ensures
        out.wf(),
        out.w() == img.w(),
        out.h() == img.h(),
        forall|x: int, y: int|
            img.valid(x, y) ==> #[trigger] out.pix(x, y) == pseudo_pix(img.pix(x, y)),
{
    map_pixels(img, &PixelOp::PseudoColor)
}

/// Inversion is involutive: inverting a pixel twice restores it exactly,
/// per channel.
pub proof fn lemma_invert_involutive(p: Rgba)
    ensures
        invert_pix(invert_pix(p)) == p,
{
}

/// Binarization always yields pure black or pure white with alpha 255, and is
/// idempotent under the same threshold: binarizing a binarized pixel changes
/// nothing.
pub proof fn lemma_binarize_idempotent(t: u8, p: Rgba)
    ensures
        bin_pix(t, p) == white_pix() || bin_pix(t, p) == black_pix(),
        bin_pix(t, bin_pix(t, p)) == bin_pix(t, p),
{
}

/// Which pseudo-color band an intensity falls in.
pub open spec fn band_of(i: u8) -> int {
    if i < 64 {
        0
    } else if i < 128 {
        1
    } else if i < 192 {
        2
    } else {
        3
    }
}

/// The condition a band places on an intensity.
pub open spec fn in_band(b: int, i: u8) -> bool {
    if b == 0 {
        i < 64
    } else if b == 1 {
        64 <= i < 128
    } else if b == 2 {
        128 <= i < 192
    } else if b == 3 {
        192 <= i
    } else {
        false
    }
}

/// Band totality: every intensity satisfies exactly one band condition.
pub proof fn lemma_pseudo_band_totality(i: u8)
    ensures
        forall|b: int| in_band(b, i) <==> b == band_of(i),
{
}

/// Adjacent bands meet without a gap: at each band boundary the one varying
/// channel steps by at most the in-band slope of 4, and the saturated
/// channels do not jump.
pub proof fn lemma_pseudo_band_continuity()
    ensures
        pseudo_map(63) == (Rgba { r: 0, g: 0, b: 252, a: 255 }),
        pseudo_map(64) == (Rgba { r: 0, g: 0, b: 255, a: 255 }),
        pseudo_map(127) == (Rgba { r: 0, g: 252, b: 255, a: 255 }),
        pseudo_map(128) == (Rgba { r: 0, g: 255, b: 255, a: 255 }),
        pseudo_map(191) == (Rgba { r: 0, g: 255, b: 3, a: 255 }),
        pseudo_map(192) == (Rgba { r: 0, g: 255, b: 0, a: 255 }),
{
}

} // verus!
