//! Geometric resampling: nearest-neighbor resampling to arbitrary target
//! dimensions (used both for 2x zoom and for the load-time size clamp) and
//! 2x bilinear upscaling.

use vstd::prelude::*;
use vstd::arithmetic::div_mod::{
    lemma_div_pos_is_pos,
    lemma_fundamental_div_mod,
    lemma_mod_division_less_than_divisor,
};
use crate::raster::{lemma_index_bound, lemma_rowmajor, RasterImage, Rgba};
use crate::window::{ch, clamp_u8};

verus! {

/// A scaled coordinate stays inside the source: for 0 <= x < nw the
/// nearest-neighbor source column x * w / nw lies in 0 .. w.
pub proof fn lemma_scale_index(x: int, w: int, nw: int)
    requires
        0 <= x < nw,
        1 <= w,
    ensures
        0 <= x * w / nw < w,
{
    assert(0 <= x * w) by (nonlinear_arith)
        requires 0 <= x, 1 <= w;
    lemma_div_pos_is_pos(x * w, nw);
    lemma_fundamental_div_mod(x * w, nw);
    lemma_mod_division_less_than_divisor(x * w, nw);
    let d = x * w / nw;
    if d >= w {
        assert(nw * d >= nw * w) by (nonlinear_arith)
            requires d >= w, nw >= 1;
        assert(x * w <= (nw - 1) * w) by (nonlinear_arith)
            requires x <= nw - 1, w >= 1;
        assert((nw - 1) * w < nw * w) by (nonlinear_arith)
            requires w >= 1;
        assert(false);
    }
}

/// The nearest-neighbor source pixel for output coordinate (x, y) when
/// resampling a w-by-h image to nw-by-nh.
pub open spec fn nn_src(img: RasterImage, nw: int, nh: int, x: int, y: int) -> Rgba {
    img.pix(x * img.w() / nw, y * img.h() / nh)
}

/// Channel c of a pixel, alpha included: 0 red, 1 green, 2 blue, 3 alpha.
pub open spec fn ch4(p: Rgba, c: int) -> u8 {
    if c == 3 {
        p.a
    } else {
        ch(p, c)
    }
}

/// One channel of the 2x bilinear interpolation at output coordinate (x, y):
/// the four nearest source pixels blended with half-pixel weights (dx and dy
/// are the doubled fractional parts, 0 or 1), the +1 neighbor clamped at the
/// image edge, the result truncated and clamped to a byte.
pub open spec fn bilin_chan(img: RasterImage, x: int, y: int, c: int) -> u8 {
    let x0 = x / 2;
    let y0 = y / 2;
    let x1 = if x0 + 1 < img.w() { x0 + 1 } else { img.w() - 1 };
    let y1 = if y0 + 1 < img.h() { y0 + 1 } else { img.h() - 1 };
    let dx = x % 2;
    let dy = y % 2;
    let v0 = ch4(img.pix(x0, y0), c) * (2 - dx) + ch4(img.pix(x1, y0), c) * dx;
    let v1 = ch4(img.pix(x0, y1), c) * (2 - dx) + ch4(img.pix(x1, y1), c) * dx;
    clamp_u8((v0 * (2 - dy) + v1 * dy) / 4)
}

/// The 2x bilinear interpolation of all four channels.
pub open spec fn bilin_pix(img: RasterImage, x: int, y: int) -> Rgba {
    Rgba {
        r: bilin_chan(img, x, y, 0),
        g: bilin_chan(img, x, y, 1),
        b: bilin_chan(img, x, y, 2),
        a: bilin_chan(img, x, y, 3),
    }
}

/// How to fill one output pixel while resampling.
enum ResampleOp {
    Nearest,
    NearestDouble,
    Bilinear,
}

/// What output pixel (x, y) holds when resampling to nw-by-nh.
spec fn resample_pix(op: ResampleOp, img: RasterImage, nw: int, nh: int, x: int, y: int) -> Rgba {
    match op {
        ResampleOp::Nearest => nn_src(img, nw, nh, x, y),
        ResampleOp::NearestDouble => img.pix(x / 2, y / 2),
        ResampleOp::Bilinear => bilin_pix(img, x, y),
    }
}

/// One nearest-neighbor output pixel.
fn nn_at(img: &RasterImage, nw: usize, nh: usize, x: usize, y: usize) -> (p: Rgba)
    requires
        img.wf(),
        x < nw,
        y < nh,
        nw * img.w() <= usize::MAX,
        nh * img.h() <= usize::MAX,
    ensures
        p == nn_src(*img, nw as int, nh as int, x as int, y as int),
{
    proof {
        assert(x * img.w() <= nw * img.w()) by (nonlinear_arith)
            requires 0 <= x <= nw, img.w() >= 0;
        assert(y * img.h() <= nh * img.h()) by (nonlinear_arith)
            requires 0 <= y <= nh, img.h() >= 0;
        lemma_scale_index(x as int, img.w(), nw as int);
        lemma_scale_index(y as int, img.h(), nh as int);
    }
    let sx = x * img.width / nw;
    let sy = y * img.height / nh;
    img.pixel(sx, sy)
}

/// One 2x nearest-neighbor output pixel: the source pixel at the halved
/// coordinate.
fn nn2_at(img: &RasterImage, x: usize, y: usize) -> (p: Rgba)
    requires
        img.wf(),
        x < 2 * img.w(),
        y < 2 * img.h(),
    ensures
        p == img.pix(x as int / 2, y as int / 2),
{
    proof {
        lemma_fundamental_div_mod(x as int, 2);
        lemma_mod_division_less_than_divisor(x as int, 2);
        lemma_fundamental_div_mod(y as int, 2);
        lemma_mod_division_less_than_divisor(y as int, 2);
    }
    img.pixel(x / 2, y / 2)
}

/// One channel of the bilinear blend; dx and dy are 0 or 1.
fn bilin_blend(c00: u8, c10: u8, c01: u8, c11: u8, dx: u32, dy: u32) -> (v: u8)
    requires
        dx <= 1,
        dy <= 1,
    ensures
        v == clamp_u8(
            ((c00 * (2 - dx) + c10 * dx) * (2 - dy) + (c01 * (2 - dx) + c11 * dx) * dy) / 4,
        ),
{
    let v0: u32 = if dx == 0 {
        2 * (c00 as u32)
    } else {
        (c00 as u32) + (c10 as u32)
    };
    let v1: u32 = if dx == 0 {
        2 * (c01 as u32)
    } else {
        (c01 as u32) + (c11 as u32)
    };
    proof {
        assert(v0 == c00 * (2 - dx) + c10 * dx) by (nonlinear_arith)
            requires
                dx <= 1,
                dx == 0 ==> v0 == 2 * (c00 as int),
                dx == 1 ==> v0 == c00 + (c10 as int),
        ;
        assert(v1 == c01 * (2 - dx) + c11 * dx) by (nonlinear_arith)
            requires
                dx <= 1,
                dx == 0 ==> v1 == 2 * (c01 as int),
                dx == 1 ==> v1 == c01 + (c11 as int),
        ;
        assert(v0 * (2 - dy) + v1 * dy == (if dy == 0 { 2 * (v0 as int) } else { v0 + (v1 as int) }))
            by (nonlinear_arith)
            requires dy <= 1;
    }
    let t: u32 = if dy == 0 {
        (2 * v0) / 4
    } else {
        (v0 + v1) / 4
    };
    proof {
        assert(t <= 255);
    }
    t as u8
}

/// One bilinear output pixel.
fn bilin_at(img: &RasterImage, x: usize, y: usize) -> (p: Rgba)
    requires
        img.wf(),
        x < 2 * img.w(),
        y < 2 * img.h(),
    ensures
        p == bilin_pix(*img, x as int, y as int),
{
    proof {
        lemma_fundamental_div_mod(x as int, 2);
        lemma_mod_division_less_than_divisor(x as int, 2);
        lemma_fundamental_div_mod(y as int, 2);
        lemma_mod_division_less_than_divisor(y as int, 2);
    }
    let x0 = x / 2;
    let y0 = y / 2;
    let x1 = if x0 + 1 < img.width { x0 + 1 } else { img.width - 1 };
    let y1 = if y0 + 1 < img.height { y0 + 1 } else { img.height - 1 };
    let dx: u32 = (x % 2) as u32;
    let dy: u32 = (y % 2) as u32;
    let p00 = img.pixel(x0, y0);
    let p10 = img.pixel(x1, y0);
    let p01 = img.pixel(x0, y1);
    let p11 = img.pixel(x1, y1);
    Rgba {
        r: bilin_blend(p00.r, p10.r, p01.r, p11.r, dx, dy),
        g: bilin_blend(p00.g, p10.g, p01.g, p11.g, dx, dy),
        b: bilin_blend(p00.b, p10.b, p01.b, p11.b, dx, dy),
        a: bilin_blend(p00.a, p10.a, p01.a, p11.a, dx, dy),
    }
}

/// Build an nw-by-nh image whose every pixel is the resampling of the source.
fn resample(img: &RasterImage, nw: usize, nh: usize, op: &ResampleOp) -> (out: RasterImage)
    requires
        img.wf(),
        nw >= 1,
        nh >= 1,
        nw * nh <= usize::MAX,
        match *op {
            ResampleOp::Nearest => nw * img.w() <= usize::MAX && nh * img.h() <= usize::MAX,
            ResampleOp::NearestDouble => nw == 2 * img.w() && nh == 2 * img.h(),
            ResampleOp::Bilinear => nw == 2 * img.w() && nh == 2 * img.h(),
        },
    ensures
        out.wf(),
        out.w() == nw,
        out.h() == nh,
        forall|x: int, y: int|
            out.valid(x, y) ==> #[trigger] out.pix(x, y) == resample_pix(
                *op,
                *img,
                nw as int,
                nh as int,
                x,
                y,
            ),
{
    let mut v: Vec<Rgba> = Vec::new();
    let mut y: usize = 0;
    while y < nh
        invariant
            img.wf(),
            nw >= 1,
            nh >= 1,
            nw * nh <= usize::MAX,
            match *op {
                ResampleOp::Nearest => nw * img.w() <= usize::MAX && nh * img.h()
                    <= usize::MAX,
                ResampleOp::NearestDouble => nw == 2 * img.w() && nh == 2 * img.h(),
                ResampleOp::Bilinear => nw == 2 * img.w() && nh == 2 * img.h(),
            },
            y <= nh,
            v@.len() == y * nw,
            forall|xx: int, yy: int|
                0 <= xx < nw && 0 <= yy < y ==> #[trigger] v@[yy * nw + xx] == resample_pix(
                    *op,
                    *img,
                    nw as int,
                    nh as int,
                    xx,
                    yy,
                ),
        decreases nh - y,
    {
        let mut x: usize = 0;
        proof {
            assert(y * nw + nw <= nh * nw) by (nonlinear_arith)
                requires y < nh, nw >= 0;
            assert(nh * nw == nw * nh) by (nonlinear_arith);
        }
        while x < nw
            invariant
                img.wf(),
                nw >= 1,
                nh >= 1,
                nw * nh <= usize::MAX,
                match *op {
                    ResampleOp::Nearest => nw * img.w() <= usize::MAX && nh * img.h()
                        <= usize::MAX,
                    ResampleOp::NearestDouble => nw == 2 * img.w() && nh == 2 * img.h(),
                    ResampleOp::Bilinear => nw == 2 * img.w() && nh == 2 * img.h(),
                },
                y < nh,
                x <= nw,
                y * nw + nw <= nw * nh,
                v@.len() == y * nw + x,
                forall|xx: int, yy: int|
                    0 <= xx < nw && (0 <= yy < y || (yy == y && 0 <= xx < x))
                        ==> #[trigger] v@[yy * nw + xx] == resample_pix(
                        *op,
                        *img,
                        nw as int,
                        nh as int,
                        xx,
                        yy,
                    ),
            decreases nw - x,
        {
            let p = match op {
                ResampleOp::Nearest => nn_at(img, nw, nh, x, y),
                ResampleOp::NearestDouble => nn2_at(img, x, y),
                ResampleOp::Bilinear => bilin_at(img, x, y),
            };
            v.push(p);
            proof {
                assert forall|xx: int, yy: int|
                    0 <= xx < nw && (0 <= yy < y || (yy == y && 0 <= xx < x + 1))
                        implies #[trigger] v@[yy * nw + xx] == resample_pix(
                        *op,
                        *img,
                        nw as int,
                        nh as int,
                        xx,
                        yy,
                    ) by {
                    lemma_rowmajor(nw as int, xx, yy, x as int, y as int);
                    lemma_index_bound(nw as int, y as int + 1, xx, yy);
                }
            }
            x = x + 1;
        }
        proof {
            assert((y + 1) * nw == y * nw + nw) by (nonlinear_arith);
        }
        y = y + 1;
    }
    proof {
        assert(v@.len() == nh * nw) by {
            assert(nh * nw == (nh - 1) * nw + nw) by (nonlinear_arith);
        }
        assert(nh * nw == nw * nh) by (nonlinear_arith);
    }
    let out = RasterImage::from_parts(nw, nh, v);
    proof {
        assert forall|x: int, y: int| out.valid(x, y) implies #[trigger] out.pix(x, y)
            == resample_pix(*op, *img, nw as int, nh as int, x, y) by {
            lemma_index_bound(nw as int, nh as int, x, y);
        }
    }
    out
}

/// Nearest-neighbor resampling to arbitrary target dimensions: output pixel
/// (x, y) copies source pixel (x * w / nw, y * h / nh).
pub fn nn_resample(img: &RasterImage, nw: usize, nh: usize) -> (out: RasterImage)
    requires
        img.wf(),
        nw >= 1,
        nh >= 1,
        nw * nh <= usize::MAX,
        nw * img.w() <= usize::MAX,
        nh * img.h() <= usize::MAX,
    ensures
        out.wf(),
        out.w() == nw,
        out.h() == nh,
        forall|x: int, y: int|
            out.valid(x, y) ==> #[trigger] out.pix(x, y) == nn_src(
                *img,
                nw as int,
                nh as int,
                x,
                y,
            ),
{
    resample(img, nw, nh, &ResampleOp::Nearest)
}

/// 2x nearest-neighbor zoom: dimensions exactly doubled, and every 2x2
/// output block is a solid replicate of its source pixel.
pub fn zoom_nn(img: &RasterImage) -> (out: RasterImage)
    requires
        img.wf(),
        2 * img.w() <= usize::MAX,
        2 * img.h() <= usize::MAX,
        4 * img.w() * img.h() <= usize::MAX,
    ensures
        out.wf(),
        out.w() == 2 * img.w(),
        out.h() == 2 * img.h(),
        forall|x: int, y: int|
            out.valid(x, y) ==> #[trigger] out.pix(x, y) == img.pix(x / 2, y / 2),
        forall|sx: int, sy: int|
            img.valid(sx, sy) ==> #[trigger] out.pix(2 * sx, 2 * sy) == img.pix(sx, sy)
                && out.pix(2 * sx + 1, 2 * sy) == img.pix(sx, sy) && out.pix(
                2 * sx,
                2 * sy + 1,
            ) == img.pix(sx, sy) && out.pix(2 * sx + 1, 2 * sy + 1) == img.pix(sx, sy),
{
    let nw = 2 * img.width;
    let nh = 2 * img.height;
    proof {
        assert(nw * nh == 4 * (img.w() * img.h())) by (nonlinear_arith)
            requires nw == 2 * img.w(), nh == 2 * img.h();
        assert(4 * (img.w() * img.h()) == 4 * img.w() * img.h()) by (nonlinear_arith);
    }
    let out = resample(img, nw, nh, &ResampleOp::NearestDouble);
    proof {
        assert forall|sx: int, sy: int| img.valid(sx, sy) implies #[trigger] out.pix(
            2 * sx,
            2 * sy,
        ) == img.pix(sx, sy) && out.pix(2 * sx + 1, 2 * sy) == img.pix(sx, sy) && out.pix(
            2 * sx,
            2 * sy + 1,
        ) == img.pix(sx, sy) && out.pix(2 * sx + 1, 2 * sy + 1) == img.pix(sx, sy) by {
            assert((2 * sx) / 2 == sx && (2 * sx + 1) / 2 == sx) by (nonlinear_arith);
            assert((2 * sy) / 2 == sy && (2 * sy + 1) / 2 == sy) by (nonlinear_arith);
            assert(out.valid(2 * sx, 2 * sy));
            assert(out.valid(2 * sx + 1, 2 * sy));
            assert(out.valid(2 * sx, 2 * sy + 1));
            assert(out.valid(2 * sx + 1, 2 * sy + 1));
        }
    }
    out
}

/// 2x bilinear zoom: dimensions exactly doubled, every output pixel the
/// half-pixel blend of its four nearest source pixels.
pub fn zoom_bilinear(img: &RasterImage) -> (out: RasterImage)
    requires
        img.wf(),
        2 * img.w() <= usize::MAX,
        2 * img.h() <= usize::MAX,
        4 * img.w() * img.h() <= usize::MAX,
    ensures
        out.wf(),
        out.w() == 2 * img.w(),
        out.h() == 2 * img.h(),
        forall|x: int, y: int|
            out.valid(x, y) ==> #[trigger] out.pix(x, y) == bilin_pix(*img, x, y),
{
    let nw = 2 * img.width;
    let nh = 2 * img.height;
    proof {
        assert(nw * nh == 4 * (img.w() * img.h())) by (nonlinear_arith)
            requires nw == 2 * img.w(), nh == 2 * img.h();
        assert(4 * (img.w() * img.h()) == 4 * img.w() * img.h()) by (nonlinear_arith);
    }
    resample(img, nw, nh, &ResampleOp::Bilinear)
}

} // verus!
