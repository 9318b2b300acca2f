//! The 3x3 window filters: convolution under an arbitrary kernel, and the
//! order-statistic filters (median, maximum, minimum). All of them write
//! every interior pixel from its 3x3 neighborhood and copy the border ring
//! verbatim from the source, so no undefined border remains.

use vstd::prelude::*;
use crate::raster::{lemma_index_bound, RasterImage, Rgba};
use crate::sort::{median9, median9_exec, lemma_median9_constant, lemma_median9_in_range};

verus! {

/// A 3x3 convolution kernel: nine integer weights, a positive divisor that
/// scales the weighted sum (division truncating toward zero, as the
/// specification's float-to-integer truncation does), and an additive bias.
/// A box blur is nine weights of 1 with divisor 9.
#[derive(Clone, Copy)]
pub struct Kernel {
    pub w00: i32,
    pub w01: i32,
    pub w02: i32,
    pub w10: i32,
    pub w11: i32,
    pub w12: i32,
    pub w20: i32,
    pub w21: i32,
    pub w22: i32,
    pub div: i32,
    pub bias: i32,
}

impl Kernel {
    pub open spec fn wf(self) -> bool {
        self.div >= 1
    }
}

/// Channel c of a pixel: 0 is red, 1 is green, anything else blue.
pub open spec fn ch(p: Rgba, c: int) -> u8 {
    if c == 0 {
        p.r
    } else if c == 1 {
        p.g
    } else {
        p.b
    }
}

/// The weighted sum of channel c over the 3x3 neighborhood of (x, y).
pub open spec fn conv_sum(img: RasterImage, k: Kernel, x: int, y: int, c: int) -> int {
    k.w00 * ch(img.pix(x - 1, y - 1), c) + k.w01 * ch(img.pix(x, y - 1), c) + k.w02 * ch(
        img.pix(x + 1, y - 1),
        c,
    ) + k.w10 * ch(img.pix(x - 1, y), c) + k.w11 * ch(img.pix(x, y), c) + k.w12 * ch(
        img.pix(x + 1, y),
        c,
    ) + k.w20 * ch(img.pix(x - 1, y + 1), c) + k.w21 * ch(img.pix(x, y + 1), c) + k.w22 * ch(
        img.pix(x + 1, y + 1),
        c,
    )
}

/// Division truncating toward zero, for a positive divisor.
pub open spec fn tdiv(a: int, d: int) -> int {
    if a >= 0 {
        a / d
    } else {
        -((-a) / d)
    }
}

/// Clamp an integer into the byte range.
pub open spec fn clamp_u8(v: int) -> u8 {
    if v < 0 {
        0
    } else if v > 255 {
        255
    } else {
        v as u8
    }
}

/// One output channel of the convolution at an interior pixel.
pub open spec fn conv_chan(img: RasterImage, k: Kernel, x: int, y: int, c: int) -> u8 {
    clamp_u8(tdiv(conv_sum(img, k, x, y, c), k.div as int) + k.bias)
}

/// The convolution output at an interior pixel: each color channel is the
/// clamped scaled weighted sum; alpha is copied from the source pixel.
pub open spec fn conv_pix(img: RasterImage, k: Kernel, x: int, y: int) -> Rgba {
    Rgba {
        r: conv_chan(img, k, x, y, 0),
        g: conv_chan(img, k, x, y, 1),
        b: conv_chan(img, k, x, y, 2),
        a: img.pix(x, y).a,
    }
}

/// The 3x3 neighborhood of (x, y) in sampling order: rows top to bottom,
/// left to right within a row.
pub open spec fn neigh(img: RasterImage, x: int, y: int) -> Seq<Rgba> {
    seq![
        img.pix(x - 1, y - 1),
        img.pix(x, y - 1),
        img.pix(x + 1, y - 1),
        img.pix(x - 1, y),
        img.pix(x, y),
        img.pix(x + 1, y),
        img.pix(x - 1, y + 1),
        img.pix(x, y + 1),
        img.pix(x + 1, y + 1),
    ]
}

/// Channel c of each pixel of a sequence.
pub open spec fn chan_seq(s: Seq<Rgba>, c: int) -> Seq<u8> {
    s.map_values(|p: Rgba| ch(p, c))
}

/// The median filter output at an interior pixel: each color channel is the
/// channel-independent median of the nine samples (which may synthesize a
/// color present in no single neighbor — expected behavior); alpha is taken
/// from the last-sampled neighbor.
pub open spec fn median_pix(img: RasterImage, x: int, y: int) -> Rgba {
    Rgba {
        r: median9(chan_seq(neigh(img, x, y), 0)),
        g: median9(chan_seq(neigh(img, x, y), 1)),
        b: median9(chan_seq(neigh(img, x, y), 2)),
        a: img.pix(x + 1, y + 1).a,
    }
}

/// The BT.709 luminance score of a pixel, scaled by 10000 to stay integral.
/// (Deliberately different weights from the BT.601 grayscale conversion.)
pub open spec fn score(p: Rgba) -> int {
    2126 * p.r + 7152 * p.g + 722 * p.b
}

/// The last-sampled pixel among those of maximal score: later samples win
/// ties, as a stable ascending sort's last element does.
pub open spec fn max_pick(s: Seq<Rgba>) -> Rgba
    decreases s.len(),
{
    if s.len() <= 1 {
        s[0]
    } else {
        let rest = max_pick(s.drop_last());
        if score(s.last()) >= score(rest) {
            s.last()
        } else {
            rest
        }
    }
}

/// The first-sampled pixel among those of minimal score: earlier samples win
/// ties, as a stable ascending sort's first element does.
pub open spec fn min_pick(s: Seq<Rgba>) -> Rgba
    decreases s.len(),
{
    if s.len() <= 1 {
        s[0]
    } else {
        let rest = min_pick(s.drop_last());
        if score(s.last()) < score(rest) {
            s.last()
        } else {
            rest
        }
    }
}

/// The maximum filter output at an interior pixel: the whole neighborhood
/// pixel of highest luminance score.
pub open spec fn max_pix(img: RasterImage, x: int, y: int) -> Rgba {
    max_pick(neigh(img, x, y))
}

/// The minimum filter output at an interior pixel: the whole neighborhood
/// pixel of lowest luminance score.
pub open spec fn min_pix(img: RasterImage, x: int, y: int) -> Rgba {
    min_pick(neigh(img, x, y))
}

/// Which 3x3 window filter to run.
pub enum WindowOp {
    Conv(Kernel),
    Median,
    Maximum,
    Minimum,
}

impl WindowOp {
    pub open spec fn wf(self) -> bool {
        match self {
            WindowOp::Conv(k) => k.wf(),
            _ => true,
        }
    }
}

/// What an interior pixel becomes under a window filter.
pub open spec fn window_pix(op: WindowOp, img: RasterImage, x: int, y: int) -> Rgba {
    match op {
        WindowOp::Conv(k) => conv_pix(img, k, x, y),
        WindowOp::Median => median_pix(img, x, y),
        WindowOp::Maximum => max_pix(img, x, y),
        WindowOp::Minimum => min_pix(img, x, y),
    }
}

/// One kernel weight times one channel value, widened so nothing overflows.
fn wmul(w: i32, v: u8) -> (r: i64)
    ensures
        r == w * v,
        -550_000_000_000 <= r <= 550_000_000_000,
{
    proof {
        assert(i32::MIN * 255 <= w * v <= i32::MAX * 255) by (nonlinear_arith)
            requires i32::MIN <= w <= i32::MAX, 0 <= v <= 255;
    }
    (w as i64) * (v as i64)
}

/// Scale a weighted sum by the kernel's divisor (truncating toward zero),
/// add the bias, and clamp into the byte range.
fn clamp_channel(sum: i64, div: i32, bias: i32) -> (v: u8)
    requires
        div >= 1,
        -5_000_000_000_000 <= sum <= 5_000_000_000_000,
    ensures
        v == clamp_u8(tdiv(sum as int, div as int) + bias),
{
    let q: i64 = if sum >= 0 {
        ((sum as u64) / (div as u64)) as i64
    } else {
        -((((-sum) as u64) / (div as u64)) as i64)
    };
    proof {
        assert(q == tdiv(sum as int, div as int));
    }
    let t: i64 = q + (bias as i64);
    if t < 0 {
        0
    } else if t > 255 {
        255
    } else {
        t as u8
    }
}

/// The convolution of one interior pixel.
fn conv_at(img: &RasterImage, k: &Kernel, x: usize, y: usize) -> (p: Rgba)
    requires
        img.wf(),
        k.wf(),
        img.interior(x as int, y as int),
    ensures
        p == conv_pix(*img, *k, x as int, y as int),
{
    let p00 = img.pixel(x - 1, y - 1);
    let p01 = img.pixel(x, y - 1);
    let p02 = img.pixel(x + 1, y - 1);
    let p10 = img.pixel(x - 1, y);
    let p11 = img.pixel(x, y);
    let p12 = img.pixel(x + 1, y);
    let p20 = img.pixel(x - 1, y + 1);
    let p21 = img.pixel(x, y + 1);
    let p22 = img.pixel(x + 1, y + 1);
    let sum_r: i64 = wmul(k.w00, p00.r) + wmul(k.w01, p01.r) + wmul(k.w02, p02.r) + wmul(
        k.w10,
        p10.r,
    ) + wmul(k.w11, p11.r) + wmul(k.w12, p12.r) + wmul(k.w20, p20.r) + wmul(k.w21, p21.r)
        + wmul(k.w22, p22.r);
    let sum_g: i64 = wmul(k.w00, p00.g) + wmul(k.w01, p01.g) + wmul(k.w02, p02.g) + wmul(
        k.w10,
        p10.g,
    ) + wmul(k.w11, p11.g) + wmul(k.w12, p12.g) + wmul(k.w20, p20.g) + wmul(k.w21, p21.g)
        + wmul(k.w22, p22.g);
    let sum_b: i64 = wmul(k.w00, p00.b) + wmul(k.w01, p01.b) + wmul(k.w02, p02.b) + wmul(
        k.w10,
        p10.b,
    ) + wmul(k.w11, p11.b) + wmul(k.w12, p12.b) + wmul(k.w20, p20.b) + wmul(k.w21, p21.b)
        + wmul(k.w22, p22.b);
    Rgba {
        r: clamp_channel(sum_r, k.div, k.bias),
        g: clamp_channel(sum_g, k.div, k.bias),
        b: clamp_channel(sum_b, k.div, k.bias),
        a: p11.a,
    }
}

/// The nine neighborhood pixels of an interior coordinate, in sampling order.
fn collect_neigh(img: &RasterImage, x: usize, y: usize) -> (v: Vec<Rgba>)
    requires
        img.wf(),
        img.interior(x as int, y as int),
    ensures
        v@ == neigh(*img, x as int, y as int),
{
    let mut v: Vec<Rgba> = Vec::new();
    v.push(img.pixel(x - 1, y - 1));
    v.push(img.pixel(x, y - 1));
    v.push(img.pixel(x + 1, y - 1));
    v.push(img.pixel(x - 1, y));
    v.push(img.pixel(x, y));
    v.push(img.pixel(x + 1, y));
    v.push(img.pixel(x - 1, y + 1));
    v.push(img.pixel(x, y + 1));
    v.push(img.pixel(x + 1, y + 1));
    proof {
        assert(v@ =~= neigh(*img, x as int, y as int));
    }
    v
}

/// Channel c of each of the pixels of a vector.
fn extract_chan(v: &Vec<Rgba>, c: u8) -> (r: Vec<u8>)
    ensures
        r@ == chan_seq(v@, c as int),
{
    let mut r: Vec<u8> = Vec::new();
    let mut i: usize = 0;
    let n = v.len();
    while i < n
        invariant
            i <= n,
            n == v@.len(),
            r@.len() == i,
            forall|j: int| 0 <= j < i ==> #[trigger] r@[j] == ch(v@[j], c as int),
        decreases n - i,
    {
        let p = v[i];
        if c == 0 {
            r.push(p.r);
        } else if c == 1 {
            r.push(p.g);
        } else {
            r.push(p.b);
        }
        i = i + 1;
    }
    proof {
        assert(r@ =~= chan_seq(v@, c as int));
    }
    r
}

/// The median of one interior pixel.
fn median_at(img: &RasterImage, x: usize, y: usize) -> (p: Rgba)
    requires
        img.wf(),
        img.interior(x as int, y as int),
    ensures
        p == median_pix(*img, x as int, y as int),
{
    let nb = collect_neigh(img, x, y);
    let rs = extract_chan(&nb, 0);
    let gs = extract_chan(&nb, 1);
    let bs = extract_chan(&nb, 2);
    let a = img.pixel(x + 1, y + 1).a;
    Rgba { r: median9_exec(rs), g: median9_exec(gs), b: median9_exec(bs), a }
}

/// The BT.709 luminance score, scaled by 10000.
fn score_exec(p: Rgba) -> (s: u32)
    ensures
        s == score(p),
{
    2126 * (p.r as u32) + 7152 * (p.g as u32) + 722 * (p.b as u32)
}

/// Scan for the last pixel of maximal score.
fn max_of_vec(v: &Vec<Rgba>) -> (p: Rgba)
    requires
        v@.len() >= 1,
    ensures
        p == max_pick(v@),
{
    let mut best = v[0];
    let mut i: usize = 1;
    proof {
        assert(v@.subrange(0, 1).len() == 1);
        assert(max_pick(v@.subrange(0, 1)) == v@.subrange(0, 1)[0]);
    }
    while i < v.len()
        invariant
            1 <= i <= v@.len(),
            best == max_pick(v@.subrange(0, i as int)),
        decreases v@.len() - i,
    {
        let cand = v[i];
        proof {
            let pre = v@.subrange(0, i as int);
            let post = v@.subrange(0, i + 1);
            assert(post.drop_last() =~= pre);
            assert(post.last() == v@[i as int]);
        }
        if score_exec(cand) >= score_exec(best) {
            best = cand;
        }
        i = i + 1;
    }
    proof {
        assert(v@.subrange(0, v@.len() as int) =~= v@);
    }
    best
}

/// Scan for the first pixel of minimal score.
fn min_of_vec(v: &Vec<Rgba>) -> (p: Rgba)
    requires
        v@.len() >= 1,
    ensures
        p == min_pick(v@),
{
    let mut best = v[0];
    let mut i: usize = 1;
    proof {
        assert(v@.subrange(0, 1).len() == 1);
        assert(min_pick(v@.subrange(0, 1)) == v@.subrange(0, 1)[0]);
    }
    while i < v.len()
        invariant
            1 <= i <= v@.len(),
            best == min_pick(v@.subrange(0, i as int)),
        decreases v@.len() - i,
    {
        let cand = v[i];
        proof {
            let pre = v@.subrange(0, i as int);
            let post = v@.subrange(0, i + 1);
            assert(post.drop_last() =~= pre);
            assert(post.last() == v@[i as int]);
        }
        if score_exec(cand) < score_exec(best) {
            best = cand;
        }
        i = i + 1;
    }
    proof {
        assert(v@.subrange(0, v@.len() as int) =~= v@);
    }
    best
}

/// One interior pixel under a window filter.
fn window_at(img: &RasterImage, op: &WindowOp, x: usize, y: usize) -> (p: Rgba)
    requires
        img.wf(),
        op.wf(),
        img.interior(x as int, y as int),
    ensures
        p == window_pix(*op, *img, x as int, y as int),
{
    match op {
        WindowOp::Conv(k) => conv_at(img, k, x, y),
        WindowOp::Median => median_at(img, x, y),
        WindowOp::Maximum => {
            let nb = collect_neigh(img, x, y);
            max_of_vec(&nb)
        },
        WindowOp::Minimum => {
            let nb = collect_neigh(img, x, y);
            min_of_vec(&nb)
        },
    }
}

/// Run a 3x3 window filter over the whole image: every interior pixel is
/// computed from its neighborhood in the source, and the border ring is
/// copied verbatim from the source.
pub fn window_filter(img: &RasterImage, op: &WindowOp) -> (out: RasterImage)
    requires
        img.wf(),
        op.wf(),
    ensures
        out.wf(),
        out.w() == img.w(),
        out.h() == img.h(),
        forall|x: int, y: int|
            img.interior(x, y) ==> #[trigger] out.pix(x, y) == window_pix(*op, *img, x, y),
        forall|x: int, y: int|
            img.valid(x, y) && !img.interior(x, y) ==> #[trigger] out.pix(x, y) == img.pix(
                x,
                y,
            ),
{
    let buf = img.clone_pixels();
    let mut out = RasterImage::from_parts(img.width, img.height, buf);
    proof {
        assert forall|xx: int, yy: int| img.valid(xx, yy) implies #[trigger] out.pix(xx, yy)
            == img.pix(xx, yy) by {}
    }
    let h = img.height;
    let w = img.width;
    let mut y: usize = 1;
    while y < h - 1
        invariant
            img.wf(),
            op.wf(),
            out.wf(),
            out.w() == img.w(),
            out.h() == img.h(),
            w == img.w(),
            h == img.h(),
            1 <= y,
            y <= h,
            forall|xx: int, yy: int|
                img.valid(xx, yy) ==> #[trigger] out.pix(xx, yy) == (if img.interior(xx, yy)
                    && yy < y { window_pix(*op, *img, xx, yy) } else { img.pix(xx, yy) }),
        decreases h - y,
    {
        let mut x: usize = 1;
        while x < w - 1
            invariant
                img.wf(),
                op.wf(),
                out.wf(),
                out.w() == img.w(),
                out.h() == img.h(),
                w == img.w(),
                h == img.h(),
                1 <= y,
                y < h - 1,
                1 <= x,
                x <= w,
                forall|xx: int, yy: int|
                    img.valid(xx, yy) ==> #[trigger] out.pix(xx, yy) == (if img.interior(
                        xx,
                        yy,
                    ) && (yy < y || (yy == y && xx < x)) {
                        window_pix(*op, *img, xx, yy)
                    } else {
                        img.pix(xx, yy)
                    }),
            decreases w - x,
        {
            let p = window_at(img, op, x, y);
            out.set_pixel(x, y, p);
            x = x + 1;
        }
        y = y + 1;
    }
    out
}

/// Apply an arbitrary 3x3 kernel with its divisor and bias: interior pixels
/// get the clamped scaled weighted sum per color channel with alpha copied
/// from the source; border pixels are copied verbatim.
pub fn apply_kernel(img: &RasterImage, k: &Kernel) -> (out: RasterImage)
    requires
        img.wf(),
        k.wf(),
    ensures
        out.wf(),
        out.w() == img.w(),
        out.h() == img.h(),
        forall|x: int, y: int|
            img.interior(x, y) ==> #[trigger] out.pix(x, y) == conv_pix(*img, *k, x, y),
        forall|x: int, y: int|
            img.valid(x, y) && !img.interior(x, y) ==> #[trigger] out.pix(x, y) == img.pix(
                x,
                y,
            ),
{
    window_filter(img, &WindowOp::Conv(*k))
}

/// The channel-independent 3x3 median filter.
pub fn median_filter(img: &RasterImage) -> (out: RasterImage)
    requires
        img.wf(),
    ensures
        out.wf(),
        out.w() == img.w(),
        out.h() == img.h(),
        forall|x: int, y: int|
            img.interior(x, y) ==> #[trigger] out.pix(x, y) == median_pix(*img, x, y),
        forall|x: int, y: int|
            img.valid(x, y) && !img.interior(x, y) ==> #[trigger] out.pix(x, y) == img.pix(
                x,
                y,
            ),
{
    window_filter(img, &WindowOp::Median)
}

/// The 3x3 maximum filter: the whole neighborhood pixel of highest
/// luminance score, later samples winning ties.
pub fn maximum_filter(img: &RasterImage) -> (out: RasterImage)
    requires
        img.wf(),
    ensures
        out.wf(),
        out.w() == img.w(),
        out.h() == img.h(),
        forall|x: int, y: int|
            img.interior(x, y) ==> #[trigger] out.pix(x, y) == max_pix(*img, x, y),
        forall|x: int, y: int|
            img.valid(x, y) && !img.interior(x, y) ==> #[trigger] out.pix(x, y) == img.pix(
                x,
                y,
            ),
{
    window_filter(img, &WindowOp::Maximum)
}

/// The 3x3 minimum filter: the whole neighborhood pixel of lowest luminance
/// score, earlier samples winning ties.
pub fn minimum_filter(img: &RasterImage) -> (out: RasterImage)
    requires
        img.wf(),
    ensures
        out.wf(),
        out.w() == img.w(),
        out.h() == img.h(),
        forall|x: int, y: int|
            img.interior(x, y) ==> #[trigger] out.pix(x, y) == min_pix(*img, x, y),
        forall|x: int, y: int|
            img.valid(x, y) && !img.interior(x, y) ==> #[trigger] out.pix(x, y) == img.pix(
                x,
                y,
            ),
{
    window_filter(img, &WindowOp::Minimum)
}

/// The box-blur kernel (also the mean filter): a uniform ninth per tap.
pub open spec fn blur_kernel_spec() -> Kernel {
    Kernel {
        w00: 1,
        w01: 1,
        w02: 1,
        w10: 1,
        w11: 1,
        w12: 1,
        w20: 1,
        w21: 1,
        w22: 1,
        div: 9,
        bias: 0,
    }
}

pub fn blur_kernel() -> (k: Kernel)
    ensures
        k == blur_kernel_spec(),
{
    Kernel {
        w00: 1,
        w01: 1,
        w02: 1,
        w10: 1,
        w11: 1,
        w12: 1,
        w20: 1,
        w21: 1,
        w22: 1,
        div: 9,
        bias: 0,
    }
}

/// The sharpening kernel.
pub open spec fn sharpen_kernel_spec() -> Kernel {
    Kernel {
        w00: 0,
        w01: -1i32,
        w02: 0,
        w10: -1i32,
        w11: 5,
        w12: -1i32,
        w20: 0,
        w21: -1i32,
        w22: 0,
        div: 1,
        bias: 0,
    }
}

pub fn sharpen_kernel() -> (k: Kernel)
    ensures
        k == sharpen_kernel_spec(),
{
    Kernel {
        w00: 0,
        w01: -1i32,
        w02: 0,
        w10: -1i32,
        w11: 5,
        w12: -1i32,
        w20: 0,
        w21: -1i32,
        w22: 0,
        div: 1,
        bias: 0,
    }
}

/// The omnidirectional edge-detection kernel.
pub open spec fn edge_kernel_spec() -> Kernel {
    Kernel {
        w00: -1i32,
        w01: -1i32,
        w02: -1i32,
        w10: -1i32,
        w11: 8,
        w12: -1i32,
        w20: -1i32,
        w21: -1i32,
        w22: -1i32,
        div: 1,
        bias: 0,
    }
}

pub fn edge_kernel() -> (k: Kernel)
    ensures
        k == edge_kernel_spec(),
{
    Kernel {
        w00: -1i32,
        w01: -1i32,
        w02: -1i32,
        w10: -1i32,
        w11: 8,
        w12: -1i32,
        w20: -1i32,
        w21: -1i32,
        w22: -1i32,
        div: 1,
        bias: 0,
    }
}

/// The horizontal Sobel kernel.
pub open spec fn sobel_kernel_spec() -> Kernel {
    Kernel {
        w00: -1i32,
        w01: 0,
        w02: 1,
        w10: -2i32,
        w11: 0,
        w12: 2,
        w20: -1i32,
        w21: 0,
        w22: 1,
        div: 1,
        bias: 0,
    }
}

pub fn sobel_kernel() -> (k: Kernel)
    ensures
        k == sobel_kernel_spec(),
{
    Kernel {
        w00: -1i32,
        w01: 0,
        w02: 1,
        w10: -2i32,
        w11: 0,
        w12: 2,
        w20: -1i32,
        w21: 0,
        w22: 1,
        div: 1,
        bias: 0,
    }
}

/// The four-neighbor Laplacian kernel.
pub open spec fn laplacian_kernel_spec() -> Kernel {
    Kernel {
        w00: 0,
        w01: 1,
        w02: 0,
        w10: 1,
        w11: -4i32,
        w12: 1,
        w20: 0,
        w21: 1,
        w22: 0,
        div: 1,
        bias: 0,
    }
}

pub fn laplacian_kernel() -> (k: Kernel)
    ensures
        k == laplacian_kernel_spec(),
{
    Kernel {
        w00: 0,
        w01: 1,
        w02: 0,
        w10: 1,
        w11: -4i32,
        w12: 1,
        w20: 0,
        w21: 1,
        w22: 0,
        div: 1,
        bias: 0,
    }
}

/// Blur (and Mean) leave a solid-color image unchanged at every interior
/// pixel: the uniform ninth kernel averages nine equal values back to the
/// value itself.
pub proof fn lemma_blur_solid(img: RasterImage, c: Rgba, x: int, y: int)
    requires
        img.wf(),
        forall|x2: int, y2: int| img.valid(x2, y2) ==> #[trigger] img.pix(x2, y2) == c,
        img.interior(x, y),
    ensures
        conv_pix(img, blur_kernel_spec(), x, y) == c,
{
    let k = blur_kernel_spec();
    assert(img.pix(x - 1, y - 1) == c);
    assert(img.pix(x, y - 1) == c);
    assert(img.pix(x + 1, y - 1) == c);
    assert(img.pix(x - 1, y) == c);
    assert(img.pix(x, y) == c);
    assert(img.pix(x + 1, y) == c);
    assert(img.pix(x - 1, y + 1) == c);
    assert(img.pix(x, y + 1) == c);
    assert(img.pix(x + 1, y + 1) == c);
    assert forall|ci: int| 0 <= ci < 3 implies conv_chan(img, k, x, y, ci) == ch(c, ci) by {
        let v = ch(c, ci) as int;
        assert(conv_sum(img, k, x, y, ci) == 9 * v);
        assert(9 * v / 9 == v) by (nonlinear_arith);
        assert(tdiv(9 * v, 9) == v);
        assert(clamp_u8(v) == ch(c, ci));
    }
    assert(conv_chan(img, k, x, y, 0) == c.r);
    assert(conv_chan(img, k, x, y, 1) == c.g);
    assert(conv_chan(img, k, x, y, 2) == c.b);
}

/// The picked maximum is one of the samples and no sample scores higher.
/// With strictly distinct scores this pins the output to the unique pixel of
/// highest score, verbatim.
pub proof fn lemma_max_pick_props(s: Seq<Rgba>)
    requires
        s.len() >= 1,
    ensures
        s.contains(max_pick(s)),
        forall|i: int| 0 <= i < s.len() ==> score(s[i]) <= score(max_pick(s)),
    decreases s.len(),
{
    if s.len() == 1 {
        assert(s[0] == max_pick(s));
    } else {
        lemma_max_pick_props(s.drop_last());
        let rest = max_pick(s.drop_last());
        assert forall|i: int| 0 <= i < s.len() implies score(s[i]) <= score(max_pick(s)) by {
            if i < s.len() - 1 {
                assert(s.drop_last()[i] == s[i]);
            }
        }
        if score(s.last()) >= score(rest) {
        } else {
            let j = choose|j: int| 0 <= j < s.drop_last().len() && s.drop_last()[j] == rest;
            assert(s[j] == rest);
        }
    }
}

/// The picked minimum is one of the samples and no sample scores lower.
pub proof fn lemma_min_pick_props(s: Seq<Rgba>)
    requires
        s.len() >= 1,
    ensures
        s.contains(min_pick(s)),
        forall|i: int| 0 <= i < s.len() ==> score(s[i]) >= score(min_pick(s)),
    decreases s.len(),
{
    if s.len() == 1 {
        assert(s[0] == min_pick(s));
    } else {
        lemma_min_pick_props(s.drop_last());
        let rest = min_pick(s.drop_last());
        assert forall|i: int| 0 <= i < s.len() implies score(s[i]) >= score(min_pick(s)) by {
            if i < s.len() - 1 {
                assert(s.drop_last()[i] == s[i]);
            }
        }
        if score(s.last()) < score(rest) {
        } else {
            let j = choose|j: int| 0 <= j < s.drop_last().len() && s.drop_last()[j] == rest;
            assert(s[j] == rest);
        }
    }
}

/// With strictly distinct scores, the maximum pick is exactly the sample of
/// highest score, all channels verbatim.
pub proof fn lemma_max_pick_distinct(s: Seq<Rgba>, i: int)
    requires
        s.len() >= 1,
        0 <= i < s.len(),
        forall|j: int| 0 <= j < s.len() && j != i ==> score(s[j]) < score(s[i]),
    ensures
        max_pick(s) == s[i],
{
    lemma_max_pick_props(s);
    let k = choose|k: int| 0 <= k < s.len() && s[k] == max_pick(s);
    if k != i {
        assert(score(s[k]) < score(s[i]));
        assert(score(s[i]) <= score(max_pick(s)));
    }
}

/// With strictly distinct scores, the minimum pick is exactly the sample of
/// lowest score, all channels verbatim.
pub proof fn lemma_min_pick_distinct(s: Seq<Rgba>, i: int)
    requires
        s.len() >= 1,
        0 <= i < s.len(),
        forall|j: int| 0 <= j < s.len() && j != i ==> score(s[j]) > score(s[i]),
    ensures
        min_pick(s) == s[i],
{
    lemma_min_pick_props(s);
    let k = choose|k: int| 0 <= k < s.len() && s[k] == min_pick(s);
    if k != i {
        assert(score(s[k]) > score(s[i]));
        assert(score(s[i]) >= score(min_pick(s)));
    }
}

/// A median over nine identical samples returns that pixel exactly.
pub proof fn lemma_median_constant(img: RasterImage, v: Rgba, x: int, y: int)
    requires
        img.wf(),
        img.interior(x, y),
        forall|i: int| 0 <= i < 9 ==> #[trigger] neigh(img, x, y)[i] == v,
    ensures
        median_pix(img, x, y) == v,
{
    let nb = neigh(img, x, y);
    assert forall|c: int| 0 <= c < 3 implies median9(chan_seq(nb, c)) == ch(v, c) by {
        let cs = chan_seq(nb, c);
        assert(cs.len() == 9);
        assert forall|i: int| 0 <= i < cs.len() implies cs[i] == ch(v, c) by {
            assert(nb[i] == v);
        }
        lemma_median9_constant(cs, ch(v, c));
    }
    assert(nb[8] == v);
    assert(img.pix(x + 1, y + 1) == v);
}

/// Each median output channel is one of the nine sampled channel values, so
/// it lies between their minimum and maximum.
pub proof fn lemma_median_in_range(img: RasterImage, x: int, y: int, c: int)
    requires
        img.wf(),
        img.interior(x, y),
        0 <= c < 3,
    ensures
        chan_seq(neigh(img, x, y), c).contains(ch(median_pix(img, x, y), c)),
{
    let cs = chan_seq(neigh(img, x, y), c);
    assert(cs.len() == 9);
    lemma_median9_in_range(cs);
    if c == 0 {
        assert(ch(median_pix(img, x, y), c) == median9(cs));
    } else if c == 1 {
        assert(ch(median_pix(img, x, y), c) == median9(cs));
    } else {
        assert(ch(median_pix(img, x, y), c) == median9(cs));
    }
}

} // verus!
