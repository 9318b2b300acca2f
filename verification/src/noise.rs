//! Salt-and-pepper noise: every pixel is independently replaced, with the
//! configured probability, by opaque pure white or pure black (an even coin
//! deciding which); all other pixels are left untouched. The random draws
//! come from the process-wide generator, so only what holds of every outcome
//! is promised; the per-pixel decision itself is the verified
//! [`noise_pixel`], a function of the draws alone.

use vstd::prelude::*;
use crate::color::{black_pix, white_pix};
use crate::raster::{lemma_index_bound, RasterImage, Rgba};

verus! {

/// Probabilities are fixed-point fractions of this denominator: a
/// probability of one maps to the full denominator.
pub const PROB_DENOM: u32 = 1_000_000;

/// Relies on rand::random_range over `0..bound`: the range is non-empty, so
/// the call returns a uniform value strictly below the bound (and does not
/// panic).
#[verifier::external_body]
fn rand_below(bound: u32) -> (r: u32)
    requires
        bound >= 1,
    ensures
        r < bound,
{
    rand::random_range(0..bound)
}

/// What one pixel becomes for given random draws: replaced by white or black
/// (by the parity of the coin draw) when the probability draw falls below
/// the threshold, otherwise kept.
pub open spec fn noise_pix(p: Rgba, draw: u32, coin: u32, thresh: u32) -> Rgba {
    if draw < thresh {
        if coin % 2 == 1 {
            white_pix()
        } else {
            black_pix()
        }
    } else {
        p
    }
}

/// The per-pixel noise decision, as a total function of the draws.
pub fn noise_pixel(p: Rgba, draw: u32, coin: u32, thresh: u32) -> (q: Rgba)
    ensures
        q == noise_pix(p, draw, coin, thresh),
{
    if draw < thresh {
        if coin % 2 == 1 {
            Rgba { r: 255, g: 255, b: 255, a: 255 }
        } else {
            Rgba { r: 0, g: 0, b: 0, a: 255 }
        }
    } else {
        p
    }
}

/// Salt-and-pepper corruption from an injected random stream: pixel j is
/// decided by the j-th probability draw and the j-th coin. The contract is
/// exact, so a fixed stream gives a fully determined output.
pub fn salt_pepper_with(
    img: &RasterImage,
    draws: &Vec<u32>,
    coins: &Vec<u32>,
    thresh: u32,
) -> (out: RasterImage)
    requires
        img.wf(),
        draws@.len() == img.buf().len(),
        coins@.len() == img.buf().len(),
    ensures
        out.wf(),
        out.w() == img.w(),
        out.h() == img.h(),
        forall|j: int|
            0 <= j < out.buf().len() ==> #[trigger] out.buf()[j] == noise_pix(
                img.buf()[j],
                draws@[j],
                coins@[j],
                thresh,
            ),
{
    let n = img.pixels.len();
    let mut v: Vec<Rgba> = Vec::new();
    let mut i: usize = 0;
    while i < n
        invariant
            i <= n,
            n == img.buf().len(),
            draws@.len() == n,
            coins@.len() == n,
            v@.len() == i,
            forall|j: int|
                0 <= j < i ==> #[trigger] v@[j] == noise_pix(
                    img.buf()[j],
                    draws@[j],
                    coins@[j],
                    thresh,
                ),
        decreases n - i,
    {
        v.push(noise_pixel(img.pixels[i], draws[i], coins[i], thresh));
        i = i + 1;
    }
    RasterImage::from_parts(img.width, img.height, v)
}

/// Salt-and-pepper corruption at probability `thresh / PROB_DENOM`, drawing
/// from the process-wide generator: the dimensions are kept, and every
/// output pixel is either the source pixel, opaque pure white, or opaque
/// pure black. A zero threshold changes nothing; the full threshold
/// replaces every pixel.
pub fn salt_pepper(img: &RasterImage, thresh: u32) -> (out: RasterImage)
    requires
        img.wf(),
        thresh <= PROB_DENOM,
    ensures
        out.wf(),
        out.w() == img.w(),
        out.h() == img.h(),
        forall|x: int, y: int|
            img.valid(x, y) ==> #[trigger] out.pix(x, y) == img.pix(x, y) || out.pix(x, y)
                == white_pix() || out.pix(x, y) == black_pix(),
        thresh == 0 ==> out.buf() =~= img.buf(),
        thresh == PROB_DENOM ==> forall|j: int|
            0 <= j < out.buf().len() ==> #[trigger] out.buf()[j] == white_pix()
                || out.buf()[j] == black_pix(),
{
    let n = img.pixels.len();
    let mut draws: Vec<u32> = Vec::new();
    let mut coins: Vec<u32> = Vec::new();
    let mut i: usize = 0;
    while i < n
        invariant
            i <= n,
            draws@.len() == i,
            coins@.len() == i,
            forall|j: int| 0 <= j < i ==> #[trigger] draws@[j] < PROB_DENOM,
        decreases n - i,
    {
        draws.push(rand_below(PROB_DENOM));
        coins.push(rand_below(2));
        i = i + 1;
    }
    let out = salt_pepper_with(img, &draws, &coins, thresh);
    proof {
        assert forall|x: int, y: int| img.valid(x, y) implies #[trigger] out.pix(x, y)
            == img.pix(x, y) || out.pix(x, y) == white_pix() || out.pix(x, y)
            == black_pix() by {
            lemma_index_bound(img.w(), img.h(), x, y);
            assert(img.h() * img.w() == img.w() * img.h()) by (nonlinear_arith);
        }
        if thresh == 0 {
            assert(out.buf() =~= img.buf());
        }
    }
    out
}

} // verus!
