//! The pipeline coordinator: the algorithm selection, the load-time size
//! clamp, and the two-slot (input/output) state machine that dispatches a
//! selected transform and can promote the output back to the input.

use vstd::prelude::*;
use vstd::arithmetic::div_mod::{
    lemma_div_pos_is_pos,
    lemma_fundamental_div_mod,
    lemma_fundamental_div_mod_converse,
    lemma_mod_division_less_than_divisor,
};
use crate::color::{bin_pix, binarize, invert, invert_pix, pixel_op_spec, pseudo_color, to_grayscale, PixelOp};
use crate::noise::{salt_pepper, PROB_DENOM};
use crate::raster::RasterImage;
use crate::window::{
    apply_kernel, blur_kernel, blur_kernel_spec, edge_kernel, edge_kernel_spec,
    laplacian_kernel, laplacian_kernel_spec, maximum_filter, median_filter, minimum_filter,
    sharpen_kernel, sharpen_kernel_spec, sobel_kernel, sobel_kernel_spec, window_pix, WindowOp,
};
use crate::zoom::{bilin_pix, nn_resample, nn_src, zoom_bilinear, zoom_nn};

verus! {

/// The longest image side the load path accepts without shrinking.
pub const MAX_DIM: usize = 300;

/// Every transform the engine offers. `Threshold` carries its level (any
/// byte is a valid level) and `SaltPepper` its probability as a fixed-point
/// fraction of [`PROB_DENOM`]; every other variant is parameterless.
#[derive(Clone, Copy, PartialEq, Eq, Structural, Debug)]
pub enum Algorithm {
    Blur,
    Sharpen,
    EdgeDetect,
    Invert,
    Mean,
    Maximum,
    Median,
    Minimum,
    ZoomNearest,
    ZoomBilinear,
    Grayscale,
    Negative,
    Sobel,
    Laplacian,
    Binarize,
    Threshold(u8),
    SaltPepper(u32),
    PseudoColor,
}

/// Why a request was rejected.
#[derive(Clone, Copy, PartialEq, Eq, Structural, Debug)]
pub enum FilterError {
    InvalidParameter,
}

/// A selection is valid when its parameter, if any, lies in its declared
/// range: a salt-and-pepper probability may not exceed one. Threshold
/// levels are bytes, so every level is in range.
pub open spec fn valid_selection(a: Algorithm) -> bool {
    match a {
        Algorithm::SaltPepper(t) => t <= PROB_DENOM,
        _ => true,
    }
}

/// Both images have the same dimensions.
pub open spec fn same_dims(src: RasterImage, dst: RasterImage) -> bool {
    dst.w() == src.w() && dst.h() == src.h()
}

/// The output of a whole-image per-pixel map.
pub open spec fn map_rel(src: RasterImage, dst: RasterImage, op: PixelOp) -> bool {
    same_dims(src, dst) && forall|x: int, y: int|
        src.valid(x, y) ==> #[trigger] dst.pix(x, y) == pixel_op_spec(op, src.pix(x, y))
}

/// The output of a 3x3 window filter: interior pixels transformed, the
/// border ring copied verbatim.
pub open spec fn window_rel(src: RasterImage, dst: RasterImage, op: WindowOp) -> bool {
    same_dims(src, dst) && (forall|x: int, y: int|
        src.interior(x, y) ==> #[trigger] dst.pix(x, y) == window_pix(op, src, x, y)) && (
    forall|x: int, y: int|
        src.valid(x, y) && !src.interior(x, y) ==> #[trigger] dst.pix(x, y) == src.pix(x, y))
}

/// The output of a 2x zoom whose every pixel is `f`-determined.
pub open spec fn doubled_dims(src: RasterImage, dst: RasterImage) -> bool {
    dst.w() == 2 * src.w() && dst.h() == 2 * src.h()
}

/// What `apply` promises of its output for each algorithm. Every variant but
/// `SaltPepper` pins the output exactly; `SaltPepper` depends on random
/// draws, so it promises what holds of every outcome: each pixel kept, or
/// turned opaque pure white or pure black.
pub open spec fn apply_rel(a: Algorithm, src: RasterImage, dst: RasterImage) -> bool {
    match a {
        Algorithm::Blur => window_rel(src, dst, WindowOp::Conv(blur_kernel_spec())),
        Algorithm::Mean => window_rel(src, dst, WindowOp::Conv(blur_kernel_spec())),
        Algorithm::Sharpen => window_rel(src, dst, WindowOp::Conv(sharpen_kernel_spec())),
        Algorithm::EdgeDetect => window_rel(src, dst, WindowOp::Conv(edge_kernel_spec())),
        Algorithm::Sobel => window_rel(src, dst, WindowOp::Conv(sobel_kernel_spec())),
        Algorithm::Laplacian => window_rel(src, dst, WindowOp::Conv(laplacian_kernel_spec())),
        Algorithm::Maximum => window_rel(src, dst, WindowOp::Maximum),
        Algorithm::Median => window_rel(src, dst, WindowOp::Median),
        Algorithm::Minimum => window_rel(src, dst, WindowOp::Minimum),
        Algorithm::Invert => map_rel(src, dst, PixelOp::Invert),
        Algorithm::Negative => map_rel(src, dst, PixelOp::Invert),
        Algorithm::Grayscale => map_rel(src, dst, PixelOp::Grayscale),
        Algorithm::Binarize => map_rel(src, dst, PixelOp::Binarize(128)),
        Algorithm::Threshold(t) => map_rel(src, dst, PixelOp::Binarize(t)),
        Algorithm::PseudoColor => map_rel(src, dst, PixelOp::PseudoColor),
        Algorithm::ZoomNearest => doubled_dims(src, dst) && forall|x: int, y: int|
            dst.valid(x, y) ==> #[trigger] dst.pix(x, y) == src.pix(x / 2, y / 2),
        Algorithm::ZoomBilinear => doubled_dims(src, dst) && forall|x: int, y: int|
            dst.valid(x, y) ==> #[trigger] dst.pix(x, y) == bilin_pix(src, x, y),
        Algorithm::SaltPepper(_) => same_dims(src, dst) && forall|x: int, y: int|
            src.valid(x, y) ==> #[trigger] dst.pix(x, y) == src.pix(x, y) || dst.pix(x, y)
                == crate::color::white_pix() || dst.pix(x, y) == crate::color::black_pix(),
    }
}

/// The machine limit a 2x zoom needs: the doubled dimensions and area must
/// fit the address space. Every other algorithm keeps the dimensions.
pub open spec fn zoom_fits(a: Algorithm, img: RasterImage) -> bool {
    match a {
        Algorithm::ZoomNearest | Algorithm::ZoomBilinear => 2 * img.w() <= usize::MAX && 2
            * img.h() <= usize::MAX && 4 * img.w() * img.h() <= usize::MAX,
        _ => true,
    }
}

/// Run one algorithm on one image, producing a fresh output image.
pub fn run_algorithm(a: &Algorithm, img: &RasterImage) -> (out: RasterImage)
    requires
        img.wf(),
        valid_selection(*a),
        zoom_fits(*a, *img),
    ensures
        out.wf(),
        apply_rel(*a, *img, out),
{
    match a {
        Algorithm::Blur => apply_kernel(img, &blur_kernel()),
        Algorithm::Mean => apply_kernel(img, &blur_kernel()),
        Algorithm::Sharpen => apply_kernel(img, &sharpen_kernel()),
        Algorithm::EdgeDetect => apply_kernel(img, &edge_kernel()),
        Algorithm::Sobel => apply_kernel(img, &sobel_kernel()),
        Algorithm::Laplacian => apply_kernel(img, &laplacian_kernel()),
        Algorithm::Maximum => maximum_filter(img),
        Algorithm::Median => median_filter(img),
        Algorithm::Minimum => minimum_filter(img),
        Algorithm::Invert => invert(img),
        Algorithm::Negative => invert(img),
        Algorithm::Grayscale => to_grayscale(img),
        Algorithm::Binarize => binarize(img, 128),
        Algorithm::Threshold(t) => binarize(img, *t),
        Algorithm::PseudoColor => pseudo_color(img),
        Algorithm::ZoomNearest => zoom_nn(img),
        Algorithm::ZoomBilinear => zoom_bilinear(img),
        Algorithm::SaltPepper(t) => salt_pepper(img, *t),
    }
}

/// At least one.
pub open spec fn max1(v: int) -> int {
    if v >= 1 {
        v
    } else {
        1
    }
}

/// The longer side of an image.
pub open spec fn long_side(img: RasterImage) -> int {
    if img.w() >= img.h() {
        img.w()
    } else {
        img.h()
    }
}

/// What the load-time clamp produces: an image whose longer side is at most
/// the bound is passed through unchanged; a larger one is nearest-neighbor
/// resampled so the longer side becomes exactly the bound, the shorter side
/// scaling by the same ratio with truncation (but never below one pixel).
pub open spec fn clamp_rel(src: RasterImage, dst: RasterImage) -> bool {
    let m = long_side(src);
    if m <= MAX_DIM {
        dst == src
    } else {
        let nw = max1(src.w() * (MAX_DIM as int) / m);
        let nh = max1(src.h() * (MAX_DIM as int) / m);
        dst.w() == nw && dst.h() == nh && forall|x: int, y: int|
            dst.valid(x, y) ==> #[trigger] dst.pix(x, y) == nn_src(src, nw, nh, x, y)
    }
}

/// Scaling a side by bound/m keeps it within the bound: for 1 <= a <= m,
/// a * bound / m is at most bound, and equals bound when a == m.
proof fn lemma_clamp_side(a: int, m: int, bound: int)
    requires
        1 <= a <= m,
        1 <= bound,
    ensures
        0 <= a * bound / m <= bound,
        a == m ==> a * bound / m == bound,
{
    assert(0 <= a * bound) by (nonlinear_arith)
        requires 0 <= a, 0 <= bound;
    lemma_div_pos_is_pos(a * bound, m);
    lemma_fundamental_div_mod(a * bound, m);
    lemma_mod_division_less_than_divisor(a * bound, m);
    let d = a * bound / m;
    if d > bound {
        assert(m * d >= m * (bound + 1)) by (nonlinear_arith)
            requires d >= bound + 1, m >= 1;
        assert(a * bound <= m * bound) by (nonlinear_arith)
            requires a <= m, bound >= 0;
        assert(m * (bound + 1) > m * bound) by (nonlinear_arith)
            requires m >= 1;
        assert(false);
    }
    if a == m {
        assert(a * bound == bound * m + 0) by (nonlinear_arith)
            requires a == m;
        lemma_fundamental_div_mod_converse(a * bound, m, bound, 0);
    }
}

/// Clamp an image to the load-time size bound.
pub fn clamp_size(img: RasterImage) -> (out: RasterImage)
    requires
        img.wf(),
        img.w() * (MAX_DIM as int) <= usize::MAX,
        img.h() * (MAX_DIM as int) <= usize::MAX,
    ensures
        out.wf(),
        clamp_rel(img, out),
        long_side(img) > MAX_DIM ==> out.w() <= MAX_DIM && out.h() <= MAX_DIM,
{
    let m = if img.width >= img.height {
        img.width
    } else {
        img.height
    };
    if m <= MAX_DIM {
        img
    } else {
        proof {
            lemma_clamp_side(img.w(), m as int, MAX_DIM as int);
            lemma_clamp_side(img.h(), m as int, MAX_DIM as int);
        }
        let nw0 = img.width * MAX_DIM / m;
        let nh0 = img.height * MAX_DIM / m;
        let nw = if nw0 >= 1 {
            nw0
        } else {
            1
        };
        let nh = if nh0 >= 1 {
            nh0
        } else {
            1
        };
        proof {
            assert(nw * nh <= usize::MAX) by (nonlinear_arith)
                requires 1 <= nw <= 300, 1 <= nh <= 300, usize::MAX >= 0xffff_ffff;
            assert(nw * img.w() <= (MAX_DIM as int) * img.w()) by (nonlinear_arith)
                requires nw <= MAX_DIM as int, img.w() >= 0;
            assert((MAX_DIM as int) * img.w() == img.w() * (MAX_DIM as int))
                by (nonlinear_arith);
            assert(nh * img.h() <= (MAX_DIM as int) * img.h()) by (nonlinear_arith)
                requires nh <= MAX_DIM as int, img.h() >= 0;
            assert((MAX_DIM as int) * img.h() == img.h() * (MAX_DIM as int))
                by (nonlinear_arith);
        }
        nn_resample(&img, nw, nh)
    }
}

/// The clamp leaves a small image untouched and makes the longer side of a
/// large one exactly the bound, the other side scaled by the same ratio.
pub proof fn lemma_clamp_longest_side(src: RasterImage, dst: RasterImage)
    requires
        src.wf(),
        clamp_rel(src, dst),
    ensures
        long_side(src) <= MAX_DIM ==> dst == src,
        long_side(src) > MAX_DIM && src.w() >= src.h() ==> dst.w() == MAX_DIM,
        long_side(src) > MAX_DIM && src.h() >= src.w() ==> dst.h() == MAX_DIM,
{
    let m = long_side(src);
    if m > MAX_DIM {
        if src.w() >= src.h() {
            lemma_clamp_side(src.w(), m, MAX_DIM as int);
        }
        if src.h() >= src.w() {
            lemma_clamp_side(src.h(), m, MAX_DIM as int);
        }
    }
}

/// The clamp bounds both sides by the size bound, so any selection — the 2x
/// zooms included — fits the address space on a freshly loaded input.
pub proof fn lemma_clamp_bounded(src: RasterImage, dst: RasterImage)
    requires
        src.wf(),
        clamp_rel(src, dst),
    ensures
        dst.w() <= MAX_DIM,
        dst.h() <= MAX_DIM,
        forall|a: Algorithm| zoom_fits(a, dst),
{
    let m = long_side(src);
    if m <= MAX_DIM {
    } else {
        lemma_clamp_side(src.w(), m, MAX_DIM as int);
        lemma_clamp_side(src.h(), m, MAX_DIM as int);
    }
    assert(4 * dst.w() * dst.h() <= 360_000) by (nonlinear_arith)
        requires 0 <= dst.w() <= 300, 0 <= dst.h() <= 300;
}

/// Inversion is involutive on whole images: applying Invert (or Negative)
/// twice restores every pixel of the original exactly, per channel.
pub proof fn lemma_invert_image_involutive(
    img: RasterImage,
    once: RasterImage,
    twice: RasterImage,
)
    requires
        map_rel(img, once, PixelOp::Invert),
        map_rel(once, twice, PixelOp::Invert),
    ensures
        same_dims(img, twice),
        forall|x: int, y: int|
            img.valid(x, y) ==> #[trigger] twice.pix(x, y) == img.pix(x, y),
{
    assert forall|x: int, y: int| img.valid(x, y) implies #[trigger] twice.pix(x, y)
        == img.pix(x, y) by {
        assert(once.pix(x, y) == invert_pix(img.pix(x, y)));
        assert(once.valid(x, y));
        crate::color::lemma_invert_involutive(img.pix(x, y));
    }
}

/// Binarization is idempotent on whole images: binarizing a binarized image
/// under the same threshold changes nothing, and every binarized pixel is
/// exactly pure black or pure white with alpha 255.
pub proof fn lemma_binarize_image_idempotent(
    t: u8,
    img: RasterImage,
    once: RasterImage,
    twice: RasterImage,
)
    requires
        map_rel(img, once, PixelOp::Binarize(t)),
        map_rel(once, twice, PixelOp::Binarize(t)),
    ensures
        same_dims(img, twice),
        forall|x: int, y: int|
            img.valid(x, y) ==> #[trigger] once.pix(x, y) == crate::color::white_pix()
                || once.pix(x, y) == crate::color::black_pix(),
        forall|x: int, y: int|
            img.valid(x, y) ==> #[trigger] twice.pix(x, y) == once.pix(x, y),
{
    assert forall|x: int, y: int| img.valid(x, y) implies #[trigger] twice.pix(x, y)
        == once.pix(x, y) && (once.pix(x, y) == crate::color::white_pix() || once.pix(x, y)
        == crate::color::black_pix()) by {
        assert(once.pix(x, y) == bin_pix(t, img.pix(x, y)));
        assert(once.valid(x, y));
        crate::color::lemma_binarize_idempotent(t, img.pix(x, y));
    }
}

/// The pipeline state: the current input and output images and the selected
/// algorithm. `apply` reads `input` and writes `output`; promotion moves
/// `output` into `input`.
pub struct Pipeline {
    pub input: Option<RasterImage>,
    pub output: Option<RasterImage>,
    pub selection: Algorithm,
}

impl Pipeline {
    /// Both slots hold well-formed images when occupied and the selection
    /// parameter is in range.
    pub open spec fn wf(self) -> bool {
        &&& (self.input is Some ==> self.input.unwrap().wf())
        &&& (self.output is Some ==> self.output.unwrap().wf())
        &&& valid_selection(self.selection)
    }

    /// A fresh pipeline: nothing loaded, blur selected.
    pub fn new() -> (p: Pipeline)
        ensures
            p.wf(),
            p.input is None,
            p.output is None,
            p.selection == Algorithm::Blur,
    {
        Pipeline { input: None, output: None, selection: Algorithm::Blur }
    }

    /// Replace the selection; a parameter out of its declared range is
    /// rejected and changes nothing.
    pub fn select(&mut self, a: Algorithm) -> (r: Result<(), FilterError>)
        requires
            old(self).wf(),
        ensures
            final(self).wf(),
            valid_selection(a) ==> r is Ok && final(self).selection == a && final(self).input
                == old(self).input && final(self).output == old(self).output,
            !valid_selection(a) ==> r == Result::<(), FilterError>::Err(
                FilterError::InvalidParameter,
            ) && *final(self) == *old(self),
    {
        let ok = match a {
            Algorithm::SaltPepper(t) => t <= PROB_DENOM,
            _ => true,
        };
        if ok {
            self.selection = a;
            Ok(())
        } else {
            Err(FilterError::InvalidParameter)
        }
    }

    /// Load a decoded image: clamp it to the size bound, store it as the
    /// input, and clear any previous output.
    pub fn load(&mut self, img: RasterImage)
        requires
            old(self).wf(),
            img.wf(),
            img.w() * (MAX_DIM as int) <= usize::MAX,
            img.h() * (MAX_DIM as int) <= usize::MAX,
        ensures
            final(self).wf(),
            final(self).input is Some,
            clamp_rel(img, final(self).input.unwrap()),
            final(self).output is None,
            final(self).selection == old(self).selection,
    {
        let clamped = clamp_size(img);
        self.input = Some(clamped);
        self.output = None;
    }

    /// Whether `apply` may run: with no input it is a no-op anyway; with an
    /// input, a zoom selection must fit the address space.
    pub open spec fn apply_fits(self) -> bool {
        self.input is Some ==> zoom_fits(self.selection, self.input.unwrap())
    }

    /// Run the selected algorithm: with no input loaded this is a no-op;
    /// otherwise the output slot is filled with the transform of the input,
    /// which itself is kept.
    pub fn apply(&mut self)
        requires
            old(self).wf(),
            old(self).apply_fits(),
        ensures
            final(self).wf(),
            old(self).input is None ==> *final(self) == *old(self),
            final(self).input == old(self).input,
            final(self).selection == old(self).selection,
            old(self).input is Some ==> final(self).output is Some && apply_rel(
                old(self).selection,
                old(self).input.unwrap(),
                final(self).output.unwrap(),
            ),
    {
        match &self.input {
            None => {},
            Some(img) => {
                let out = run_algorithm(&self.selection, img);
                self.output = Some(out);
            },
        }
    }

    /// Promote the output to be the next input (an ownership move, not a
    /// copy), clearing the output slot; a no-op when there is no output.
    pub fn promote(&mut self)
        requires
            old(self).wf(),
        ensures
            final(self).wf(),
            old(self).output is None ==> *final(self) == *old(self),
            old(self).output is Some ==> final(self).input == old(self).output
                && final(self).output is None,
            final(self).selection == old(self).selection,
    {
        if self.output.is_some() {
            let mut taken: Option<RasterImage> = None;
            core::mem::swap(&mut self.output, &mut taken);
            self.input = taken;
        }
    }
}

} // verus!
