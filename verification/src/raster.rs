//! The pixel substrate: a dense, row-major RGBA8 bitmap with a top-left
//! origin, plus the indexing lemmas the transforms share.

use vstd::prelude::*;

verus! {

/// One RGBA8 pixel.
#[derive(Clone, Copy, PartialEq, Eq, Structural, Debug)]
pub struct Rgba {
    pub r: u8,
    pub g: u8,
    pub b: u8,
    pub a: u8,
}

/// A dense row-major RGBA8 bitmap with fixed width and height.
pub struct RasterImage {
    pub width: usize,
    pub height: usize,
    pub pixels: Vec<Rgba>,
}

/// Row-major index arithmetic: within one row the index stays below the next
/// row's start, equal indices come from equal coordinates, and index order is
/// row-major coordinate order.
pub proof fn lemma_rowmajor(w: int, x1: int, y1: int, x2: int, y2: int)
    requires
        w >= 1,
        0 <= x1 < w,
        0 <= x2 < w,
        0 <= y1,
        0 <= y2,
    ensures
        y1 * w + x1 == y2 * w + x2 ==> (x1 == x2 && y1 == y2),
        (y1 * w + x1 < y2 * w + x2) <==> (y1 < y2 || (y1 == y2 && x1 < x2)),
{
    assert(y1 * w + x1 == y2 * w + x2 ==> (x1 == x2 && y1 == y2)) by (nonlinear_arith)
        requires w >= 1, 0 <= x1 < w, 0 <= x2 < w, 0 <= y1, 0 <= y2;
    assert((y1 * w + x1 < y2 * w + x2) <==> (y1 < y2 || (y1 == y2 && x1 < x2)))
        by (nonlinear_arith)
        requires w >= 1, 0 <= x1 < w, 0 <= x2 < w, 0 <= y1, 0 <= y2;
}

/// A coordinate inside a w-by-h grid has its row-major index inside the buffer.
pub proof fn lemma_index_bound(w: int, h: int, x: int, y: int)
    requires
        0 <= x < w,
        0 <= y < h,
    ensures
        0 <= y * w + x < h * w,
{
    assert(0 <= y * w + x < h * w) by (nonlinear_arith)
        requires 0 <= x < w, 0 <= y < h;
}

impl RasterImage {
    /// The invariant every transform preserves: non-degenerate dimensions and
    /// a buffer of exactly `width * height` pixels.
    pub open spec fn wf(self) -> bool {
        &&& self.width >= 1
        &&& self.height >= 1
        &&& self.width * self.height <= usize::MAX
        &&& self.pixels@.len() == self.width * self.height
    }

    pub open spec fn w(self) -> int {
        self.width as int
    }

    pub open spec fn h(self) -> int {
        self.height as int
    }

    /// The pixel buffer in row-major order.
    pub open spec fn buf(self) -> Seq<Rgba> {
        self.pixels@
    }

    /// Whether (x, y) lies inside the image.
    pub open spec fn valid(self, x: int, y: int) -> bool {
        0 <= x < self.w() && 0 <= y < self.h()
    }

    /// Whether (x, y) is interior: the whole 3x3 window around it stays
    /// inside the image.
    pub open spec fn interior(self, x: int, y: int) -> bool {
        1 <= x < self.w() - 1 && 1 <= y < self.h() - 1
    }

    /// The pixel at column x of row y.
    pub open spec fn pix(self, x: int, y: int) -> Rgba {
        self.buf()[y * self.w() + x]
    }

    pub fn width(&self) -> (w: usize)
        ensures
            w == self.w(),
    {
        self.width
    }

    pub fn height(&self) -> (h: usize)
        ensures
            h == self.h(),
    {
        self.height
    }

    /// Row-major index of a valid coordinate.
    fn idx(&self, x: usize, y: usize) -> (i: usize)
        requires
            self.wf(),
            self.valid(x as int, y as int),
        ensures
            i == y * self.w() + x,
            i < self.buf().len(),
    {
        proof {
            lemma_index_bound(self.w(), self.h(), x as int, y as int);
            assert(self.h() * self.w() == self.w() * self.h()) by (nonlinear_arith);
        }
        y * self.width + x
    }

    /// A fresh image with every pixel set to `fill`.
    pub fn new(width: usize, height: usize, fill: Rgba) -> (img: RasterImage)
        requires
            width >= 1,
            height >= 1,
            width * height <= usize::MAX,
        ensures
            img.wf(),
            img.w() == width,
            img.h() == height,
            forall|i: int| 0 <= i < img.buf().len() ==> img.buf()[i] == fill,
            forall|x: int, y: int|
                img.valid(x, y) ==> #[trigger] img.pix(x, y) == fill,
    {
        let total: usize = width * height;
        let mut pixels: Vec<Rgba> = Vec::new();
        let mut i: usize = 0;
        while i < total
            invariant
                i <= total,
                pixels@.len() == i,
                forall|j: int| 0 <= j < i ==> pixels@[j] == fill,
            decreases total - i,
        {
            pixels.push(fill);
            i = i + 1;
        }
        let img = RasterImage { width, height, pixels };
        proof {
            assert forall|x: int, y: int| img.valid(x, y) implies #[trigger] img.pix(x, y)
                == fill by {
                lemma_index_bound(img.w(), img.h(), x, y);
                assert(img.h() * img.w() == img.w() * img.h()) by (nonlinear_arith);
            }
        }
        img
    }

    /// The pixel at a valid coordinate.
    pub fn pixel(&self, x: usize, y: usize) -> (p: Rgba)
        requires
            self.wf(),
            self.valid(x as int, y as int),
        ensures
            p == self.pix(x as int, y as int),
    {
        let i = self.idx(x, y);
        self.pixels[i]
    }

    /// Overwrite the pixel at a valid coordinate, leaving every other pixel
    /// as it was.
    pub fn set_pixel(&mut self, x: usize, y: usize, p: Rgba)
        requires
            old(self).wf(),
            old(self).valid(x as int, y as int),
        ensures
            final(self).wf(),
            final(self).w() == old(self).w(),
            final(self).h() == old(self).h(),
            final(self).buf() == old(self).buf().update(y * old(self).w() + x, p),
            final(self).pix(x as int, y as int) == p,
            forall|x2: int, y2: int|
                old(self).valid(x2, y2) && (x2 != x || y2 != y)
                    ==> #[trigger] final(self).pix(x2, y2) == old(self).pix(x2, y2),
    {
        let i = self.idx(x, y);
        self.pixels.set(i, p);
        proof {
            assert forall|x2: int, y2: int|
                old(self).valid(x2, y2) && (x2 != x as int || y2 != y as int)
                    implies #[trigger] self.pix(x2, y2) == old(self).pix(x2, y2) by {
                lemma_index_bound(self.w(), self.h(), x2, y2);
                assert(self.h() * self.w() == self.w() * self.h()) by (nonlinear_arith);
                lemma_rowmajor(self.w(), x as int, y as int, x2, y2);
            }
        }
    }

    /// A copy of the pixel buffer.
    pub fn clone_pixels(&self) -> (v: Vec<Rgba>)
        ensures
            v@ == self.buf(),
    {
        let mut v: Vec<Rgba> = Vec::new();
        let mut i: usize = 0;
        let n = self.pixels.len();
        while i < n
            invariant
                i <= n,
                n == self.buf().len(),
                v@ =~= self.buf().subrange(0, i as int),
            decreases n - i,
        {
            v.push(self.pixels[i]);
            proof {
                assert(v@ =~= self.buf().subrange(0, i + 1));
            }
            i = i + 1;
        }
        proof {
            assert(v@ =~= self.buf());
        }
        v
    }

    /// Rebuild an image from raw parts; the caller supplies a buffer of the
    /// exact row-major size.
    pub fn from_parts(width: usize, height: usize, pixels: Vec<Rgba>) -> (img: RasterImage)
        requires
            width >= 1,
            height >= 1,
            width * height <= usize::MAX,
            pixels@.len() == width * height,
        ensures
            img.wf(),
            img.w() == width,
            img.h() == height,
            img.buf() == pixels@,
    {
        RasterImage { width, height, pixels }
    }
}

} // verus!
