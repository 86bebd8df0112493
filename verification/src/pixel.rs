use vstd::prelude::*;
use vstd::pervasive::VecAdditionalExecFns;

verus! {

/// One RGBA8 pixel.
#[derive(Clone, Copy, PartialEq, Eq, Structural, Debug)]
pub struct Rgba {
    pub r: u8,
    pub g: u8,
    pub b: u8,
    pub a: u8,
}

/// A `width x height` grid of RGBA8 pixels, row-major, four bytes per pixel.
#[derive(Debug)]
pub struct RgbaImage {
    width: usize,
    height: usize,
    data: Vec<u8>,
}

/// Byte offset of pixel `(x, y)` in a row-major RGBA8 buffer of width `w`.
pub open spec fn pix_off(w: int, x: int, y: int) -> int {
    4 * (y * w + x)
}

/// The pixel stored at byte offset `off` of a raw RGBA8 buffer.
pub open spec fn quad_at(data: Seq<u8>, off: int) -> Rgba {
    Rgba { r: data[off], g: data[off + 1], b: data[off + 2], a: data[off + 3] }
}

proof fn lemma_pix_off_in_bounds(w: int, h: int, x: int, y: int)
    by (nonlinear_arith)
    requires
        0 <= x < w,
        0 <= y < h,
    ensures
        0 <= pix_off(w, x, y),
        pix_off(w, x, y) + 4 <= w * h * 4,
{
}

proof fn lemma_pix_off_injective(w: int, x1: int, y1: int, x2: int, y2: int)
    by (nonlinear_arith)
    requires
        0 <= x1 < w,
        0 <= x2 < w,
        0 <= y1,
        0 <= y2,
        (x1, y1) != (x2, y2),
    ensures
        pix_off(w, x1, y1) != pix_off(w, x2, y2),
{
}

impl RgbaImage {
    /// The buffer holds exactly four bytes for each of the `width * height` pixels.
    pub closed spec fn wf(self) -> bool {
        &&& self.data@.len() == self.spec_width() * self.spec_height() * 4
        &&& self.spec_width() * self.spec_height() * 4 <= usize::MAX
    }

    pub closed spec fn spec_width(self) -> int {
        self.width as int
    }

    pub closed spec fn spec_height(self) -> int {
        self.height as int
    }

    /// The pixel stored at `(x, y)`; row 0 is the top row.
    pub closed spec fn pixel(self, x: int, y: int) -> Rgba {
        quad_at(self.data@, pix_off(self.spec_width(), x, y))
    }

    /// Both dimensions are machine-word sized.
    pub proof fn lemma_dims_in_range(self)
        ensures
            0 <= self.spec_width() <= usize::MAX,
            0 <= self.spec_height() <= usize::MAX,
    {
    }

    pub fn width(&self) -> (r: usize)
        ensures
            r == self.spec_width(),
    {
        self.width
    }

    pub fn height(&self) -> (r: usize)
        ensures
            r == self.spec_height(),
    {
        self.height
    }

    /// A fresh image with every pixel fully transparent black.
    pub fn new(width: usize, height: usize) -> (img: RgbaImage)
        requires
            width * height * 4 <= usize::MAX,
        ensures
            img.wf(),
            img.spec_width() == width,
            img.spec_height() == height,
            forall|x: int, y: int|
                0 <= x < width && 0 <= y < height ==> #[trigger] img.pixel(x, y) == (Rgba {
                    r: 0,
                    g: 0,
                    b: 0,
                    a: 0,
                }),
    {
        proof {
            assert(width * height * 4 >= 0) by (nonlinear_arith);
        }
        let n: usize = width * height * 4;
        let mut data: Vec<u8> = Vec::new();
        let mut i: usize = 0;
        while i < n
            invariant
                i <= n,
                data@.len() == i,
                forall|j: int| 0 <= j < i ==> data@[j] == 0u8,
            decreases n - i,
        {
            data.push(0u8);
            i = i + 1;
        }
        let img = RgbaImage { width, height, data };
        proof {
            assert forall|x: int, y: int| 0 <= x < width && 0 <= y < height implies #[trigger] img
                .pixel(x, y) == (Rgba { r: 0, g: 0, b: 0, a: 0 }) by {
                lemma_pix_off_in_bounds(width as int, height as int, x, y);
            }
        }
        img
    }

    /// Takes a raw row-major RGBA8 buffer as the image contents.
    pub fn from_raw(width: usize, height: usize, data: Vec<u8>) -> (img: RgbaImage)
        requires
            data@.len() == width * height * 4,
            width * height * 4 <= usize::MAX,
        ensures
            img.wf(),
            img.spec_width() == width,
            img.spec_height() == height,
            forall|x: int, y: int|
                0 <= x < width && 0 <= y < height ==> #[trigger] img.pixel(x, y) == quad_at(
                    data@,
                    pix_off(width as int, x, y),
                ),
    {
        RgbaImage { width, height, data }
    }

    pub fn get_pixel(&self, x: usize, y: usize) -> (p: Rgba)
        requires
            self.wf(),
            x < self.spec_width(),
            y < self.spec_height(),
        ensures
            p == self.pixel(x as int, y as int),
    {
        proof {
            lemma_pix_off_in_bounds(self.spec_width(), self.spec_height(), x as int, y as int);
            assert(pix_off(self.spec_width(), x as int, y as int) == 4 * ((y as int) * (
            self.spec_width()) + (x as int)));
        }
        let off: usize = 4 * (y * self.width + x);
        Rgba { r: self.data[off], g: self.data[off + 1], b: self.data[off + 2], a: self.data[off
            + 3] }
    }

    /// Overwrites the pixel at `(x, y)`, leaving every other pixel as it was.
    pub fn put_pixel(&mut self, x: usize, y: usize, p: Rgba)
        requires
            old(self).wf(),
            x < old(self).spec_width(),
            y < old(self).spec_height(),
        ensures
            final(self).wf(),
            final(self).spec_width() == old(self).spec_width(),
            final(self).spec_height() == old(self).spec_height(),
            final(self).pixel(x as int, y as int) == p,
            forall|x2: int, y2: int|
                0 <= x2 < old(self).spec_width() && 0 <= y2 < old(self).spec_height() && (x2, y2)
                    != (x as int, y as int) ==> #[trigger] final(self).pixel(x2, y2) == old(
                    self,
                ).pixel(x2, y2),
    {
        proof {
            lemma_pix_off_in_bounds(self.spec_width(), self.spec_height(), x as int, y as int);
        }
        let off: usize = 4 * (y * self.width + x);
        self.data.set(off, p.r);
        self.data.set(off + 1, p.g);
        self.data.set(off + 2, p.b);
        self.data.set(off + 3, p.a);
        proof {
            assert forall|x2: int, y2: int|
                0 <= x2 < self.spec_width() && 0 <= y2 < self.spec_height() && (x2, y2) != (
                x as int,
                y as int,
                ) implies #[trigger] self.pixel(x2, y2) == old(self).pixel(x2, y2) by {
                lemma_pix_off_in_bounds(self.spec_width(), self.spec_height(), x2, y2);
                lemma_pix_off_injective(self.spec_width(), x2, y2, x as int, y as int);
                assert(pix_off(self.spec_width(), x2, y2) % 4 == 0) by (nonlinear_arith);
                assert(pix_off(self.spec_width(), x as int, y as int) % 4 == 0)
                    by (nonlinear_arith);
            }
        }
    }

    /// The same image upside down: output row `y` is input row `height - 1 - y`.
    pub fn flip_vertical(&self) -> (r: RgbaImage)
        requires
            self.wf(),
        ensures
            r.wf(),
            is_vertical_flip(*self, r),
    {
        let w: usize = self.width;
        let h: usize = self.height;
        proof {
            assert(w * h * 4 >= 0) by (nonlinear_arith);
        }
        let mut out = RgbaImage::new(w, h);
        let mut y: usize = 0;
        while y < h
            invariant
                y <= h,
                self.wf(),
                out.wf(),
                w == self.spec_width(),
                h == self.spec_height(),
                out.spec_width() == w,
                out.spec_height() == h,
                forall|x2: int, y2: int|
                    0 <= x2 < w && 0 <= y2 < y ==> #[trigger] out.pixel(x2, y2) == self.pixel(
                        x2,
                        h - 1 - y2,
                    ),
            decreases h - y,
        {
            let mut x: usize = 0;
            while x < w
                invariant
                    y < h,
                    x <= w,
                    self.wf(),
                    out.wf(),
                    w == self.spec_width(),
                    h == self.spec_height(),
                    out.spec_width() == w,
                    out.spec_height() == h,
                    forall|x2: int, y2: int|
                        0 <= x2 < w && 0 <= y2 < y ==> #[trigger] out.pixel(x2, y2) == self.pixel(
                            x2,
                            h - 1 - y2,
                        ),
                    forall|x2: int|
                        0 <= x2 < x ==> #[trigger] out.pixel(x2, y as int) == self.pixel(
                            x2,
                            h - 1 - y,
                        ),
                decreases w - x,
            {
                let p = self.get_pixel(x, h - 1 - y);
                out.put_pixel(x, y, p);
                x = x + 1;
            }
            y = y + 1;
        }
        out
    }
}

/// An alpha byte doubled and clamped at 255, undoing the half-range alpha
/// convention of one platform.
pub open spec fn rescaled_alpha(v: u8) -> u8 {
    if 2 * (v as int) <= 255 {
        (2 * (v as int)) as u8
    } else {
        255u8
    }
}

/// Doubles an alpha byte, saturating at 255.
pub fn rescale_alpha(v: u8) -> (r: u8)
    ensures
        r == rescaled_alpha(v),
{
    if v > 127 {
        255
    } else {
        2 * v
    }
}

/// The rescaled alpha is `min(255, 2 * v)`; it is even unless clamped to 255,
/// and it grows monotonically with the source byte.
pub proof fn lemma_alpha_rescale(v: u8, w: u8)
    ensures
        rescaled_alpha(v) == if 2 * (v as int) <= 255 {
            2 * (v as int)
        } else {
            255int
        },
        rescaled_alpha(v) == 255 || rescaled_alpha(v) % 2 == 0,
        v <= w ==> rescaled_alpha(v) <= rescaled_alpha(w),
{
}

/// `b` is `a` flipped vertically: same size, and row `y` of `b` is row
/// `height - 1 - y` of `a`.
pub open spec fn is_vertical_flip(a: RgbaImage, b: RgbaImage) -> bool {
    &&& b.spec_width() == a.spec_width()
    &&& b.spec_height() == a.spec_height()
    &&& forall|x: int, y: int|
        0 <= x < a.spec_width() && 0 <= y < a.spec_height() ==> #[trigger] b.pixel(x, y) == a.pixel(
            x,
            a.spec_height() - 1 - y,
        )
}

/// Flipping an image vertically twice restores every pixel: if `b` is `a`
/// flipped and `c` is `b` flipped, then `c` agrees with `a` on the whole grid.
pub proof fn lemma_flip_twice_identity(a: RgbaImage, b: RgbaImage, c: RgbaImage)
    requires
        is_vertical_flip(a, b),
        is_vertical_flip(b, c),
    ensures
        c.spec_width() == a.spec_width(),
        c.spec_height() == a.spec_height(),
        forall|x: int, y: int|
            0 <= x < a.spec_width() && 0 <= y < a.spec_height() ==> #[trigger] c.pixel(x, y)
                == a.pixel(x, y),
{
}

} // verus!
