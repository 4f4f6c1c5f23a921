//! Decoded images as rows of pixels.
use vstd::prelude::*;
use crate::color::Rgb;

verus! {

/// An image of `width` x `height` pixels, stored row after row.
#[derive(Clone, Debug, PartialEq, Eq)]
pub struct Bitmap {
    pub width: u32,
    pub height: u32,
    pub pixels: Vec<Rgb>,
}

/// Index of pixel `(x, y)` in the pixels of an image `width` wide.
pub open spec fn pixel_index(width: int, x: int, y: int) -> int {
    y * width + x
}

impl Bitmap {
    /// There is one pixel for each position of the grid.
    pub open spec fn wf(&self) -> bool {
        self.pixels@.len() == self.width as int * self.height as int
    }

    /// The pixel in column `x` of row `y`.
    pub open spec fn pixel_at(&self, x: int, y: int) -> Rgb {
        self.pixels@[pixel_index(self.width as int, x, y)]
    }

    /// An image from its pixels, row after row; `None` where their number is
    /// not `width * height`.
    pub fn from_pixels(width: u32, height: u32, pixels: Vec<Rgb>) -> (r: Option<Bitmap>)
        ensures
            r is Some <==> pixels@.len() == width as int * height as int,
            r matches Some(b) ==> b.wf() && b.width == width && b.height == height && b.pixels@
                == pixels@,
    {
        proof {
            lemma_u32_product_fits(width, height);
        }
        if width as u64 * height as u64 == pixels.len() as u64 {
            Some(Bitmap { width, height, pixels })
        } else {
            None
        }
    }

    /// An image of one color.
    pub fn filled(width: u32, height: u32, color: Rgb) -> (r: Bitmap)
        requires
            width as int * height as int <= usize::MAX,
        ensures
            r.wf(),
            r.width == width,
            r.height == height,
            forall|i: int| 0 <= i < r.pixels@.len() ==> r.pixels@[i] == color,
    {
        proof {
            lemma_u32_product_fits(width, height);
        }
        let n: usize = (width as u64 * height as u64) as usize;
        let mut pixels: Vec<Rgb> = Vec::new();
        let mut i: usize = 0;
        while i < n
            invariant
                i <= n,
                n == width as int * height as int,
                pixels@.len() == i,
                forall|j: int| 0 <= j < i ==> pixels@[j] == color,
            decreases n - i,
        {
            pixels.push(color);
            i = i + 1;
        }
        Bitmap { width, height, pixels }
    }

    /// The pixel in column `x` of row `y`.
    pub fn get_pixel(&self, x: u32, y: u32) -> (p: Rgb)
        requires
            self.wf(),
            x < self.width,
            y < self.height,
        ensures
            p == self.pixel_at(x as int, y as int),
    {
        proof {
            lemma_row_major(self.width as int, self.height as int, x as int, y as int);
            lemma_u32_product_fits(y, self.width);
        }
        let i = y as u64 * self.width as u64 + x as u64;
        assert(i == pixel_index(self.width as int, x as int, y as int));
        let len = self.pixels.len();
        assert(i < len);
        self.pixels[i as usize]
    }
}

/// The product of two `u32` values fits in a `u64`.
pub proof fn lemma_u32_product_fits(a: u32, b: u32)
    ensures
        0 <= a as int * b as int <= u64::MAX,
        a as int * b as int + u32::MAX <= u64::MAX,
{
    assert(0 <= a as int * b as int <= u32::MAX as int * u32::MAX as int) by (nonlinear_arith)
        requires
            a <= u32::MAX,
            b <= u32::MAX,
    ;
}

/// In a grid `w` wide, `(x, y)` sits at `y * w + x`, inside the first `h` rows.
pub proof fn lemma_row_major(w: int, h: int, x: int, y: int)
    requires
        0 <= x < w,
        0 <= y < h,
    ensures
        0 <= pixel_index(w, x, y) < w * h,
        pixel_index(w, x, y) % w == x,
        pixel_index(w, x, y) / w == y,
{
    assert(0 <= y * w + x < w * h) by (nonlinear_arith)
        requires
            0 <= x < w,
            0 <= y < h,
    ;
    vstd::arithmetic::div_mod::lemma_fundamental_div_mod_converse(y * w + x, w, y, x);
}

} // verus!
