//! Paints a palette as a row of equal-width swatches, below a copy of the
//! source image or as an image of its own.
use vstd::prelude::*;
use crate::bitmap::{lemma_row_major, lemma_u32_product_fits, pixel_index, Bitmap};
use crate::color::{rgb_of, Color, Rgb};

verus! {

/// The pixel of an area that no swatch covers.
pub open spec fn blank() -> Rgb {
    Rgb { r: 0, g: 0, b: 0 }
}

/// Columns of one swatch: the width divided by the number of colors, rounded down.
pub open spec fn swatch_width(total_width: int, color_count: int) -> int {
    total_width / color_count
}

/// Number of swatches painted: one per palette entry, at most `color_count`.
pub open spec fn swatch_count(palette: Seq<Color>, color_count: int) -> int {
    if palette.len() < color_count {
        palette.len() as int
    } else {
        color_count
    }
}

/// What a swatch row holds in column `x`: swatch `i` covers the columns
/// `i * w .. (i + 1) * w` (`w` the swatch width) in the color of palette entry
/// `i`; columns past the last swatch hold nothing.
pub open spec fn swatch_at(palette: Seq<Color>, color_count: int, total_width: int, x: int) -> Option<Rgb> {
    let w = swatch_width(total_width, color_count);
    if 0 <= x < swatch_count(palette, color_count) * w {
        Some(rgb_of(palette[x / w]))
    } else {
        None
    }
}

/// The pixel in column `x` of every row of the palette band.
pub open spec fn band_pixel(palette: Seq<Color>, color_count: int, total_width: int, x: int) -> Rgb {
    match swatch_at(palette, color_count, total_width, x) {
        Some(c) => c,
        None => blank(),
    }
}

/// Where the width divides evenly by the number of colors and the palette has
/// that many entries, swatches cover every column, swatch `i` in color `i`.
pub proof fn lemma_exact_division_paints_every_column(
    palette: Seq<Color>,
    color_count: int,
    total_width: int,
)
    requires
        color_count >= 1,
        total_width >= 0,
        total_width % color_count == 0,
        palette.len() >= color_count,
    ensures
        forall|x: int|
            0 <= x < total_width ==> #[trigger] swatch_at(palette, color_count, total_width, x)
                == Some(rgb_of(palette[x / swatch_width(total_width, color_count)])),
{
    let w = swatch_width(total_width, color_count);
    vstd::arithmetic::div_mod::lemma_fundamental_div_mod(total_width, color_count);
    assert(swatch_count(palette, color_count) * w == total_width) by (nonlinear_arith)
        requires
            swatch_count(palette, color_count) == color_count,
            w == total_width / color_count,
            total_width == color_count * (total_width / color_count) + total_width % color_count,
            total_width % color_count == 0,
    ;
}

/// One row of the palette band, `total_width` pixels wide.
pub fn swatch_row(palette: &Vec<Color>, color_count: u16, total_width: u32) -> (row: Vec<Rgb>)
    requires
        color_count >= 1,
    ensures
        row@.len() == total_width,
        forall|x: int|
            0 <= x < total_width ==> #[trigger] row@[x] == band_pixel(
                palette@,
                color_count as int,
                total_width as int,
                x,
            ),
{
    let width: u32 = total_width / (color_count as u32);
    let count: u32 = if palette.len() < color_count as usize {
        palette.len() as u32
    } else {
        color_count as u32
    };
    proof {
        lemma_u32_product_fits(count, width);
    }
    let painted: u64 = count as u64 * width as u64;
    let mut row: Vec<Rgb> = Vec::new();
    let mut x: u32 = 0;
    while x < total_width
        invariant
            x <= total_width,
            color_count >= 1,
            width == swatch_width(total_width as int, color_count as int),
            count == swatch_count(palette@, color_count as int),
            painted == count * width,
            row@.len() == x,
            forall|i: int|
                0 <= i < x ==> #[trigger] row@[i] == band_pixel(
                    palette@,
                    color_count as int,
                    total_width as int,
                    i,
                ),
        decreases total_width - x,
    {
        if (x as u64) < painted {
            assert(width > 0 && (x as int) / (width as int) < count) by (nonlinear_arith)
                requires
                    x < count * width,
                    width >= 0,
            ;
            let c = palette[(x / width) as usize];
            row.push(Rgb { r: c.r, g: c.g, b: c.b });
        } else {
            row.push(Rgb { r: 0, g: 0, b: 0 });
        }
        x = x + 1;
    }
    row
}

/// Appends `rows` copies of `row`.
fn push_rows(out: &mut Vec<Rgb>, row: &Vec<Rgb>, rows: u32)
    requires
        old(out)@.len() + rows * row@.len() <= usize::MAX,
    ensures
        final(out)@.len() == old(out)@.len() + rows * row@.len(),
        forall|i: int| 0 <= i < old(out)@.len() ==> #[trigger] final(out)@[i] == old(out)@[i],
        forall|i: int|
            old(out)@.len() <= i < final(out)@.len() ==> #[trigger] final(out)@[i] == row@[(i
                - old(out)@.len()) % row@.len() as int],
{
    let ghost base = out@.len();
    let ghost start = out@;
    let len = row.len();
    let mut y: u32 = 0;
    while y < rows
        invariant
            y <= rows,
            len == row@.len(),
            base + rows * len <= usize::MAX,
            out@.len() == base + y * len,
            forall|i: int| 0 <= i < base ==> #[trigger] out@[i] == start[i],
            forall|i: int|
                base <= i < out@.len() ==> #[trigger] out@[i] == row@[(i - base) % len as int],
        decreases rows - y,
    {
        assert(base + y * len + len <= base + rows * len) by (nonlinear_arith)
            requires
                y < rows,
        ;
        let mut x: usize = 0;
        while x < len
            invariant
                x <= len,
                y < rows,
                len == row@.len(),
                base + y * len + len <= usize::MAX,
                out@.len() == base + y * len + x,
                forall|i: int| 0 <= i < base ==> #[trigger] out@[i] == start[i],
                forall|i: int|
                    base <= i < out@.len() ==> #[trigger] out@[i] == row@[(i - base) % len as int],
            decreases len - x,
        {
            proof {
                vstd::arithmetic::div_mod::lemma_fundamental_div_mod_converse(
                    y * len + x,
                    len as int,
                    y as int,
                    x as int,
                );
            }
            out.push(row[x]);
            x = x + 1;
        }
        assert(base + y * len + len == base + (y + 1) * len) by (nonlinear_arith);
        y = y + 1;
    }
}

/// Moves from positions after the first `h` rows of a grid `w` wide to
/// positions in the band below them.
proof fn lemma_band_index(w: int, h: int, x: int, y: int)
    requires
        0 <= x < w,
        h <= y,
        0 <= h,
    ensures
        pixel_index(w, x, y) - w * h == pixel_index(w, x, y - h),
        (pixel_index(w, x, y) - w * h) % w == x,
{
    assert(y * w + x - w * h == (y - h) * w + x) by (nonlinear_arith);
    vstd::arithmetic::div_mod::lemma_fundamental_div_mod_converse((y - h) * w + x, w, y - h, x);
}

/// The source image with the palette band below it: rows above the source
/// height are a copy of the source, every row below is the swatch row for the
/// source's width.
pub fn original_with_palette(
    input_image: &Bitmap,
    color_palette: &Vec<Color>,
    number_of_colors: u16,
    total_height: u32,
) -> (r: Bitmap)
    requires
        input_image.wf(),
        number_of_colors >= 1,
        input_image.height <= total_height,
        input_image.width as int * total_height as int <= usize::MAX,
    ensures
        r.wf(),
        r.width == input_image.width,
        r.height == total_height,
        forall|x: int, y: int|
            0 <= x < r.width && 0 <= y < r.height ==> #[trigger] r.pixel_at(x, y) == if y
                < input_image.height {
                input_image.pixel_at(x, y)
            } else {
                band_pixel(color_palette@, number_of_colors as int, r.width as int, x)
            },
{
    let width = input_image.width;
    let height = input_image.height;
    let row = swatch_row(color_palette, number_of_colors, width);
    let mut pixels: Vec<Rgb> = Vec::new();
    let mut i: usize = 0;
    let n = input_image.pixels.len();
    while i < n
        invariant
            i <= n,
            n == input_image.pixels@.len(),
            pixels@.len() == i,
            forall|j: int| 0 <= j < i ==> #[trigger] pixels@[j] == input_image.pixels@[j],
        decreases n - i,
    {
        pixels.push(input_image.pixels[i]);
        i = i + 1;
    }
    assert(width * height + (total_height - height) * width == width * total_height)
        by (nonlinear_arith);
    push_rows(&mut pixels, &row, total_height - height);
    let r = Bitmap { width, height: total_height, pixels };
    assert forall|x: int, y: int| 0 <= x < r.width && 0 <= y < r.height implies #[trigger] r.pixel_at(
        x,
        y,
    ) == if y < height {
        input_image.pixel_at(x, y)
    } else {
        band_pixel(color_palette@, number_of_colors as int, width as int, x)
    } by {
        lemma_row_major(width as int, total_height as int, x, y);
        if y < height {
            lemma_row_major(width as int, height as int, x, y);
        } else {
            lemma_band_index(width as int, height as int, x, y);
        }
    }
    r
}

/// An image of the palette alone: every row is the swatch row for `palette_width`.
pub fn standalone_palette(
    color_palette: &Vec<Color>,
    palette_width: u32,
    palette_height: u32,
    number_of_colors: u16,
) -> (r: Bitmap)
    requires
        number_of_colors >= 1,
        palette_width as int * palette_height as int <= usize::MAX,
    ensures
        r.wf(),
        r.width == palette_width,
        r.height == palette_height,
        forall|x: int, y: int|
            0 <= x < r.width && 0 <= y < r.height ==> #[trigger] r.pixel_at(x, y) == band_pixel(
                color_palette@,
                number_of_colors as int,
                palette_width as int,
                x,
            ),
{
    let row = swatch_row(color_palette, number_of_colors, palette_width);
    let mut pixels: Vec<Rgb> = Vec::new();
    assert(palette_height * palette_width == palette_width * palette_height) by (nonlinear_arith);
    push_rows(&mut pixels, &row, palette_height);
    let r = Bitmap { width: palette_width, height: palette_height, pixels };
    assert forall|x: int, y: int| 0 <= x < r.width && 0 <= y < r.height implies #[trigger] r.pixel_at(
        x,
        y,
    ) == band_pixel(color_palette@, number_of_colors as int, palette_width as int, x) by {
        lemma_row_major(palette_width as int, palette_height as int, x, y);
    }
    r
}

} // verus!
