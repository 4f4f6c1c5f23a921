//! Reduces an image to a palette, by k-means clustering (exoquant) or by
//! median cut (mcq).
use vstd::prelude::*;
use crate::bitmap::Bitmap;
use crate::color::{opaque, Color, Rgb, DEFAULT_ALPHA_COLOR};
use crate::config::{QuantisationMethod, MAX_NUMBER_OF_COLORS, MIN_NUMBER_OF_COLORS};
use crate::error::ColorBuddyError;

verus! {

/// The colors that mcq's median cut picks for packed pixels and a bound on
/// their number, as `(red, green, blue)`, in the order mcq gives them.
pub uninterp spec fn median_cut_of(pixels: Seq<u32>, k_max: u32) -> Seq<(u8, u8, u8)>;

/// The `(red, green, blue)` of a packed pixel: its three low bytes, red lowest.
pub open spec fn channels(p: u32) -> (u8, u8, u8) {
    ((p % 0x100) as u8, (p / 0x100 % 0x100) as u8, (p / 0x10000 % 0x100) as u8)
}

/// Relies on mcq's `MMCQ::from_pixels_u32_rgba` and `MMCQ::get_quantized_colors`:
/// a deterministic median cut over the low 24 bits of each pixel (red in the
/// lowest byte). It returns at most `k_max` colors, at least one for a
/// non-empty input. Where the input has no more than `k_max` distinct colors
/// it returns each of them once (ordered by their number of pixels).
#[verifier::external_body]
fn median_cut(pixels: &Vec<u32>, k_max: u32) -> (r: Vec<(u8, u8, u8)>)
    requires
        k_max >= 1,
    ensures
        r@ == median_cut_of(pixels@, k_max),
        r@.len() <= k_max,
        pixels@.len() > 0 ==> r@.len() >= 1,
        pixels@.map_values(|p: u32| channels(p)).to_set().len() <= k_max ==> {
            &&& r@.to_set() == pixels@.map_values(|p: u32| channels(p)).to_set()
            &&& r@.no_duplicates()
            &&& r@.len() == pixels@.map_values(|p: u32| channels(p)).to_set().len()
        },
{
    mcq::MMCQ::from_pixels_u32_rgba(pixels, k_max)
        .get_quantized_colors()
        .iter()
        .map(|c| (c.red, c.grn, c.blu))
        .collect()
}

/// Relies on exoquant's `generate_palette`, run with `SimpleColorSpace::default()`
/// and `optimizer::KMeans` on the `Histogram` of the given colors: it returns
/// exactly `num_colors` colors. exoquant keeps its histogram in a `HashMap`,
/// which std seeds anew for each map, so nothing more is stated of the colors.
#[verifier::external_body]
fn kmeans(colors: &Vec<Color>, num_colors: usize) -> (r: Vec<Color>)
    requires
        1 <= num_colors <= 256,
    ensures
        r@.len() == num_colors,
{
    let histogram: exoquant::Histogram = colors
        .iter()
        .map(|c| exoquant::Color::new(c.r, c.g, c.b, c.a))
        .collect();
    exoquant::generate_palette(
        &histogram,
        &exoquant::SimpleColorSpace::default(),
        &exoquant::optimizer::KMeans,
        num_colors,
    ).iter().map(|c| Color { r: c.r, g: c.g, b: c.b, a: c.a }).collect()
}

/// A pixel as four bytes red, green, blue, alpha (fully opaque), read as a
/// little-endian `u32`.
pub open spec fn packed_rgba(p: Rgb) -> u32 {
    (p.r as int + p.g as int * 0x100 + p.b as int * 0x10000 + 0xff000000) as u32
}

/// The opaque palette entry of a `(red, green, blue)` triple.
pub open spec fn opaque_of(t: (u8, u8, u8)) -> Color {
    opaque(t.0, t.1, t.2)
}

/// The palette that median cut gives for these pixels and this number of colors.
pub open spec fn median_cut_palette(pixels: Seq<Rgb>, number_of_colors: u16) -> Seq<Color> {
    median_cut_of(pixels.map_values(|p: Rgb| packed_rgba(p)), number_of_colors as u32).map_values(
        |t: (u8, u8, u8)| opaque_of(t),
    )
}

/// Whether a number of colors may be asked for.
pub open spec fn valid_color_count(n: int) -> bool {
    MIN_NUMBER_OF_COLORS <= n <= MAX_NUMBER_OF_COLORS
}

/// The `(red, green, blue)` of a pixel.
pub open spec fn rgb_triple(p: Rgb) -> (u8, u8, u8) {
    (p.r, p.g, p.b)
}

/// The `(red, green, blue)` of a palette entry.
pub open spec fn color_triple(c: Color) -> (u8, u8, u8) {
    (c.r, c.g, c.b)
}

/// The distinct colors of an image.
pub open spec fn image_colors(pixels: Seq<Rgb>) -> Set<(u8, u8, u8)> {
    pixels.map_values(|p: Rgb| rgb_triple(p)).to_set()
}

/// Whether every pixel has the same color.
pub open spec fn single_color(pixels: Seq<Rgb>) -> bool {
    pixels.len() > 0 && forall|i: int| 0 <= i < pixels.len() ==> #[trigger] pixels[i] == pixels[0]
}

/// An image of one color has that one distinct color.
proof fn lemma_single_color(pixels: Seq<Rgb>)
    requires
        single_color(pixels),
    ensures
        image_colors(pixels) == set![rgb_triple(pixels[0])],
        image_colors(pixels).len() == 1,
{
    let s = pixels.map_values(|p: Rgb| rgb_triple(p));
    let t = rgb_triple(pixels[0]);
    assert forall|x: (u8, u8, u8)| s.to_set().contains(x) <==> x == t by {
        if s.to_set().contains(x) {
            let i = choose|i: int| 0 <= i < s.len() && s[i] == x;
            assert(pixels[i] == pixels[0]);
        }
        if x == t {
            assert(s[0] == t);
        }
    }
    assert(image_colors(pixels) =~= set![t]);
    assert(set![t].len() == 1) by {
        assert(set![t] == Set::<(u8, u8, u8)>::empty().insert(t));
    }
}

/// The bytes of a pixel, packed as `packed_rgba` says.
fn pack_rgba(p: Rgb) -> (r: u32)
    ensures
        r == packed_rgba(p),
{
    p.r as u32 + p.g as u32 * 0x100 + p.b as u32 * 0x10000 + 0xff000000
}

/// The low three bytes of a packed pixel are its channels.
proof fn lemma_packed_channels(p: Rgb)
    ensures
        packed_rgba(p) % 0x100 == p.r,
        packed_rgba(p) / 0x100 % 0x100 == p.g,
        packed_rgba(p) / 0x10000 % 0x100 == p.b,
{
    let v = packed_rgba(p) as int;
    assert(v == (p.g as int + p.b as int * 0x100 + 0xff0000) * 0x100 + p.r as int);
    vstd::arithmetic::div_mod::lemma_fundamental_div_mod_converse(
        v,
        0x100,
        p.g as int + p.b as int * 0x100 + 0xff0000,
        p.r as int,
    );
    let v1 = v / 0x100;
    vstd::arithmetic::div_mod::lemma_fundamental_div_mod_converse(
        v1,
        0x100,
        p.b as int + 0xff00,
        p.g as int,
    );
    assert(v == (p.b as int + 0xff00) * 0x10000 + (p.g as int * 0x100 + p.r as int));
    vstd::arithmetic::div_mod::lemma_fundamental_div_mod_converse(
        v,
        0x10000,
        p.b as int + 0xff00,
        p.g as int * 0x100 + p.r as int,
    );
    vstd::arithmetic::div_mod::lemma_fundamental_div_mod_converse(
        v / 0x10000,
        0x100,
        0xff,
        p.b as int,
    );
}

/// Turns the `(red, green, blue)` colors that median cut returns into fully
/// opaque palette entries, in the same order.
pub fn mcq_color_nodes_to_exoquant_colors(mcq_color_nodes: Vec<(u8, u8, u8)>) -> (r: Vec<Color>)
    ensures
        r@ == mcq_color_nodes@.map_values(|t: (u8, u8, u8)| opaque_of(t)),
{
    let mut out: Vec<Color> = Vec::new();
    let mut i: usize = 0;
    while i < mcq_color_nodes.len()
        invariant
            i <= mcq_color_nodes@.len(),
            out@ == mcq_color_nodes@.take(i as int).map_values(|t: (u8, u8, u8)| opaque_of(t)),
        decreases mcq_color_nodes@.len() - i,
    {
        let (r, g, b) = mcq_color_nodes[i];
        out.push(Color { r, g, b, a: DEFAULT_ALPHA_COLOR });
        assert(mcq_color_nodes@.take(i as int + 1) =~= mcq_color_nodes@.take(i as int).push(
            mcq_color_nodes@[i as int],
        ));
        i = i + 1;
    }
    assert(mcq_color_nodes@.take(i as int) =~= mcq_color_nodes@);
    out
}

/// The same colors, each made fully opaque.
fn with_full_alpha(colors: Vec<Color>) -> (r: Vec<Color>)
    ensures
        r@.len() == colors@.len(),
        forall|i: int|
            0 <= i < r@.len() ==> #[trigger] r@[i] == opaque(colors@[i].r, colors@[i].g, colors@[i].b),
{
    let mut out: Vec<Color> = Vec::new();
    let mut i: usize = 0;
    while i < colors.len()
        invariant
            i <= colors@.len(),
            out@.len() == i,
            forall|j: int|
                0 <= j < i ==> #[trigger] out@[j] == opaque(colors@[j].r, colors@[j].g, colors@[j].b),
        decreases colors@.len() - i,
    {
        let c = colors[i];
        out.push(Color { r: c.r, g: c.g, b: c.b, a: DEFAULT_ALPHA_COLOR });
        i = i + 1;
    }
    out
}

/// What every extracted palette satisfies, for a valid count: every entry
/// fully opaque; at most `number_of_colors` entries, and at least one for a
/// non-empty image; k-means gives exactly `number_of_colors` entries; median
/// cut gives `median_cut_palette`, which for an image of no more than
/// `number_of_colors` distinct colors holds each of them once, and for an
/// image of one color is that color alone.
pub open spec fn is_extracted_palette(
    pixels: Seq<Rgb>,
    number_of_colors: u16,
    quantisation_method: QuantisationMethod,
    p: Seq<Color>,
) -> bool {
    &&& forall|i: int| 0 <= i < p.len() ==> #[trigger] p[i].a == DEFAULT_ALPHA_COLOR
    &&& p.len() <= number_of_colors
    &&& pixels.len() > 0 ==> p.len() >= 1
    &&& quantisation_method == QuantisationMethod::KMeans ==> p.len() == number_of_colors
    &&& quantisation_method == QuantisationMethod::MedianCut ==> p == median_cut_palette(
        pixels,
        number_of_colors,
    )
    &&& quantisation_method == QuantisationMethod::MedianCut && image_colors(pixels).len()
        <= number_of_colors ==> {
        &&& p.map_values(|c: Color| color_triple(c)).to_set() == image_colors(pixels)
        &&& p.map_values(|c: Color| color_triple(c)).no_duplicates()
        &&& p.len() == image_colors(pixels).len()
    }
    &&& quantisation_method == QuantisationMethod::MedianCut && single_color(pixels) ==> p
        == seq![opaque(pixels[0].r, pixels[0].g, pixels[0].b)]
}

/// Extracts a palette of at most `number_of_colors` colors, every one fully
/// opaque.
///
/// A count outside 1 ..= 256 is refused with `InvalidColorCount` before any
/// quantization. K-means gives exactly `number_of_colors` colors (where the
/// image has fewer distinct colors, the clusters left empty come out black).
/// Median cut gives a palette determined by the pixels and the count, never
/// longer than the count, never empty for a non-empty image; an image with no
/// more distinct colors than the count gets each of them once, and an image of
/// one color that color.
pub fn extract_palette(
    input_image: &Bitmap,
    number_of_colors: u16,
    quantisation_method: QuantisationMethod,
) -> (r: Result<Vec<Color>, ColorBuddyError>)
    ensures
        !valid_color_count(number_of_colors as int) ==> r == Err::<Vec<Color>, ColorBuddyError>(
            ColorBuddyError::InvalidColorCount { count: number_of_colors as usize },
        ),
        valid_color_count(number_of_colors as int) ==> r is Ok,
        r matches Ok(p) ==> is_extracted_palette(
            input_image.pixels@,
            number_of_colors,
            quantisation_method,
            p@,
        ),
{
    if number_of_colors < MIN_NUMBER_OF_COLORS || number_of_colors > MAX_NUMBER_OF_COLORS {
        return Err(ColorBuddyError::InvalidColorCount { count: number_of_colors as usize });
    }
    let pixels = &input_image.pixels;
    match quantisation_method {
        QuantisationMethod::MedianCut => {
            let mut rgba_data: Vec<u32> = Vec::new();
            let mut i: usize = 0;
            while i < pixels.len()
                invariant
                    i <= pixels@.len(),
                    rgba_data@ == pixels@.take(i as int).map_values(|p: Rgb| packed_rgba(p)),
                decreases pixels@.len() - i,
            {
                rgba_data.push(pack_rgba(pixels[i]));
                assert(pixels@.take(i as int + 1) =~= pixels@.take(i as int).push(pixels@[i as int]));
                i = i + 1;
            }
            assert(pixels@.take(i as int) =~= pixels@);
            let nodes = median_cut(&rgba_data, number_of_colors as u32);
            proof {
                assert(rgba_data@.map_values(|p: u32| channels(p)) =~= pixels@.map_values(
                    |p: Rgb| rgb_triple(p),
                )) by {
                    assert forall|i: int| 0 <= i < pixels@.len() implies channels(
                        #[trigger] rgba_data@[i],
                    ) == rgb_triple(pixels@[i]) by {
                        lemma_packed_channels(pixels@[i]);
                    }
                }
            }
            let palette = mcq_color_nodes_to_exoquant_colors(nodes);
            proof {
                assert(palette@.map_values(|c: Color| color_triple(c)) =~= nodes@);
                if single_color(pixels@) {
                    lemma_single_color(pixels@);
                    let t = rgb_triple(pixels@[0]);
                    assert(nodes@.to_set().contains(nodes@[0]));
                    assert(nodes@ =~= seq![t]);
                    assert(palette@ =~= seq![opaque(pixels@[0].r, pixels@[0].g, pixels@[0].b)]);
                }
            }
            Ok(palette)
        },
        QuantisationMethod::KMeans => {
            let mut colors: Vec<Color> = Vec::new();
            let mut i: usize = 0;
            while i < pixels.len()
                invariant
                    i <= pixels@.len(),
                    colors@ == pixels@.take(i as int).map_values(|p: Rgb| opaque(p.r, p.g, p.b)),
                decreases pixels@.len() - i,
            {
                let p = pixels[i];
                colors.push(Color { r: p.r, g: p.g, b: p.b, a: DEFAULT_ALPHA_COLOR });
                assert(pixels@.take(i as int + 1) =~= pixels@.take(i as int).push(pixels@[i as int]));
                i = i + 1;
            }
            assert(pixels@.take(i as int) =~= pixels@);
            assert(colors@ == pixels@.map_values(|p: Rgb| opaque(p.r, p.g, p.b)));
            let palette = kmeans(&colors, number_of_colors as usize);
            Ok(with_full_alpha(palette))
        },
    }
}

/// Median cut is reproducible: the same pixels and the same count give the same
/// palette, entry for entry.
pub proof fn lemma_median_cut_deterministic(a: Bitmap, b: Bitmap, number_of_colors: u16)
    requires
        a.pixels@ == b.pixels@,
    ensures
        median_cut_palette(a.pixels@, number_of_colors) == median_cut_palette(
            b.pixels@,
            number_of_colors,
        ),
{
}

} // verus!
