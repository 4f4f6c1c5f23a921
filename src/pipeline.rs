//! One image, start to finish: the palette, then the image or record asked for.
use vstd::prelude::*;
use crate::bitmap::{lemma_u32_product_fits, Bitmap};
use crate::color::Color;
use crate::config::{OutputType, PaletteHeight, QuantisationMethod};
use crate::dimension::{resolve_palette_height, resolved_height, RenderMode};
use crate::error::ColorBuddyError;
use crate::extract::{extract_palette, is_extracted_palette, valid_color_count};
use crate::record::{describe_palette, is_record_of, PaletteOutput, Timestamp};
use crate::render::{band_pixel, original_with_palette, standalone_palette};

verus! {

/// What a run produces for one image.
#[derive(Debug)]
pub enum PaletteProduct {
    /// Pixels to encode and save.
    Image(Bitmap),
    /// A record to serialize.
    Record(PaletteOutput),
}

/// Width of the image that an output type produces.
pub open spec fn output_width(input_image: Bitmap, palette_width: Option<u32>, output_type: OutputType) -> int {
    match (output_type, palette_width) {
        (OutputType::StandalonePalette, Some(w)) => w as int,
        _ => input_image.width as int,
    }
}

/// Height of the image that an output type produces.
pub open spec fn output_height(input_image: Bitmap, palette_height: PaletteHeight, output_type: OutputType) -> int {
    match output_type {
        OutputType::StandalonePalette => resolved_height(
            RenderMode::Standalone,
            input_image.height as int,
            palette_height,
        ),
        _ => resolved_height(RenderMode::Appended, input_image.height as int, palette_height),
    }
}

/// Whether the image to produce can be held: its height fits a `u32` and its
/// pixels fit memory's index range.
pub open spec fn output_fits(
    input_image: Bitmap,
    palette_height: PaletteHeight,
    palette_width: Option<u32>,
    output_type: OutputType,
) -> bool {
    match output_type {
        OutputType::Json | OutputType::JsonFile => true,
        _ => {
            let h = output_height(input_image, palette_height, output_type);
            h <= u32::MAX && output_width(input_image, palette_width, output_type) * h
                <= usize::MAX
        },
    }
}

/// Whether `product` is what `output_type` asks for, for this image and palette.
pub open spec fn is_product_of(
    product: PaletteProduct,
    input_image: Bitmap,
    palette: Seq<Color>,
    number_of_colors: u16,
    quantisation_method: QuantisationMethod,
    palette_height: PaletteHeight,
    palette_width: Option<u32>,
    output_type: OutputType,
    generated_at: Timestamp,
) -> bool {
    match output_type {
        OutputType::Json | OutputType::JsonFile => product matches PaletteProduct::Record(rec)
            && is_record_of(
            rec,
            palette,
            quantisation_method,
            number_of_colors,
            (input_image.width, input_image.height),
            generated_at,
        ),
        OutputType::OriginalImage => product matches PaletteProduct::Image(b) && b.wf() && b.width
            == input_image.width && b.height == output_height(
            input_image,
            palette_height,
            output_type,
        ) && forall|x: int, y: int|
            0 <= x < b.width && 0 <= y < b.height ==> #[trigger] b.pixel_at(x, y) == if y
                < input_image.height {
                input_image.pixel_at(x, y)
            } else {
                band_pixel(palette, number_of_colors as int, b.width as int, x)
            },
        OutputType::StandalonePalette => product matches PaletteProduct::Image(b) && b.wf()
            && b.width == output_width(input_image, palette_width, output_type) && b.height
            == output_height(input_image, palette_height, output_type) && forall|x: int, y: int|
            0 <= x < b.width && 0 <= y < b.height ==> #[trigger] b.pixel_at(x, y) == band_pixel(
                palette,
                number_of_colors as int,
                b.width as int,
                x,
            ),
    }
}

/// The error for an output image too large to hold.
fn too_large() -> (e: ColorBuddyError)
    ensures
        e is InvalidPaletteHeight,
{
    ColorBuddyError::InvalidPaletteHeight(String::from_str("The output image is too large"))
}

/// Extracts the palette of `input_image` and makes what `output_type` asks
/// for: the image with the palette band below it, the palette as an image of
/// its own (`palette_width` wide, else as wide as the source), or the record
/// stamped with `generated_at`.
///
/// Fails with `InvalidColorCount` for a count outside 1 ..= 256, and with
/// `InvalidPaletteHeight` where the image to make is too large to hold.
pub fn process_pixels(
    input_image: &Bitmap,
    number_of_colors: u16,
    quantisation_method: QuantisationMethod,
    palette_height: PaletteHeight,
    palette_width: Option<u32>,
    output_type: OutputType,
    generated_at: Timestamp,
) -> (r: Result<(Vec<Color>, PaletteProduct), ColorBuddyError>)
    requires
        input_image.wf(),
        palette_height.wf(),
    ensures
        !valid_color_count(number_of_colors as int) ==> r == Err::<
            (Vec<Color>, PaletteProduct),
            ColorBuddyError,
        >(ColorBuddyError::InvalidColorCount { count: number_of_colors as usize }),
        valid_color_count(number_of_colors as int) ==> (r is Ok <==> output_fits(
            *input_image,
            palette_height,
            palette_width,
            output_type,
        )),
        valid_color_count(number_of_colors as int) && r is Err ==> r->Err_0 is InvalidPaletteHeight,
        r matches Ok((p, product)) ==> is_extracted_palette(
            input_image.pixels@,
            number_of_colors,
            quantisation_method,
            p@,
        ) && is_product_of(
            product,
            *input_image,
            p@,
            number_of_colors,
            quantisation_method,
            palette_height,
            palette_width,
            output_type,
            generated_at,
        ),
{
    let color_palette = match extract_palette(input_image, number_of_colors, quantisation_method) {
        Ok(p) => p,
        Err(e) => return Err(e),
    };
    match output_type {
        OutputType::Json | OutputType::JsonFile => {
            let record = describe_palette(
                &color_palette,
                quantisation_method,
                number_of_colors,
                (input_image.width, input_image.height),
                generated_at,
            );
            Ok((color_palette, PaletteProduct::Record(record)))
        },
        OutputType::OriginalImage | OutputType::StandalonePalette => {
            let mode = if output_type == OutputType::OriginalImage {
                RenderMode::Appended
            } else {
                RenderMode::Standalone
            };
            let total_height = resolve_palette_height(mode, input_image.height, palette_height);
            let width: u32 = match (output_type, palette_width) {
                (OutputType::StandalonePalette, Some(w)) => w,
                _ => input_image.width,
            };
            if total_height > u32::MAX as u64 {
                return Err(too_large());
            }
            let total: u32 = total_height as u32;
            proof {
                lemma_u32_product_fits(width, total);
            }
            if (width as u64) * (total as u64) > usize::MAX as u64 {
                return Err(too_large());
            }
            let image = if output_type == OutputType::OriginalImage {
                original_with_palette(input_image, &color_palette, number_of_colors, total)
            } else {
                standalone_palette(&color_palette, width, total, number_of_colors)
            };
            Ok((color_palette, PaletteProduct::Image(image)))
        },
    }
}

} // verus!
