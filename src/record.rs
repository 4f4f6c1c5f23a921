//! The palette as a plain record: metadata and one entry per color.
use vstd::prelude::*;
use crate::color::Color;
use crate::config::{method_name, QuantisationMethod};
use crate::hex::{hex_string, rgb_to_hex};

verus! {

/// A palette color with its `#rrggbb` text.
#[derive(Clone, Debug, PartialEq, Eq)]
pub struct ColorInfo {
    pub r: u8,
    pub g: u8,
    pub b: u8,
    pub a: u8,
    /// Lowercase `#rrggbb`, e.g. `#ff8040`.
    pub hex: String,
}

/// Width and height of the source image.
#[derive(Clone, Copy, Debug, PartialEq, Eq, Structural)]
pub struct ImageDimensions {
    pub width: u32,
    pub height: u32,
}

/// A moment in UTC: whole seconds since 1970-01-01T00:00:00Z and the
/// nanoseconds past them.
#[derive(Clone, Copy, Debug, PartialEq, Eq, Structural)]
pub struct Timestamp {
    pub secs: i64,
    pub nanos: u32,
}

/// How a palette was made.
#[derive(Clone, Debug, PartialEq, Eq)]
pub struct PaletteMetadata {
    pub requested_colors: u16,
    pub extracted_colors: u16,
    pub quantization_method: String,
    pub image_dimensions: ImageDimensions,
    pub generated_at: Timestamp,
}

/// A palette with its metadata.
#[derive(Clone, Debug, PartialEq, Eq)]
pub struct PaletteOutput {
    pub metadata: PaletteMetadata,
    pub colors: Vec<ColorInfo>,
}

/// Whether `info` describes `c`: the same four channels and the `#rrggbb` text of its color.
pub open spec fn describes(info: ColorInfo, c: Color) -> bool {
    &&& info.r == c.r
    &&& info.g == c.g
    &&& info.b == c.b
    &&& info.a == c.a
    &&& info.hex@ == hex_string(c.r, c.g, c.b)
}

impl ColorInfo {
    /// The record entry of one palette color.
    pub fn from_color(color: &Color) -> (r: ColorInfo)
        ensures
            describes(r, *color),
    {
        ColorInfo {
            r: color.r,
            g: color.g,
            b: color.b,
            a: color.a,
            hex: rgb_to_hex(color.r, color.g, color.b),
        }
    }
}

impl PaletteMetadata {
    /// Metadata stamped with `generated_at`, the time the caller read from its clock.
    pub fn new(
        requested_colors: u16,
        extracted_colors: u16,
        quantization_method: String,
        image_dimensions: ImageDimensions,
        generated_at: Timestamp,
    ) -> (r: PaletteMetadata)
        ensures
            r.requested_colors == requested_colors,
            r.extracted_colors == extracted_colors,
            r.quantization_method@ == quantization_method@,
            r.image_dimensions == image_dimensions,
            r.generated_at == generated_at,
    {
        PaletteMetadata {
            requested_colors,
            extracted_colors,
            quantization_method,
            image_dimensions,
            generated_at,
        }
    }
}

/// Whether `r` is the record of `palette`: the requested count, the number of
/// colors found, the method's name, the source's size and the time it was
/// made, then one entry per palette color in palette order.
pub open spec fn is_record_of(
    r: PaletteOutput,
    palette: Seq<Color>,
    quantization_method: QuantisationMethod,
    requested_colors: u16,
    image_dimensions: (u32, u32),
    generated_at: Timestamp,
) -> bool {
    &&& r.metadata.requested_colors == requested_colors
    &&& r.metadata.generated_at == generated_at
    &&& r.metadata.extracted_colors == palette.len()
    &&& r.metadata.quantization_method@ == method_name(quantization_method)
    &&& r.metadata.image_dimensions == (ImageDimensions {
        width: image_dimensions.0,
        height: image_dimensions.1,
    })
    &&& r.colors@.len() == palette.len()
    &&& forall|i: int| 0 <= i < r.colors@.len() ==> describes(#[trigger] r.colors@[i], palette[i])
}

/// The record of a palette, made at `generated_at`: the requested count, the
/// number of colors found, the method's name and the source's size, then one
/// entry per palette color in palette order.
pub fn describe_palette(
    color_palette: &Vec<Color>,
    quantization_method: QuantisationMethod,
    requested_colors: u16,
    image_dimensions: (u32, u32),
    generated_at: Timestamp,
) -> (r: PaletteOutput)
    requires
        color_palette@.len() <= u16::MAX,
    ensures
        is_record_of(
            r,
            color_palette@,
            quantization_method,
            requested_colors,
            image_dimensions,
            generated_at,
        ),
{
    let mut colors: Vec<ColorInfo> = Vec::new();
    let mut i: usize = 0;
    while i < color_palette.len()
        invariant
            i <= color_palette@.len(),
            colors@.len() == i,
            forall|j: int| 0 <= j < i ==> describes(#[trigger] colors@[j], color_palette@[j]),
        decreases color_palette@.len() - i,
    {
        colors.push(ColorInfo::from_color(&color_palette[i]));
        i = i + 1;
    }
    let metadata = PaletteMetadata::new(
        requested_colors,
        colors.len() as u16,
        String::from_str(quantization_method.as_str()),
        ImageDimensions { width: image_dimensions.0, height: image_dimensions.1 },
        generated_at,
    );
    PaletteOutput { metadata, colors }
}

} // verus!
