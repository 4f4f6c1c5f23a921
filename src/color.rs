use vstd::prelude::*;

verus! {

/// Channel value of a fully opaque pixel.
pub const DEFAULT_ALPHA_COLOR: u8 = 0xff;

/// One pixel of an opaque image.
#[derive(Clone, Copy, Debug, PartialEq, Eq, Structural)]
pub struct Rgb {
    pub r: u8,
    pub g: u8,
    pub b: u8,
}

/// A palette entry: three color channels and an alpha channel.
#[derive(Clone, Copy, Debug, PartialEq, Eq, Structural)]
pub struct Color {
    pub r: u8,
    pub g: u8,
    pub b: u8,
    pub a: u8,
}

/// The fully opaque palette entry with the given channels.
pub open spec fn opaque(r: u8, g: u8, b: u8) -> Color {
    Color { r, g, b, a: DEFAULT_ALPHA_COLOR }
}

/// The pixel that a palette entry paints (its alpha is dropped).
pub open spec fn rgb_of(c: Color) -> Rgb {
    Rgb { r: c.r, g: c.g, b: c.b }
}

} // verus!
