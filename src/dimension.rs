//! Turns a palette height into the pixel height of the image to produce.
use vstd::prelude::*;
use crate::config::{PaletteHeight, FULL_PERCENTAGE};

verus! {

/// Where the palette band goes.
#[derive(Clone, Copy, Debug, PartialEq, Eq, Structural)]
pub enum RenderMode {
    /// Below a copy of the source image.
    Appended,
    /// In an image of its own.
    Standalone,
}

/// `n / d` rounded to the nearest integer, halves away from zero (`n`, `d`
/// not negative, `d` positive).
pub open spec fn rounded_div(n: int, d: int) -> int {
    (2 * n + d) / (2 * d)
}

/// Rows of the palette band over a source `source_height` rows tall: an
/// absolute height as it stands, a percentage `p` as `p / 100 * source_height`
/// rounded to the nearest row.
pub open spec fn band_height(source_height: int, spec: PaletteHeight) -> int {
    match spec {
        PaletteHeight::Absolute(a) => a as int,
        PaletteHeight::Percentage(p) => rounded_div(p * source_height, FULL_PERCENTAGE as int),
    }
}

/// Rows of the image to produce: the source and the band below it, or the band alone.
pub open spec fn resolved_height(mode: RenderMode, source_height: int, spec: PaletteHeight) -> int {
    match mode {
        RenderMode::Appended => source_height + band_height(source_height, spec),
        RenderMode::Standalone => band_height(source_height, spec),
    }
}

/// The pixel height to allocate for the output: `source_height` plus the band
/// when appending, the band alone otherwise.
pub fn resolve_palette_height(mode: RenderMode, source_height: u32, spec: PaletteHeight) -> (r: u64)
    requires
        spec.wf(),
    ensures
        r == resolved_height(mode, source_height as int, spec),
{
    let band: u64 = match spec {
        PaletteHeight::Absolute(a) => a as u64,
        PaletteHeight::Percentage(p) => {
            assert(p as int * source_height as int <= FULL_PERCENTAGE as int * u32::MAX as int)
                by (nonlinear_arith)
                requires
                    p <= FULL_PERCENTAGE,
                    source_height <= u32::MAX,
            ;
            let product: u64 = p as u64 * source_height as u64;
            assert(rounded_div(product as int, FULL_PERCENTAGE as int) <= source_height) by {
                assert((2 * product + FULL_PERCENTAGE) / (2 * FULL_PERCENTAGE as int) <= source_height)
                    by (nonlinear_arith)
                    requires
                        product == p as int * source_height as int,
                        p <= FULL_PERCENTAGE,
                        FULL_PERCENTAGE > 0,
                        source_height >= 0,
                ;
            }
            (2 * product + FULL_PERCENTAGE as u64) / (2 * FULL_PERCENTAGE as u64)
        },
    };
    match mode {
        RenderMode::Appended => source_height as u64 + band,
        RenderMode::Standalone => band,
    }
}

} // verus!
