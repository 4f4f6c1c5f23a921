//! The choices a caller makes: what to produce, how to quantize, how tall the palette is.
use vstd::prelude::*;

verus! {

/// Palette height used when the caller gives none.
pub const DEFAULT_PALETTE_HEIGHT: &'static str = "256";

/// Number of palette colors used when the caller gives none.
pub const DEFAULT_NUMBER_OF_COLORS: &'static str = "8";

/// Units of a percentage value per whole percent (a percentage is held in
/// millionths of a percent).
pub const PERCENT_SCALE: u32 = 1000000;

/// One hundred percent, in the units of a percentage value.
pub const FULL_PERCENTAGE: u32 = 100000000;

/// Smallest number of colors a palette can be asked for.
pub const MIN_NUMBER_OF_COLORS: u16 = 1;

/// Largest number of colors a palette can be asked for.
pub const MAX_NUMBER_OF_COLORS: u16 = 256;

/// What a run produces.
#[derive(Clone, Copy, Debug, PartialEq, Eq, Structural)]
pub enum OutputType {
    Json,
    JsonFile,
    OriginalImage,
    StandalonePalette,
}

/// The name of an output type on the command line.
pub open spec fn output_type_name(t: OutputType) -> Seq<char> {
    match t {
        OutputType::Json => "json"@,
        OutputType::JsonFile => "json-file"@,
        OutputType::OriginalImage => "original-image"@,
        OutputType::StandalonePalette => "standalone"@,
    }
}

impl OutputType {
    /// The name of this output type on the command line.
    pub fn as_str(&self) -> (r: &'static str)
        ensures
            r@ == output_type_name(*self),
    {
        match self {
            OutputType::Json => "json",
            OutputType::JsonFile => "json-file",
            OutputType::OriginalImage => "original-image",
            OutputType::StandalonePalette => "standalone",
        }
    }
}

/// The algorithm that reduces an image to a palette.
#[derive(Clone, Copy, Debug, PartialEq, Eq, Structural)]
pub enum QuantisationMethod {
    KMeans,
    MedianCut,
}

/// The name of a quantization method, as the command line and the palette
/// record spell it.
pub open spec fn method_name(m: QuantisationMethod) -> Seq<char> {
    match m {
        QuantisationMethod::KMeans => "k-means"@,
        QuantisationMethod::MedianCut => "median-cut"@,
    }
}

impl QuantisationMethod {
    /// The name of this method, as the command line and the palette record spell it.
    pub fn as_str(&self) -> (r: &'static str)
        ensures
            r@ == method_name(*self),
    {
        match self {
            QuantisationMethod::KMeans => "k-means",
            QuantisationMethod::MedianCut => "median-cut",
        }
    }
}

/// How tall the palette band is: a number of pixels, or a share of the source
/// image's height.
#[derive(Clone, Copy, Debug, PartialEq, Eq, Structural)]
pub enum PaletteHeight {
    Absolute(u32),
    /// In millionths of a percent: `50%` is `Percentage(50000000)`.
    Percentage(u32),
}

impl PaletteHeight {
    /// A percentage lies within 0% ..= 100%.
    pub open spec fn wf(&self) -> bool {
        match *self {
            PaletteHeight::Absolute(_) => true,
            PaletteHeight::Percentage(p) => p <= FULL_PERCENTAGE,
        }
    }
}

} // verus!
