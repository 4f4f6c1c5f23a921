use vstd::prelude::*;

verus! {

/// What can go wrong in the library.
#[derive(Clone, Debug, PartialEq, Eq)]
pub enum ColorBuddyError {
    InvalidPalette { message: String },
    Quantization(String),
    /// The requested number of colors lies outside 1 ..= 256.
    InvalidColorCount { count: usize },
    /// A palette height that does not parse, or a percentage above 100%.
    InvalidPaletteHeight(String),
}

} // verus!
