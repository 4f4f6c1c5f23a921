//! Extracts a bounded palette of representative colors from a raster image and
//! lays that palette out as pixel swatches or as a descriptive record.

pub mod bitmap;
pub mod color;
pub mod config;
pub mod dimension;
pub mod error;
pub mod extract;
pub mod height;
pub mod help;
pub mod hex;
pub mod output_path;
pub mod pipeline;
pub mod record;
pub mod render;

pub use bitmap::Bitmap;
pub use color::{Color, Rgb, DEFAULT_ALPHA_COLOR};
pub use config::{OutputType, PaletteHeight, QuantisationMethod};
pub use dimension::{resolve_palette_height, RenderMode};
pub use error::ColorBuddyError;
pub use extract::{extract_palette, mcq_color_nodes_to_exoquant_colors};
pub use height::palette_height_parser;
pub use help::long_about;
pub use hex::{hex_to_rgb, rgb_to_hex};
pub use output_path::{output_file_name, palette_file_name};
pub use pipeline::{process_pixels, PaletteProduct};
pub use record::{describe_palette, ColorInfo, ImageDimensions, PaletteMetadata, PaletteOutput, Timestamp};
pub use render::{original_with_palette, standalone_palette, swatch_row};
