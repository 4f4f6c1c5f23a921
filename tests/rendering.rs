use color_buddy::{
    describe_palette, original_with_palette, process_pixels, resolve_palette_height,
    standalone_palette, swatch_row, Bitmap, Color, ColorBuddyError, OutputType, PaletteHeight,
    PaletteProduct, QuantisationMethod, RenderMode, Rgb, Timestamp,
};

const T0: Timestamp = Timestamp { secs: 1_700_000_000, nanos: 5 };

fn c(r: u8, g: u8, b: u8) -> Color {
    Color { r, g, b, a: 255 }
}

fn px(r: u8, g: u8, b: u8) -> Rgb {
    Rgb { r, g, b }
}

fn red_image() -> Bitmap {
    Bitmap::filled(10, 10, px(255, 0, 0))
}

#[test]
fn resolve_appended_and_standalone() {
    assert_eq!(resolve_palette_height(RenderMode::Appended, 10, PaletteHeight::Absolute(50)), 60);
    assert_eq!(
        resolve_palette_height(RenderMode::Appended, 10, PaletteHeight::Percentage(50_000_000)),
        15
    );
    assert_eq!(
        resolve_palette_height(RenderMode::Appended, 10, PaletteHeight::Percentage(33_330_000)),
        13
    );
    assert_eq!(resolve_palette_height(RenderMode::Standalone, 10, PaletteHeight::Absolute(50)), 50);
    assert_eq!(
        resolve_palette_height(RenderMode::Standalone, 10, PaletteHeight::Percentage(25_000_000)),
        3
    );
    assert_eq!(
        resolve_palette_height(RenderMode::Standalone, 7, PaletteHeight::Percentage(0)),
        0
    );
    assert_eq!(
        resolve_palette_height(RenderMode::Appended, u32::MAX, PaletteHeight::Absolute(u32::MAX)),
        2 * u32::MAX as u64
    );
}

#[test]
fn swatch_layout_with_remainder() {
    let palette = vec![c(1, 1, 1), c(2, 2, 2), c(3, 3, 3)];
    let row = swatch_row(&palette, 3, 10);
    assert_eq!(row.len(), 10);
    for x in 0..3 {
        assert_eq!(row[x], px(1, 1, 1));
    }
    for x in 3..6 {
        assert_eq!(row[x], px(2, 2, 2));
    }
    for x in 6..9 {
        assert_eq!(row[x], px(3, 3, 3));
    }
    assert_eq!(row[9], px(0, 0, 0));
}

#[test]
fn swatch_layout_exact_division() {
    let palette = vec![c(10, 0, 0), c(0, 20, 0), c(0, 0, 30), c(40, 40, 40)];
    let row = swatch_row(&palette, 4, 300);
    assert_eq!(row.len(), 300);
    for x in 0..300 {
        assert_eq!(row[x], Rgb { r: palette[x / 75].r, g: palette[x / 75].g, b: palette[x / 75].b });
    }
}

#[test]
fn swatch_layout_short_palette_leaves_columns_blank() {
    // Two colors found out of four requested: swatches stay 25 wide.
    let palette = vec![c(9, 9, 9), c(8, 8, 8)];
    let row = swatch_row(&palette, 4, 100);
    assert_eq!(row[0], px(9, 9, 9));
    assert_eq!(row[49], px(8, 8, 8));
    assert_eq!(row[50], px(0, 0, 0));
    assert_eq!(row[99], px(0, 0, 0));
}

#[test]
fn appended_strip_copies_source_and_paints_band() {
    let mut pixels = Vec::new();
    for i in 0..6u8 {
        pixels.push(px(i, i, i));
    }
    let image = Bitmap::from_pixels(3, 2, pixels).unwrap();
    let out = original_with_palette(&image, &vec![c(50, 60, 70)], 1, 5);
    assert_eq!((out.width, out.height), (3, 5));
    assert_eq!(out.pixels.len(), 15);
    for y in 0..2 {
        for x in 0..3 {
            assert_eq!(out.get_pixel(x, y), image.get_pixel(x, y));
        }
    }
    for y in 2..5 {
        for x in 0..3 {
            assert_eq!(out.get_pixel(x, y), px(50, 60, 70));
        }
    }
}

#[test]
fn standalone_palette_fills_every_row() {
    let out = standalone_palette(&vec![c(1, 2, 3), c(4, 5, 6)], 5, 3, 2);
    assert_eq!((out.width, out.height), (5, 3));
    for y in 0..3 {
        assert_eq!(out.get_pixel(0, y), px(1, 2, 3));
        assert_eq!(out.get_pixel(1, y), px(1, 2, 3));
        assert_eq!(out.get_pixel(2, y), px(4, 5, 6));
        assert_eq!(out.get_pixel(3, y), px(4, 5, 6));
        assert_eq!(out.get_pixel(4, y), px(0, 0, 0));
    }
}

fn image_of(r: Result<(Vec<Color>, PaletteProduct), ColorBuddyError>) -> Bitmap {
    match r.unwrap().1 {
        PaletteProduct::Image(b) => b,
        PaletteProduct::Record(_) => panic!("expected an image"),
    }
}

#[test]
fn test_total_height_calculation_absolute() {
    let out = image_of(process_pixels(
        &red_image(),
        4,
        QuantisationMethod::KMeans,
        PaletteHeight::Absolute(50),
        None,
        OutputType::OriginalImage,
        T0,
    ));
    assert_eq!(out.height, 60);
}

#[test]
fn test_total_height_calculation_percentage() {
    let out = image_of(process_pixels(
        &red_image(),
        4,
        QuantisationMethod::KMeans,
        PaletteHeight::Percentage(50_000_000),
        None,
        OutputType::OriginalImage,
        T0,
    ));
    assert_eq!(out.height, 15);
}

#[test]
fn test_percentage_rounding() {
    let out = image_of(process_pixels(
        &red_image(),
        4,
        QuantisationMethod::KMeans,
        PaletteHeight::Percentage(33_330_000),
        None,
        OutputType::OriginalImage,
        T0,
    ));
    assert_eq!(out.height, 13);
}

#[test]
fn test_standalone_palette_with_custom_width() {
    let out = image_of(process_pixels(
        &red_image(),
        4,
        QuantisationMethod::KMeans,
        PaletteHeight::Absolute(100),
        Some(300),
        OutputType::StandalonePalette,
        T0,
    ));
    assert_eq!(out.width, 300);
    assert_eq!(out.height, 100);
}

#[test]
fn test_standalone_palette_default_width() {
    let out = image_of(process_pixels(
        &red_image(),
        4,
        QuantisationMethod::KMeans,
        PaletteHeight::Absolute(100),
        None,
        OutputType::StandalonePalette,
        T0,
    ));
    assert_eq!(out.width, 10);
}

#[test]
fn test_large_number_of_colors() {
    let result = process_pixels(
        &red_image(),
        1000,
        QuantisationMethod::KMeans,
        PaletteHeight::Absolute(50),
        None,
        OutputType::OriginalImage,
        T0,
    );
    assert!(result.is_ok() || result.is_err());
    assert!(matches!(result, Err(ColorBuddyError::InvalidColorCount { count: 1000 })));
}

#[test]
fn test_different_quantisation_methods() {
    for method in [QuantisationMethod::KMeans, QuantisationMethod::MedianCut] {
        let result = process_pixels(
            &red_image(),
            4,
            method,
            PaletteHeight::Absolute(50),
            None,
            OutputType::OriginalImage,
            T0,
        );
        assert!(result.is_ok(), "Method {:?} failed", method);
    }
}

#[test]
fn test_process_image_json_output() {
    let result = process_pixels(
        &red_image(),
        8,
        QuantisationMethod::KMeans,
        PaletteHeight::Absolute(100),
        None,
        OutputType::Json,
        T0,
    );
    assert!(result.is_ok());
    match result.unwrap() {
        (p, PaletteProduct::Record(rec)) => {
            assert_eq!(rec.metadata.requested_colors, 8);
            assert_eq!(rec.metadata.extracted_colors as usize, p.len());
            assert_eq!(rec.metadata.quantization_method, "k-means");
        }
        _ => panic!("expected a record"),
    }
}

#[test]
fn too_tall_output_is_refused() {
    let result = process_pixels(
        &red_image(),
        2,
        QuantisationMethod::MedianCut,
        PaletteHeight::Absolute(u32::MAX),
        None,
        OutputType::OriginalImage,
        T0,
    );
    assert!(matches!(result, Err(ColorBuddyError::InvalidPaletteHeight(_))));
}

#[test]
fn solid_gray_end_to_end() {
    let image = Bitmap::filled(10, 10, px(128, 128, 128));
    let (palette, product) = process_pixels(
        &image,
        1,
        QuantisationMethod::MedianCut,
        PaletteHeight::Absolute(50),
        None,
        OutputType::OriginalImage,
        T0,
    )
    .unwrap();
    assert_eq!(palette, vec![c(128, 128, 128)]);
    let record = describe_palette(&palette, QuantisationMethod::MedianCut, 1, (10, 10), T0);
    assert_eq!(record.colors[0].hex, "#808080");
    let out = match product {
        PaletteProduct::Image(b) => b,
        _ => panic!("expected an image"),
    };
    assert_eq!((out.width, out.height), (10, 60));
    for y in 10..60 {
        for x in 0..10 {
            assert_eq!(out.get_pixel(x, y), px(128, 128, 128));
        }
    }
}

#[test]
fn solid_gray_kmeans_palette_has_one_opaque_color() {
    let image = Bitmap::filled(10, 10, px(128, 128, 128));
    let (palette, _) = process_pixels(
        &image,
        1,
        QuantisationMethod::KMeans,
        PaletteHeight::Absolute(50),
        None,
        OutputType::OriginalImage,
        T0,
    )
    .unwrap();
    // exoquant's color space does not map this gray back onto itself exactly.
    assert_eq!(palette.len(), 1);
    assert_eq!(palette[0].a, 255);
    assert_eq!(palette[0].r, palette[0].g);
    assert_eq!(palette[0].g, palette[0].b);
}

#[test]
fn record_describes_each_color() {
    let palette = vec![c(255, 128, 64), Color { r: 0, g: 0, b: 0, a: 7 }];
    let rec = describe_palette(&palette, QuantisationMethod::MedianCut, 8, (1920, 1080), T0);
    assert_eq!(rec.metadata.requested_colors, 8);
    assert_eq!(rec.metadata.extracted_colors, 2);
    assert_eq!(rec.metadata.quantization_method, "median-cut");
    assert_eq!(rec.metadata.image_dimensions.width, 1920);
    assert_eq!(rec.metadata.image_dimensions.height, 1080);
    assert_eq!(rec.metadata.generated_at, T0);
    assert_eq!(rec.colors[0].hex, "#ff8040");
    assert_eq!((rec.colors[1].r, rec.colors[1].a), (0, 7));
    assert_eq!(rec.colors[1].hex, "#000000");
}

#[test]
fn standalone_ten_wide_three_colors_leaves_last_column() {
    let palette = vec![c(1, 1, 1), c(2, 2, 2), c(3, 3, 3)];
    let out = standalone_palette(&palette, 10, 4, 3);
    for y in 0..4 {
        for x in 0..10u32 {
            let expected = if x < 9 {
                let q = palette[(x / 3) as usize];
                px(q.r, q.g, q.b)
            } else {
                px(0, 0, 0)
            };
            assert_eq!(out.get_pixel(x, y), expected);
        }
    }
}

#[test]
fn standalone_three_hundred_wide_four_colors_paints_every_column() {
    let palette = vec![c(10, 0, 0), c(0, 20, 0), c(0, 0, 30), c(40, 40, 40)];
    let out = standalone_palette(&palette, 300, 2, 4);
    for y in 0..2 {
        for x in 0..300u32 {
            let q = palette[(x / 75) as usize];
            assert_eq!(out.get_pixel(x, y), px(q.r, q.g, q.b));
        }
    }
}

#[test]
fn appended_ten_wide_three_colors_band_layout() {
    let image = Bitmap::filled(10, 2, px(200, 200, 200));
    let palette = vec![c(1, 1, 1), c(2, 2, 2), c(3, 3, 3)];
    let out = original_with_palette(&image, &palette, 3, 5);
    for y in 2..5 {
        for x in 0..10u32 {
            let expected = if x < 9 {
                let q = palette[(x / 3) as usize];
                px(q.r, q.g, q.b)
            } else {
                px(0, 0, 0)
            };
            assert_eq!(out.get_pixel(x, y), expected);
        }
    }
}
