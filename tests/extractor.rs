use color_buddy::{
    extract_palette, mcq_color_nodes_to_exoquant_colors, Bitmap, Color, ColorBuddyError,
    QuantisationMethod, Rgb, DEFAULT_ALPHA_COLOR,
};

fn rgb(r: u8, g: u8, b: u8) -> Rgb {
    Rgb { r, g, b }
}

// An image whose pixel (x, y) has color number (x + y) mod the number of colors.
fn create_test_image(width: u32, height: u32, colors: &[Rgb]) -> Bitmap {
    let mut pixels = Vec::new();
    for y in 0..height {
        for x in 0..width {
            pixels.push(colors[((x + y) as usize) % colors.len()]);
        }
    }
    Bitmap::from_pixels(width, height, pixels).unwrap()
}

fn create_solid_image(width: u32, height: u32, color: Rgb) -> Bitmap {
    Bitmap::filled(width, height, color)
}

#[test]
fn test_mcq_color_nodes_to_exoquant_colors() {
    let mcq_colors = vec![(32, 64, 128), (133, 78, 232)];

    let result = mcq_color_nodes_to_exoquant_colors(mcq_colors);

    assert_eq!(result.len(), 2);

    assert_eq!(result.get(0).unwrap().r, 32);
    assert_eq!(result.get(0).unwrap().g, 64);
    assert_eq!(result.get(0).unwrap().b, 128);

    assert_eq!(result.get(1).unwrap().r, 133);
    assert_eq!(result.get(1).unwrap().g, 78);
    assert_eq!(result.get(1).unwrap().b, 232);
    assert_eq!(result[1].a, DEFAULT_ALPHA_COLOR);
}

#[test]
fn test_extract_palette_median_cut_basic() {
    let colors = vec![rgb(255, 0, 0), rgb(0, 255, 0), rgb(0, 0, 255)];
    let image = create_test_image(10, 10, &colors);

    let result = extract_palette(&image, 3, QuantisationMethod::MedianCut);

    assert!(result.is_ok());
    let palette = result.unwrap();
    assert!(palette.len() <= 3);
    assert!(!palette.is_empty());
}

#[test]
fn test_extract_palette_kmeans_basic() {
    let colors = vec![rgb(255, 0, 0), rgb(0, 255, 0), rgb(0, 0, 255)];
    let image = create_test_image(10, 10, &colors);

    let result = extract_palette(&image, 3, QuantisationMethod::KMeans);

    assert!(result.is_ok());
    let palette = result.unwrap();
    assert_eq!(palette.len(), 3);
}

#[test]
fn test_extract_palette_single_color() {
    let image = create_solid_image(5, 5, rgb(128, 128, 128));

    let result_median = extract_palette(&image, 1, QuantisationMethod::MedianCut);
    let result_kmeans = extract_palette(&image, 1, QuantisationMethod::KMeans);

    assert!(result_median.is_ok());
    assert!(result_kmeans.is_ok());

    let palette_median = result_median.unwrap();
    let palette_kmeans = result_kmeans.unwrap();

    assert_eq!(palette_median.len(), 1);
    assert_eq!(palette_kmeans.len(), 1);

    // Check that the extracted color is what we expect
    assert_eq!(palette_median[0].r, 128);
    assert_eq!(palette_median[0].g, 128);
    assert_eq!(palette_median[0].b, 128);
}

#[test]
fn test_extract_palette_complex_image() {
    let colors = vec![
        rgb(255, 0, 0),
        rgb(255, 128, 0),
        rgb(255, 255, 0),
        rgb(128, 255, 0),
        rgb(0, 255, 0),
        rgb(0, 255, 128),
        rgb(0, 255, 255),
        rgb(0, 128, 255),
        rgb(0, 0, 255),
        rgb(128, 0, 255),
        rgb(255, 0, 255),
        rgb(255, 0, 128),
    ];
    let image = create_test_image(20, 20, &colors);

    let result_median = extract_palette(&image, 8, QuantisationMethod::MedianCut);
    let result_kmeans = extract_palette(&image, 8, QuantisationMethod::KMeans);

    assert!(result_median.is_ok());
    assert!(result_kmeans.is_ok());

    let palette_median = result_median.unwrap();
    let palette_kmeans = result_kmeans.unwrap();

    assert!(palette_median.len() <= 8);
    assert_eq!(palette_kmeans.len(), 8);

    for color in &palette_median {
        assert_eq!(color.a, DEFAULT_ALPHA_COLOR);
    }
    for color in &palette_kmeans {
        assert_eq!(color.a, DEFAULT_ALPHA_COLOR);
    }
}

#[test]
fn test_extract_palette_small_image() {
    let image = create_solid_image(1, 1, rgb(42, 142, 242));

    let result_median = extract_palette(&image, 1, QuantisationMethod::MedianCut);
    let result_kmeans = extract_palette(&image, 1, QuantisationMethod::KMeans);

    assert!(result_median.is_ok());
    assert!(result_kmeans.is_ok());

    let palette_median = result_median.unwrap();
    let palette_kmeans = result_kmeans.unwrap();

    assert_eq!(palette_median.len(), 1);
    assert_eq!(palette_kmeans.len(), 1);

    assert_eq!(palette_median[0].r, 42);
    assert_eq!(palette_median[0].g, 142);
    assert_eq!(palette_median[0].b, 242);
}

#[test]
fn test_extract_palette_methods_consistency() {
    let colors = vec![rgb(255, 0, 0), rgb(0, 255, 0), rgb(0, 0, 255), rgb(255, 255, 0)];
    let image = create_test_image(16, 16, &colors);

    let result_median = extract_palette(&image, 4, QuantisationMethod::MedianCut);
    let result_kmeans = extract_palette(&image, 4, QuantisationMethod::KMeans);

    assert!(result_median.is_ok());
    assert!(result_kmeans.is_ok());

    let palette_median = result_median.unwrap();
    let palette_kmeans = result_kmeans.unwrap();

    assert!(palette_median.len() <= 4);
    assert_eq!(palette_kmeans.len(), 4);
}

#[test]
fn kmeans_gives_exactly_n_colors_for_every_count() {
    let image = create_test_image(7, 5, &[rgb(10, 20, 30), rgb(200, 100, 0)]);
    for n in [1u16, 2, 3, 17, 64, 65, 256] {
        let palette = extract_palette(&image, n, QuantisationMethod::KMeans).unwrap();
        assert_eq!(palette.len(), n as usize);
        assert!(palette.iter().all(|c| c.a == DEFAULT_ALPHA_COLOR));
    }
}

#[test]
fn median_cut_never_exceeds_n() {
    let colors: Vec<Rgb> = (0..40u8).map(|i| rgb(i * 6, 255 - i * 3, i)).collect();
    let image = create_test_image(20, 20, &colors);
    for n in [1u16, 2, 5, 8, 39, 40, 41, 256] {
        let palette = extract_palette(&image, n, QuantisationMethod::MedianCut).unwrap();
        assert!(palette.len() <= n as usize);
        assert!(!palette.is_empty());
    }
}

#[test]
fn median_cut_returns_all_colors_of_a_small_image() {
    let image = create_test_image(4, 4, &[rgb(1, 2, 3), rgb(200, 100, 50)]);
    let palette = extract_palette(&image, 8, QuantisationMethod::MedianCut).unwrap();
    assert_eq!(palette.len(), 2);
    assert!(palette.contains(&Color { r: 1, g: 2, b: 3, a: 255 }));
    assert!(palette.contains(&Color { r: 200, g: 100, b: 50, a: 255 }));
}

#[test]
fn median_cut_may_return_fewer_colors_than_distinct_ones() {
    // Four distinct colors, N = 3: the first cut leaves two boxes that
    // cannot be cut further.
    let pixels = vec![rgb(0, 0, 0), rgb(0, 0, 1), rgb(0, 0, 2), rgb(0, 0, 2), rgb(0, 0, 3)];
    let image = Bitmap::from_pixels(5, 1, pixels).unwrap();
    let palette = extract_palette(&image, 3, QuantisationMethod::MedianCut).unwrap();
    assert_eq!(palette.len(), 2);
}

#[test]
fn quantizers_are_repeatable() {
    let colors: Vec<Rgb> = (0..12u8).map(|i| rgb(i * 20, 100, 255 - i * 20)).collect();
    let image = create_test_image(9, 9, &colors);
    let a = extract_palette(&image, 5, QuantisationMethod::MedianCut).unwrap();
    let b = extract_palette(&image, 5, QuantisationMethod::MedianCut).unwrap();
    assert_eq!(a, b);
}

#[test]
fn invalid_color_count_is_refused() {
    let image = create_solid_image(2, 2, rgb(1, 1, 1));
    for n in [0u16, 257, 1000] {
        for m in [QuantisationMethod::KMeans, QuantisationMethod::MedianCut] {
            assert_eq!(
                extract_palette(&image, n, m),
                Err(ColorBuddyError::InvalidColorCount { count: n as usize })
            );
        }
    }
}

#[test]
fn single_color_images_give_one_color_for_n_one() {
    for (w, h) in [(1u32, 1u32), (3, 1), (10, 10)] {
        let image = create_solid_image(w, h, rgb(7, 8, 9));
        let m = extract_palette(&image, 1, QuantisationMethod::MedianCut).unwrap();
        assert_eq!(m, vec![Color { r: 7, g: 8, b: 9, a: 255 }]);
        let k = extract_palette(&image, 1, QuantisationMethod::KMeans).unwrap();
        assert_eq!(k.len(), 1);
    }
}

#[test]
fn empty_image_is_handled() {
    let image = Bitmap::from_pixels(0, 0, Vec::new()).unwrap();
    assert_eq!(extract_palette(&image, 4, QuantisationMethod::MedianCut).unwrap().len(), 0);
    assert_eq!(extract_palette(&image, 4, QuantisationMethod::KMeans).unwrap().len(), 4);
}
