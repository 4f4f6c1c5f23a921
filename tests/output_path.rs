use color_buddy::{output_file_name, palette_file_name, OutputType};

#[test]
fn test_output_file_name() {
    let original_file = "/tmp/some_file.png";

    // Test case 1: Output path provided
    let result = output_file_name(original_file, Some("/tmp/something.jpg"), false, OutputType::OriginalImage);
    assert_eq!(result.unwrap(), "/tmp/something.jpg");

    // Test case 2: Output path not provided
    let result = output_file_name(original_file, None, false, OutputType::OriginalImage);
    assert_eq!(result.unwrap(), "/tmp/some_file_palette.png");

    // Test case 3: Output path provided and OutputType is json
    let result = output_file_name(original_file, Some("/tmp/something.json"), false, OutputType::Json);
    assert_eq!(result.unwrap(), "/tmp/something.json");

    // Test case 4: Output path not provided and OutputType is json
    let result = output_file_name(original_file, None, false, OutputType::Json);
    assert_eq!(result.unwrap(), "/tmp/some_file_palette.json");
}

#[test]
fn output_into_a_directory() {
    let result = output_file_name("photo.jpg", Some("/tmp/"), true, OutputType::Json);
    assert_eq!(result.unwrap(), "/tmp/photo_palette.json");
    let result = output_file_name("photo", Some("/out"), true, OutputType::StandalonePalette);
    assert_eq!(result.unwrap(), "/out/photo_palette.png");
}

#[test]
fn palette_file_name_extensions() {
    assert_eq!(palette_file_name("a", Some("jpg"), OutputType::OriginalImage), "a_palette.jpg");
    assert_eq!(palette_file_name("a", None, OutputType::StandalonePalette), "a_palette.png");
    assert_eq!(palette_file_name("a", Some("jpg"), OutputType::JsonFile), "a_palette.json");
}

#[test]
fn output_name_without_file_name_is_none() {
    assert_eq!(output_file_name("/", None, false, OutputType::Json), None);
}
