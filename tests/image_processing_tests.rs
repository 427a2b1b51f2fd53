use imx::image_processing::{
    clear_transparent_pixels, extension_matches_format, find_letterbox_crop, has_supported_extension,
    is_supported_extension, path_claims_format,
};
use imx::{detect_image_format, DetectedImageFormat};

const JPEG: [u8; 12] = [0xFF, 0xD8, 0xFF, 0xE0, 0x00, 0x10, 0x4A, 0x46, 0x49, 0x46, 0x00, 0x01];
const PNG: [u8; 12] = [0x89, 0x50, 0x4E, 0x47, 0x0D, 0x0A, 0x1A, 0x0A, 0x00, 0x00, 0x00, 0x0D];
const WEBP: [u8; 12] = [0x52, 0x49, 0x46, 0x46, 0x24, 0x00, 0x00, 0x00, 0x57, 0x45, 0x42, 0x50];
const JXL: [u8; 12] = [0xFF, 0x0A, 0, 0, 0, 0, 0, 0, 0, 0, 0, 0];

#[test]
fn formats_are_recognised_by_their_first_bytes() {
    assert_eq!(detect_image_format(&JPEG), Some(DetectedImageFormat::Jpeg));
    assert_eq!(detect_image_format(&PNG), Some(DetectedImageFormat::Png));
    assert_eq!(detect_image_format(&WEBP), Some(DetectedImageFormat::WebP));
    assert_eq!(detect_image_format(&JXL), Some(DetectedImageFormat::Jxl));
    let mut text = [0u8; 12];
    text.copy_from_slice(b"This is a te");
    assert_eq!(detect_image_format(&text), None);
    let mut riff_not_webp = WEBP;
    riff_not_webp[8] = b'A';
    assert_eq!(detect_image_format(&riff_not_webp), None);
}

#[test]
fn format_extensions() {
    assert_eq!(DetectedImageFormat::Jpeg.extension(), "jpeg");
    assert_eq!(DetectedImageFormat::WebP.extension(), "webp");
    assert_eq!(DetectedImageFormat::Jpeg.all_extensions(), vec!["jpg", "jpeg"]);
    assert_eq!(DetectedImageFormat::Png.all_extensions(), vec!["png"]);
    assert_eq!(DetectedImageFormat::Jxl.all_extensions(), vec!["jxl"]);
}

#[test]
fn supported_extensions_in_any_case() {
    assert!(is_supported_extension("jpg"));
    assert!(is_supported_extension("JPEG"));
    assert!(is_supported_extension("WebP"));
    assert!(!is_supported_extension("txt"));
    assert!(!is_supported_extension(""));
    assert!(has_supported_extension("TEST.PNG"));
    assert!(has_supported_extension("dir/test.jxl"));
    assert!(!has_supported_extension("test.txt"));
    assert!(!has_supported_extension("no_extension"));
    assert!(!has_supported_extension("png"));
}

#[test]
fn claimed_format_against_detected_format() {
    assert!(extension_matches_format("jpg", DetectedImageFormat::Jpeg));
    assert!(extension_matches_format("JPEG", DetectedImageFormat::Jpeg));
    assert!(!extension_matches_format("jpg", DetectedImageFormat::Png));
    assert!(path_claims_format("actually_png.png", DetectedImageFormat::Png));
    assert!(!path_claims_format("actually_png.jpg", DetectedImageFormat::Png));
    assert!(!path_claims_format("actually_webp.jxl", DetectedImageFormat::WebP));
}

#[test]
fn transparent_pixels_become_opaque_black() {
    let mut pixels = vec![10, 20, 30, 0, 40, 50, 60, 128, 70, 80, 90, 255];
    clear_transparent_pixels(&mut pixels);
    assert_eq!(pixels, vec![0, 0, 0, 255, 40, 50, 60, 128, 70, 80, 90, 255]);
}

fn letterboxed(width: u32, height: u32) -> Vec<u8> {
    let mut data = Vec::new();
    for y in 0..height {
        for _ in 0..width {
            let v = if y < height / 4 || y > height * 3 / 4 { 0 } else { 255 };
            data.extend_from_slice(&[v, v, v, 255]);
        }
    }
    data
}

#[test]
fn letterbox_rows_are_cropped() {
    let data = letterboxed(100, 100);
    let crop = find_letterbox_crop(&data, 100, 100, 10).unwrap();
    assert_eq!(crop, (0, 25, 100, 51));
    assert!(crop.3 < 100);
}

#[test]
fn letterbox_threshold_counts_dark_grey_as_border() {
    let mut data = letterboxed(4, 4);
    // a dark grey pixel in the top border
    data[4] = 8;
    assert_eq!(find_letterbox_crop(&data, 4, 4, 10), Some((0, 1, 4, 3)));
    // with threshold 0 the grey pixel is content, and content now reaches every edge
    assert_eq!(find_letterbox_crop(&data, 4, 4, 0), None);
}

#[test]
fn nothing_to_crop_without_content() {
    let black = vec![0u8, 0, 0, 255].repeat(16);
    assert_eq!(find_letterbox_crop(&black, 4, 4, 0), None);
    assert_eq!(find_letterbox_crop(&vec![], 0, 0, 0), None);
    // content in a single column
    let mut one_column = black.clone();
    one_column[4 * 2] = 255;
    one_column[4 * 6] = 255;
    assert_eq!(find_letterbox_crop(&one_column, 4, 4, 0), None);
}

#[test]
fn content_reaching_every_edge_is_left_alone() {
    let white = vec![255u8, 255, 255, 255].repeat(16);
    assert_eq!(find_letterbox_crop(&white, 4, 4, 0), None);
    // a black frame one pixel wide on the left only
    let mut framed = white.clone();
    for y in 0..4 {
        framed[4 * (y * 4)..4 * (y * 4) + 3].copy_from_slice(&[0, 0, 0]);
    }
    assert_eq!(find_letterbox_crop(&framed, 4, 4, 0), Some((1, 0, 3, 4)));
}
