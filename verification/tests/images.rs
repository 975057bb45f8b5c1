use std::io::Cursor;
use std::path::{Path, PathBuf};

use warehouse::images::{fetch_failure_message, local_path, medium_image_url, medium_png_name, temp_path, webp_to_png, ConvertError};

#[test]
fn cache_paths() {
    assert_eq!(local_path(Path::new("/data"), "abc"), PathBuf::from("/data/images/abc_medium.png"));
    assert_eq!(temp_path(Path::new("/data"), "x.jpg"), PathBuf::from("/data/temp/x.jpg"));
    assert_eq!(medium_png_name("7"), "7_medium.png");
}

#[test]
fn image_urls_and_errors() {
    assert_eq!(medium_image_url("https://h", "abc"), "https://h/images/medium/abc_medium.webp");
    assert_eq!(fetch_failure_message("404 Not Found"), "Image fetch failed: 404 Not Found");
}

#[test]
fn webp_is_re_encoded_as_png() {
    let mut img = image::RgbaImage::new(3, 2);
    img.put_pixel(1, 1, image::Rgba([10, 20, 30, 255]));
    let mut webp = Cursor::new(Vec::new());
    image::DynamicImage::ImageRgba8(img.clone()).write_to(&mut webp, image::ImageFormat::WebP).unwrap();
    let png = match webp_to_png(webp.get_ref()) {
        Ok(png) => png,
        Err(_) => panic!("conversion failed"),
    };
    assert_eq!(&png[..8], &[137, 80, 78, 71, 13, 10, 26, 10]);
    let back = image::load_from_memory_with_format(&png, image::ImageFormat::Png).unwrap().to_rgba8();
    assert_eq!(back, img);
}

#[test]
fn bytes_that_are_not_webp_fail_to_decode() {
    assert!(matches!(webp_to_png(b"not an image"), Err(ConvertError::Decode(_))));
}
