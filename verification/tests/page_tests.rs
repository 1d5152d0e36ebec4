//! Page decoding: format sniffing, exact pixels, idempotence, decode
//! errors.

use comik::comic::{ComicError, Page};

fn png_bytes(width: u32, height: u32, rgba: [u8; 4]) -> Vec<u8> {
    let img = image::RgbaImage::from_pixel(width, height, image::Rgba(rgba));
    let mut buf = std::io::Cursor::new(Vec::new());
    image::DynamicImage::ImageRgba8(img)
        .write_to(&mut buf, image::ImageFormat::Png)
        .unwrap();
    buf.into_inner()
}

#[test]
fn png_decodes_to_its_exact_pixels() {
    let page = Page::new("red.png".to_string(), png_bytes(2, 3, [255, 0, 0, 255]));
    let img = page.image().unwrap();
    assert_eq!(img.width, 2);
    assert_eq!(img.height, 3);
    assert_eq!(img.pixels.len(), 4 * 2 * 3);
    let expected: Vec<u8> = [255u8, 0, 0, 255].repeat(6);
    assert_eq!(img.pixels, expected);
}

#[test]
fn decoding_twice_gives_identical_pixel_data() {
    let page = Page::new("p.png".to_string(), png_bytes(4, 4, [1, 2, 3, 4]));
    let first = page.image().unwrap();
    let second = page.image().unwrap();
    assert_eq!(first.width, second.width);
    assert_eq!(first.height, second.height);
    assert_eq!(first.pixels, second.pixels);
}

#[test]
fn decoding_does_not_depend_on_the_entry_name() {
    let bytes = png_bytes(1, 1, [9, 8, 7, 6]);
    let named_jpg = Page::new("mislabeled.jpg".to_string(), bytes.clone());
    let img = named_jpg.image().unwrap();
    assert_eq!((img.width, img.height), (1, 1));
    assert_eq!(img.pixels, vec![9, 8, 7, 6]);
}

#[test]
fn jpeg_content_is_sniffed_and_decoded() {
    let img = image::RgbaImage::from_pixel(5, 7, image::Rgba([10, 20, 30, 255]));
    let mut buf = std::io::Cursor::new(Vec::new());
    image::DynamicImage::ImageRgba8(img)
        .write_to(&mut buf, image::ImageFormat::Jpeg)
        .unwrap();
    let page = Page::new("p.jpg".to_string(), buf.into_inner());
    let decoded = page.image().unwrap();
    assert_eq!((decoded.width, decoded.height), (5, 7));
    assert_eq!(decoded.pixels.len(), 4 * 5 * 7);
}

#[test]
fn unknown_content_is_an_unsupported_format() {
    let page = Page::new("p.png".to_string(), b"not an image at all".to_vec());
    assert_eq!(page.image().unwrap_err(), ComicError::UnsupportedImageFormat);
}

#[test]
fn a_recognized_codec_with_broken_data_is_corrupt() {
    let mut bytes = png_bytes(2, 2, [0, 0, 0, 255]);
    let cut = bytes.len() / 2;
    bytes.truncate(cut);
    let page = Page::new("cut.png".to_string(), bytes);
    assert_eq!(page.image().unwrap_err(), ComicError::CorruptImageData);
}

#[test]
fn a_page_keeps_its_name_and_bytes() {
    let page = Page::new("name.png".to_string(), vec![1, 2, 3]);
    assert_eq!(page.file_name().as_str(), "name.png");
    assert_eq!(page.bytes().as_slice(), &[1, 2, 3]);
}
