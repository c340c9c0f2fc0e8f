use calf::imaging::{extract_head_png, extract_head_rgb, extract_image_rgb, Raster};
use calf::reply::{JsonBody, Reply, ReplyBody};

fn png_of(img: image::RgbaImage) -> Vec<u8> {
    let mut out = std::io::Cursor::new(Vec::new());
    image::DynamicImage::ImageRgba8(img).write_to(&mut out, image::ImageFormat::Png).unwrap();
    out.into_inner()
}

/// A skin whose face pixel (x, y) is (x, y, 100) and whose hat layer is opaque
/// on its left half and fully transparent on its right half.
fn test_skin(width: u32, height: u32) -> image::RgbaImage {
    image::RgbaImage::from_fn(width, height, |x, y| {
        if (40..48).contains(&x) && (8..16).contains(&y) {
            if x < 44 {
                image::Rgba([200, y as u8, 50, 255])
            } else {
                image::Rgba([9, 9, 9, 0])
            }
        } else {
            image::Rgba([x as u8, y as u8, 100, 255])
        }
    })
}

fn error_of(r: Reply) -> (u16, String) {
    match r.body {
        ReplyBody::Json(JsonBody::Error(e)) => (r.status, e.error),
        _ => panic!("expected a JSON error"),
    }
}

#[test]
fn head_rgb_blends_hat_over_face() {
    let rgb = extract_head_rgb(&png_of(test_skin(64, 64))).ok().unwrap();
    let mut expected = Vec::new();
    for j in 0..8u8 {
        for i in 0..8u8 {
            if i < 4 {
                expected.extend_from_slice(&[200, 8 + j, 50]);
            } else {
                expected.extend_from_slice(&[8 + i, 8 + j, 100]);
            }
        }
    }
    assert_eq!(rgb, expected);
}

#[test]
fn head_of_small_skin_is_clamped() {
    let rgb = extract_head_rgb(&png_of(test_skin(10, 10))).ok().unwrap();
    assert_eq!(rgb, vec![8, 8, 100, 9, 8, 100, 8, 9, 100, 9, 9, 100]);
    let rgb = extract_head_rgb(&png_of(test_skin(1, 1))).ok().unwrap();
    assert!(rgb.is_empty());
}

#[test]
fn head_png_is_an_8x8_image() {
    let png = extract_head_png(&png_of(test_skin(64, 32))).ok().unwrap();
    let head = image::load_from_memory(&png).unwrap().into_rgba8();
    assert_eq!(head.dimensions(), (8, 8));
    assert_eq!(head.get_pixel(0, 0).0, [200, 8, 50, 255]);
    assert_eq!(head.get_pixel(7, 7).0, [15, 15, 100, 255]);
}

#[test]
fn image_rgb_drops_alpha() {
    let img = image::RgbaImage::from_fn(2, 1, |x, _| image::Rgba([x as u8, 2, 3, if x == 0 { 255 } else { 0 }]));
    assert_eq!(extract_image_rgb(&png_of(img)).ok().unwrap(), vec![0, 2, 3, 1, 2, 3]);
}

#[test]
fn bytes_that_are_not_png_are_refused() {
    assert_eq!(error_of(extract_head_rgb(b"not a png").err().unwrap()), (502, "failed to parse skin image".to_string()));
    assert_eq!(error_of(extract_head_png(&[]).err().unwrap()), (502, "failed to parse skin image".to_string()));
    assert_eq!(error_of(extract_image_rgb(b"GIF89a").err().unwrap()), (502, "failed to parse image".to_string()));
}

#[test]
fn head_of_a_decoded_skin_keeps_face_where_hat_is_clear() {
    let skin = test_skin(64, 64);
    let raster = Raster { width: 64, height: 64, rgba: skin.into_raw() };
    let head = calf::imaging::head_of(&raster);
    assert_eq!((head.width, head.height), (8, 8));
    assert_eq!(&head.rgba[0..4], &[200, 8, 50, 255]);
    assert_eq!(&head.rgba[16..20], &[12, 8, 100, 255]);
}

#[test]
fn head_rgb_has_three_bytes_per_pixel() {
    let rgb = extract_head_rgb(&png_of(test_skin(64, 64))).ok().unwrap();
    assert_eq!(rgb.len(), 3 * 8 * 8);
    let whole = extract_image_rgb(&png_of(test_skin(20, 3))).ok().unwrap();
    assert_eq!(whole.len(), 3 * 20 * 3);
}

#[test]
fn head_png_keeps_the_skin_pixel_layout() {
    let rgba = test_skin(64, 64);
    let rgb = image::DynamicImage::ImageRgba8(rgba.clone()).into_rgb8();
    let mut out = std::io::Cursor::new(Vec::new());
    image::DynamicImage::ImageRgb8(rgb).write_to(&mut out, image::ImageFormat::Png).unwrap();
    let png = extract_head_png(&out.into_inner()).ok().unwrap();
    let head = image::load_from_memory(&png).unwrap();
    assert_eq!(head.color(), image::ColorType::Rgb8);
    // without alpha the hat layer is opaque everywhere
    assert_eq!(head.to_rgb8().get_pixel(5, 0).0, [9, 9, 9]);
    assert_eq!(head.to_rgb8().get_pixel(0, 0).0, [200, 8, 50]);
    let png = extract_head_png(&png_of(rgba)).ok().unwrap();
    assert_eq!(image::load_from_memory(&png).unwrap().color(), image::ColorType::Rgba8);
}

#[test]
fn head_png_of_a_grey_skin_stays_grey() {
    let grey = image::GrayImage::from_fn(64, 64, |x, _| image::Luma([x as u8]));
    let mut out = std::io::Cursor::new(Vec::new());
    image::DynamicImage::ImageLuma8(grey).write_to(&mut out, image::ImageFormat::Png).unwrap();
    let png = extract_head_png(&out.into_inner()).ok().unwrap();
    let head = image::load_from_memory(&png).unwrap();
    assert_eq!(head.color(), image::ColorType::L8);
    assert_eq!(head.to_luma8().get_pixel(0, 0).0, [40]);
}

#[test]
fn smallest_full_skin_gives_an_8x8_head() {
    let rgb = extract_head_rgb(&png_of(test_skin(48, 16))).ok().unwrap();
    assert_eq!(rgb.len(), 192);
    assert_eq!(&rgb[0..3], &[200, 8, 50]);
    assert_eq!(&rgb[3 * 7..3 * 8], &[15, 8, 100]);
    let rgb = extract_head_rgb(&png_of(test_skin(47, 16))).ok().unwrap();
    assert_eq!(rgb.len(), 192);
    assert_eq!(&rgb[3 * 7..3 * 8], &[15, 8, 100]);
}
