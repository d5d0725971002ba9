use image::{DynamicImage, RgbImage, RgbaImage};
use media_decode::thumbnail::{fit_within, thumbnail, thumbnail_box_fits};

#[test]
fn small_image_is_left_alone() {
    let img = DynamicImage::ImageRgb8(RgbImage::from_pixel(40, 30, image::Rgb([1, 2, 3])));
    let out = fit_within(img.clone(), 64);
    assert_eq!(out, img);
    let exact = DynamicImage::ImageRgb8(RgbImage::new(64, 64));
    assert_eq!(fit_within(exact.clone(), 64), exact);
}

#[test]
fn large_image_is_shrunk_into_the_box() {
    let img = DynamicImage::ImageRgba8(RgbaImage::from_pixel(200, 100, image::Rgba([9, 8, 7, 255])));
    let out = fit_within(img, 64);
    assert_eq!((out.width(), out.height()), (64, 32));
    assert_eq!(out.color(), image::ColorType::Rgba8);
    assert_eq!(out.to_rgba8().get_pixel(10, 10), &image::Rgba([9, 8, 7, 255]));
}

#[test]
fn thumbnail_matches_the_image_crate() {
    let img = DynamicImage::ImageRgb8(RgbImage::from_fn(30, 90, |x, y| image::Rgb([x as u8, y as u8, 0])));
    let ours = thumbnail(&img, 20, 20);
    assert_eq!(ours, img.thumbnail(20, 20));
    assert_eq!((ours.width(), ours.height()), (7, 20));
}

#[test]
fn box_memory_bound() {
    assert!(thumbnail_box_fits(0, 0));
    assert!(thumbnail_box_fits(4096, 4096));
    assert!(!thumbnail_box_fits(u32::MAX, u32::MAX));
}
