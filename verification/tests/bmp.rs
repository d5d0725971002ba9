use std::io::Cursor;

use image::{DynamicImage, ImageFormat, ImageReader, Rgb, RgbImage};
use media_decode::bmp::{
    bmp_repair_plan, palette_size, set_pixel_offset, try_decode_bmp_repaired, try_decode_bmp_repaired_at,
};

fn sample_bmp() -> (RgbImage, Vec<u8>) {
    let mut img = RgbImage::new(33, 21);
    for (x, y, px) in img.enumerate_pixels_mut() {
        *px = Rgb([(x * 7 % 256) as u8, (y * 11 % 256) as u8, ((x + y) % 256) as u8]);
    }
    let mut encoded = Cursor::new(Vec::new());
    DynamicImage::ImageRgb8(img.clone())
        .write_to(&mut encoded, ImageFormat::Bmp)
        .unwrap();
    (img, encoded.into_inner())
}

#[test]
fn repairs_corrupted_pixel_offset() {
    let (img, mut data) = sample_bmp();

    // bfOffBits pointing into the middle of the image, as in real broken files
    data[10..14].copy_from_slice(&1024u32.to_le_bytes());

    // the standard decode must fail, so that the repair path is what is tested
    assert!(ImageReader::new(Cursor::new(&data))
        .with_guessed_format()
        .unwrap()
        .decode()
        .is_err());

    let repaired = try_decode_bmp_repaired(&data).expect("偏移坏值应可修复");
    assert_eq!((repaired.width(), repaired.height()), (33, 21));
    assert_eq!(repaired.to_rgb8().as_raw(), img.as_raw());
}

#[test]
fn repair_reports_the_offset_it_used() {
    let (_, mut data) = sample_bmp();
    data[10..14].copy_from_slice(&1024u32.to_le_bytes());
    let (offset, _) = try_decode_bmp_repaired_at(&data).expect("repairable");
    assert_eq!(offset, 54);
}

#[test]
fn healthy_file_is_left_alone() {
    let (_, data) = sample_bmp();
    assert!(bmp_repair_plan(&data).is_none());
    assert!(try_decode_bmp_repaired(&data).is_none());
}

#[test]
fn plan_for_corrupted_file() {
    let (_, mut data) = sample_bmp();
    data[10..14].copy_from_slice(&1024u32.to_le_bytes());
    let plan = bmp_repair_plan(&data).expect("plan");
    // 33 px * 24 bpp -> 99 bytes, padded to 100; 21 rows
    assert_eq!(plan.pixel_size, 2100);
    assert_eq!(plan.header_end, 54);
    assert_eq!(plan.candidates, vec![54]);
}

#[test]
fn not_a_bmp_or_too_short() {
    let (_, mut data) = sample_bmp();
    data[10..14].copy_from_slice(&1024u32.to_le_bytes());
    let mut other = data.clone();
    other[0] = b'X';
    assert!(bmp_repair_plan(&other).is_none());
    assert!(bmp_repair_plan(&data[..53]).is_none());
}

#[test]
fn compressed_or_bad_dib_is_left_alone() {
    let (_, mut data) = sample_bmp();
    data[10..14].copy_from_slice(&1024u32.to_le_bytes());
    let mut rle = data.clone();
    rle[30..34].copy_from_slice(&1u32.to_le_bytes());
    assert!(bmp_repair_plan(&rle).is_none());
    let mut dib = data.clone();
    dib[14..18].copy_from_slice(&200u32.to_le_bytes());
    assert!(bmp_repair_plan(&dib).is_none());
    let mut zero_height = data.clone();
    zero_height[22..26].copy_from_slice(&0i32.to_le_bytes());
    assert!(bmp_repair_plan(&zero_height).is_none());
}

#[test]
fn negative_height_counts_by_magnitude() {
    let (_, mut data) = sample_bmp();
    data[10..14].copy_from_slice(&1024u32.to_le_bytes());
    data[22..26].copy_from_slice(&(-21i32).to_le_bytes());
    let plan = bmp_repair_plan(&data).expect("plan");
    assert_eq!(plan.pixel_size, 2100);
}

#[test]
fn palette_sizes() {
    let mut head = vec![0u8; 54];
    assert_eq!(palette_size(40, 8, 0, &head), 1024);
    assert_eq!(palette_size(12, 8, 0, &head), 768);
    assert_eq!(palette_size(12, 24, 0, &head), 0);
    assert_eq!(palette_size(40, 16, 3, &head), 12);
    assert_eq!(palette_size(40, 32, 6, &head), 12);
    assert_eq!(palette_size(40, 24, 0, &head), 0);
    head[46..50].copy_from_slice(&16u32.to_le_bytes());
    assert_eq!(palette_size(40, 4, 0, &head), 64);
}

#[test]
fn candidates_are_sorted_and_distinct() {
    // 8-bit palette image: candidates 54 + 1024, 54, 54 -> [54, 1078]
    let mut data = vec![0u8; 2000];
    data[0] = b'B';
    data[1] = b'M';
    data[10..14].copy_from_slice(&1950u32.to_le_bytes());
    data[14..18].copy_from_slice(&40u32.to_le_bytes());
    data[18..22].copy_from_slice(&10i32.to_le_bytes());
    data[22..26].copy_from_slice(&10i32.to_le_bytes());
    data[28..30].copy_from_slice(&8u16.to_le_bytes());
    let plan = bmp_repair_plan(&data).expect("plan");
    assert_eq!(plan.pixel_size, 120);
    assert_eq!(plan.candidates, vec![54, 1078]);
}

#[test]
fn offset_rewrite_reads_back() {
    let mut data = vec![7u8; 20];
    set_pixel_offset(&mut data, 0x0102_0304);
    assert_eq!(&data[10..14], &[4, 3, 2, 1]);
    assert_eq!(u32::from_le_bytes([data[10], data[11], data[12], data[13]]), 0x0102_0304);
    assert_eq!(&data[..10], &[7u8; 10]);
    assert_eq!(&data[14..], &[7u8; 6]);
}
