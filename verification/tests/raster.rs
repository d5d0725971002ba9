use media_decode::raster::{Canvas, Rgba};

#[test]
fn rgba_bytes_roundtrip() {
    let bytes: Vec<u8> = (0..24u8).collect();
    let c = Canvas::from_rgba8(3, 2, &bytes).expect("size matches");
    assert_eq!(c.width(), 3);
    assert_eq!(c.height(), 2);
    assert_eq!(c.get_pixel(1, 1), Rgba::new(16, 17, 18, 19));
    assert_eq!(c.to_rgba8(), bytes);
}

#[test]
fn rgba_bytes_of_wrong_length_are_refused() {
    let bytes = vec![0u8; 23];
    assert!(Canvas::from_rgba8(3, 2, &bytes).is_none());
    assert!(Canvas::from_rgba8(0, 0, &[]).is_some());
}

#[test]
fn filled_canvas() {
    let px = Rgba::new(1, 2, 3, 4);
    let c = Canvas::from_pixel(4, 3, px);
    assert_eq!(c.to_rgba8().len(), 48);
    assert_eq!(c.get_pixel(3, 2), px);
}
