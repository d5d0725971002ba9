use media_decode::raster::{Canvas, Rgba};
use media_decode::timeline::stitch_timeline_sprite;

const BG: Rgba = Rgba { r: 24, g: 24, b: 28, a: 255 };

#[test]
fn stitch_empty_returns_none() {
    assert!(stitch_timeline_sprite(&[], 10, 160, 90).is_none());
}

#[test]
fn stitch_zero_columns_returns_none() {
    let f = Canvas::from_pixel(2, 2, Rgba::new(1, 1, 1, 1));
    assert!(stitch_timeline_sprite(&[f], 0, 4, 4).is_none());
}

#[test]
fn frames_are_centred_in_their_cells() {
    let red = Rgba::new(255, 0, 0, 255);
    let green = Rgba::new(0, 255, 0, 255);
    let blue = Rgba::new(0, 0, 255, 255);
    let frames = vec![
        Canvas::from_pixel(2, 2, red),
        Canvas::from_pixel(4, 4, green),
        Canvas::from_pixel(6, 1, blue),
    ];
    let sprite = stitch_timeline_sprite(&frames, 2, 4, 4).expect("sprite");
    assert_eq!((sprite.width(), sprite.height()), (8, 8));
    // frame 0: 2x2 centred in a 4x4 cell at (1,1)
    assert_eq!(sprite.get_pixel(0, 0), BG);
    assert_eq!(sprite.get_pixel(1, 1), red);
    assert_eq!(sprite.get_pixel(2, 2), red);
    assert_eq!(sprite.get_pixel(3, 3), BG);
    // frame 1 fills cell (column 1, row 0)
    assert_eq!(sprite.get_pixel(4, 0), green);
    assert_eq!(sprite.get_pixel(7, 3), green);
    // frame 2: 6 wide is cropped to 4, 1 high centred at row offset 1
    assert_eq!(sprite.get_pixel(0, 5), blue);
    assert_eq!(sprite.get_pixel(3, 5), blue);
    assert_eq!(sprite.get_pixel(0, 4), BG);
    // empty last cell
    assert_eq!(sprite.get_pixel(5, 5), BG);
}
