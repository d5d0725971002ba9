use media_decode::raster::Rgba;
use media_decode::waveform::{
    draw_waveform_heights, resample_peaks, waveform_bar_count, WaveformStyle, DEFAULT_WAVEFORM_BARS,
};

#[test]
fn resample_peaks_expands_to_target() {
    let peaks = vec![0.5, 1.0, 0.25];
    let out = resample_peaks(&peaks, 6);
    assert_eq!(out.len(), 6);
}

#[test]
fn resample_picks_nearest_lower_index() {
    let peaks = vec![0.5f32, 1.0, 0.25];
    assert_eq!(resample_peaks(&peaks, 6), vec![0.5, 0.5, 1.0, 1.0, 0.25, 0.25]);
    assert_eq!(resample_peaks(&peaks, 2), vec![0.5, 1.0]);
    assert_eq!(resample_peaks(&peaks, 3), peaks);
    assert!(resample_peaks(&peaks, 0).is_empty());
    assert!(resample_peaks::<f32>(&[], 4).is_empty());
}

#[test]
fn bar_count_for_default_style() {
    let style = WaveformStyle::default();
    assert_eq!(waveform_bar_count(512, style), DEFAULT_WAVEFORM_BARS);
    assert_eq!(waveform_bar_count(0, style), 1);
    assert_eq!(waveform_bar_count(32, style), 16);
}

#[test]
fn default_style_values() {
    let style = WaveformStyle::default();
    assert_eq!(style.background, Rgba::new(0, 0, 0, 0));
    assert_eq!(style.bar, Rgba::new(124, 108, 255, 255));
    assert_eq!((style.bar_width, style.bar_gap), (1, 1));
}

#[test]
fn waveform_canvas_has_requested_size() {
    let heights: Vec<u32> = (0..128u32).map(|i| i % 100).collect();
    let img = draw_waveform_heights(&heights, 256, 128, WaveformStyle::default());
    assert_eq!(img.width(), 256);
    assert_eq!(img.height(), 128);
}

#[test]
fn thin_bars_start_on_even_columns() {
    let style = WaveformStyle::default();
    let heights = vec![114u32; 256];
    let img = draw_waveform_heights(&heights, 512, 128, style);
    assert!(img.width() >= 256);
    let mut colored_x = u32::MAX;
    for x in 0..img.width() {
        if img.get_pixel(x, 64) == style.bar {
            colored_x = x;
            break;
        }
    }
    assert_eq!(colored_x % 2, 0);
    assert_eq!(img.get_pixel(1, 64), style.background);
}

#[test]
fn bars_are_centred_vertically() {
    let style = WaveformStyle::default();
    let img = draw_waveform_heights(&[4, 0, 2], 6, 10, style);
    // bar 0: height 4, top = 5 - 2 = 3, rows 3..7
    assert_eq!(img.get_pixel(0, 2), style.background);
    assert_eq!(img.get_pixel(0, 3), style.bar);
    assert_eq!(img.get_pixel(0, 6), style.bar);
    assert_eq!(img.get_pixel(0, 7), style.background);
    // bar 1 has height 0
    assert_eq!(img.get_pixel(2, 5), style.background);
    // bar 2: height 2, rows 4..6
    assert_eq!(img.get_pixel(4, 4), style.bar);
    assert_eq!(img.get_pixel(4, 6), style.background);
}

#[test]
fn taller_bars_keep_every_bar_pixel() {
    let style = WaveformStyle::default();
    let quiet = draw_waveform_heights(&[2, 0, 5, 1], 8, 12, style);
    let loud = draw_waveform_heights(&[3, 1, 9, 1], 8, 12, style);
    for y in 0..12 {
        for x in 0..8 {
            if quiet.get_pixel(x, y) == style.bar {
                assert_eq!(loud.get_pixel(x, y), style.bar);
            }
        }
    }
    assert_eq!(loud.get_pixel(2, 6), style.bar);
    assert_eq!(quiet.get_pixel(2, 6), style.background);
}
