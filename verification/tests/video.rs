use media_decode::video::{
    frame_to_rgb8, is_swf, pack_rgb_rows, rgb_video_to_dynamic, FrameSearch, VideoFrameError,
};

#[test]
fn packet_budget_from_start() {
    let mut s: FrameSearch<u32> = FrameSearch::new(false);
    for _ in 0..48 {
        assert!(s.on_video_packet().is_ok());
    }
    assert_eq!(s.on_video_packet(), Err(VideoFrameError::PacketBudgetExhausted));
}

#[test]
fn packet_budget_after_seek() {
    let mut s: FrameSearch<u32> = FrameSearch::new(true);
    for _ in 0..64 {
        assert!(s.on_video_packet().is_ok());
    }
    assert_eq!(s.on_video_packet(), Err(VideoFrameError::PacketBudgetExhausted));
}

#[test]
fn consecutive_failures_stop_the_search() {
    let mut s: FrameSearch<u32> = FrameSearch::new(false);
    for _ in 0..7 {
        assert!(s.on_video_packet().is_ok());
        assert!(s.on_send_failed().is_ok());
    }
    assert!(s.on_video_packet().is_ok());
    assert_eq!(s.on_packet_drained(), Err(VideoFrameError::ConsecutiveDecodeFailures));
}

#[test]
fn a_frame_resets_the_failure_streak() {
    let mut s: FrameSearch<u32> = FrameSearch::new(false);
    for _ in 0..7 {
        assert!(s.on_send_failed().is_ok());
    }
    assert!(s.on_video_packet().is_ok());
    s.on_frame_received();
    assert!(s.on_packet_drained().is_ok());
    for _ in 0..7 {
        assert!(s.on_send_failed().is_ok());
    }
}

#[test]
fn non_blank_frame_is_returned() {
    let mut s: FrameSearch<u32> = FrameSearch::new(false);
    assert_eq!(s.on_image(5, false), Some(5));
}

#[test]
fn blank_frames_fall_back() {
    let mut s: FrameSearch<u32> = FrameSearch::new(false);
    for i in 0..7 {
        assert_eq!(s.on_image(i, true), None);
    }
    assert_eq!(s.on_image(100, true), Some(100));

    let mut t: FrameSearch<u32> = FrameSearch::new(false);
    assert_eq!(t.on_image(1, true), None);
    assert_eq!(t.on_image(2, true), None);
    assert_eq!(t.finish(), Ok(2));

    let u: FrameSearch<u32> = FrameSearch::new(false);
    assert_eq!(u.finish(), Err(VideoFrameError::NoFrame));
}

#[test]
fn error_messages() {
    assert_eq!(VideoFrameError::NoVideoStream.message(), "StreamNotFound");
    assert_eq!(VideoFrameError::OpenFailed("x".to_string()).message(), "无法打开视频: x");
    assert_eq!(VideoFrameError::NoFrame.message(), "no frame decoded");
}

#[test]
fn rows_are_packed_without_padding() {
    // 2 px wide (6 bytes), stride 8, 3 rows
    let data: Vec<u8> = (0..22u8).collect();
    let packed = pack_rgb_rows(&data, 8, 2, 3);
    assert_eq!(packed, vec![0, 1, 2, 3, 4, 5, 8, 9, 10, 11, 12, 13, 16, 17, 18, 19, 20, 21]);
    let img = rgb_video_to_dynamic(&data, 8, 2, 3).expect("image");
    assert_eq!((img.width(), img.height()), (2, 3));
    assert_eq!(img.color(), image::ColorType::Rgb8);
    assert_eq!(img.to_rgb8().into_raw(), packed);
}

#[test]
fn frame_buffer_must_be_large_enough() {
    let buf = vec![9u8; 12];
    assert!(frame_to_rgb8(2, 2, &buf).is_some());
    assert!(frame_to_rgb8(2, 2, &buf[..11]).is_none());
    let img = frame_to_rgb8(1, 3, &buf).expect("prefix is used");
    assert_eq!(img.color(), image::ColorType::Rgb8);
    assert_eq!((img.width(), img.height()), (1, 3));
    assert_eq!(img.to_rgb8().into_raw(), vec![9u8; 9]);
}

#[test]
fn swf_by_extension() {
    assert!(is_swf(Some("swf")));
    assert!(is_swf(Some("SWF")));
    assert!(is_swf(Some("sWf")));
    assert!(!is_swf(Some("swf2")));
    assert!(!is_swf(Some("sw")));
    assert!(!is_swf(Some("mp4")));
    assert!(!is_swf(Some("")));
    assert!(!is_swf(None));
}
