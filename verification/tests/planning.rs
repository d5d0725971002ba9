use media_decode::errors::DecodeError;
use media_decode::seek::{sample_seek_points, timeline_seek_points, SeekFraction};
use media_decode::subtitle::{list_subtitle_streams, StreamEntry};

fn f(num: u32, den: u32) -> SeekFraction {
    SeekFraction { num, den }
}

#[test]
fn sample_points() {
    assert_eq!(sample_seek_points(3, false), vec![f(0, 1)]);
    assert_eq!(sample_seek_points(3, true), vec![f(0, 3), f(1, 3), f(2, 3)]);
    assert_eq!(sample_seek_points(0, true), vec![f(0, 1)]);
    assert_eq!(sample_seek_points(9, true).len(), 5);
    assert_eq!(sample_seek_points(9, true)[4], f(4, 5));
}

#[test]
fn timeline_points() {
    assert_eq!(timeline_seek_points(10, false), vec![f(0, 1)]);
    assert!(timeline_seek_points(0, true).is_empty());
    assert!(timeline_seek_points(0, false).is_empty());
    assert_eq!(timeline_seek_points(1, true), vec![f(0, 1)]);
    assert_eq!(timeline_seek_points(3, true), vec![f(0, 2), f(1, 2), f(2, 2)]);
    let many = timeline_seek_points(100, true);
    assert_eq!(many.len(), 40);
    assert_eq!(many[39], f(39, 39));
}

#[test]
fn subtitle_tracks_are_selected_in_order() {
    let streams = vec![
        StreamEntry { index: 0, is_subtitle: false, codec_name: Some("h264".to_string()), language: None },
        StreamEntry {
            index: 1,
            is_subtitle: true,
            codec_name: Some("subrip".to_string()),
            language: Some("eng".to_string()),
        },
        StreamEntry { index: 2, is_subtitle: true, codec_name: None, language: None },
    ];
    let tracks = list_subtitle_streams(&streams);
    assert_eq!(tracks.len(), 2);
    assert_eq!(tracks[0].index, 1);
    assert_eq!(tracks[0].codec, "subrip");
    assert_eq!(tracks[0].language.as_deref(), Some("eng"));
    assert_eq!(tracks[1].index, 2);
    assert_eq!(tracks[1].codec, "unknown");
    assert_eq!(tracks[1].language, None);
    assert!(list_subtitle_streams(&[]).is_empty());
}

#[test]
fn decode_error_message() {
    assert_eq!(DecodeError::Unsupported.message(), "无法解码图像");
}


use media_decode::pdf::{after_bind, pdfium_action, PdfiumAction, PdfiumBindState};
use media_decode::timeline::sprite_rows_for;
use media_decode::waveform::{bar_top_row, peak_windows};

#[test]
fn pdfium_binds_once() {
    assert_eq!(pdfium_action(PdfiumBindState::Unbound), PdfiumAction::Bind);
    let ok = after_bind(PdfiumBindState::Unbound, true);
    assert_eq!(ok, PdfiumBindState::Ready);
    assert_eq!(pdfium_action(ok), PdfiumAction::Run);
    assert_eq!(after_bind(ok, false), PdfiumBindState::Ready);
    let failed = after_bind(PdfiumBindState::Unbound, false);
    assert_eq!(pdfium_action(failed), PdfiumAction::GiveUp);
    assert_eq!(after_bind(failed, true), PdfiumBindState::Failed);
}

#[test]
fn sample_windows() {
    assert_eq!(peak_windows(10, 3), vec![Some((0, 3)), Some((3, 6)), Some((6, 9))]);
    assert_eq!(peak_windows(2, 4), vec![Some((0, 1)), Some((1, 2)), None, None]);
    assert_eq!(peak_windows(0, 2), vec![None, None]);
}

#[test]
fn sprite_rows_and_bar_top() {
    assert_eq!(sprite_rows_for(10, 4), 3);
    assert_eq!(sprite_rows_for(8, 4), 2);
    assert_eq!(sprite_rows_for(0, 4), 0);
    assert_eq!(bar_top_row(128, 10), 59);
    assert_eq!(bar_top_row(10, 40), 0);
}
