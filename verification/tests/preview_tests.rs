use crabcamera::preview::encode::encode_frame_jpeg;
use crabcamera::preview::resize::resize_frame;
use crabcamera::preview::schedule::{
    capture_interval_ms, unanalysed_status, validate_preview_config, PreviewSchedule, QualitySource,
};
use crabcamera::quality::trigger::TriggerStatus;
use crabcamera::types::CameraFrame;

#[test]
fn jpeg_of_a_frame_is_a_jpeg_stream() {
    let frame = CameraFrame::new(vec![200u8; 8 * 8 * 3], 8, 8, "cam".to_string());
    let jpeg = encode_frame_jpeg(&frame, 70).expect("jpeg");
    assert_eq!(&jpeg[0..2], &[0xFF, 0xD8]);
    assert_eq!(&jpeg[jpeg.len() - 2..], &[0xFF, 0xD9]);
    assert_ne!(jpeg, frame.data);
}

#[test]
fn jpeg_refuses_short_and_empty_frames() {
    let short = CameraFrame::new(vec![1u8; 10], 2, 2, "cam".to_string());
    assert_eq!(
        encode_frame_jpeg(&short, 70),
        Err("Failed to create image from frame data".to_string())
    );
    let empty = CameraFrame::new(Vec::new(), 0, 0, "cam".to_string());
    let err = encode_frame_jpeg(&empty, 70).expect_err("zero size");
    assert!(err.starts_with("JPEG encode failed: "));
}

#[test]
fn preview_config_checks_in_order() {
    assert_eq!(validate_preview_config(15, true, 5, 70), Ok(()));
    assert_eq!(validate_preview_config(0, false, 0, 0), Err("fps_target must be 1-60".to_string()));
    assert_eq!(validate_preview_config(61, true, 5, 70), Err("fps_target must be 1-60".to_string()));
    assert_eq!(validate_preview_config(60, false, 0, 0), Err("downscale must be 0.1-1.0".to_string()));
    assert_eq!(
        validate_preview_config(1, true, 0, 0),
        Err("quality_sample_rate must be >= 1".to_string())
    );
    assert_eq!(validate_preview_config(1, true, 1, 29), Err("jpeg_quality must be 30-95".to_string()));
    assert_eq!(validate_preview_config(1, true, 1, 96), Err("jpeg_quality must be 30-95".to_string()));
    assert_eq!(validate_preview_config(1, true, 1, 95), Ok(()));
    assert_eq!(capture_interval_ms(15), 66);
    assert_eq!(capture_interval_ms(60), 16);
}

#[test]
fn every_nth_frame_is_analysed() {
    let mut s = PreviewSchedule::new();
    let p1 = s.on_frame_captured(3);
    assert_eq!((p1.frame_number, p1.source, p1.stale, p1.last_sampled_frame), (1, QualitySource::Initial, false, 0));
    let p2 = s.on_frame_captured(3);
    assert_eq!(p2.source, QualitySource::Initial);
    let p3 = s.on_frame_captured(3);
    assert_eq!((p3.frame_number, p3.source, p3.stale, p3.last_sampled_frame), (3, QualitySource::Fresh, false, 3));
    let p4 = s.on_frame_captured(3);
    assert_eq!((p4.source, p4.stale, p4.last_sampled_frame), (QualitySource::Cached, true, 3));
    let mut every = PreviewSchedule::new();
    for n in 1..=4u64 {
        let p = every.on_frame_captured(1);
        assert_eq!((p.frame_number, p.source, p.last_sampled_frame), (n, QualitySource::Fresh, n));
    }
}

#[test]
fn placeholder_statuses() {
    assert_eq!(unanalysed_status(QualitySource::Fresh), None);
    assert_eq!(unanalysed_status(QualitySource::Cached), Some(TriggerStatus::Thinking("stale".to_string())));
    assert_eq!(unanalysed_status(QualitySource::Initial), Some(TriggerStatus::Thinking("initial".to_string())));
}

#[test]
fn resize_frame_halves_a_uniform_frame() {
    let frame = CameraFrame::new(vec![90u8; 8 * 6 * 3], 8, 6, "cam".to_string());
    let small = resize_frame(&frame, 4, 3).expect("resized");
    assert_eq!((small.width, small.height), (4, 3));
    assert_eq!(small.data.len(), 4 * 3 * 3);
    assert!(small.data.iter().all(|&b| b == 90));
    assert_eq!(small.device_id, "cam");
    assert_eq!(small.format, "RGB8");

    let short = CameraFrame::new(vec![0u8; 10], 8, 6, "cam".to_string());
    assert_eq!(resize_frame(&short, 4, 3).err(), Some("Failed to create image from frame data".to_string()));
}
