use crabcamera::recording::config::{AudioConfig, RecordingQuality};

#[test]
fn test_quality_presets() {
    assert_eq!(RecordingQuality::Low.resolution(), (1280, 720));
    assert_eq!(RecordingQuality::Medium.resolution(), (1920, 1080));
    assert_eq!(RecordingQuality::High.resolution(), (1920, 1080));
}

#[test]
fn preset_bitrates() {
    assert_eq!(RecordingQuality::Low.bitrate(), 2_500_000);
    assert_eq!(RecordingQuality::Medium.bitrate(), 5_000_000);
    assert_eq!(RecordingQuality::High.bitrate(), 10_000_000);
    assert_eq!(RecordingQuality::Custom.bitrate(), 5_000_000);
    assert_eq!(RecordingQuality::Custom.resolution(), (1920, 1080));
    assert_eq!(RecordingQuality::default(), RecordingQuality::High);
}

#[test]
fn audio_config_builders() {
    let d = AudioConfig::default();
    assert_eq!(d.device_id, None);
    assert_eq!(d.sample_rate, 48000);
    assert_eq!(d.channels, 2);
    assert_eq!(d.bitrate, 128_000);

    let c = AudioConfig::with_device("mic-1".to_string()).mono().with_bitrate(64_000);
    assert_eq!(c.device_id.as_deref(), Some("mic-1"));
    assert_eq!(c.channels, 1);
    assert_eq!(c.bitrate, 64_000);
    assert_eq!(c.sample_rate, 48000);
    let s = c.stereo();
    assert_eq!(s.channels, 2);
    assert_eq!(s.bitrate, 64_000);
}

use crabcamera::errors::CameraError;
use crabcamera::recording::progress::RecordingProgress;

#[test]
fn recording_counts_written_and_dropped_frames() {
    let mut p = RecordingProgress::new(320, 240);
    assert!(!p.is_recording());
    assert_eq!(p.admit_camera_frame(false, 320, 240), Ok(true));
    assert!(p.is_recording());
    assert!(p.after_encode(false));
    assert_eq!(p.after_write(), 0);
    assert_eq!(p.admit_camera_frame(true, 320, 240), Ok(false));
    assert_eq!(p.admit_camera_frame(false, 320, 240), Ok(true));
    assert!(!p.after_encode(true));
    assert_eq!(p.frame_count(), 1);
    assert_eq!(p.dropped_frames(), 2);
}

#[test]
fn recording_refuses_frames_of_another_size() {
    let mut p = RecordingProgress::new(640, 480);
    assert_eq!(
        p.admit_rgb_frame(320, 240),
        Err(CameraError::EncodingError(
            "Frame dimensions 320x240 don't match recording config 640x480".to_string()
        ))
    );
    assert!(!p.is_recording());
    assert_eq!(
        p.admit_camera_frame(false, 640, 481),
        Err(CameraError::EncodingError(
            "Frame dimensions 640x481 don't match recording config 640x480".to_string()
        ))
    );
    assert!(p.is_recording());
    assert_eq!(p.admit_rgb_frame(640, 480), Ok(()));
    assert_eq!(p.frame_count(), 0);
    assert_eq!(p.dropped_frames(), 0);
}
