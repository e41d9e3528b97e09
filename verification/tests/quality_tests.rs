use crabcamera::quality::downscale::downscale_frame;
use crabcamera::quality::grade::{QualityGrade, QualityProfile};
use crabcamera::quality::kernels::{edge_counts, laplacian_values, sobel_values};
use crabcamera::quality::trigger::{FrameObservation, TriggerRules, TriggerState, TriggerStatus};
use crabcamera::text::decimal_string;
use crabcamera::types::CameraFrame;

fn good(stable: bool) -> FrameObservation {
    FrameObservation { timed_out: false, meets_quality: true, stable }
}

fn poor() -> FrameObservation {
    FrameObservation { timed_out: false, meets_quality: false, stable: false }
}

#[test]
fn grade_names() {
    assert_eq!(QualityGrade::Excellent.as_str(), "Excellent");
    assert_eq!(QualityGrade::VeryGood.as_str(), "Very Good");
    assert_eq!(QualityGrade::Good.as_str(), "Good");
    assert_eq!(QualityGrade::Fair.as_str(), "Fair");
    assert_eq!(QualityGrade::Poor.as_str(), "Poor");
    assert_eq!(QualityGrade::VeryPoor.as_str(), "Very Poor");
}

#[test]
fn profile_settings() {
    assert_eq!(QualityProfile::default(), QualityProfile::Standard);
    assert_eq!(QualityProfile::FastPreview.max_analysis_dimension(), Some(320));
    assert_eq!(QualityProfile::Standard.max_analysis_dimension(), None);
    assert_eq!(QualityProfile::FinalCapture.max_analysis_dimension(), None);
    assert_eq!(QualityProfile::FastPreview.noise_sampling_step(), 1200);
    assert_eq!(QualityProfile::Standard.noise_sampling_step(), 300);
    assert_eq!(QualityProfile::FinalCapture.noise_sampling_step(), 30);
}

#[test]
fn small_frames_are_not_downscaled() {
    let frame = CameraFrame::new(vec![7u8; 2 * 2 * 3], 2, 2, "d".to_string());
    let out = downscale_frame(&frame, 320);
    assert_eq!(out.id, frame.id);
    assert_eq!(out.data, frame.data);
    assert_eq!((out.width, out.height), (2, 2));
}

#[test]
fn downscale_averages_blocks() {
    // 4x2 picture, max_dim 2: blocks of 2x2, output 2x1.
    let mut data = Vec::new();
    for v in [0u8, 4, 8, 12, 16, 20, 24, 28] {
        data.extend_from_slice(&[v, v + 1, 255]);
    }
    let frame = CameraFrame::new(data, 4, 2, "cam".to_string()).with_format("RGB8".to_string());
    let out = downscale_frame(&frame, 2);
    assert_eq!((out.width, out.height), (2, 1));
    // left block: 0, 4, 16, 20 -> 10; right block: 8, 12, 24, 28 -> 18
    assert_eq!(out.data, vec![10, 11, 255, 18, 19, 255]);
    assert_eq!(out.device_id, "cam");
    assert_eq!(out.format, "RGB8");
    assert_eq!(out.size_bytes, 6);
    assert_ne!(out.id, frame.id);
}

#[test]
fn downscale_partial_blocks_divide_by_full_area() {
    // 3x1 picture, max_dim 1: factor 3, output 1x1; only 3 of 9 block pixels exist.
    let frame = CameraFrame::new(vec![9, 9, 9, 9, 9, 9, 9, 9, 9], 3, 1, "d".to_string());
    let out = downscale_frame(&frame, 1);
    assert_eq!((out.width, out.height), (1, 1));
    assert_eq!(out.data, vec![3, 3, 3]);
}

#[test]
fn fast_preview_downscale_of_full_hd() {
    let frame = CameraFrame::new(vec![128u8; 1920 * 1080 * 3], 1920, 1080, "test".to_string());
    let out = downscale_frame(&frame, 320);
    assert_eq!((out.width, out.height), (320, 180));
    assert!(out.data.iter().all(|&b| b == 128));
}

#[test]
fn laplacian_of_a_peak() {
    let g = vec![10, 10, 10, 10, 20, 10, 10, 10, 10];
    assert_eq!(laplacian_values(&g, 3, 3), vec![40]);
    let flat = vec![10u8; 16];
    assert_eq!(laplacian_values(&flat, 4, 4), vec![0, 0, 0, 0]);
    assert!(laplacian_values(&g, 2, 3).is_empty());
    // Neighbours past the end of the buffer count as 0.
    let short = vec![10, 10, 10, 10, 20];
    assert_eq!(laplacian_values(&short, 3, 3), vec![80 - 10 - 10]);
}

#[test]
fn sobel_of_a_vertical_edge() {
    let g = vec![0, 0, 100, 0, 0, 100, 0, 0, 100];
    // gx = 100 + 200 + 100 = 400, gy = 0
    assert_eq!(sobel_values(&g, 3, 3), vec![160000]);
    let flat = vec![5u8; 9];
    assert_eq!(sobel_values(&flat, 3, 3), vec![0]);
}

#[test]
fn edge_counting() {
    let g = vec![0, 0, 0, 0, 100, 0, 0, 0, 0];
    assert_eq!(edge_counts(&g, 3, 3), (1, 1));
    let low = vec![0, 0, 0, 0, 50, 0, 0, 0, 0];
    assert_eq!(edge_counts(&low, 3, 3), (0, 1));
    let flat = vec![9u8; 20];
    assert_eq!(edge_counts(&flat, 5, 4), (0, 6));
    // Interior pixels past the end of the buffer are not counted.
    assert_eq!(edge_counts(&[0u8; 5], 3, 3), (0, 1));
    assert_eq!(edge_counts(&[0u8; 4], 3, 3), (0, 0));
}

#[test]
fn decimal_rendering() {
    assert_eq!(decimal_string(0), "0");
    assert_eq!(decimal_string(7), "7");
    assert_eq!(decimal_string(10), "10");
    assert_eq!(decimal_string(305), "305");
    assert_eq!(decimal_string(usize::MAX), usize::MAX.to_string());
}

#[test]
fn trigger_thinks_then_stabilizes_then_is_ready() {
    let rules = TriggerRules { required_consecutive_good_frames: 3, lock_after_ready: true };
    let mut state = TriggerState::new();
    assert_eq!(
        state.process(&rules, poor()),
        TriggerStatus::Thinking("Improving quality...".to_string())
    );
    assert_eq!(
        state.process(&rules, good(false)),
        TriggerStatus::Thinking("Stabilizing (1/3)".to_string())
    );
    assert_eq!(
        state.process(&rules, good(true)),
        TriggerStatus::Thinking("Stabilizing (2/3)".to_string())
    );
    assert_eq!(state.process(&rules, good(true)), TriggerStatus::Ready);
    assert!(state.locked);
}

#[test]
fn test_smart_trigger_lock_prevents_duplicate() {
    let rules = TriggerRules { required_consecutive_good_frames: 1, lock_after_ready: true };
    let mut state = TriggerState::new();
    assert!(state.process(&rules, good(true)).is_ready());
    assert_eq!(state.process(&rules, good(true)), TriggerStatus::Captured);
    assert_eq!(state.process(&rules, poor()), TriggerStatus::Captured);
    state.reset();
    assert_eq!(state, TriggerState::new());
    assert!(state.process(&rules, good(true)).is_ready());
}

#[test]
fn test_smart_trigger_no_lock_allows_retrigger() {
    let rules = TriggerRules { required_consecutive_good_frames: 1, lock_after_ready: false };
    let mut state = TriggerState::new();
    assert_eq!(state.process(&rules, good(true)), TriggerStatus::Ready);
    assert_eq!(state.process(&rules, good(true)), TriggerStatus::Ready);
    assert_eq!(state.good_frame_streak, 2);
}

#[test]
fn test_smart_trigger_flow() {
    // Frames are observed through their quality: a black frame falls short of
    // the minimum score, a mid-grey one meets it, and with no stability
    // duration every good frame is stable.
    let rules = TriggerRules { required_consecutive_good_frames: 2, lock_after_ready: true };
    let mut trigger = TriggerState::new();
    match trigger.process(&rules, poor()) {
        TriggerStatus::Thinking(msg) => assert!(msg.contains("Improving")),
        _ => panic!("Should be thinking on bad frame"),
    }
    match trigger.process(&rules, good(true)) {
        TriggerStatus::Thinking(msg) => assert!(msg.contains("Stabilizing")),
        _ => panic!("Should be stabilizing on first good frame"),
    }
    assert_eq!(trigger.process(&rules, good(true)), TriggerStatus::Ready);
}

#[test]
fn trigger_timeout_and_poor_frames() {
    let rules = TriggerRules { required_consecutive_good_frames: 2, lock_after_ready: true };
    let mut state = TriggerState::new();
    state.process(&rules, good(true));
    let timed_out = FrameObservation { timed_out: true, meets_quality: true, stable: true };
    assert_eq!(state.process(&rules, timed_out), TriggerStatus::Timeout);
    assert_eq!(state.good_frame_streak, 1);
    state.process(&rules, poor());
    assert_eq!(state, TriggerState::new());
}

use crabcamera::quality::grade::BlurLevel;
use crabcamera::quality::recommend::{generate_recommendations, AnalysisFindings};

fn findings() -> AnalysisFindings {
    AnalysisFindings {
        blur_level: BlurLevel::Sharp,
        underexposed: false,
        overexposed: false,
        noisy: false,
        width: 1920,
        height: 1080,
        min_width: 640,
        min_height: 480,
        poor_color_balance: false,
    }
}

#[test]
fn flawless_frame_gets_the_all_good_note() {
    assert_eq!(
        generate_recommendations(&findings()),
        vec!["Image quality is good. No specific improvements needed.".to_string()]
    );
}

#[test]
fn recommendations_follow_the_flaws_in_order() {
    let f = AnalysisFindings {
        blur_level: BlurLevel::VeryBlurry,
        underexposed: true,
        overexposed: true,
        noisy: true,
        width: 640,
        height: 479,
        poor_color_balance: true,
        ..findings()
    };
    let r = generate_recommendations(&f);
    assert_eq!(r.len(), 5);
    assert!(r[0].starts_with("Image is blurry."));
    assert!(r[1].starts_with("Image is underexposed."));
    assert!(r[2].starts_with("High noise detected."));
    assert!(r[3].contains("resolution"));
    assert!(r[4].starts_with("Poor color balance detected."));
    let over = AnalysisFindings { overexposed: true, blur_level: BlurLevel::Moderate, ..findings() };
    assert_eq!(
        generate_recommendations(&over),
        vec!["Image is overexposed. Decrease exposure time, lower ISO, or reduce lighting.".to_string()]
    );
}

use crabcamera::quality::stats::{channel_sums, noise_sample_totals};

#[test]
fn channel_sums_of_primaries() {
    assert_eq!(channel_sums(&[255, 0, 0, 0, 255, 0, 0, 0, 255]), (255, 255, 255));
    assert_eq!(channel_sums(&[1, 2, 3, 4, 5, 6]), (5, 7, 9));
    assert_eq!(channel_sums(&[]), (0, 0, 0));
}

#[test]
fn noise_samples_every_stride() {
    let data: Vec<u8> = (0..30u8).collect();
    // step 300 -> stride 300: one sample at 0
    assert_eq!(noise_sample_totals(&data, 300), vec![(3, 12, 21)]);
    // step 9 -> stride 9: samples at 0, 9, 18 (27 + 8 >= 30 is skipped)
    let s = noise_sample_totals(&data, 9);
    assert_eq!(s, vec![(3, 12, 21), (30, 39, 48), (57, 66, 75)]);
    // step below 3 -> stride of one pixel
    assert_eq!(noise_sample_totals(&data, 1).len(), 8);
    assert!(noise_sample_totals(&data[..8], 3).is_empty());
}
