use crabcamera::testing::synthetic::synthetic_video_frame;

#[test]
fn test_synthetic_video_frame_correct_size() {
    let frame = synthetic_video_frame(0, 1920, 1080);
    assert_eq!(frame.width, 1920);
    assert_eq!(frame.height, 1080);
    assert_eq!(frame.data.len(), 1920 * 1080 * 3);
}

#[test]
fn test_synthetic_video_frames_differ() {
    let frame0 = synthetic_video_frame(0, 320, 240);
    let frame1 = synthetic_video_frame(1, 320, 240);
    // Frames should have different content
    assert_ne!(frame0.data[0], frame1.data[0]);
}

#[test]
fn synthetic_gradient_values() {
    let frame = synthetic_video_frame(300, 4, 3);
    assert_eq!(frame.device_id, "synthetic_obsbot");
    assert_eq!(frame.format, "RGB8");
    assert_eq!(frame.size_bytes, 36);
    // pixel (x=2, y=1): base 300 % 256 = 44
    let idx = (1 * 4 + 2) * 3;
    assert_eq!(frame.data[idx], 46);
    assert_eq!(frame.data[idx + 1], 45);
    assert_eq!(frame.data[idx + 2], 47);
    let wrap = synthetic_video_frame(255, 2, 1);
    assert_eq!(wrap.data[3], 0); // (255 + 1) % 256
}

#[test]
fn consecutive_synthetic_frames_differ_everywhere() {
    let a = synthetic_video_frame(255, 8, 8);
    let b = synthetic_video_frame(256, 8, 8);
    assert!(a.data.iter().zip(b.data.iter()).all(|(x, y)| x != y));
}
