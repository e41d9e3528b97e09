use crabcamera::text::{decimal_string, parse_u64};
use crabcamera::types::{CameraFrame, ControlApplicationResult, Platform};

#[test]
fn test_platform_current_and_string() {
    let platform = Platform::current("linux");
    assert_ne!(platform, Platform::Unknown);
    assert!(["windows", "macos", "linux", "unknown"].contains(&platform.as_str()));
}

#[test]
fn test_camera_frame_methods() {
    let data = vec![1, 2, 3, 4, 5, 6];
    let frame = CameraFrame::new(data.clone(), 2, 1, "dev-0".to_string());

    assert_eq!(frame.data, data);
    assert_eq!(frame.size_bytes, 6);
    assert_eq!(frame.width, 2);
    assert_eq!(frame.height, 1);
    assert_eq!(frame.device_id, "dev-0");
    assert!(!frame.id.is_empty());
    assert!(frame.is_valid());
    let aspect_ratio = frame.width as f32 / frame.height as f32;
    assert!((aspect_ratio - 2.0).abs() < 1e-6);

    let yuyv = frame.clone().with_format("YUYV".to_string());
    assert_eq!(yuyv.format, "YUYV");

    let invalid = CameraFrame::new(Vec::new(), 640, 480, "dev-1".to_string());
    assert!(!invalid.is_valid());
}

#[test]
fn test_control_application_result_fully_applied() {
    let ok = ControlApplicationResult {
        applied: vec!["focus".to_string()],
        rejected: Vec::new(),
    };
    assert!(ok.fully_applied());

    let partial = ControlApplicationResult {
        applied: vec!["focus".to_string()],
        rejected: vec!["iso".to_string()],
    };
    assert!(!partial.fully_applied());
}

#[test]
fn platform_detection_by_os_name() {
    assert_eq!(Platform::current("windows"), Platform::Windows);
    assert_eq!(Platform::current("macos"), Platform::MacOS);
    assert_eq!(Platform::current("linux"), Platform::Linux);
    assert_eq!(Platform::current("freebsd"), Platform::Unknown);
    assert_eq!(Platform::current(""), Platform::Unknown);
}

#[test]
fn platform_names_name_the_platform_back() {
    for p in [Platform::Windows, Platform::MacOS, Platform::Linux, Platform::Unknown] {
        assert_eq!(Platform::current(p.as_str()), p);
    }
    assert_eq!(Platform::MacOS.as_str(), "macos");
}

#[test]
fn new_frame_has_uuid_id_and_rgb8_format() {
    let frame = CameraFrame::new(vec![0u8; 12], 2, 2, "cam".to_string());
    assert_eq!(frame.format, "RGB8");
    assert_eq!(frame.id.len(), 36);
    for (i, c) in frame.id.chars().enumerate() {
        if i == 8 || i == 13 || i == 18 || i == 23 {
            assert_eq!(c, '-');
        } else {
            assert!(c.is_ascii_digit() || ('a'..='f').contains(&c));
        }
    }
    let other = CameraFrame::new(vec![0u8; 12], 2, 2, "cam".to_string());
    assert_ne!(frame.id, other.id);
}

#[test]
fn frame_with_zero_side_is_invalid() {
    assert!(!CameraFrame::new(vec![1, 2, 3], 0, 1, "d".to_string()).is_valid());
    assert!(!CameraFrame::new(vec![1, 2, 3], 1, 0, "d".to_string()).is_valid());
    assert!(CameraFrame::new(vec![1, 2, 3], 1, 1, "d".to_string()).is_valid());
}

#[test]
fn test_parse_u64_reads_like_str_parse() {
    for s in ["0", "42", "+42", "007", "18446744073709551615"] {
        assert_eq!(parse_u64(s), s.parse::<u64>().ok());
    }
    for s in ["", "+", "-1", "4x", " 4", "18446744073709551616", "٣"] {
        assert_eq!(parse_u64(s), None);
        assert_eq!(s.parse::<u64>().ok(), None);
    }
    assert_eq!(parse_u64(&decimal_string(12345)), Some(12345));
}
