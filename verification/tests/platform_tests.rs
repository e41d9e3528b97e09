use crabcamera::errors::CameraError;
use crabcamera::platform::controls::{
    media_foundation_capability_flags, media_foundation_control_plan, partition_outcomes,
    media_foundation_results, v4l2_control_plan, white_balance_to_kelvin,
    MediaFoundationInterfaces, MediaFoundationSupport, RequestedControls,
    V4l2Request, V4l2Value, V4L2_CID_EXPOSURE_AUTO, V4L2_CID_FOCUS_AUTO,
};
use crabcamera::platform::devices::{device_events, DeviceEvent, MonitorStart, MonitorSwitch};
use crabcamera::platform::linux::{get_device_caps, list_v4l2_devices, v4l2_device_path};
use crabcamera::platform::mock::{
    create_mock_frame, mock_apply_controls, MockCaptureMode, MockModeRegistry,
};
use crabcamera::platform::system::{photography_format, CameraSystem, CameraTestResult};
use crabcamera::platform::v4l2::{
    camera_index, device_index, fourcc_format_name, largest_format, listed_formats,
    offered_formats, supported_formats, v4l2_capability_flags, v4l2_control_id,
    FrameIntervalKind, FrameSizeKind, OfferedFormat, PixelFormatOffer, SizeOffer,
};
use crabcamera::types::{Platform, WhiteBalance};

#[test]
fn test_device_event_types() {
    let event1 = DeviceEvent::Connected("test".to_string());
    let event2 = DeviceEvent::Disconnected("test".to_string());
    let event3 = DeviceEvent::Modified("test".to_string());

    assert_ne!(event1, event2);
    assert_ne!(event2, event3);
}

#[test]
fn test_camera_system_initialize_for_current_platform() {
    let platform = Platform::current("linux");
    let v4l2_available = std::path::Path::new("/dev/video0").exists();
    let result = CameraSystem::initialize(platform, v4l2_available);
    match platform {
        Platform::Unknown => assert!(result.is_err()),
        _ => assert!(
            result.is_ok()
                || result.as_ref().err().is_some_and(|e| e.message().contains("camera")
                    || e.message().contains("device")
                    || e.message().contains("init"))
        ),
    }
}

#[test]
fn test_white_balance_to_kelvin_mapping() {
    assert_eq!(white_balance_to_kelvin(&WhiteBalance::Auto), -1);
    assert_eq!(white_balance_to_kelvin(&WhiteBalance::Incandescent), 2700);
    assert_eq!(white_balance_to_kelvin(&WhiteBalance::Fluorescent), 4200);
    assert_eq!(white_balance_to_kelvin(&WhiteBalance::Daylight), 5500);
    assert_eq!(white_balance_to_kelvin(&WhiteBalance::Flash), 5500);
    assert_eq!(white_balance_to_kelvin(&WhiteBalance::Cloudy), 6500);
    assert_eq!(white_balance_to_kelvin(&WhiteBalance::Shade), 7500);
    assert_eq!(white_balance_to_kelvin(&WhiteBalance::Custom(5100)), 5100);
}

#[test]
fn test_mock_camera_mode_registry() {
    let mut registry = MockModeRegistry::new();
    let id = "mode-cam";

    assert!(matches!(registry.get(id), MockCaptureMode::Success));

    registry.set(id, MockCaptureMode::Failure);
    assert!(matches!(registry.get(id), MockCaptureMode::Failure));
}

#[test]
fn test_create_mock_frame_shape() {
    let frame = create_mock_frame("device-a");
    assert_eq!(frame.device_id, "device-a");
    assert_eq!(frame.width, 1280);
    assert_eq!(frame.height, 720);
    assert_eq!(frame.format, "RGB8");
    assert_eq!(frame.size_bytes, frame.data.len());
    assert!(!frame.id.is_empty());
}

#[test]
fn mock_frame_is_mid_gray() {
    let frame = create_mock_frame("g");
    assert_eq!(frame.data.len(), 1280 * 720 * 3);
    assert!(frame.data.iter().all(|&b| b == 128));
}

#[test]
fn mock_modes_are_per_device_and_overwritable() {
    let mut registry = MockModeRegistry::new();
    registry.set("a", MockCaptureMode::SlowCapture);
    registry.set("b", MockCaptureMode::Failure);
    assert_eq!(registry.get("a"), MockCaptureMode::SlowCapture);
    assert_eq!(registry.get("b"), MockCaptureMode::Failure);
    assert_eq!(registry.get("c"), MockCaptureMode::Success);
    registry.set("a", MockCaptureMode::Success);
    assert_eq!(registry.get("a"), MockCaptureMode::Success);
    assert_eq!(registry.get("b"), MockCaptureMode::Failure);
}

#[test]
fn initialize_outcomes_per_platform() {
    assert_eq!(
        CameraSystem::initialize(Platform::Windows, false),
        Ok("Windows camera system initialized with DirectShow/MediaFoundation".to_string())
    );
    assert_eq!(
        CameraSystem::initialize(Platform::MacOS, false),
        Ok("macOS camera system initialized with AVFoundation".to_string())
    );
    assert_eq!(
        CameraSystem::initialize(Platform::Linux, true),
        Ok("Linux camera system initialized with V4L2".to_string())
    );
    assert_eq!(
        CameraSystem::initialize(Platform::Linux, false),
        Err(CameraError::InitializationError("V4L2 not available on this system".to_string()))
    );
    assert_eq!(
        CameraSystem::initialize(Platform::Unknown, true),
        Err(CameraError::InitializationError("Unknown platform".to_string()))
    );
}

#[test]
fn error_message_names_kind_and_detail() {
    let e = CameraError::InitializationError("Unknown platform".to_string());
    assert_eq!(e.message(), "Camera initialization error: Unknown platform");
    let e = CameraError::CaptureError("x".to_string());
    assert_eq!(e.message(), "Capture error: x");
}

#[test]
fn platform_info_lists_backend_and_features() {
    let info = CameraSystem::get_platform_info(Platform::Linux).expect("platform info should succeed");
    assert_eq!(info.platform, Platform::Linux);
    assert_eq!(info.backend, "V4L2 (Video4Linux2)");
    assert_eq!(info.features.len(), 5);
    assert_eq!(info.features[0], "V4L2 interface");
    let info = CameraSystem::get_platform_info(Platform::Unknown).expect("platform info should succeed");
    assert_eq!(info.backend, "Unknown");
    assert_eq!(info.features, vec!["Limited support".to_string()]);
    let info = CameraSystem::get_platform_info(Platform::Windows).expect("platform info should succeed");
    assert_eq!(info.features.len(), 4);
    let info = CameraSystem::get_platform_info(Platform::MacOS).expect("platform info should succeed");
    assert_eq!(info.backend, "AVFoundation");
    assert_eq!(info.features[2], "FaceTime HD camera support");
}

#[test]
fn system_test_probes_only_available_cameras() {
    let cameras = vec![
        ("0".to_string(), true),
        ("1".to_string(), false),
        ("2".to_string(), true),
    ];
    let result = CameraSystem::test_system(Platform::Linux, &cameras, |id: &String| {
        if id == "0" {
            CameraTestResult::Success
        } else if id == "1" {
            panic!("unavailable camera must not be probed")
        } else {
            CameraTestResult::CaptureError("no frame".to_string())
        }
    })
    .expect("system test reports");
    assert_eq!(result.platform, Platform::Linux);
    assert_eq!(result.cameras_found, 3);
    assert_eq!(result.test_results.len(), 3);
    assert_eq!(result.test_results[0].0, "0");
    assert!(matches!(result.test_results[0].1, CameraTestResult::Success));
    assert!(matches!(result.test_results[1].1, CameraTestResult::NotAvailable));
    assert!(matches!(result.test_results[2].1, CameraTestResult::CaptureError(ref m) if m == "no frame"));
}

#[test]
fn rescan_reports_disconnections_then_connections() {
    let old = vec!["a".to_string(), "b".to_string(), "c".to_string()];
    let new = vec!["c".to_string(), "d".to_string(), "a".to_string(), "e".to_string()];
    let events = device_events(&old, &new);
    assert_eq!(
        events,
        vec![
            DeviceEvent::Disconnected("b".to_string()),
            DeviceEvent::Connected("d".to_string()),
            DeviceEvent::Connected("e".to_string()),
        ]
    );
}

#[test]
fn unchanged_rescan_raises_no_events() {
    let ids = vec!["x".to_string(), "y".to_string()];
    assert!(device_events(&ids, &ids).is_empty());
    assert!(device_events(&Vec::new(), &Vec::new()).is_empty());
}

#[test]
fn v4l2_devices_are_the_present_nodes() {
    let mut present = vec![false; 10];
    present[0] = true;
    present[3] = true;
    present[9] = true;
    let devices = list_v4l2_devices(&present).expect("listing never fails");
    assert_eq!(
        devices,
        vec!["/dev/video0".to_string(), "/dev/video3".to_string(), "/dev/video9".to_string()]
    );
    assert_eq!(list_v4l2_devices(&[false; 10]).expect("listing never fails"), Vec::<String>::new());
    assert_eq!(v4l2_device_path(7), "/dev/video7");
    assert_eq!(v4l2_device_path(12), "/dev/video12");
}

#[test]
fn device_caps_are_the_common_ones() {
    let caps = get_device_caps("/dev/video0").expect("caps");
    assert_eq!(
        caps,
        vec!["Video Capture".to_string(), "Streaming".to_string(), "Extended Controls".to_string()]
    );
}

#[test]
fn custom_white_balance_is_passed_through() {
    assert_eq!(white_balance_to_kelvin(&WhiteBalance::Custom(0)), 0);
    assert_eq!(white_balance_to_kelvin(&WhiteBalance::Custom(10000)), 10000);
}

fn all_requested() -> RequestedControls {
    RequestedControls {
        auto_focus: true,
        focus_distance: true,
        auto_exposure: true,
        exposure_time: true,
        iso_sensitivity: true,
        white_balance: true,
        aperture: true,
        zoom: true,
        brightness: true,
        contrast: true,
        saturation: true,
        sharpness: true,
        noise_reduction: true,
        image_stabilization: true,
    }
}

fn none_requested() -> RequestedControls {
    RequestedControls {
        auto_focus: false,
        focus_distance: false,
        auto_exposure: false,
        exposure_time: false,
        iso_sensitivity: false,
        white_balance: false,
        aperture: false,
        zoom: false,
        brightness: false,
        contrast: false,
        saturation: false,
        sharpness: false,
        noise_reduction: false,
        image_stabilization: false,
    }
}

#[test]
fn mock_accepts_every_requested_control() {
    let req = RequestedControls { auto_focus: true, brightness: true, ..none_requested() };
    let result = mock_apply_controls(&req);
    assert_eq!(result.applied, vec!["auto_focus".to_string(), "brightness".to_string()]);
    assert!(result.rejected.is_empty());
    assert!(result.fully_applied());
    assert_eq!(mock_apply_controls(&all_requested()).applied.len(), 14);
    assert!(mock_apply_controls(&none_requested()).applied.is_empty());
}

#[test]
fn test_apply_controls_with_no_interfaces_rejects_all_requested() {
    let controls = RequestedControls {
        auto_focus: true,
        focus_distance: true,
        auto_exposure: true,
        exposure_time: true,
        white_balance: true,
        brightness: true,
        contrast: true,
        saturation: true,
        ..none_requested()
    };
    let plan = media_foundation_control_plan(&controls);
    assert_eq!(plan.len(), 8);
    let none = MediaFoundationInterfaces { camera_control: false, video_proc_amp: false };
    let result = media_foundation_results(&controls, none, &[true; 14]);

    assert!(result.applied.is_empty());
    for name in [
        "auto_focus",
        "focus_distance",
        "auto_exposure",
        "exposure_time",
        "white_balance",
        "brightness",
        "contrast",
        "saturation",
    ] {
        assert!(result.rejected.contains(&name.to_string()));
    }
}

#[test]
fn media_foundation_reports_controls_it_cannot_set() {
    let both = MediaFoundationInterfaces { camera_control: true, video_proc_amp: true };
    let req = RequestedControls { iso_sensitivity: true, zoom: true, brightness: true, ..none_requested() };
    let result = media_foundation_results(&req, both, &[true; 14]);
    assert_eq!(result.applied, vec!["brightness".to_string()]);
    assert_eq!(result.rejected, vec!["iso_sensitivity".to_string(), "zoom".to_string()]);
    assert!(!result.fully_applied());

    let all = media_foundation_results(&all_requested(), both, &[true; 14]);
    assert_eq!(all.applied.len() + all.rejected.len(), 14);
    assert_eq!(all.applied.len(), 8);

    let mut answers = [true; 14];
    answers[8] = false;
    let refused = media_foundation_results(&req, both, &answers);
    assert!(refused.applied.is_empty());
    assert_eq!(refused.rejected.len(), 3);
}

#[test]
fn outcomes_are_split_in_order() {
    let names: Vec<String> = ["a", "b", "c", "d"].iter().map(|s| s.to_string()).collect();
    let result = partition_outcomes(&names, &[true, false, true, false]);
    assert_eq!(result.applied, vec!["a".to_string(), "c".to_string()]);
    assert_eq!(result.rejected, vec!["b".to_string(), "d".to_string()]);
}

#[test]
fn v4l2_plan_skips_manual_values_under_auto_modes() {
    let req = V4l2Request {
        brightness: true,
        contrast: false,
        saturation: false,
        sharpness: true,
        zoom: false,
        auto_focus: Some(true),
        focus_distance: true,
        auto_exposure: Some(false),
        exposure_time: true,
    };
    let plan = v4l2_control_plan(&req);
    let names: Vec<&str> = plan.iter().map(|s| s.name).collect();
    assert_eq!(names, vec!["brightness", "sharpness", "auto_focus", "auto_exposure", "exposure_time"]);
    assert_eq!(plan[2].control_id, V4L2_CID_FOCUS_AUTO);
    assert_eq!(plan[2].value, V4l2Value::Boolean(true));
    assert_eq!(plan[3].control_id, V4L2_CID_EXPOSURE_AUTO);
    assert_eq!(plan[3].value, V4l2Value::Integer(1));
    assert_eq!(plan[4].value, V4l2Value::Scaled);

    let manual_focus = V4l2Request { auto_focus: None, auto_exposure: Some(true), ..req };
    let names: Vec<&str> = v4l2_control_plan(&manual_focus).iter().map(|s| s.name).collect();
    assert_eq!(names, vec!["brightness", "sharpness", "focus_distance", "auto_exposure"]);
}

#[test]
fn test_photography_format_per_platform() {
    assert_eq!(photography_format(Platform::MacOS), Some((1920, 1080, "RGB8")));
    assert_eq!(photography_format(Platform::Windows), Some((1920, 1080, "RGB8")));
    assert_eq!(photography_format(Platform::Linux), Some((1280, 720, "YUYV")));
    assert_eq!(photography_format(Platform::Unknown), None);
}

#[test]
fn test_device_monitor_creation() {
    let monitor = MonitorSwitch::new(Platform::current("linux"));
    assert!(!monitor.is_monitoring());
}

#[test]
fn test_start_stop_monitoring() {
    let mut monitor = MonitorSwitch::new(Platform::current("linux"));

    let result = monitor.start();
    assert_eq!(result, Ok(MonitorStart::Begin));
    monitor.mark_started();
    assert!(monitor.is_monitoring());
    assert_eq!(monitor.start(), Ok(MonitorStart::AlreadyRunning));

    let stop_result = monitor.stop();
    assert!(stop_result.is_ok());
    assert!(!monitor.is_monitoring());
    assert!(monitor.stop().is_ok());
}

#[test]
fn test_monitoring_refused_on_unknown_platform() {
    let monitor = MonitorSwitch::new(Platform::Unknown);
    assert_eq!(
        monitor.start(),
        Err(CameraError::InitializationError(
            "Device monitoring not supported on this platform".to_string()
        ))
    );
}

#[test]
fn test_fourcc_format_names() {
    assert_eq!(fourcc_format_name(b"YUYV"), "YUYV");
    assert_eq!(fourcc_format_name(b"MJPG"), "MJPEG");
    assert_eq!(fourcc_format_name(b"RGB3"), "RGB");
    assert_eq!(fourcc_format_name(b"NV12"), "NV12");
    assert_eq!(fourcc_format_name(&[0xff, 0xfe, 0x00, 0x01]), "UNKNOWN");
}

#[test]
fn test_offered_formats_flatten_in_order() {
    let offers = vec![
        PixelFormatOffer {
            fourcc: *b"YUYV",
            sizes: vec![
                SizeOffer {
                    size: FrameSizeKind::Discrete { width: 640, height: 480 },
                    intervals: vec![
                        FrameIntervalKind::Discrete { numerator: 1, denominator: 30 },
                        FrameIntervalKind::Discrete { numerator: 0, denominator: 30 },
                    ],
                },
                SizeOffer {
                    size: FrameSizeKind::Stepwise { max_width: 1280, max_height: 720 },
                    intervals: vec![FrameIntervalKind::Stepwise],
                },
            ],
        },
        PixelFormatOffer { fourcc: *b"MJPG", sizes: vec![] },
        PixelFormatOffer {
            fourcc: *b"MJPG",
            sizes: vec![SizeOffer {
                size: FrameSizeKind::Discrete { width: 1920, height: 1080 },
                intervals: vec![FrameIntervalKind::Discrete { numerator: 1, denominator: 15 }],
            }],
        },
    ];
    let formats = offered_formats(&offers);
    let got: Vec<(u32, u32, Option<(u32, u32)>, String)> =
        formats.iter().map(|f| (f.width, f.height, f.interval, f.format.clone())).collect();
    assert_eq!(
        got,
        vec![
            (640, 480, Some((1, 30)), "YUYV".to_string()),
            (640, 480, None, "YUYV".to_string()),
            (1280, 720, None, "YUYV".to_string()),
            (1920, 1080, Some((1, 15)), "MJPEG".to_string()),
        ]
    );
    assert_eq!(supported_formats(&offers).len(), 4);
    assert_eq!(largest_format(&formats), Some(3));
}

#[test]
fn test_format_fallbacks_when_nothing_is_offered() {
    let offers = vec![PixelFormatOffer { fourcc: *b"YUYV", sizes: vec![] }];
    let assumed: Vec<(u32, u32, Option<(u32, u32)>, String)> = supported_formats(&offers)
        .iter()
        .map(|f| (f.width, f.height, f.interval, f.format.clone()))
        .collect();
    assert_eq!(
        assumed,
        vec![
            (1920, 1080, Some((1, 30)), "YUYV".to_string()),
            (1280, 720, Some((1, 30)), "YUYV".to_string()),
            (640, 480, Some((1, 30)), "YUYV".to_string()),
            (1920, 1080, Some((1, 15)), "MJPEG".to_string()),
            (1280, 720, Some((1, 30)), "MJPEG".to_string()),
        ]
    );
    let listed: Vec<(u32, u32, Option<(u32, u32)>, String)> = listed_formats(&vec![], "RGB8")
        .iter()
        .map(|f| (f.width, f.height, f.interval, f.format.clone()))
        .collect();
    assert_eq!(
        listed,
        vec![
            (1920, 1080, None, "RGB8".to_string()),
            (1280, 720, None, "RGB8".to_string()),
            (640, 480, None, "RGB8".to_string()),
        ]
    );
    assert_eq!(largest_format(&vec![]), None);
}

#[test]
fn test_largest_format_prefers_last_of_equals() {
    let f = |w: u32, h: u32| OfferedFormat { width: w, height: h, interval: None, format: "RGB".to_string() };
    assert_eq!(largest_format(&vec![f(1280, 720), f(720, 1280), f(640, 480)]), Some(1));
    assert_eq!(largest_format(&vec![f(640, 480)]), Some(0));
}

#[test]
fn test_v4l2_capability_flags() {
    let none = v4l2_capability_flags(None);
    assert!(none.auto_focus && !none.manual_focus && none.auto_exposure && !none.manual_exposure);
    assert!(none.white_balance && !none.zoom && !none.flash && none.burst_mode && !none.hdr);
    let ids = [0x009a090a_u32, 0x009a090d];
    let some = v4l2_capability_flags(Some(&ids));
    assert!(some.manual_focus && some.zoom);
    assert!(!some.auto_focus && !some.auto_exposure && !some.manual_exposure);
    assert!(some.white_balance && some.burst_mode);
}

#[test]
fn test_v4l2_control_ids_and_device_ids() {
    assert_eq!(v4l2_control_id("brightness"), Ok(0x00980900));
    assert_eq!(v4l2_control_id("hue"), Ok(0x00980903));
    assert_eq!(v4l2_control_id("gamma"), Ok(0x00980910));
    assert_eq!(v4l2_control_id("sharpness"), Ok(0x0098091b));
    assert_eq!(
        v4l2_control_id("zoom"),
        Err(CameraError::InitializationError("Unsupported control: zoom".to_string()))
    );
    assert_eq!(device_index("3"), 3);
    assert_eq!(device_index("+7"), 7);
    assert_eq!(device_index("cam"), 0);
    assert_eq!(camera_index("2"), Ok(2));
    assert_eq!(
        camera_index("not-a-number"),
        Err(CameraError::InitializationError("Invalid device ID".to_string()))
    );
    assert_eq!(
        camera_index("4294967296"),
        Err(CameraError::InitializationError("Invalid device ID".to_string()))
    );
}

#[test]
fn test_get_controls_and_capabilities_without_interfaces() {
    // The control values themselves are floating point and live outside the
    // library; the capabilities are checked here.
    let caps = media_foundation_capability_flags(MediaFoundationSupport {
        camera_control: false,
        focus: true,
        exposure: true,
        zoom: true,
        video_proc_amp: false,
        white_balance: true,
    });
    assert!(!caps.auto_focus);
    assert!(!caps.manual_focus);
    assert!(!caps.auto_exposure);
    assert!(!caps.manual_exposure);
    assert!(!caps.white_balance);
    assert!(!caps.zoom);
    assert!(caps.burst_mode);
}

#[test]
fn test_media_foundation_capabilities_follow_support() {
    let caps = media_foundation_capability_flags(MediaFoundationSupport {
        camera_control: true,
        focus: true,
        exposure: false,
        zoom: true,
        video_proc_amp: true,
        white_balance: true,
    });
    assert!(caps.auto_focus && caps.manual_focus && caps.zoom && caps.white_balance);
    assert!(!caps.auto_exposure && !caps.manual_exposure && !caps.flash && !caps.hdr);
}

#[test]
fn a_camera_falls_back_to_its_own_mode_when_its_device_has_none() {
    let mut registry = MockModeRegistry::new();
    assert_eq!(registry.mode_or("cam", MockCaptureMode::SlowCapture), MockCaptureMode::SlowCapture);
    registry.set("cam", MockCaptureMode::Failure);
    assert_eq!(registry.mode_or("cam", MockCaptureMode::SlowCapture), MockCaptureMode::Failure);
    assert_eq!(registry.mode_or("other", MockCaptureMode::Success), MockCaptureMode::Success);
}
