use crabcamera::errors::CameraError;
use crabcamera::platform::manager::{
    reconnect_backoff_ms, CameraRegistry, CaptureSession, ReconnectDecision, ReconnectSchedule,
    SessionAction, SessionEvent, SessionPhase,
};
use crabcamera::platform::metrics::{resident_pages_from_statm, CaptureCounters};
use crabcamera::platform::mock::{create_mock_frame, MockCaptureMode, MockModeRegistry};
use crabcamera::types::CameraFrame;
use crabcamera::platform::manager::{reconnect, Reconnection};
use std::cell::RefCell;
use crabcamera::platform::devices::{distinct_cameras, rescan_devices, DeviceEvent};
use crabcamera::platform::table::DeviceTable;
use std::sync::Arc;

/// Drive a capture session against mock cameras whose behaviour the mode
/// table decides; opening a camera always succeeds, as for the mock camera.
fn drive_capture(
    modes: &MockModeRegistry,
    registry: &mut CameraRegistry<Arc<String>>,
    device_id: &str,
    max_reconnect_attempts: u32,
) -> (Result<CameraFrame, CameraError>, u32) {
    let mut session = CaptureSession::new();
    let mut attempts_made = 0;
    let mut frame = None;
    if registry.get_existing(device_id).is_none() {
        registry.register(device_id, Arc::new(device_id.to_string()));
    }
    let mut event = SessionEvent::CameraReady;
    loop {
        event = match session.step(event) {
            SessionAction::Capture => match modes.get(device_id) {
                MockCaptureMode::Failure => SessionEvent::CaptureFailed(CameraError::CaptureError(
                    "Mock capture failure".to_string(),
                )),
                _ => {
                    frame = Some(create_mock_frame(device_id));
                    SessionEvent::Captured
                }
            },
            SessionAction::Reconnect => {
                let _ = registry.release(device_id);
                let mut schedule = ReconnectSchedule::new(max_reconnect_attempts, 100, 2000);
                match schedule.next() {
                    ReconnectDecision::Attempt { .. } => {
                        attempts_made += 1;
                        registry.register(device_id, Arc::new(device_id.to_string()));
                        SessionEvent::CameraReady
                    }
                    ReconnectDecision::GiveUp(e) => SessionEvent::CameraFailed(e),
                }
            }
            SessionAction::ReturnFrame => return (Ok(frame.unwrap()), attempts_made),
            SessionAction::ReturnError(e) => return (Err(e), attempts_made),
        };
    }
}

#[test]
fn test_get_or_create_and_get_existing_and_release() {
    let mut registry: CameraRegistry<Arc<String>> = CameraRegistry::new();
    let device_id = "mgr-dev-1";

    let cam1 = Arc::new(device_id.to_string());
    registry.register(device_id, cam1.clone());
    let cam2 = registry.get_existing(device_id).expect("camera should be reused").clone();
    assert!(Arc::ptr_eq(&cam1, &cam2));

    let existing = registry.get_existing(device_id).expect("camera should exist in registry");
    assert!(Arc::ptr_eq(&cam1, existing));

    let (taken, msg) = registry.release(device_id);
    assert!(taken.is_some());
    assert!(msg.contains("released"));
    assert_eq!(msg, "Camera mgr-dev-1 released");

    assert!(registry.get_existing(device_id).is_none());
}

#[test]
fn test_release_missing_camera_is_ok() {
    let mut registry: CameraRegistry<Arc<String>> = CameraRegistry::new();
    let (taken, msg) = registry.release("definitely-missing");
    assert!(taken.is_none());
    assert!(msg.contains("No active camera"));
    assert_eq!(msg, "No active camera found with ID: definitely-missing");
}

#[test]
fn test_reconnect_camera_success() {
    let mut registry: CameraRegistry<Arc<String>> = CameraRegistry::new();
    let device_id = "mgr-dev-2";
    registry.register(device_id, Arc::new("old".to_string()));

    let fresh = Arc::new("new".to_string());
    let stopped = RefCell::new(Vec::new());
    let result = reconnect(
        &mut registry,
        device_id,
        2,
        100,
        2000,
        |old: Arc<String>| stopped.borrow_mut().push(old.to_string()),
        |_, _| Some(fresh.clone()),
    );
    assert_eq!(result, Ok(()));
    assert_eq!(stopped.into_inner(), vec!["old".to_string()]);

    let existing = registry.get_existing(device_id).expect("camera should exist after reconnect");
    assert!(Arc::ptr_eq(&fresh, existing));
}

#[test]
fn reconnect_retries_with_backoff_until_a_camera_opens() {
    let mut registry: CameraRegistry<u32> = CameraRegistry::new();
    registry.register("other", 7);
    let calls = RefCell::new(Vec::new());
    let result = reconnect(&mut registry, "cam", 5, 100, 2000, |_: u32| {}, |attempt, wait_ms| {
        calls.borrow_mut().push((attempt, wait_ms));
        if attempt == 3 {
            Some(30)
        } else {
            None
        }
    });
    assert_eq!(result, Ok(()));
    assert_eq!(calls.into_inner(), vec![(1, 0), (2, 100), (3, 200)]);
    assert_eq!(registry.get_existing("cam"), Some(&30));
    assert_eq!(registry.get_existing("other"), Some(&7));
}

#[test]
fn reconnect_gives_up_after_the_allowed_attempts() {
    let mut registry: CameraRegistry<u32> = CameraRegistry::new();
    registry.register("cam", 1);
    registry.register("other", 7);
    let calls = RefCell::new(Vec::new());
    let result = reconnect(&mut registry, "cam", 3, 100, 150, |_: u32| {}, |attempt, wait_ms| {
        calls.borrow_mut().push((attempt, wait_ms));
        None
    });
    assert_eq!(
        result,
        Err(CameraError::ConnectionError("Failed to reconnect camera after 3 attempts".to_string()))
    );
    assert_eq!(calls.into_inner(), vec![(1, 0), (2, 100), (3, 150)]);
    assert_eq!(registry.get_existing("cam"), None);
    assert_eq!(registry.get_existing("other"), Some(&7));

    let result = reconnect(&mut registry, "other", 0, 100, 2000, |_: u32| {}, |_, _| Some(9));
    assert_eq!(
        result,
        Err(CameraError::ConnectionError("Failed to reconnect camera after 0 attempts".to_string()))
    );
    assert_eq!(registry.get_existing("other"), None);
}

#[test]
fn test_capture_with_reconnect_success() {
    let mut modes = MockModeRegistry::new();
    let mut registry: CameraRegistry<Arc<String>> = CameraRegistry::new();
    let device_id = "mgr-cap-ok";
    modes.set(device_id, MockCaptureMode::Success);

    let (result, attempts) = drive_capture(&modes, &mut registry, device_id, 1);
    let frame = result.expect("capture should succeed");

    assert_eq!(frame.device_id, device_id);
    assert!(frame.width > 0);
    assert!(frame.height > 0);
    assert_eq!(attempts, 0);
}

#[test]
fn test_capture_with_reconnect_failure_after_retries() {
    let mut modes = MockModeRegistry::new();
    let mut registry: CameraRegistry<Arc<String>> = CameraRegistry::new();
    let device_id = "mgr-cap-fail";
    modes.set(device_id, MockCaptureMode::Failure);

    let (result, attempts) = drive_capture(&modes, &mut registry, device_id, 1);
    let err = result.expect_err("capture should fail in persistent failure mode");

    assert!(matches!(err, CameraError::CaptureError(_)));
    assert_eq!(attempts, 1);
    assert_eq!(
        err,
        CameraError::CaptureError(
            "Capture failed after reconnection: Capture error: Mock capture failure".to_string()
        )
    );
}

#[test]
fn test_capture_without_reconnect_attempts_gives_connection_error() {
    let mut modes = MockModeRegistry::new();
    let mut registry: CameraRegistry<Arc<String>> = CameraRegistry::new();
    modes.set("no-retry", MockCaptureMode::Failure);
    let (result, attempts) = drive_capture(&modes, &mut registry, "no-retry", 0);
    assert_eq!(attempts, 0);
    assert_eq!(
        result.expect_err("no attempt is allowed"),
        CameraError::ConnectionError("Failed to reconnect camera after 0 attempts".to_string())
    );
}

#[test]
fn test_session_steps_and_phases() {
    let mut session = CaptureSession::new();
    assert_eq!(session.phase(), SessionPhase::Opening);
    let err = CameraError::ConnectionError("gone".to_string());
    assert_eq!(
        session.step(SessionEvent::CameraFailed(err.clone())),
        SessionAction::ReturnError(err)
    );
    assert_eq!(session.phase(), SessionPhase::Done);

    let mut session = CaptureSession::new();
    assert_eq!(session.step(SessionEvent::CameraReady), SessionAction::Capture);
    assert_eq!(
        session.step(SessionEvent::CaptureFailed(CameraError::CaptureError("x".to_string()))),
        SessionAction::Reconnect
    );
    assert_eq!(session.phase(), SessionPhase::Reconnecting);
    assert_eq!(session.step(SessionEvent::CameraReady), SessionAction::Capture);
    assert_eq!(session.phase(), SessionPhase::Recapture);
    assert_eq!(session.step(SessionEvent::Captured), SessionAction::ReturnFrame);
    assert_eq!(session.phase(), SessionPhase::Done);
}

#[test]
fn test_reconnect_schedule_backs_off_then_gives_up() {
    let mut schedule = ReconnectSchedule::new(4, 100, 250);
    assert_eq!(schedule.next(), ReconnectDecision::Attempt { attempt: 1, wait_ms: 0 });
    assert_eq!(schedule.next(), ReconnectDecision::Attempt { attempt: 2, wait_ms: 100 });
    assert_eq!(schedule.next(), ReconnectDecision::Attempt { attempt: 3, wait_ms: 200 });
    assert_eq!(schedule.next(), ReconnectDecision::Attempt { attempt: 4, wait_ms: 250 });
    assert_eq!(
        schedule.next(),
        ReconnectDecision::GiveUp(CameraError::ConnectionError(
            "Failed to reconnect camera after 4 attempts".to_string()
        ))
    );
}

#[test]
fn test_reconnect_backoff_doubles_up_to_cap() {
    assert_eq!(reconnect_backoff_ms(1, 100, 5000), 100);
    assert_eq!(reconnect_backoff_ms(2, 100, 5000), 200);
    assert_eq!(reconnect_backoff_ms(3, 100, 5000), 400);
    assert_eq!(reconnect_backoff_ms(6, 100, 5000), 3200);
    assert_eq!(reconnect_backoff_ms(7, 100, 5000), 5000);
    assert_eq!(reconnect_backoff_ms(4_000_000_000, 100, 5000), 5000);
    assert_eq!(reconnect_backoff_ms(70, 1, u64::MAX), u64::MAX);
    assert_eq!(reconnect_backoff_ms(3, 0, 5000), 0);
    assert_eq!(reconnect_backoff_ms(1, 7000, 5000), 5000);
}

#[test]
fn test_capture_counters() {
    let mut c = CaptureCounters::new();
    assert!(!c.record_capture(false));
    assert_eq!(c.frames_captured, 1);
    assert_eq!(c.buffer_overruns, 0);
    assert!(c.record_capture(true));
    assert!(!c.record_capture(false));
    assert_eq!(c.frames_captured, 3);
    assert_eq!(c.buffer_overruns, 1);
    c.record_drop();
    c.record_drop();
    assert_eq!(c.dropped_frames, 2);
    assert_eq!(c.frames_captured, 3);
}

#[test]
fn test_statm_resident_pages() {
    assert_eq!(resident_pages_from_statm("1234 567 89 10 0 200 0\n"), Some(567));
    assert_eq!(resident_pages_from_statm("  1234\t\t+42  "), Some(42));
    assert_eq!(resident_pages_from_statm("1234"), None);
    assert_eq!(resident_pages_from_statm(""), None);
    assert_eq!(resident_pages_from_statm("1 x2 3"), None);
    assert_eq!(resident_pages_from_statm("1 + 3"), None);
    assert_eq!(resident_pages_from_statm("1 -5 3"), None);
    assert_eq!(resident_pages_from_statm("1 18446744073709551615"), Some(u64::MAX));
    assert_eq!(resident_pages_from_statm("1 18446744073709551616"), None);
    assert_eq!(resident_pages_from_statm("1\u{3000}77"), Some(77));
}

#[test]
fn reconnection_registers_the_camera_that_opens() {
    let mut registry: CameraRegistry<u32> = CameraRegistry::new();
    registry.register("cam", 1);
    registry.register("other", 7);
    let (mut r, old, first) = Reconnection::start(&mut registry, "cam", 2, 100, 2000);
    assert_eq!(old, Some(1));
    assert_eq!(registry.get_existing("cam"), None);
    assert_eq!(first, ReconnectDecision::Attempt { attempt: 1, wait_ms: 0 });
    assert_eq!(r.attempt_failed(), ReconnectDecision::Attempt { attempt: 2, wait_ms: 100 });
    r.connected(&mut registry, 2);
    assert_eq!(registry.get_existing("cam"), Some(&2));
    assert_eq!(registry.get_existing("other"), Some(&7));
}

#[test]
fn reconnection_gives_up_and_leaves_no_camera() {
    let mut registry: CameraRegistry<u32> = CameraRegistry::new();
    registry.register("cam", 1);
    let (mut r, _, first) = Reconnection::start(&mut registry, "cam", 1, 100, 2000);
    assert_eq!(first, ReconnectDecision::Attempt { attempt: 1, wait_ms: 0 });
    assert_eq!(
        r.attempt_failed(),
        ReconnectDecision::GiveUp(CameraError::ConnectionError(
            "Failed to reconnect camera after 1 attempts".to_string()
        ))
    );
    assert_eq!(registry.get_existing("cam"), None);

    let (_, _, none) = Reconnection::start(&mut registry, "cam", 0, 100, 2000);
    assert_eq!(
        none,
        ReconnectDecision::GiveUp(CameraError::ConnectionError(
            "Failed to reconnect camera after 0 attempts".to_string()
        ))
    );
}

#[test]
fn rescan_replaces_the_known_devices() {
    let mut known: DeviceTable<u32> = DeviceTable::new();
    rescan_devices(&mut known, vec![("a".to_string(), 1), ("b".to_string(), 2)]);
    let events = rescan_devices(&mut known, vec![("b".to_string(), 20), ("c".to_string(), 3)]);
    assert_eq!(
        events,
        vec![DeviceEvent::Disconnected("a".to_string()), DeviceEvent::Connected("c".to_string())]
    );
    assert_eq!(known.get("a"), None);
    assert_eq!(known.get("b"), Some(&20));
    assert_eq!(known.get("c"), Some(&3));
    assert_eq!(known.ids(), vec!["b".to_string(), "c".to_string()]);
}

#[test]
fn cameras_seen_by_two_backends_are_listed_once() {
    let names: Vec<String> =
        ["Webcam", "OBS Virtual Camera", "Webcam", "Capture"].iter().map(|s| s.to_string()).collect();
    assert_eq!(distinct_cameras(&names), Ok(vec![0, 1, 3]));
    assert_eq!(
        distinct_cameras(&vec![]),
        Err(CameraError::InitializationError("No cameras found on any backend".to_string()))
    );
}
