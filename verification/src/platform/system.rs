//! Platform-specific camera system functions.

use vstd::prelude::*;
use crate::errors::CameraError;
use crate::types::Platform;

verus! {

broadcast use vstd::string::to_string_from_display_ensures_for_str;

/// Platform information structure
#[derive(Debug, Clone)]
pub struct PlatformInfo {
    /// The operating system platform.
    pub platform: Platform,
    /// The camera backend in use (e.g. "`MediaFoundation`", "V4L2").
    pub backend: String,
    /// List of supported camera features.
    pub features: Vec<String>,
}

/// Individual camera test result
#[derive(Debug, Clone)]
pub enum CameraTestResult {
    /// Camera passed all tests
    Success,
    /// Initialization failed
    InitError(String),
    /// Capture failed during test
    CaptureError(String),
    /// Camera not available or busy
    NotAvailable,
}

/// System test result
#[derive(Debug, Clone)]
pub struct SystemTestResult {
    /// The operating system platform.
    pub platform: Platform,
    /// Number of cameras detected.
    pub cameras_found: usize,
    /// Detailed results of camera tests.
    pub test_results: Vec<(String, CameraTestResult)>,
}

/// The message of a successful initialization, or the reason it fails.
pub open spec fn initialize_outcome(platform: Platform, v4l2_available: bool) -> Result<
    Seq<char>,
    Seq<char>,
> {
    match platform {
        Platform::Windows => Ok(
            "Windows camera system initialized with DirectShow/MediaFoundation"@,
        ),
        Platform::MacOS => Ok("macOS camera system initialized with AVFoundation"@),
        Platform::Linux => if v4l2_available {
            Ok("Linux camera system initialized with V4L2"@)
        } else {
            Err("V4L2 not available on this system"@)
        },
        Platform::Unknown => Err("Unknown platform"@),
    }
}

/// The camera backend of a platform.
pub open spec fn backend_name(platform: Platform) -> Seq<char> {
    match platform {
        Platform::Windows => "DirectShow/MediaFoundation"@,
        Platform::MacOS => "AVFoundation"@,
        Platform::Linux => "V4L2 (Video4Linux2)"@,
        Platform::Unknown => "Unknown"@,
    }
}

/// The camera features a platform offers.
pub open spec fn platform_features(platform: Platform) -> Seq<Seq<char>> {
    match platform {
        Platform::Windows => seq![
            "Hardware acceleration"@,
            "DirectShow filters"@,
            "Windows Media Foundation"@,
            "USB and integrated cameras"@,
        ],
        Platform::MacOS => seq![
            "AVFoundation framework"@,
            "Hardware acceleration"@,
            "FaceTime HD camera support"@,
            "USB and integrated cameras"@,
            "Advanced color management"@,
        ],
        Platform::Linux => seq![
            "V4L2 interface"@,
            "USB UVC cameras"@,
            "Hardware controls"@,
            "Multiple pixel formats"@,
            "Device-specific extensions"@,
        ],
        Platform::Unknown => seq!["Limited support"@],
    }
}

/// The strings of `v` are the sequences of `s`, in order.
pub open spec fn strings_are(v: Seq<String>, s: Seq<Seq<char>>) -> bool {
    &&& v.len() == s.len()
    &&& forall|i: int| 0 <= i < v.len() ==> #[trigger] v[i]@ == s[i]
}

/// Owned copies of the given string literals, in order.
fn owned_strings(items: &[&str]) -> (v: Vec<String>)
    ensures
        v@.len() == items@.len(),
        forall|i: int| 0 <= i < v@.len() ==> #[trigger] v@[i]@ == items@[i]@,
{
    let mut v: Vec<String> = Vec::new();
    let mut i: usize = 0;
    while i < items.len()
        invariant
            i <= items@.len(),
            v@.len() == i,
            forall|k: int| 0 <= k < i ==> #[trigger] v@[k]@ == items@[k]@,
        decreases items@.len() - i,
    {
        v.push(items[i].to_string());
        i += 1;
    }
    v
}

/// Platform-specific camera system functions
pub struct CameraSystem;

impl CameraSystem {
    /// Initialize the camera system for `platform`; on Linux, `v4l2_available`
    /// says whether a V4L2 device node is present.
    pub fn initialize(platform: Platform, v4l2_available: bool) -> (r: Result<String, CameraError>)
        ensures
            match initialize_outcome(platform, v4l2_available) {
                Ok(msg) => r matches Ok(s) && s@ == msg,
                Err(msg) => r matches Err(CameraError::InitializationError(s)) && s@ == msg,
            },
    {
        match platform {
            Platform::Windows => Ok(
                "Windows camera system initialized with DirectShow/MediaFoundation".to_string(),
            ),
            Platform::MacOS => Ok("macOS camera system initialized with AVFoundation".to_string()),
            Platform::Linux => {
                if v4l2_available {
                    Ok("Linux camera system initialized with V4L2".to_string())
                } else {
                    Err(
                        CameraError::InitializationError(
                            "V4L2 not available on this system".to_string(),
                        ),
                    )
                }
            },
            Platform::Unknown => Err(
                CameraError::InitializationError("Unknown platform".to_string()),
            ),
        }
    }

    /// Get platform-specific information
    pub fn get_platform_info(platform: Platform) -> (r: Result<PlatformInfo, CameraError>)
        ensures
            r matches Ok(info) && info.platform == platform && info.backend@ == backend_name(
                platform,
            ) && strings_are(info.features@, platform_features(platform)),
    {
        let backend = match platform {
            Platform::Windows => "DirectShow/MediaFoundation",
            Platform::MacOS => "AVFoundation",
            Platform::Linux => "V4L2 (Video4Linux2)",
            Platform::Unknown => "Unknown",
        };
        let features = match platform {
            Platform::Windows => owned_strings(
                &[
                    "Hardware acceleration",
                    "DirectShow filters",
                    "Windows Media Foundation",
                    "USB and integrated cameras",
                ],
            ),
            Platform::MacOS => owned_strings(
                &[
                    "AVFoundation framework",
                    "Hardware acceleration",
                    "FaceTime HD camera support",
                    "USB and integrated cameras",
                    "Advanced color management",
                ],
            ),
            Platform::Linux => owned_strings(
                &[
                    "V4L2 interface",
                    "USB UVC cameras",
                    "Hardware controls",
                    "Multiple pixel formats",
                    "Device-specific extensions",
                ],
            ),
            Platform::Unknown => owned_strings(&["Limited support"]),
        };
        let info = PlatformInfo { platform, backend: backend.to_string(), features };
        proof {
            assert(strings_are(info.features@, platform_features(platform)));
        }
        Ok(info)
    }

    /// Test camera system functionality: each camera `(id, is_available)` is
    /// probed with `probe` (initialize it and capture a frame) when it is
    /// available, and reported `NotAvailable` otherwise.
    pub fn test_system<F: Fn(&String) -> CameraTestResult>(
        platform: Platform,
        cameras: &Vec<(String, bool)>,
        probe: F,
    ) -> (r: Result<SystemTestResult, CameraError>)
        requires
            forall|id: &String| #[trigger] probe.requires((id,)),
        ensures
            r matches Ok(t) && {
                &&& t.platform == platform
                &&& t.cameras_found == cameras@.len()
                &&& t.test_results@.len() == cameras@.len()
                &&& forall|i: int|
                    0 <= i < cameras@.len() ==> {
                        &&& (#[trigger] t.test_results@[i]).0@ == cameras@[i].0@
                        &&& !cameras@[i].1 ==> t.test_results@[i].1 is NotAvailable
                        &&& cameras@[i].1 ==> probe.ensures(
                            (&cameras@[i].0,),
                            t.test_results@[i].1,
                        )
                    }
            },
    {
        let mut test_results: Vec<(String, CameraTestResult)> = Vec::new();
        let mut i: usize = 0;
        while i < cameras.len()
            invariant
                i <= cameras@.len(),
                forall|id: &String| #[trigger] probe.requires((id,)),
                test_results@.len() == i,
                forall|k: int|
                    0 <= k < i ==> {
                        &&& (#[trigger] test_results@[k]).0@ == cameras@[k].0@
                        &&& !cameras@[k].1 ==> test_results@[k].1 is NotAvailable
                        &&& cameras@[k].1 ==> probe.ensures((&cameras@[k].0,), test_results@[k].1)
                    },
            decreases cameras@.len() - i,
        {
            let (id, available) = (&cameras[i].0, cameras[i].1);
            let result = if available {
                probe(id)
            } else {
                CameraTestResult::NotAvailable
            };
            test_results.push((id.clone(), result));
            i += 1;
        }
        Ok(SystemTestResult { platform, cameras_found: cameras.len(), test_results })
    }
}

/// The width, height and pixel format recommended for photography on a
/// platform: full HD RGB8 where the backend handles high resolutions well,
/// HD YUYV on Linux's V4L2; none for an unknown platform, which keeps the
/// standard format.
pub open spec fn photography_format_of(platform: Platform) -> Option<(u32, u32, Seq<char>)> {
    match platform {
        Platform::MacOS | Platform::Windows => Some((1920u32, 1080u32, "RGB8"@)),
        Platform::Linux => Some((1280u32, 720u32, "YUYV"@)),
        Platform::Unknown => None,
    }
}

/// Get recommended resolution and pixel format for high-quality photography
/// on a platform.
pub fn photography_format(platform: Platform) -> (r: Option<(u32, u32, &'static str)>)
    ensures
        r matches Some(f) ==> photography_format_of(platform) == Some((f.0, f.1, f.2@)),
        r is None <==> photography_format_of(platform) is None,
{
    match platform {
        Platform::MacOS | Platform::Windows => Some((1920, 1080, "RGB8")),
        Platform::Linux => Some((1280, 720, "YUYV")),
        Platform::Unknown => None,
    }
}

} // verus!
