//! Core camera types: platforms, frames, controls and capability flags.

use vstd::prelude::*;

verus! {

broadcast use vstd::string::to_string_from_display_ensures_for_str;

// ---------------------------------------------------------------------------
// Outside types and calls
// ---------------------------------------------------------------------------

/// `chrono::Utc::now().timestamp_millis()`: the current wall-clock time in
/// milliseconds since the Unix epoch. Nothing is stated of the value, which
/// depends on the system clock.
#[verifier::external_body]
pub(crate) fn utc_now_millis() -> (t: i64) {
    chrono::Utc::now().timestamp_millis()
}

/// The shape of a hyphenated UUID string: 36 characters, hyphens at positions
/// 8, 13, 18 and 23, lowercase hexadecimal digits elsewhere.
pub open spec fn is_hyphenated_uuid(s: Seq<char>) -> bool {
    &&& s.len() == 36
    &&& forall|i: int|
        0 <= i < 36 ==> if i == 8 || i == 13 || i == 18 || i == 23 {
            s[i] == '-'
        } else {
            ('0' <= #[trigger] s[i] <= '9') || ('a' <= s[i] <= 'f')
        }
}

/// `uuid::Uuid::new_v4().to_string()`: a random version 4 UUID rendered by its
/// `Display` impl, which writes the lowercase hyphenated form. The contract
/// states that shape; the digits are random and not stated.
#[verifier::external_body]
pub(crate) fn new_uuid_string() -> (s: String)
    ensures
        is_hyphenated_uuid(s@),
{
    uuid::Uuid::new_v4().to_string()
}

/// Default capture width.
pub const DEFAULT_RESOLUTION_WIDTH: u32 = 1920;
/// Default capture height.
pub const DEFAULT_RESOLUTION_HEIGHT: u32 = 1080;
/// Capture width used when the default is not available.
pub const FALLBACK_RESOLUTION_WIDTH: u32 = 1280;
/// Capture height used when the default is not available.
pub const FALLBACK_RESOLUTION_HEIGHT: u32 = 720;
/// Smallest capture width accepted.
pub const MIN_RESOLUTION_WIDTH: u32 = 640;
/// Smallest capture height accepted.
pub const MIN_RESOLUTION_HEIGHT: u32 = 480;

/// `str` equality, by way of `String` equality (which vstd specifies).
pub(crate) fn str_equals(a: &str, b: &str) -> (r: bool)
    ensures
        r == (a@ == b@),
{
    let x = a.to_string();
    let y = b.to_string();
    x == y
}

// ---------------------------------------------------------------------------
// Platform
// ---------------------------------------------------------------------------

/// Platform enumeration
#[derive(Debug, Clone, Copy, PartialEq, Eq, Structural)]
pub enum Platform {
    /// Windows OS.
    Windows,
    /// Apple macOS.
    MacOS,
    /// Linux OS.
    Linux,
    /// Unknown or unsupported platform.
    Unknown,
}

/// The lowercase name of a platform.
pub open spec fn platform_name(p: Platform) -> Seq<char> {
    match p {
        Platform::Windows => "windows"@,
        Platform::MacOS => "macos"@,
        Platform::Linux => "linux"@,
        Platform::Unknown => "unknown"@,
    }
}

/// The platform a target operating system name (as Rust's `target_os` spells
/// it) denotes.
pub open spec fn platform_of_os(os: Seq<char>) -> Platform {
    if os == "windows"@ {
        Platform::Windows
    } else if os == "macos"@ {
        Platform::MacOS
    } else if os == "linux"@ {
        Platform::Linux
    } else {
        Platform::Unknown
    }
}

impl Platform {
    /// Detect the platform from the name of the operating system the program
    /// was built for (`std::env::consts::OS`).
    pub fn current(target_os: &str) -> (p: Platform)
        ensures
            p == platform_of_os(target_os@),
    {
        if str_equals(target_os, "windows") {
            Platform::Windows
        } else if str_equals(target_os, "macos") {
            Platform::MacOS
        } else if str_equals(target_os, "linux") {
            Platform::Linux
        } else {
            Platform::Unknown
        }
    }

    /// Get platform as string
    pub fn as_str(&self) -> (s: &'static str)
        ensures
            s@ == platform_name(*self),
    {
        match self {
            Platform::Windows => "windows",
            Platform::MacOS => "macos",
            Platform::Linux => "linux",
            Platform::Unknown => "unknown",
        }
    }
}

/// A platform's name names it back.
pub proof fn lemma_platform_name_roundtrip(p: Platform)
    ensures
        platform_of_os(platform_name(p)) == p,
{
    reveal_strlit("windows");
    reveal_strlit("macos");
    reveal_strlit("linux");
    reveal_strlit("unknown");
    assert("macos"@.len() != "windows"@.len());
    assert("linux"@.len() != "windows"@.len() && "linux"@[0] != "macos"@[0]);
    assert("unknown"@[0] != "windows"@[0] && "unknown"@.len() != "macos"@.len()
        && "unknown"@.len() != "linux"@.len());
}

// ---------------------------------------------------------------------------
// Frames
// ---------------------------------------------------------------------------

/// Pixel format name of packed 8-bit RGB frames.
pub open spec fn rgb8_name() -> Seq<char> {
    "RGB8"@
}

/// Camera frame data with metadata
#[derive(Debug, Clone)]
pub struct CameraFrame {
    /// Unique identifier for the frame (UUID).
    pub id: String,
    /// Raw pixel data.
    pub data: Vec<u8>,
    /// Frame width in pixels.
    pub width: u32,
    /// Frame height in pixels.
    pub height: u32,
    /// Format identifier.
    pub format: String,
    /// Capture timestamp, in milliseconds since the Unix epoch (UTC).
    pub timestamp: i64,
    /// ID of the source device.
    pub device_id: String,
    /// Size of the data buffer in bytes.
    pub size_bytes: usize,
}

impl CameraFrame {
    /// Create new camera frame
    pub fn new(data: Vec<u8>, width: u32, height: u32, device_id: String) -> (f: Self)
        ensures
            f.data@ == data@,
            f.width == width,
            f.height == height,
            f.device_id@ == device_id@,
            f.size_bytes == data@.len(),
            f.format@ == rgb8_name(),
            is_hyphenated_uuid(f.id@),
    {
        let size_bytes = data.len();
        Self {
            id: new_uuid_string(),
            data,
            width,
            height,
            format: "RGB8".to_string(),
            timestamp: utc_now_millis(),
            device_id,
            size_bytes,
        }
    }

    /// Set format
    pub fn with_format(self, format: String) -> (f: Self)
        ensures
            f == (Self { format, ..self }),
    {
        let mut s = self;
        s.format = format;
        s
    }

    /// Check if frame is valid
    pub fn is_valid(&self) -> (b: bool)
        ensures
            b == (self.data@.len() > 0 && self.width > 0 && self.height > 0),
    {
        self.data.len() > 0 && self.width > 0 && self.height > 0
    }
}

// ---------------------------------------------------------------------------
// Controls
// ---------------------------------------------------------------------------

/// Reports which controls were accepted vs. rejected by hardware after a `set_camera_controls` call.
///
/// A `rejected` entry means the hardware driver declined the setting (unsupported control,
/// out-of-range value, or a read-only register). The overall `Result` is still `Ok` because
/// partial application is a normal condition on heterogeneous camera hardware.
#[derive(Debug, Clone)]
pub struct ControlApplicationResult {
    /// Names of controls successfully written to hardware.
    pub applied: Vec<String>,
    /// Names of controls the hardware rejected or does not support.
    pub rejected: Vec<String>,
}

impl ControlApplicationResult {
    /// Returns `true` if every requested control was accepted by the hardware.
    pub fn fully_applied(&self) -> (b: bool)
        ensures
            b == (self.rejected@.len() == 0),
    {
        self.rejected.len() == 0
    }
}

/// White balance presets.
#[derive(Debug, Clone, Copy, PartialEq, Eq, Structural)]
pub enum WhiteBalance {
    /// Automatic white balance.
    Auto,
    /// Daylight preset (approx 5000K-6500K).
    Daylight,
    /// Fluorescent light preset (approx 4000K-5000K).
    Fluorescent,
    /// Incandescent/Tungsten light preset (approx 2500K-3000K).
    Incandescent,
    /// Flash preset.
    Flash,
    /// Cloudy sky preset (approx 6500K-8000K).
    Cloudy,
    /// Shade preset (approx 8000K+).
    Shade,
    /// Custom color temperature in Kelvin (e.g. 5000).
    Custom(u32),
}

/// Boolean hardware-capability flags of a camera.
#[derive(Debug, Clone, Copy, PartialEq, Eq, Structural)]
pub struct CameraCapabilityFlags {
    /// Supports auto-focus.
    pub auto_focus: bool,
    /// Supports manual focus.
    pub manual_focus: bool,
    /// Supports auto-exposure.
    pub auto_exposure: bool,
    /// Supports manual exposure.
    pub manual_exposure: bool,
    /// Supports white balance adjustment.
    pub white_balance: bool,
    /// Supports zoom (optical or digital).
    pub zoom: bool,
    /// Supports flash.
    pub flash: bool,
    /// Supports burst mode capture.
    pub burst_mode: bool,
    /// Supports HDR mode.
    pub hdr: bool,
}

impl Default for CameraCapabilityFlags {
    fn default() -> (f: Self)
        ensures
            !f.auto_focus && !f.manual_focus && !f.auto_exposure && !f.manual_exposure
                && !f.white_balance && !f.zoom && !f.flash && !f.burst_mode && !f.hdr,
    {
        Self {
            auto_focus: false,
            manual_focus: false,
            auto_exposure: false,
            manual_exposure: false,
            white_balance: false,
            zoom: false,
            flash: false,
            burst_mode: false,
            hdr: false,
        }
    }
}

} // verus!
