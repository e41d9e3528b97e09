//! Camera control values as device drivers take them.

use vstd::prelude::*;
use crate::types::{CameraCapabilityFlags, ControlApplicationResult, WhiteBalance};

verus! {

/// Control range information for normalization
#[derive(Debug, Clone, Copy, PartialEq, Eq, Structural)]
pub struct ControlRange {
    /// Minimum allowed value
    pub min: i32,
    /// Maximum allowed value
    pub max: i32,
    /// Step size (granularity)
    pub step: i32,
    /// Default factory value
    pub default: i32,
}

/// The colour temperature, in Kelvin, a white balance preset asks for; -1
/// asks for automatic white balance.
pub open spec fn kelvin_of(wb: WhiteBalance) -> i32 {
    match wb {
        WhiteBalance::Auto => -1i32,
        WhiteBalance::Incandescent => 2700i32,
        WhiteBalance::Fluorescent => 4200i32,
        WhiteBalance::Daylight => 5500i32,
        WhiteBalance::Flash => 5500i32,
        WhiteBalance::Cloudy => 6500i32,
        WhiteBalance::Shade => 7500i32,
        WhiteBalance::Custom(temp) => temp as i32,
    }
}

/// Convert a white balance setting to the Kelvin temperature a driver takes
/// (-1 for auto). A custom temperature is passed through as `i32`.
pub fn white_balance_to_kelvin(wb: &WhiteBalance) -> (k: i32)
    ensures
        k == kelvin_of(*wb),
{
    match wb {
        WhiteBalance::Auto => -1,
        WhiteBalance::Incandescent => 2700,
        WhiteBalance::Fluorescent => 4200,
        WhiteBalance::Daylight => 5500,
        WhiteBalance::Flash => 5500,
        WhiteBalance::Cloudy => 6500,
        WhiteBalance::Shade => 7500,
        WhiteBalance::Custom(temp) => *temp as i32,
    }
}

/// Number of camera controls a request can set.
pub const CONTROL_COUNT: usize = 14;

/// Which of a camera's controls a request sets (each flag says that the
/// control's value is present).
#[derive(Debug, Clone, Copy, PartialEq, Eq, Structural)]
pub struct RequestedControls {
    /// `auto_focus` is set.
    pub auto_focus: bool,
    /// `focus_distance` is set.
    pub focus_distance: bool,
    /// `auto_exposure` is set.
    pub auto_exposure: bool,
    /// `exposure_time` is set.
    pub exposure_time: bool,
    /// `iso_sensitivity` is set.
    pub iso_sensitivity: bool,
    /// `white_balance` is set.
    pub white_balance: bool,
    /// `aperture` is set.
    pub aperture: bool,
    /// `zoom` is set.
    pub zoom: bool,
    /// `brightness` is set.
    pub brightness: bool,
    /// `contrast` is set.
    pub contrast: bool,
    /// `saturation` is set.
    pub saturation: bool,
    /// `sharpness` is set.
    pub sharpness: bool,
    /// `noise_reduction` is set.
    pub noise_reduction: bool,
    /// `image_stabilization` is set.
    pub image_stabilization: bool,
}

/// Whether control number `k` (in application order) is requested.
pub open spec fn control_flag(r: RequestedControls, k: int) -> bool {
    if k == 0 {
        r.auto_focus
    } else if k == 1 {
        r.focus_distance
    } else if k == 2 {
        r.auto_exposure
    } else if k == 3 {
        r.exposure_time
    } else if k == 4 {
        r.iso_sensitivity
    } else if k == 5 {
        r.white_balance
    } else if k == 6 {
        r.aperture
    } else if k == 7 {
        r.zoom
    } else if k == 8 {
        r.brightness
    } else if k == 9 {
        r.contrast
    } else if k == 10 {
        r.saturation
    } else if k == 11 {
        r.sharpness
    } else if k == 12 {
        r.noise_reduction
    } else {
        r.image_stabilization
    }
}

/// The name of control number `k` (in application order).
pub open spec fn control_name(k: int) -> Seq<char> {
    if k == 0 {
        "auto_focus"@
    } else if k == 1 {
        "focus_distance"@
    } else if k == 2 {
        "auto_exposure"@
    } else if k == 3 {
        "exposure_time"@
    } else if k == 4 {
        "iso_sensitivity"@
    } else if k == 5 {
        "white_balance"@
    } else if k == 6 {
        "aperture"@
    } else if k == 7 {
        "zoom"@
    } else if k == 8 {
        "brightness"@
    } else if k == 9 {
        "contrast"@
    } else if k == 10 {
        "saturation"@
    } else if k == 11 {
        "sharpness"@
    } else if k == 12 {
        "noise_reduction"@
    } else {
        "image_stabilization"@
    }
}

/// The names of the requested controls among the first `n`, in order.
pub open spec fn requested_names(r: RequestedControls, n: int) -> Seq<Seq<char>>
    decreases n,
{
    if n <= 0 {
        seq![]
    } else if control_flag(r, n - 1) {
        requested_names(r, n - 1).push(control_name(n - 1))
    } else {
        requested_names(r, n - 1)
    }
}

/// The name of control number `k`.
pub(crate) fn control_name_str(k: usize) -> (s: &'static str)
    requires
        k < CONTROL_COUNT,
    ensures
        s@ == control_name(k as int),
{
    match k {
        0 => "auto_focus",
        1 => "focus_distance",
        2 => "auto_exposure",
        3 => "exposure_time",
        4 => "iso_sensitivity",
        5 => "white_balance",
        6 => "aperture",
        7 => "zoom",
        8 => "brightness",
        9 => "contrast",
        10 => "saturation",
        11 => "sharpness",
        12 => "noise_reduction",
        _ => "image_stabilization",
    }
}

/// Whether control number `k` is requested.
pub(crate) fn control_requested(req: &RequestedControls, k: usize) -> (b: bool)
    requires
        k < CONTROL_COUNT,
    ensures
        b == control_flag(*req, k as int),
{
    match k {
        0 => req.auto_focus,
        1 => req.focus_distance,
        2 => req.auto_exposure,
        3 => req.exposure_time,
        4 => req.iso_sensitivity,
        5 => req.white_balance,
        6 => req.aperture,
        7 => req.zoom,
        8 => req.brightness,
        9 => req.contrast,
        10 => req.saturation,
        11 => req.sharpness,
        12 => req.noise_reduction,
        _ => req.image_stabilization,
    }
}

/// The texts of a list of strings.
pub open spec fn names_of(v: Seq<String>) -> Seq<Seq<char>> {
    v.map_values(|s: String| s@)
}

/// Among the first `n` names, those whose outcome is `want`, in order.
pub open spec fn names_with_outcome(
    names: Seq<Seq<char>>,
    accepted: Seq<bool>,
    want: bool,
    n: int,
) -> Seq<Seq<char>>
    decreases n,
{
    if n <= 0 {
        seq![]
    } else if accepted[n - 1] == want {
        names_with_outcome(names, accepted, want, n - 1).push(names[n - 1])
    } else {
        names_with_outcome(names, accepted, want, n - 1)
    }
}

/// Sort the controls a driver was asked to set by what it answered:
/// `accepted[i]` says whether the control `names[i]` was written. Both lists
/// keep the order of the attempts.
pub fn partition_outcomes(names: &Vec<String>, accepted: &[bool]) -> (r: ControlApplicationResult)
    requires
        names@.len() == accepted@.len(),
    ensures
        names_of(r.applied@) == names_with_outcome(
            names_of(names@),
            accepted@,
            true,
            names@.len() as int,
        ),
        names_of(r.rejected@) == names_with_outcome(
            names_of(names@),
            accepted@,
            false,
            names@.len() as int,
        ),
{
    let mut applied: Vec<String> = Vec::new();
    let mut rejected: Vec<String> = Vec::new();
    let mut i: usize = 0;
    while i < names.len()
        invariant
            i <= names@.len(),
            names@.len() == accepted@.len(),
            names_of(applied@) == names_with_outcome(names_of(names@), accepted@, true, i as int),
            names_of(rejected@) == names_with_outcome(names_of(names@), accepted@, false, i as int),
        decreases names@.len() - i,
    {
        if accepted[i] {
            applied.push(names[i].clone());
            assert(names_of(applied@) =~= names_with_outcome(
                names_of(names@),
                accepted@,
                true,
                i + 1,
            ));
            assert(names_of(rejected@) =~= names_with_outcome(
                names_of(names@),
                accepted@,
                false,
                i + 1,
            ));
        } else {
            rejected.push(names[i].clone());
            assert(names_of(applied@) =~= names_with_outcome(
                names_of(names@),
                accepted@,
                true,
                i + 1,
            ));
            assert(names_of(rejected@) =~= names_with_outcome(
                names_of(names@),
                accepted@,
                false,
                i + 1,
            ));
        }
        i += 1;
    }
    ControlApplicationResult { applied, rejected }
}

/// Every attempted control is reported exactly once: the applied and the
/// rejected lists together are as long as the attempts.
pub proof fn lemma_outcomes_cover_attempts(names: Seq<Seq<char>>, accepted: Seq<bool>, n: int)
    requires
        0 <= n <= accepted.len(),
    ensures
        names_with_outcome(names, accepted, true, n).len() + names_with_outcome(
            names,
            accepted,
            false,
            n,
        ).len() == n,
    decreases n,
{
    if n > 0 {
        lemma_outcomes_cover_attempts(names, accepted, n - 1);
    }
}

/// Number of controls a Media Foundation camera can be asked to set.
pub const MEDIA_FOUNDATION_CONTROL_COUNT: usize = 8;

/// The control (as numbered in [`control_name`]) that a Media Foundation
/// camera sets at step `k`: auto focus, focus distance, auto exposure,
/// exposure time, white balance, brightness, contrast, saturation.
pub open spec fn media_foundation_control(k: int) -> int {
    if k <= 3 {
        k
    } else if k == 4 {
        5
    } else {
        k + 3
    }
}

/// The controls, among the first `n` steps, that a Media Foundation camera
/// tries to set for a request, in order.
pub open spec fn media_foundation_plan(r: RequestedControls, n: int) -> Seq<Seq<char>>
    decreases n,
{
    if n <= 0 {
        seq![]
    } else if control_flag(r, media_foundation_control(n - 1)) {
        media_foundation_plan(r, n - 1).push(control_name(media_foundation_control(n - 1)))
    } else {
        media_foundation_plan(r, n - 1)
    }
}

/// The controls a Media Foundation camera tries to write, in the order it
/// tries them; the driver's answers then go to [`media_foundation_results`],
/// which reports every requested control.
pub fn media_foundation_control_plan(req: &RequestedControls) -> (plan: Vec<String>)
    ensures
        names_of(plan@) == media_foundation_plan(*req, MEDIA_FOUNDATION_CONTROL_COUNT as int),
{
    let mut plan: Vec<String> = Vec::new();
    let mut k: usize = 0;
    while k < MEDIA_FOUNDATION_CONTROL_COUNT
        invariant
            k <= MEDIA_FOUNDATION_CONTROL_COUNT,
            names_of(plan@) == media_foundation_plan(*req, k as int),
        decreases MEDIA_FOUNDATION_CONTROL_COUNT - k,
    {
        let c = if k <= 3 {
            k
        } else if k == 4 {
            5
        } else {
            k + 3
        };
        if control_requested(req, c) {
            plan.push(control_name_str(c).to_string());
        }
        assert(names_of(plan@) =~= media_foundation_plan(*req, k + 1));
        k += 1;
    }
    plan
}

/// Which control interfaces a Media Foundation camera has.
#[derive(Debug, Clone, Copy, PartialEq, Eq, Structural)]
pub struct MediaFoundationInterfaces {
    /// The camera-control interface (focus, exposure) is present.
    pub camera_control: bool,
    /// The video-processing interface (white balance, brightness, contrast,
    /// saturation) is present.
    pub video_proc_amp: bool,
}

/// Whether a Media Foundation camera sets control number `k` (as numbered in
/// [`control_name`]): `accepted[k]` is the driver's answer when the control
/// was written. Focus and exposure go through the camera-control interface,
/// white balance, brightness, contrast and saturation through the
/// video-processing one; without the interface the control is refused
/// without asking the driver. ISO sensitivity, aperture, zoom, sharpness,
/// noise reduction and stabilization are never set.
pub open spec fn media_foundation_sets(
    k: int,
    interfaces: MediaFoundationInterfaces,
    accepted: Seq<bool>,
) -> bool {
    if 0 <= k <= 3 {
        interfaces.camera_control && accepted[k]
    } else if k == 5 || k == 8 || k == 9 || k == 10 {
        interfaces.video_proc_amp && accepted[k]
    } else {
        false
    }
}

/// Among the first `n` controls, the requested ones whose outcome on a Media
/// Foundation camera is `want` (set or refused), in order.
pub open spec fn media_foundation_outcome(
    r: RequestedControls,
    interfaces: MediaFoundationInterfaces,
    accepted: Seq<bool>,
    want: bool,
    n: int,
) -> Seq<Seq<char>>
    decreases n,
{
    if n <= 0 {
        seq![]
    } else if control_flag(r, n - 1) && media_foundation_sets(n - 1, interfaces, accepted)
        == want {
        media_foundation_outcome(r, interfaces, accepted, want, n - 1).push(control_name(n - 1))
    } else {
        media_foundation_outcome(r, interfaces, accepted, want, n - 1)
    }
}

/// Apply camera controls on a Media Foundation camera: every requested
/// control is reported, as applied when the camera set it and as rejected
/// otherwise (no interface for it, the driver refused it, or the camera has
/// no such control). `accepted[k]` is the driver's answer for control `k`
/// when it was written (see [`media_foundation_control_plan`]); it is not
/// read for the others.
pub fn media_foundation_results(
    req: &RequestedControls,
    interfaces: MediaFoundationInterfaces,
    accepted: &[bool],
) -> (r: ControlApplicationResult)
    requires
        accepted@.len() == CONTROL_COUNT,
    ensures
        names_of(r.applied@) == media_foundation_outcome(
            *req,
            interfaces,
            accepted@,
            true,
            CONTROL_COUNT as int,
        ),
        names_of(r.rejected@) == media_foundation_outcome(
            *req,
            interfaces,
            accepted@,
            false,
            CONTROL_COUNT as int,
        ),
{
    let mut applied: Vec<String> = Vec::new();
    let mut rejected: Vec<String> = Vec::new();
    let mut k: usize = 0;
    while k < CONTROL_COUNT
        invariant
            k <= CONTROL_COUNT,
            accepted@.len() == CONTROL_COUNT,
            names_of(applied@) == media_foundation_outcome(
                *req,
                interfaces,
                accepted@,
                true,
                k as int,
            ),
            names_of(rejected@) == media_foundation_outcome(
                *req,
                interfaces,
                accepted@,
                false,
                k as int,
            ),
        decreases CONTROL_COUNT - k,
    {
        if control_requested(req, k) {
            let set = if k <= 3 {
                interfaces.camera_control && accepted[k]
            } else if k == 5 || k == 8 || k == 9 || k == 10 {
                interfaces.video_proc_amp && accepted[k]
            } else {
                false
            };
            if set {
                applied.push(control_name_str(k).to_string());
            } else {
                rejected.push(control_name_str(k).to_string());
            }
        }
        assert(names_of(applied@) =~= media_foundation_outcome(
            *req,
            interfaces,
            accepted@,
            true,
            k + 1,
        ));
        assert(names_of(rejected@) =~= media_foundation_outcome(
            *req,
            interfaces,
            accepted@,
            false,
            k + 1,
        ));
        k += 1;
    }
    ControlApplicationResult { applied, rejected }
}

/// Every requested control is reported by a Media Foundation camera exactly
/// once: the applied and rejected lists together hold as many names as were
/// requested, and a request for a control the camera cannot set is never
/// fully applied.
pub proof fn lemma_media_foundation_reports_every_request(
    r: RequestedControls,
    interfaces: MediaFoundationInterfaces,
    accepted: Seq<bool>,
    n: int,
)
    requires
        0 <= n <= CONTROL_COUNT,
    ensures
        media_foundation_outcome(r, interfaces, accepted, true, n).len()
            + media_foundation_outcome(r, interfaces, accepted, false, n).len()
            == requested_names(r, n).len(),
        forall|k: int|
            0 <= k < n && control_flag(r, k) && !media_foundation_sets(k, interfaces, accepted)
                ==> media_foundation_outcome(r, interfaces, accepted, false, n).len() > 0,
    decreases n,
{
    if n > 0 {
        lemma_media_foundation_reports_every_request(r, interfaces, accepted, n - 1);
    }
}

/// Which control interfaces a Media Foundation camera has and which of
/// their properties it supports.
#[derive(Debug, Clone, Copy, PartialEq, Eq, Structural)]
pub struct MediaFoundationSupport {
    /// The camera-control interface is present.
    pub camera_control: bool,
    /// It supports the focus property.
    pub focus: bool,
    /// It supports the exposure property.
    pub exposure: bool,
    /// It supports the zoom property.
    pub zoom: bool,
    /// The video-processing interface is present.
    pub video_proc_amp: bool,
    /// It supports the white balance property.
    pub white_balance: bool,
}

/// The capability flags of a Media Foundation camera: burst mode always;
/// auto and manual focus, auto and manual exposure, and zoom as far as the
/// camera-control interface is present and supports them; white balance as
/// far as the video-processing interface is present and supports it; no
/// flash and no HDR.
pub open spec fn media_foundation_flags(s: MediaFoundationSupport) -> CameraCapabilityFlags {
    CameraCapabilityFlags {
        auto_focus: s.camera_control && s.focus,
        manual_focus: s.camera_control && s.focus,
        auto_exposure: s.camera_control && s.exposure,
        manual_exposure: s.camera_control && s.exposure,
        white_balance: s.video_proc_amp && s.white_balance,
        zoom: s.camera_control && s.zoom,
        flash: false,
        burst_mode: true,
        hdr: false,
    }
}

/// Test camera capabilities and return supported features, from what the
/// camera's control interfaces support.
pub fn media_foundation_capability_flags(s: MediaFoundationSupport) -> (f: CameraCapabilityFlags)
    ensures
        f == media_foundation_flags(s),
{
    CameraCapabilityFlags {
        auto_focus: s.camera_control && s.focus,
        manual_focus: s.camera_control && s.focus,
        auto_exposure: s.camera_control && s.exposure,
        manual_exposure: s.camera_control && s.exposure,
        white_balance: s.video_proc_amp && s.white_balance,
        zoom: s.camera_control && s.zoom,
        flash: false,
        burst_mode: true,
        hdr: false,
    }
}

/// V4L2 control: brightness.
pub const V4L2_CID_BRIGHTNESS: u32 = 0x00980900;
/// V4L2 control: contrast.
pub const V4L2_CID_CONTRAST: u32 = 0x00980901;
/// V4L2 control: saturation.
pub const V4L2_CID_SATURATION: u32 = 0x00980902;
/// V4L2 control: sharpness.
pub const V4L2_CID_SHARPNESS: u32 = 0x0098091b;
/// V4L2 control: absolute zoom.
pub const V4L2_CID_ZOOM_ABSOLUTE: u32 = 0x009a090d;
/// V4L2 control: continuous auto focus.
pub const V4L2_CID_FOCUS_AUTO: u32 = 0x009a090c;
/// V4L2 control: absolute focus.
pub const V4L2_CID_FOCUS_ABSOLUTE: u32 = 0x009a090a;
/// V4L2 control: auto exposure mode.
pub const V4L2_CID_EXPOSURE_AUTO: u32 = 0x009a0901;
/// V4L2 control: absolute exposure time.
pub const V4L2_CID_EXPOSURE_ABSOLUTE: u32 = 0x009a0902;

/// The value written to a V4L2 control.
#[derive(Debug, Clone, Copy, PartialEq, Eq, Structural)]
pub enum V4l2Value {
    /// The requested setting (0.0 to 1.0) scaled into the control's range,
    /// which the caller reads from the device.
    Scaled,
    /// A boolean control value.
    Boolean(bool),
    /// An integer control value.
    Integer(i64),
}

/// What a request asks of a V4L2 camera: which scaled settings are present,
/// and the auto focus and auto exposure switches.
#[derive(Debug, Clone, Copy, PartialEq, Eq, Structural)]
pub struct V4l2Request {
    /// Brightness is set.
    pub brightness: bool,
    /// Contrast is set.
    pub contrast: bool,
    /// Saturation is set.
    pub saturation: bool,
    /// Sharpness is set.
    pub sharpness: bool,
    /// Zoom is set.
    pub zoom: bool,
    /// Auto focus switch, if set.
    pub auto_focus: Option<bool>,
    /// Focus distance is set.
    pub focus_distance: bool,
    /// Auto exposure switch, if set.
    pub auto_exposure: Option<bool>,
    /// Exposure time is set.
    pub exposure_time: bool,
}

/// One control write a V4L2 camera attempts.
#[derive(Debug, Clone)]
pub struct V4l2Step {
    /// Name of the camera control.
    pub name: &'static str,
    /// V4L2 control id.
    pub control_id: u32,
    /// Value to write.
    pub value: V4l2Value,
}

/// Number of control writes a V4L2 camera can attempt.
pub const V4L2_STEP_COUNT: usize = 9;

/// Write number `k` of a V4L2 camera for a request, if it is attempted:
/// brightness, contrast, saturation, sharpness and zoom when set; the auto
/// focus switch; the focus distance unless auto focus is switched on; the
/// auto exposure mode (0 for auto, 1 for manual); the exposure time unless
/// auto exposure is switched on.
pub open spec fn v4l2_candidate(r: V4l2Request, k: int) -> Option<(Seq<char>, u32, V4l2Value)> {
    if k == 0 {
        if r.brightness { Some(("brightness"@, V4L2_CID_BRIGHTNESS, V4l2Value::Scaled)) } else { None }
    } else if k == 1 {
        if r.contrast { Some(("contrast"@, V4L2_CID_CONTRAST, V4l2Value::Scaled)) } else { None }
    } else if k == 2 {
        if r.saturation { Some(("saturation"@, V4L2_CID_SATURATION, V4l2Value::Scaled)) } else { None }
    } else if k == 3 {
        if r.sharpness { Some(("sharpness"@, V4L2_CID_SHARPNESS, V4l2Value::Scaled)) } else { None }
    } else if k == 4 {
        if r.zoom { Some(("zoom"@, V4L2_CID_ZOOM_ABSOLUTE, V4l2Value::Scaled)) } else { None }
    } else if k == 5 {
        match r.auto_focus {
            Some(af) => Some(("auto_focus"@, V4L2_CID_FOCUS_AUTO, V4l2Value::Boolean(af))),
            None => None,
        }
    } else if k == 6 {
        if r.focus_distance && r.auto_focus != Some(true) {
            Some(("focus_distance"@, V4L2_CID_FOCUS_ABSOLUTE, V4l2Value::Scaled))
        } else {
            None
        }
    } else if k == 7 {
        match r.auto_exposure {
            Some(ae) => Some(
                (
                    "auto_exposure"@,
                    V4L2_CID_EXPOSURE_AUTO,
                    V4l2Value::Integer(if ae { 0i64 } else { 1i64 }),
                ),
            ),
            None => None,
        }
    } else {
        if r.exposure_time && r.auto_exposure != Some(true) {
            Some(("exposure_time"@, V4L2_CID_EXPOSURE_ABSOLUTE, V4l2Value::Scaled))
        } else {
            None
        }
    }
}

/// The writes, among the first `n`, a V4L2 camera attempts, in order.
pub open spec fn v4l2_plan(r: V4l2Request, n: int) -> Seq<(Seq<char>, u32, V4l2Value)>
    decreases n,
{
    if n <= 0 {
        seq![]
    } else {
        match v4l2_candidate(r, n - 1) {
            Some(step) => v4l2_plan(r, n - 1).push(step),
            None => v4l2_plan(r, n - 1),
        }
    }
}

/// Every write among the first `n` comes from a candidate below `n`, and
/// every candidate below `n` is among the writes.
proof fn lemma_v4l2_plan_members(r: V4l2Request, n: int)
    requires
        0 <= n,
    ensures
        forall|i: int|
            #![trigger v4l2_plan(r, n)[i]]
            0 <= i < v4l2_plan(r, n).len() ==> exists|k: int|
                0 <= k < n && #[trigger] v4l2_candidate(r, k) == Some(v4l2_plan(r, n)[i]),
        forall|k: int|
            0 <= k < n && #[trigger] v4l2_candidate(r, k) is Some ==> v4l2_plan(r, n).contains(
                v4l2_candidate(r, k)->0,
            ),
    decreases n,
{
    if n > 0 {
        lemma_v4l2_plan_members(r, n - 1);
        let prev = v4l2_plan(r, n - 1);
        assert forall|i: int|
            #![trigger v4l2_plan(r, n)[i]]
            0 <= i < v4l2_plan(r, n).len() implies exists|k: int|
            0 <= k < n && #[trigger] v4l2_candidate(r, k) == Some(v4l2_plan(r, n)[i]) by {
            if i < prev.len() {
                assert(v4l2_plan(r, n)[i] == prev[i]);
            } else {
                assert(v4l2_candidate(r, n - 1) == Some(v4l2_plan(r, n)[i]));
            }
        }
        assert forall|k: int| 0 <= k < n && #[trigger] v4l2_candidate(r, k) is Some implies v4l2_plan(
            r,
            n,
        ).contains(v4l2_candidate(r, k)->0) by {
            if k < n - 1 {
                let j = choose|j: int| 0 <= j < prev.len() && prev[j] == v4l2_candidate(r, k)->0;
                assert(v4l2_plan(r, n)[j] == prev[j]);
            } else {
                let plan = v4l2_plan(r, n);
                assert(plan[plan.len() - 1] == v4l2_candidate(r, k)->0);
            }
        }
    }
}

/// The auto exposure switch is written as the V4L2 exposure mode
/// (control 0x009a0901): mode 0, `V4L2_EXPOSURE_AUTO`, when auto exposure
/// is switched on, and mode 1, `V4L2_EXPOSURE_MANUAL`, when it is switched
/// off; the mode is written exactly when the switch is set, and every write
/// to that control carries the mode of the switch.
pub proof fn lemma_v4l2_exposure_mode(r: V4l2Request)
    ensures
        r.auto_exposure == Some(true) ==> v4l2_plan(r, 9).contains(
            ("auto_exposure"@, 0x009a0901u32, V4l2Value::Integer(0)),
        ),
        r.auto_exposure == Some(false) ==> v4l2_plan(r, 9).contains(
            ("auto_exposure"@, 0x009a0901u32, V4l2Value::Integer(1)),
        ),
        forall|i: int|
            0 <= i < v4l2_plan(r, 9).len() && (#[trigger] v4l2_plan(r, 9)[i]).1 == 0x009a0901u32
                ==> {
                ||| r.auto_exposure == Some(true) && v4l2_plan(r, 9)[i].2 == V4l2Value::Integer(0)
                ||| r.auto_exposure == Some(false) && v4l2_plan(r, 9)[i].2 == V4l2Value::Integer(1)
            },
{
    lemma_v4l2_plan_members(r, 9);
    if r.auto_exposure is Some {
        assert(v4l2_candidate(r, 7) is Some);
    }
    assert forall|i: int|
        0 <= i < v4l2_plan(r, 9).len() && (#[trigger] v4l2_plan(r, 9)[i]).1 == 0x009a0901u32
        implies {
        ||| r.auto_exposure == Some(true) && v4l2_plan(r, 9)[i].2 == V4l2Value::Integer(0)
        ||| r.auto_exposure == Some(false) && v4l2_plan(r, 9)[i].2 == V4l2Value::Integer(1)
    } by {
        let k = choose|k: int| 0 <= k < 9 && #[trigger] v4l2_candidate(r, k) == Some(
            v4l2_plan(r, 9)[i],
        );
        assert(k == 7);
    }
}

/// What a V4L2 camera writes for a request: brightness (0x00980900),
/// contrast (0x00980901), saturation (0x00980902), sharpness (0x0098091b)
/// and zoom (0x009a090d) scaled into the device's range when set; the auto
/// focus switch (0x009a090c) as given; the focus distance (0x009a090a)
/// when set and auto focus is not switched on; the exposure time
/// (0x009a0902) when set and auto exposure is not switched on. Every write
/// to one of these controls is the one described.
pub proof fn lemma_v4l2_writes(r: V4l2Request)
    ensures
        v4l2_plan(r, 9).contains(("brightness"@, 0x00980900u32, V4l2Value::Scaled))
            <==> r.brightness,
        v4l2_plan(r, 9).contains(("contrast"@, 0x00980901u32, V4l2Value::Scaled)) <==> r.contrast,
        v4l2_plan(r, 9).contains(("saturation"@, 0x00980902u32, V4l2Value::Scaled))
            <==> r.saturation,
        v4l2_plan(r, 9).contains(("sharpness"@, 0x0098091bu32, V4l2Value::Scaled))
            <==> r.sharpness,
        v4l2_plan(r, 9).contains(("zoom"@, 0x009a090du32, V4l2Value::Scaled)) <==> r.zoom,
        v4l2_plan(r, 9).contains(("auto_focus"@, 0x009a090cu32, V4l2Value::Boolean(true)))
            <==> r.auto_focus == Some(true),
        v4l2_plan(r, 9).contains(("auto_focus"@, 0x009a090cu32, V4l2Value::Boolean(false)))
            <==> r.auto_focus == Some(false),
        v4l2_plan(r, 9).contains(("focus_distance"@, 0x009a090au32, V4l2Value::Scaled)) <==> (
        r.focus_distance && r.auto_focus != Some(true)),
        v4l2_plan(r, 9).contains(("exposure_time"@, 0x009a0902u32, V4l2Value::Scaled)) <==> (
        r.exposure_time && r.auto_exposure != Some(true)),
        forall|i: int|
            0 <= i < v4l2_plan(r, 9).len() ==> {
                let (name, id, value) = #[trigger] v4l2_plan(r, 9)[i];
                &&& id == 0x00980900u32 ==> name == "brightness"@ && value == V4l2Value::Scaled
                &&& id == 0x00980901u32 ==> name == "contrast"@ && value == V4l2Value::Scaled
                &&& id == 0x00980902u32 ==> name == "saturation"@ && value == V4l2Value::Scaled
                &&& id == 0x0098091bu32 ==> name == "sharpness"@ && value == V4l2Value::Scaled
                &&& id == 0x009a090du32 ==> name == "zoom"@ && value == V4l2Value::Scaled
                &&& id == 0x009a090cu32 ==> name == "auto_focus"@ && (r.auto_focus matches Some(af)
                    && value == V4l2Value::Boolean(af))
                &&& id == 0x009a090au32 ==> name == "focus_distance"@ && value == V4l2Value::Scaled
                &&& id == 0x009a0902u32 ==> name == "exposure_time"@ && value == V4l2Value::Scaled
            },
{
    lemma_v4l2_plan_members(r, 9);
    let plan = v4l2_plan(r, 9);
    assert forall|i: int| 0 <= i < plan.len() implies {
        let (name, id, value) = #[trigger] plan[i];
        &&& id == 0x00980900u32 ==> name == "brightness"@ && value == V4l2Value::Scaled
        &&& id == 0x00980901u32 ==> name == "contrast"@ && value == V4l2Value::Scaled
        &&& id == 0x00980902u32 ==> name == "saturation"@ && value == V4l2Value::Scaled
        &&& id == 0x0098091bu32 ==> name == "sharpness"@ && value == V4l2Value::Scaled
        &&& id == 0x009a090du32 ==> name == "zoom"@ && value == V4l2Value::Scaled
        &&& id == 0x009a090cu32 ==> name == "auto_focus"@ && (r.auto_focus matches Some(af)
            && value == V4l2Value::Boolean(af))
        &&& id == 0x009a090au32 ==> name == "focus_distance"@ && value == V4l2Value::Scaled
        &&& id == 0x009a0902u32 ==> name == "exposure_time"@ && value == V4l2Value::Scaled
    } by {
        let k = choose|k: int| 0 <= k < 9 && #[trigger] v4l2_candidate(r, k) == Some(plan[i]);
        assert(0 <= k < 9);
    }
    if r.brightness {
        assert(v4l2_candidate(r, 0) is Some);
    }
    if r.contrast {
        assert(v4l2_candidate(r, 1) is Some);
    }
    if r.saturation {
        assert(v4l2_candidate(r, 2) is Some);
    }
    if r.sharpness {
        assert(v4l2_candidate(r, 3) is Some);
    }
    if r.zoom {
        assert(v4l2_candidate(r, 4) is Some);
    }
    if r.auto_focus is Some {
        assert(v4l2_candidate(r, 5) is Some);
    }
    if r.focus_distance && r.auto_focus != Some(true) {
        assert(v4l2_candidate(r, 6) is Some);
    }
    if r.exposure_time && r.auto_exposure != Some(true) {
        assert(v4l2_candidate(r, 8) is Some);
    }
    assert forall|t: (Seq<char>, u32, V4l2Value)| #[trigger] plan.contains(t) implies exists|k: int|
        0 <= k < 9 && v4l2_candidate(r, k) == Some(t) by {
        let i = choose|i: int| 0 <= i < plan.len() && plan[i] == t;
        assert(plan[i] == t);
    }
}

/// The contents of a step.
pub open spec fn step_view(s: V4l2Step) -> (Seq<char>, u32, V4l2Value) {
    (s.name@, s.control_id, s.value)
}

/// Write number `k`, if it is attempted.
fn v4l2_candidate_step(r: &V4l2Request, k: usize) -> (s: Option<V4l2Step>)
    requires
        k < V4L2_STEP_COUNT,
    ensures
        match v4l2_candidate(*r, k as int) {
            Some(c) => s matches Some(st) && step_view(st) == c,
            None => s is None,
        },
{
    let scaled = |name: &'static str, control_id: u32| -> (st: V4l2Step)
        ensures
            st.name@ == name@ && st.control_id == control_id && st.value == V4l2Value::Scaled,
        { V4l2Step { name, control_id, value: V4l2Value::Scaled } };
    match k {
        0 => if r.brightness { Some(scaled("brightness", V4L2_CID_BRIGHTNESS)) } else { None },
        1 => if r.contrast { Some(scaled("contrast", V4L2_CID_CONTRAST)) } else { None },
        2 => if r.saturation { Some(scaled("saturation", V4L2_CID_SATURATION)) } else { None },
        3 => if r.sharpness { Some(scaled("sharpness", V4L2_CID_SHARPNESS)) } else { None },
        4 => if r.zoom { Some(scaled("zoom", V4L2_CID_ZOOM_ABSOLUTE)) } else { None },
        5 => match r.auto_focus {
            Some(af) => Some(
                V4l2Step {
                    name: "auto_focus",
                    control_id: V4L2_CID_FOCUS_AUTO,
                    value: V4l2Value::Boolean(af),
                },
            ),
            None => None,
        },
        6 => {
            let auto_on = match r.auto_focus {
                Some(af) => af,
                None => false,
            };
            if r.focus_distance && !auto_on {
                Some(scaled("focus_distance", V4L2_CID_FOCUS_ABSOLUTE))
            } else {
                None
            }
        },
        7 => match r.auto_exposure {
            Some(ae) => Some(
                V4l2Step {
                    name: "auto_exposure",
                    control_id: V4L2_CID_EXPOSURE_AUTO,
                    value: V4l2Value::Integer(if ae { 0 } else { 1 }),
                },
            ),
            None => None,
        },
        _ => {
            let auto_on = match r.auto_exposure {
                Some(ae) => ae,
                None => false,
            };
            if r.exposure_time && !auto_on {
                Some(scaled("exposure_time", V4L2_CID_EXPOSURE_ABSOLUTE))
            } else {
                None
            }
        },
    }
}

/// The control writes a V4L2 camera attempts for a request, in order; each
/// then lands in the applied or the rejected list by the device's answer
/// (see [`partition_outcomes`]).
pub fn v4l2_control_plan(req: &V4l2Request) -> (plan: Vec<V4l2Step>)
    ensures
        plan@.map_values(|s: V4l2Step| step_view(s)) == v4l2_plan(*req, V4L2_STEP_COUNT as int),
{
    let mut plan: Vec<V4l2Step> = Vec::new();
    let mut k: usize = 0;
    while k < V4L2_STEP_COUNT
        invariant
            k <= V4L2_STEP_COUNT,
            plan@.map_values(|s: V4l2Step| step_view(s)) == v4l2_plan(*req, k as int),
        decreases V4L2_STEP_COUNT - k,
    {
        match v4l2_candidate_step(req, k) {
            Some(step) => {
                plan.push(step);
            },
            None => {},
        }
        assert(plan@.map_values(|s: V4l2Step| step_view(s)) =~= v4l2_plan(*req, k + 1));
        k += 1;
    }
    plan
}

} // verus!
