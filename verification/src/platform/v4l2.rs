//! The Video4Linux2 backend's decisions: which device a camera ID names,
//! the names of pixel formats, the formats a device offers, the controls it
//! has and the control a name selects.

use vstd::prelude::*;
use vstd::string::StringExecFns;
use vstd::utf8::{decode_utf8, encode_utf8, valid_utf8};
use crate::errors::CameraError;
use crate::platform::controls::{
    V4L2_CID_BRIGHTNESS, V4L2_CID_CONTRAST, V4L2_CID_EXPOSURE_ABSOLUTE, V4L2_CID_EXPOSURE_AUTO,
    V4L2_CID_FOCUS_ABSOLUTE, V4L2_CID_FOCUS_AUTO, V4L2_CID_SATURATION, V4L2_CID_SHARPNESS,
    V4L2_CID_ZOOM_ABSOLUTE,
};
use crate::text::{parse_u64, parsed_u64};
use crate::types::{
    CameraCapabilityFlags, DEFAULT_RESOLUTION_HEIGHT, DEFAULT_RESOLUTION_WIDTH,
    FALLBACK_RESOLUTION_HEIGHT, FALLBACK_RESOLUTION_WIDTH, MIN_RESOLUTION_HEIGHT,
    MIN_RESOLUTION_WIDTH, str_equals,
};

verus! {

broadcast use vstd::string::to_string_from_display_ensures_for_str;

// ---------------------------------------------------------------------------
// Device IDs
// ---------------------------------------------------------------------------

/// The device number a camera ID names: the ID read as a number, or device
/// 0 when it is not one.
pub open spec fn device_index_of(device_id: Seq<char>) -> nat {
    match parsed_u64(device_id) {
        Some(v) => if v <= usize::MAX {
            v as nat
        } else {
            0
        },
        None => 0,
    }
}

/// The device number a camera ID names, device 0 when the ID is no number.
pub fn device_index(device_id: &str) -> (i: usize)
    ensures
        i == device_index_of(device_id@),
{
    match parse_u64(device_id) {
        Some(v) => if v <= usize::MAX as u64 {
            v as usize
        } else {
            0
        },
        None => 0,
    }
}

/// The camera index to open for a camera ID, which must be a number that
/// fits in 32 bits.
pub fn camera_index(device_id: &str) -> (r: Result<u32, CameraError>)
    ensures
        r matches Ok(i) ==> parsed_u64(device_id@) == Some(i as u64),
        r is Err <==> !(parsed_u64(device_id@) matches Some(v) && v <= u32::MAX),
        r matches Err(e) ==> (e matches CameraError::InitializationError(m) && m@
            == "Invalid device ID"@),
{
    match parse_u64(device_id) {
        Some(v) => if v <= u32::MAX as u64 {
            Ok(v as u32)
        } else {
            Err(CameraError::InitializationError("Invalid device ID".to_string()))
        },
        None => Err(CameraError::InitializationError("Invalid device ID".to_string())),
    }
}

// ---------------------------------------------------------------------------
// Pixel format names
// ---------------------------------------------------------------------------

/// The four-character code `YUYV`.
pub open spec fn fourcc_yuyv() -> Seq<u8> {
    seq![0x59u8, 0x55u8, 0x59u8, 0x56u8]
}

/// The four-character code `MJPG`.
pub open spec fn fourcc_mjpg() -> Seq<u8> {
    seq![0x4Du8, 0x4Au8, 0x50u8, 0x47u8]
}

/// The four-character code `RGB3`.
pub open spec fn fourcc_rgb3() -> Seq<u8> {
    seq![0x52u8, 0x47u8, 0x42u8, 0x33u8]
}

/// The name of a pixel format: `YUYV`, `MJPEG` and `RGB` for the codes
/// `YUYV`, `MJPG` and `RGB3`; another code read as UTF-8 text; `UNKNOWN`
/// when it is not valid UTF-8.
pub open spec fn fourcc_name(code: Seq<u8>) -> Seq<char> {
    if code == fourcc_yuyv() {
        "YUYV"@
    } else if code == fourcc_mjpg() {
        "MJPEG"@
    } else if code == fourcc_rgb3() {
        "RGB"@
    } else if valid_utf8(code) {
        decode_utf8(code)
    } else {
        "UNKNOWN"@
    }
}

/// `std::str::from_utf8`: the text that `bytes` encode in UTF-8, or `None`
/// when they are not valid UTF-8. The text's UTF-8 encoding is `bytes`.
#[verifier::external_body]
fn utf8_text(bytes: &[u8]) -> (r: Option<String>)
    ensures
        r is Some <==> valid_utf8(bytes@),
        r matches Some(s) ==> encode_utf8(s@) == bytes@,
{
    std::str::from_utf8(bytes).ok().map(|s| s.to_string())
}

/// The name of a pixel format, from its four-character code.
pub fn fourcc_format_name(code: &[u8; 4]) -> (s: String)
    ensures
        s@ == fourcc_name(code@),
{
    let c0 = code[0];
    let c1 = code[1];
    let c2 = code[2];
    let c3 = code[3];
    if c0 == 0x59 && c1 == 0x55 && c2 == 0x59 && c3 == 0x56 {
        assert(code@ =~= fourcc_yuyv());
        "YUYV".to_string()
    } else if c0 == 0x4D && c1 == 0x4A && c2 == 0x50 && c3 == 0x47 {
        assert(code@ =~= fourcc_mjpg());
        "MJPEG".to_string()
    } else if c0 == 0x52 && c1 == 0x47 && c2 == 0x42 && c3 == 0x33 {
        assert(code@ =~= fourcc_rgb3());
        "RGB".to_string()
    } else {
        assert(code@ != fourcc_yuyv() && code@ != fourcc_mjpg() && code@ != fourcc_rgb3()) by {
            if code@ == fourcc_yuyv() {
                assert(code@[0] == 0x59u8);
            }
            if code@ == fourcc_mjpg() {
                assert(code@[0] == 0x4Du8);
            }
            if code@ == fourcc_rgb3() {
                assert(code@[0] == 0x52u8);
            }
        }
        match utf8_text(code.as_slice()) {
            Some(text) => {
                proof {
                    vstd::utf8::encode_utf8_decode_utf8(text@);
                }
                text
            },
            None => "UNKNOWN".to_string(),
        }
    }
}

// ---------------------------------------------------------------------------
// Offered formats
// ---------------------------------------------------------------------------

/// A frame size a device offers for a pixel format.
#[derive(Debug, Clone, Copy, PartialEq, Eq, Structural)]
pub enum FrameSizeKind {
    /// One size.
    Discrete { width: u32, height: u32 },
    /// A range of sizes, of which the largest is used.
    Stepwise { max_width: u32, max_height: u32 },
}

/// A frame interval a device offers for a pixel format and size.
#[derive(Debug, Clone, Copy, PartialEq, Eq, Structural)]
pub enum FrameIntervalKind {
    /// A fixed interval of `numerator / denominator` seconds.
    Discrete { numerator: u32, denominator: u32 },
    /// A range of intervals.
    Stepwise,
}

/// A frame size and the intervals offered at it.
pub struct SizeOffer {
    /// The frame size.
    pub size: FrameSizeKind,
    /// The frame intervals offered (none when they could not be listed).
    pub intervals: Vec<FrameIntervalKind>,
}

/// A pixel format and the sizes offered in it.
pub struct PixelFormatOffer {
    /// The pixel format's four-character code.
    pub fourcc: [u8; 4],
    /// The sizes offered (none when they could not be listed).
    pub sizes: Vec<SizeOffer>,
}

/// A format a device can capture in.
#[derive(Debug, Clone)]
pub struct OfferedFormat {
    /// Width in pixels.
    pub width: u32,
    /// Height in pixels.
    pub height: u32,
    /// The frame interval as (numerator, denominator) seconds, with a
    /// nonzero numerator, so that the frame rate is denominator / numerator;
    /// `None` for the default frame rate.
    pub interval: Option<(u32, u32)>,
    /// Name of the pixel format.
    pub format: String,
}

/// An offered format as plain values.
pub open spec fn format_view(f: OfferedFormat) -> (u32, u32, Option<(u32, u32)>, Seq<char>) {
    (f.width, f.height, f.interval, f.format@)
}

/// The frame size used for a size offer.
pub open spec fn size_dims(s: FrameSizeKind) -> (u32, u32) {
    match s {
        FrameSizeKind::Discrete { width, height } => (width, height),
        FrameSizeKind::Stepwise { max_width, max_height } => (max_width, max_height),
    }
}

/// The interval used for an interval offer: a fixed one with a nonzero
/// numerator; otherwise the default rate.
pub open spec fn interval_used(i: FrameIntervalKind) -> Option<(u32, u32)> {
    match i {
        FrameIntervalKind::Discrete { numerator, denominator } => if numerator != 0 {
            Some((numerator, denominator))
        } else {
            None
        },
        FrameIntervalKind::Stepwise => None,
    }
}

/// The formats of a pixel format named `name` at a size: one per interval,
/// in order.
pub open spec fn size_formats(name: Seq<char>, s: SizeOffer) -> Seq<
    (u32, u32, Option<(u32, u32)>, Seq<char>),
> {
    s.intervals@.map_values(
        |i: FrameIntervalKind| (size_dims(s.size).0, size_dims(s.size).1, interval_used(i), name),
    )
}

/// The formats of the first `n` sizes of a pixel format, in order.
pub open spec fn pixel_formats_upto(p: PixelFormatOffer, n: int) -> Seq<
    (u32, u32, Option<(u32, u32)>, Seq<char>),
>
    decreases n,
{
    if n <= 0 {
        seq![]
    } else {
        pixel_formats_upto(p, n - 1) + size_formats(fourcc_name(p.fourcc@), p.sizes@[n - 1])
    }
}

/// The formats of the first `n` pixel formats, in order.
pub open spec fn offered_upto(offers: Seq<PixelFormatOffer>, n: int) -> Seq<
    (u32, u32, Option<(u32, u32)>, Seq<char>),
>
    decreases n,
{
    if n <= 0 {
        seq![]
    } else {
        offered_upto(offers, n - 1) + pixel_formats_upto(offers[n - 1], offers[n - 1].sizes@.len() as int)
    }
}

/// Every format a device offers: for each pixel format, each size and each
/// interval, in the order the device lists them.
pub open spec fn offered(offers: Seq<PixelFormatOffer>) -> Seq<
    (u32, u32, Option<(u32, u32)>, Seq<char>),
> {
    offered_upto(offers, offers.len() as int)
}

/// Whether `v` holds the formats `s`, in order.
pub open spec fn formats_are(v: Seq<OfferedFormat>, s: Seq<(u32, u32, Option<(u32, u32)>, Seq<char>)>) -> bool {
    &&& v.len() == s.len()
    &&& forall|k: int| 0 <= k < v.len() ==> format_view(#[trigger] v[k]) == s[k]
}

/// The formats a device offers, from what it lists for each pixel format.
pub fn offered_formats(offers: &Vec<PixelFormatOffer>) -> (r: Vec<OfferedFormat>)
    ensures
        formats_are(r@, offered(offers@)),
{
    let mut out: Vec<OfferedFormat> = Vec::new();
    let mut i: usize = 0;
    while i < offers.len()
        invariant
            i <= offers@.len(),
            formats_are(out@, offered_upto(offers@, i as int)),
        decreases offers@.len() - i,
    {
        let offer = &offers[i];
        let name = fourcc_format_name(&offer.fourcc);
        let mut j: usize = 0;
        while j < offer.sizes.len()
            invariant
                i < offers@.len(),
                *offer == offers@[i as int],
                name@ == fourcc_name(offer.fourcc@),
                j <= offer.sizes@.len(),
                formats_are(out@, offered_upto(offers@, i as int) + pixel_formats_upto(*offer, j as int)),
            decreases offer.sizes@.len() - j,
        {
            let size = &offer.sizes[j];
            let (width, height) = match size.size {
                FrameSizeKind::Discrete { width, height } => (width, height),
                FrameSizeKind::Stepwise { max_width, max_height } => (max_width, max_height),
            };
            let ghost before = offered_upto(offers@, i as int) + pixel_formats_upto(*offer, j as int);
            let mut k: usize = 0;
            while k < size.intervals.len()
                invariant
                    *size == offer.sizes@[j as int],
                    j < offer.sizes@.len(),
                    (width, height) == size_dims(size.size),
                    k <= size.intervals@.len(),
                    formats_are(out@, before + size_formats(name@, *size).subrange(0, k as int)),
                decreases size.intervals@.len() - k,
            {
                let interval = match size.intervals[k] {
                    FrameIntervalKind::Discrete { numerator, denominator } => if numerator != 0 {
                        Some((numerator, denominator))
                    } else {
                        None
                    },
                    FrameIntervalKind::Stepwise => None,
                };
                let ghost prev = out@;
                out.push(OfferedFormat { width, height, interval, format: name.clone() });
                proof {
                    let target = before + size_formats(name@, *size).subrange(0, k + 1);
                    assert(target =~= (before + size_formats(name@, *size).subrange(0, k as int)).push(
                        size_formats(name@, *size)[k as int],
                    ));
                    assert forall|m: int| 0 <= m < out@.len() implies format_view(#[trigger] out@[m])
                        == target[m] by {
                        if m < prev.len() {
                            assert(out@[m] == prev[m]);
                        }
                    }
                }
                k += 1;
            }
            proof {
                assert(size_formats(name@, *size).subrange(0, k as int) =~= size_formats(
                    name@,
                    *size,
                ));
                assert(pixel_formats_upto(*offer, j + 1) == pixel_formats_upto(*offer, j as int)
                    + size_formats(fourcc_name(offer.fourcc@), offer.sizes@[j as int]));
                assert(before + size_formats(name@, *size) =~= offered_upto(offers@, i as int)
                    + pixel_formats_upto(*offer, j + 1));
            }
            j += 1;
        }
        proof {
            assert(offered_upto(offers@, i + 1) =~= offered_upto(offers@, i as int)
                + pixel_formats_upto(offers@[i as int], offers@[i as int].sizes@.len() as int));
        }
        i += 1;
    }
    out
}

/// The formats assumed for a device whose formats could not be listed:
/// YUYV at 1920x1080, 1280x720 and 640x480 at 30 frames per second, then
/// MJPEG at 1920x1080 at 15 and at 1280x720 at 30.
pub open spec fn assumed_formats() -> Seq<(u32, u32, Option<(u32, u32)>, Seq<char>)> {
    seq![
        (1920u32, 1080u32, Some((1u32, 30u32)), "YUYV"@),
        (1280u32, 720u32, Some((1u32, 30u32)), "YUYV"@),
        (640u32, 480u32, Some((1u32, 30u32)), "YUYV"@),
        (1920u32, 1080u32, Some((1u32, 15u32)), "MJPEG"@),
        (1280u32, 720u32, Some((1u32, 30u32)), "MJPEG"@),
    ]
}

/// The formats a camera lists when its own could not be enumerated: the
/// default, fallback and minimum resolutions at the default frame rate, in
/// the default pixel format `name`.
pub open spec fn default_formats(name: Seq<char>) -> Seq<(u32, u32, Option<(u32, u32)>, Seq<char>)> {
    seq![
        (DEFAULT_RESOLUTION_WIDTH, DEFAULT_RESOLUTION_HEIGHT, None::<(u32, u32)>, name),
        (FALLBACK_RESOLUTION_WIDTH, FALLBACK_RESOLUTION_HEIGHT, None::<(u32, u32)>, name),
        (MIN_RESOLUTION_WIDTH, MIN_RESOLUTION_HEIGHT, None::<(u32, u32)>, name),
    ]
}

/// An offered format of the given size, interval and pixel format name.
fn format_of(width: u32, height: u32, interval: Option<(u32, u32)>, name: &str) -> (f: OfferedFormat)
    ensures
        format_view(f) == (width, height, interval, name@),
{
    OfferedFormat { width, height, interval, format: name.to_string() }
}

/// Get supported V4L2 formats for a device: the formats it offers, or the
/// assumed ones when it offers none.
pub fn supported_formats(offers: &Vec<PixelFormatOffer>) -> (r: Vec<OfferedFormat>)
    ensures
        offered(offers@).len() > 0 ==> formats_are(r@, offered(offers@)),
        offered(offers@).len() == 0 ==> formats_are(r@, assumed_formats()),
{
    let found = offered_formats(offers);
    if found.len() > 0 {
        return found;
    }
    let r = vec![
        format_of(1920, 1080, Some((1, 30)), "YUYV"),
        format_of(1280, 720, Some((1, 30)), "YUYV"),
        format_of(640, 480, Some((1, 30)), "YUYV"),
        format_of(1920, 1080, Some((1, 15)), "MJPEG"),
        format_of(1280, 720, Some((1, 30)), "MJPEG"),
    ];
    assert(formats_are(r@, assumed_formats()));
    r
}

/// The formats a camera is listed with: those its device offers, or the
/// default ones in pixel format `default_format` when it offers none.
pub fn listed_formats(offers: &Vec<PixelFormatOffer>, default_format: &str) -> (r: Vec<
    OfferedFormat,
>)
    ensures
        offered(offers@).len() > 0 ==> formats_are(r@, offered(offers@)),
        offered(offers@).len() == 0 ==> formats_are(r@, default_formats(default_format@)),
{
    let found = offered_formats(offers);
    if found.len() > 0 {
        return found;
    }
    let r = vec![
        format_of(DEFAULT_RESOLUTION_WIDTH, DEFAULT_RESOLUTION_HEIGHT, None, default_format),
        format_of(FALLBACK_RESOLUTION_WIDTH, FALLBACK_RESOLUTION_HEIGHT, None, default_format),
        format_of(MIN_RESOLUTION_WIDTH, MIN_RESOLUTION_HEIGHT, None, default_format),
    ];
    assert(formats_are(r@, default_formats(default_format@)));
    r
}

// ---------------------------------------------------------------------------
// Capabilities
// ---------------------------------------------------------------------------

/// Whether `id` is among `ids`.
fn has_control(ids: &[u32], id: u32) -> (b: bool)
    ensures
        b == ids@.contains(id),
{
    let mut i: usize = 0;
    while i < ids.len()
        invariant
            i <= ids@.len(),
            forall|k: int| 0 <= k < i ==> ids@[k] != id,
        decreases ids@.len() - i,
    {
        if ids[i] == id {
            return true;
        }
        i += 1;
    }
    false
}

/// The capability flags of a V4L2 camera. Without a list of its controls,
/// the default flags: auto focus, auto exposure, white balance and burst
/// mode. With one, focus, exposure and zoom are supported as far as their
/// controls exist.
pub open spec fn v4l2_flags(controls: Option<Seq<u32>>) -> CameraCapabilityFlags {
    let defaults = CameraCapabilityFlags {
        auto_focus: true,
        manual_focus: false,
        auto_exposure: true,
        manual_exposure: false,
        white_balance: true,
        zoom: false,
        flash: false,
        burst_mode: true,
        hdr: false,
    };
    match controls {
        None => defaults,
        Some(ids) => CameraCapabilityFlags {
            manual_focus: ids.contains(V4L2_CID_FOCUS_ABSOLUTE),
            manual_exposure: ids.contains(V4L2_CID_EXPOSURE_ABSOLUTE),
            zoom: ids.contains(V4L2_CID_ZOOM_ABSOLUTE),
            auto_focus: ids.contains(V4L2_CID_FOCUS_AUTO),
            auto_exposure: ids.contains(V4L2_CID_EXPOSURE_AUTO),
            ..defaults
        },
    }
}

/// The capability flags of a V4L2 camera, from the IDs of its controls when
/// they could be listed.
pub fn v4l2_capability_flags(controls: Option<&[u32]>) -> (f: CameraCapabilityFlags)
    ensures
        f == v4l2_flags(
            match controls {
                Some(ids) => Some(ids@),
                None => None,
            },
        ),
{
    let defaults = CameraCapabilityFlags {
        auto_focus: true,
        manual_focus: false,
        auto_exposure: true,
        manual_exposure: false,
        white_balance: true,
        zoom: false,
        flash: false,
        burst_mode: true,
        hdr: false,
    };
    match controls {
        None => defaults,
        Some(ids) => CameraCapabilityFlags {
            manual_focus: has_control(ids, V4L2_CID_FOCUS_ABSOLUTE),
            manual_exposure: has_control(ids, V4L2_CID_EXPOSURE_ABSOLUTE),
            zoom: has_control(ids, V4L2_CID_ZOOM_ABSOLUTE),
            auto_focus: has_control(ids, V4L2_CID_FOCUS_AUTO),
            auto_exposure: has_control(ids, V4L2_CID_EXPOSURE_AUTO),
            ..defaults
        },
    }
}

/// The position of the format with the most pixels, the last of them when
/// several have as many; `None` for no format.
pub fn largest_format(formats: &Vec<OfferedFormat>) -> (r: Option<usize>)
    requires
        forall|k: int| 0 <= k < formats@.len() ==> #[trigger] formats@[k].width * formats@[k].height
            <= u32::MAX,
    ensures
        r is None <==> formats@.len() == 0,
        r matches Some(i) ==> i < formats@.len() && (forall|k: int|
            0 <= k < formats@.len() ==> #[trigger] (formats@[k].width * formats@[k].height)
                <= formats@[i as int].width * formats@[i as int].height) && (forall|k: int|
            i < k < formats@.len() ==> #[trigger] (formats@[k].width * formats@[k].height)
                < formats@[i as int].width * formats@[i as int].height),
{
    if formats.len() == 0 {
        return None;
    }
    let mut best: usize = 0;
    assert(formats@[0].width * formats@[0].height <= u32::MAX);
    let mut best_area: u64 = formats[0].width as u64 * formats[0].height as u64;
    let mut i: usize = 1;
    while i < formats.len()
        invariant
            1 <= i <= formats@.len(),
            best < i,
            forall|k: int| 0 <= k < formats@.len() ==> #[trigger] formats@[k].width
                * formats@[k].height <= u32::MAX,
            best_area == formats@[best as int].width * formats@[best as int].height,
            forall|k: int| 0 <= k < i ==> #[trigger] (formats@[k].width * formats@[k].height)
                <= best_area,
            forall|k: int| best < k < i ==> #[trigger] (formats@[k].width * formats@[k].height)
                < best_area,
        decreases formats@.len() - i,
    {
        assert(formats@[i as int].width * formats@[i as int].height <= u32::MAX);
        let area = formats[i].width as u64 * formats[i].height as u64;
        if area >= best_area {
            best = i;
            best_area = area;
        }
        i += 1;
    }
    Some(best)
}

// ---------------------------------------------------------------------------
// Controls by name
// ---------------------------------------------------------------------------

/// V4L2 control: hue.
pub const V4L2_CID_HUE: u32 = 0x00980903;
/// V4L2 control: gamma.
pub const V4L2_CID_GAMMA: u32 = 0x00980910;

/// The V4L2 control a name selects, among those that can be set by name.
pub open spec fn control_id_of(name: Seq<char>) -> Option<u32> {
    if name == "brightness"@ {
        Some(V4L2_CID_BRIGHTNESS)
    } else if name == "contrast"@ {
        Some(V4L2_CID_CONTRAST)
    } else if name == "saturation"@ {
        Some(V4L2_CID_SATURATION)
    } else if name == "hue"@ {
        Some(V4L2_CID_HUE)
    } else if name == "gamma"@ {
        Some(V4L2_CID_GAMMA)
    } else if name == "sharpness"@ {
        Some(V4L2_CID_SHARPNESS)
    } else {
        None
    }
}

/// The V4L2 control to set for a control name; an initialization error
/// naming the control when it is not one that can be set.
pub fn v4l2_control_id(control: &str) -> (r: Result<u32, CameraError>)
    ensures
        r matches Ok(id) ==> control_id_of(control@) == Some(id),
        r is Err <==> control_id_of(control@) is None,
        r matches Err(e) ==> (e matches CameraError::InitializationError(m) && m@
            == "Unsupported control: "@ + control@),
{
    if str_equals(control, "brightness") {
        Ok(V4L2_CID_BRIGHTNESS)
    } else if str_equals(control, "contrast") {
        Ok(V4L2_CID_CONTRAST)
    } else if str_equals(control, "saturation") {
        Ok(V4L2_CID_SATURATION)
    } else if str_equals(control, "hue") {
        Ok(V4L2_CID_HUE)
    } else if str_equals(control, "gamma") {
        Ok(V4L2_CID_GAMMA)
    } else if str_equals(control, "sharpness") {
        Ok(V4L2_CID_SHARPNESS)
    } else {
        let mut m = "Unsupported control: ".to_string();
        m.append(control);
        Err(CameraError::InitializationError(m))
    }
}

} // verus!
