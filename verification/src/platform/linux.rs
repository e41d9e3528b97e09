//! Video4Linux2 device discovery.

use vstd::prelude::*;
use vstd::string::StringExecFns;
use crate::errors::CameraError;
use crate::text::{decimal, decimal_string};

verus! {

broadcast use vstd::string::to_string_from_display_ensures_for_str;

/// Number of device nodes (`/dev/video0` to `/dev/video9`) probed for cameras.
pub const V4L2_MAX_DEVICES: usize = 10;

/// The device node of V4L2 device number `i`.
pub open spec fn v4l2_path(i: nat) -> Seq<char> {
    "/dev/video"@ + decimal(i)
}

/// The device nodes, among the first `n` probed, whose presence flag is set,
/// in order.
pub open spec fn present_paths(present: Seq<bool>, n: int) -> Seq<Seq<char>>
    decreases n,
{
    if n <= 0 {
        seq![]
    } else if present[n - 1] {
        present_paths(present, n - 1).push(v4l2_path((n - 1) as nat))
    } else {
        present_paths(present, n - 1)
    }
}

/// The device node of V4L2 device number `i`.
pub fn v4l2_device_path(i: usize) -> (p: String)
    ensures
        p@ == v4l2_path(i as nat),
{
    let mut p = "/dev/video".to_string();
    p.append(decimal_string(i).as_str());
    p
}

/// List the V4L2 device nodes that exist, given for each of
/// `/dev/video0` .. `/dev/video9` whether it is present.
pub fn list_v4l2_devices(present: &[bool]) -> (r: Result<Vec<String>, CameraError>)
    requires
        present@.len() == V4L2_MAX_DEVICES,
    ensures
        r matches Ok(devices) && devices@.len() == present_paths(
            present@,
            V4L2_MAX_DEVICES as int,
        ).len() && forall|k: int|
            0 <= k < devices@.len() ==> #[trigger] devices@[k]@ == present_paths(
                present@,
                V4L2_MAX_DEVICES as int,
            )[k],
{
    let mut devices: Vec<String> = Vec::new();
    let mut i: usize = 0;
    while i < V4L2_MAX_DEVICES
        invariant
            i <= V4L2_MAX_DEVICES,
            present@.len() == V4L2_MAX_DEVICES,
            devices@.len() == present_paths(present@, i as int).len(),
            forall|k: int|
                0 <= k < devices@.len() ==> #[trigger] devices@[k]@ == present_paths(
                    present@,
                    i as int,
                )[k],
        decreases V4L2_MAX_DEVICES - i,
    {
        if present[i] {
            devices.push(v4l2_device_path(i));
        }
        i += 1;
    }
    Ok(devices)
}

/// The capabilities reported for every V4L2 device.
pub open spec fn common_caps() -> Seq<Seq<char>> {
    seq!["Video Capture"@, "Streaming"@, "Extended Controls"@]
}

/// Get V4L2 device capabilities: the capabilities common to V4L2 capture
/// devices, whatever the device.
pub fn get_device_caps(_device_path: &str) -> (r: Result<Vec<String>, CameraError>)
    ensures
        r matches Ok(caps) && caps@.len() == common_caps().len() && forall|k: int|
            0 <= k < caps@.len() ==> #[trigger] caps@[k]@ == common_caps()[k],
{
    let caps = vec![
        "Video Capture".to_string(),
        "Streaming".to_string(),
        "Extended Controls".to_string(),
    ];
    Ok(caps)
}

} // verus!
