//! The mock camera's behaviour: which capture mode each mock device is in,
//! and the frame a successful mock capture returns.

use vstd::prelude::*;
use crate::types::{
    CameraFrame, ControlApplicationResult, is_hyphenated_uuid, rgb8_name, utc_now_millis,
    new_uuid_string,
};
use crate::platform::table::DeviceTable;
use crate::platform::controls::{
    CONTROL_COUNT, RequestedControls, control_name_str, control_requested, requested_names,
};

verus! {

broadcast use vstd::string::to_string_from_display_ensures_for_str;

/// Detailed mock capture behavior.
#[derive(Debug, Clone, Copy, PartialEq, Eq, Structural)]
pub enum MockCaptureMode {
    /// Return a valid frame.
    Success,
    /// Return an error.
    Failure,
    /// Delay before returning a frame.
    SlowCapture,
}

/// The mode of a device under a table of modes: the one set for it, or
/// `Success` when none was set.
pub open spec fn mode_for(modes: Map<Seq<char>, MockCaptureMode>, id: Seq<char>) -> MockCaptureMode {
    if modes.contains_key(id) {
        modes[id]
    } else {
        MockCaptureMode::Success
    }
}

/// The capture mode set for each mock device, by device ID.
pub struct MockModeRegistry {
    table: DeviceTable<MockCaptureMode>,
}

impl MockModeRegistry {
    /// Every device ID occurs at most once.
    pub closed spec fn wf(&self) -> bool {
        self.table.wf()
    }

    /// The table of modes set so far.
    pub closed spec fn modes(&self) -> Map<Seq<char>, MockCaptureMode> {
        self.table.map()
    }

    /// An empty registry: every device captures successfully.
    pub fn new() -> (r: Self)
        ensures
            r.wf(),
            r.modes() == Map::<Seq<char>, MockCaptureMode>::empty(),
    {
        MockModeRegistry { table: DeviceTable::new() }
    }

    /// Get mock camera mode for a device: the mode set for it, or `Success`.
    pub fn get(&self, device_id: &str) -> (m: MockCaptureMode)
        requires
            self.wf(),
        ensures
            m == mode_for(self.modes(), device_id@),
    {
        match self.table.get(device_id) {
            Some(m) => *m,
            None => MockCaptureMode::Success,
        }
    }

    /// The mode a camera captures in: the mode set for its device in this
    /// table when there is one, else the camera's own mode `own`.
    pub fn mode_or(&self, device_id: &str, own: MockCaptureMode) -> (m: MockCaptureMode)
        requires
            self.wf(),
        ensures
            m == if self.modes().contains_key(device_id@) {
                self.modes()[device_id@]
            } else {
                own
            },
    {
        match self.table.get(device_id) {
            Some(m) => *m,
            None => own,
        }
    }

    /// Set mock camera mode for a device.
    pub fn set(&mut self, device_id: &str, mode: MockCaptureMode)
        requires
            old(self).wf(),
        ensures
            final(self).wf(),
            final(self).modes() == old(self).modes().insert(device_id@, mode),
    {
        self.table.insert(device_id, mode);
    }
}

/// After a mode is set for a device, that device reads it back, and every
/// other device keeps the mode it had; a device nobody set captures
/// successfully.
pub proof fn lemma_mode_read_back(
    modes: Map<Seq<char>, MockCaptureMode>,
    id: Seq<char>,
    mode: MockCaptureMode,
    other: Seq<char>,
)
    ensures
        mode_for(modes.insert(id, mode), id) == mode,
        other != id ==> mode_for(modes.insert(id, mode), other) == mode_for(modes, other),
        mode_for(Map::empty(), other) == MockCaptureMode::Success,
{
}

/// Width of a mock frame.
pub const MOCK_FRAME_WIDTH: u32 = 1280;

/// Height of a mock frame.
pub const MOCK_FRAME_HEIGHT: u32 = 720;

/// Create mock camera frame: a uniform mid-gray 1280x720 RGB8 picture.
pub fn create_mock_frame(device_id: &str) -> (f: CameraFrame)
    ensures
        f.width == MOCK_FRAME_WIDTH,
        f.height == MOCK_FRAME_HEIGHT,
        f.data@ == Seq::new(1280 * 720 * 3, |i: int| 128u8),
        f.size_bytes == 1280 * 720 * 3,
        f.format@ == rgb8_name(),
        f.device_id@ == device_id@,
        is_hyphenated_uuid(f.id@),
{
    let n: usize = 1280 * 720 * 3;
    let data = vec![128u8; n];
    assert(data@ =~= Seq::new(1280 * 720 * 3, |i: int| 128u8));
    CameraFrame {
        id: new_uuid_string(),
        device_id: device_id.to_string(),
        timestamp: utc_now_millis(),
        width: MOCK_FRAME_WIDTH,
        height: MOCK_FRAME_HEIGHT,
        format: "RGB8".to_string(),
        data,
        size_bytes: n,
    }
}

/// Apply camera controls to the mock camera: it accepts every control that
/// is requested, reporting them in the order it applies them, and rejects
/// none.
pub fn mock_apply_controls(req: &RequestedControls) -> (r: ControlApplicationResult)
    ensures
        r.applied@.len() == requested_names(*req, CONTROL_COUNT as int).len(),
        forall|i: int|
            0 <= i < r.applied@.len() ==> #[trigger] r.applied@[i]@ == requested_names(
                *req,
                CONTROL_COUNT as int,
            )[i],
        r.rejected@.len() == 0,
{
    let mut applied: Vec<String> = Vec::new();
    let mut k: usize = 0;
    while k < CONTROL_COUNT
        invariant
            k <= CONTROL_COUNT,
            applied@.len() == requested_names(*req, k as int).len(),
            forall|i: int|
                0 <= i < applied@.len() ==> #[trigger] applied@[i]@ == requested_names(
                    *req,
                    k as int,
                )[i],
        decreases CONTROL_COUNT - k,
    {
        let requested = control_requested(req, k);
        if requested {
            applied.push(control_name_str(k).to_string());
        }
        k += 1;
    }
    ControlApplicationResult { applied, rejected: Vec::new() }
}

} // verus!
