//! Keeping one open camera per device, releasing it, and capturing with
//! reconnection: the decisions of a capture that reopens its camera with
//! exponential backoff when a frame cannot be had.

use vstd::prelude::*;
use vstd::string::StringExecFns;
use crate::errors::{CameraError, error_prefix, error_detail};
use crate::platform::table::DeviceTable;
use crate::text::{decimal, decimal_string};

verus! {

broadcast use vstd::string::to_string_from_display_ensures_for_str;

// ---------------------------------------------------------------------------
// The registry of open cameras
// ---------------------------------------------------------------------------

/// The text of a release that stopped a camera.
pub open spec fn released_text(id: Seq<char>) -> Seq<char> {
    "Camera "@ + id + " released"@
}

/// The text of a release that found no camera to stop.
pub open spec fn not_active_text(id: Seq<char>) -> Seq<char> {
    "No active camera found with ID: "@ + id
}

/// The open cameras, one per device ID.
pub struct CameraRegistry<T> {
    table: DeviceTable<T>,
}

impl<T> CameraRegistry<T> {
    /// Every device ID occurs at most once.
    pub closed spec fn wf(&self) -> bool {
        self.table.wf()
    }

    /// The open cameras by device ID.
    pub closed spec fn cameras(&self) -> Map<Seq<char>, T> {
        self.table.map()
    }

    /// A registry with no open camera.
    pub fn new() -> (r: Self)
        ensures
            r.wf(),
            r.cameras() == Map::<Seq<char>, T>::empty(),
    {
        CameraRegistry { table: DeviceTable::new() }
    }

    /// Get existing camera without creating if it doesn't exist.
    pub fn get_existing(&self, device_id: &str) -> (c: Option<&T>)
        requires
            self.wf(),
        ensures
            c is None <==> !self.cameras().contains_key(device_id@),
            c matches Some(x) ==> *x == self.cameras()[device_id@],
    {
        self.table.get(device_id)
    }

    /// Keep a newly opened camera for a device, in place of any kept before.
    pub fn register(&mut self, device_id: &str, camera: T)
        requires
            old(self).wf(),
        ensures
            final(self).wf(),
            final(self).cameras() == old(self).cameras().insert(device_id@, camera),
    {
        self.table.insert(device_id, camera);
    }

    /// Release a camera: take it out of the registry (the caller stops it)
    /// and say what was done. Releasing a device with no open camera is no
    /// error; it changes nothing.
    pub fn release(&mut self, device_id: &str) -> (r: (Option<T>, String))
        requires
            old(self).wf(),
        ensures
            final(self).wf(),
            final(self).cameras() == old(self).cameras().remove(device_id@),
            r.0 is None <==> !old(self).cameras().contains_key(device_id@),
            r.0 matches Some(c) ==> c == old(self).cameras()[device_id@],
            r.0 is Some ==> r.1@ == released_text(device_id@),
            r.0 is None ==> r.1@ == not_active_text(device_id@),
    {
        let taken = self.table.remove(device_id);
        let msg = match taken {
            Some(_) => {
                let mut m = "Camera ".to_string();
                m.append(device_id);
                m.append(" released");
                m
            },
            None => {
                let mut m = "No active camera found with ID: ".to_string();
                m.append(device_id);
                m
            },
        };
        (taken, msg)
    }
}

/// A camera that was opened for a device is the one found for it afterwards,
/// so a second request reuses it; releasing it leaves no camera for the
/// device and every other device keeps its own.
pub proof fn lemma_register_then_release<T>(
    cameras: Map<Seq<char>, T>,
    id: Seq<char>,
    camera: T,
    other: Seq<char>,
)
    ensures
        cameras.insert(id, camera).contains_key(id),
        cameras.insert(id, camera)[id] == camera,
        !cameras.insert(id, camera).remove(id).contains_key(id),
        other != id ==> (cameras.insert(id, camera).remove(id).contains_key(other)
            <==> cameras.contains_key(other)),
        other != id && cameras.contains_key(other) ==> cameras.insert(id, camera).remove(
            id,
        )[other] == cameras[other],
        !cameras.contains_key(id) ==> cameras.insert(id, camera).remove(id) == cameras,
{
    if !cameras.contains_key(id) {
        assert(cameras.insert(id, camera).remove(id) =~= cameras);
    }
}

// ---------------------------------------------------------------------------
// Backoff
// ---------------------------------------------------------------------------

/// `x` doubled `k` times.
pub open spec fn doubled(x: nat, k: nat) -> nat
    decreases k,
{
    if k == 0 {
        x
    } else {
        2 * doubled(x, (k - 1) as nat)
    }
}

/// Doubling more often never gives less.
proof fn lemma_doubled_monotone(x: nat, a: nat, b: nat)
    requires
        a <= b,
    ensures
        doubled(x, a) <= doubled(x, b),
    decreases b,
{
    if a < b {
        lemma_doubled_monotone(x, a, (b - 1) as nat);
    }
}

/// The wait before reconnection attempt `attempt + 1`, after attempt
/// `attempt` (counted from 1) failed: the initial wait doubled once per
/// earlier attempt, and never more than `cap`.
pub open spec fn backoff(attempt: nat, initial: nat, cap: nat) -> nat {
    let d = doubled(initial, (attempt - 1) as nat);
    if d < cap {
        d
    } else {
        cap
    }
}

/// The wait never exceeds the cap, never shrinks from one attempt to the
/// next, and after the first attempt it is the initial wait (or the cap, if
/// that is smaller).
pub proof fn lemma_backoff_capped_and_growing(attempt: nat, initial: nat, cap: nat)
    requires
        attempt >= 1,
    ensures
        backoff(attempt, initial, cap) <= cap,
        backoff(attempt, initial, cap) <= backoff(attempt + 1, initial, cap),
        backoff(1, initial, cap) == if initial < cap {
            initial
        } else {
            cap
        },
{
    lemma_doubled_monotone(initial, (attempt - 1) as nat, attempt);
}

/// The wait in milliseconds after failed reconnection attempt `attempt`
/// (counted from 1): exponential backoff from `initial_ms`, capped at
/// `max_ms`.
pub fn reconnect_backoff_ms(attempt: u32, initial_ms: u64, max_ms: u64) -> (d: u64)
    requires
        attempt >= 1,
    ensures
        d == backoff(attempt as nat, initial_ms as nat, max_ms as nat),
{
    let mut d: u64 = initial_ms;
    let mut k: u32 = 1;
    while k < attempt
        invariant
            1 <= k <= attempt,
            d == doubled(initial_ms as nat, (k - 1) as nat),
        decreases attempt - k,
    {
        if d >= max_ms || d > max_ms - d {
            proof {
                lemma_doubled_monotone(initial_ms as nat, (k - 1) as nat, (attempt - 1) as nat);
                lemma_doubled_monotone(initial_ms as nat, k as nat, (attempt - 1) as nat);
            }
            return max_ms;
        }
        d = d + d;
        k += 1;
    }
    if d < max_ms {
        d
    } else {
        max_ms
    }
}

// ---------------------------------------------------------------------------
// Capture with reconnection
// ---------------------------------------------------------------------------

/// The text of the error after every reconnection attempt failed.
pub open spec fn reconnect_failed_text(attempts: nat) -> Seq<char> {
    "Failed to reconnect camera after "@ + decimal(attempts) + " attempts"@
}

/// The text of the error when the capture after a reconnection failed.
pub open spec fn recapture_failed_text(e: CameraError) -> Seq<char> {
    "Capture failed after reconnection: "@ + error_prefix(e) + error_detail(e)
}

/// What to do after a reconnection attempt failed, or before the first.
#[derive(Debug, Clone, PartialEq, Eq)]
pub enum ReconnectDecision {
    /// Wait `wait_ms`, then make attempt number `attempt` (from 1) to open
    /// the device's camera.
    Attempt { attempt: u32, wait_ms: u64 },
    /// Stop trying, with this error.
    GiveUp(CameraError),
}

/// The attempts to reopen a camera: up to an allowed number, the first at
/// once, each later one after an exponentially growing wait.
pub struct ReconnectSchedule {
    attempt: u32,
    max_retries: u32,
    initial_backoff_ms: u64,
    max_backoff_ms: u64,
}

impl ReconnectSchedule {
    /// The number of the last attempt made (0 before the first).
    pub closed spec fn attempts_made(&self) -> nat {
        self.attempt as nat
    }

    /// The number of attempts allowed.
    pub closed spec fn max_attempts(&self) -> nat {
        self.max_retries as nat
    }

    /// The initial wait between attempts.
    pub closed spec fn initial_wait(&self) -> nat {
        self.initial_backoff_ms as nat
    }

    /// The longest wait between attempts.
    pub closed spec fn max_wait(&self) -> nat {
        self.max_backoff_ms as nat
    }

    /// A schedule allowing `max_retries` attempts.
    pub fn new(max_retries: u32, initial_backoff_ms: u64, max_backoff_ms: u64) -> (s: Self)
        ensures
            s.attempts_made() == 0,
            s.max_attempts() == max_retries,
            s.initial_wait() == initial_backoff_ms,
            s.max_wait() == max_backoff_ms,
    {
        ReconnectSchedule { attempt: 0, max_retries, initial_backoff_ms, max_backoff_ms }
    }

    /// Decide the next step: before the first attempt, make it at once;
    /// after a failed attempt that was not the last allowed, make the next
    /// one after the backoff; otherwise give up with a connection error
    /// that says how many attempts were allowed.
    pub fn next(&mut self) -> (d: ReconnectDecision)
        requires
            old(self).attempts_made() <= old(self).max_attempts(),
        ensures
            final(self).max_attempts() == old(self).max_attempts(),
            final(self).initial_wait() == old(self).initial_wait(),
            final(self).max_wait() == old(self).max_wait(),
            final(self).attempts_made() <= final(self).max_attempts(),
            old(self).attempts_made() < old(self).max_attempts() ==> d == (ReconnectDecision::Attempt {
                attempt: (old(self).attempts_made() + 1) as u32,
                wait_ms: if old(self).attempts_made() == 0 {
                    0u64
                } else {
                    backoff(old(self).attempts_made(), old(self).initial_wait(), old(self).max_wait())
                        as u64
                },
            }) && final(self).attempts_made() == old(self).attempts_made() + 1,
            old(self).attempts_made() == old(self).max_attempts() ==> (d matches ReconnectDecision::GiveUp(
                CameraError::ConnectionError(m),
            ) && m@ == reconnect_failed_text(old(self).max_attempts()))
                && final(self).attempts_made() == old(self).attempts_made(),
    {
        if self.attempt < self.max_retries {
            let wait_ms = if self.attempt == 0 {
                0
            } else {
                reconnect_backoff_ms(self.attempt, self.initial_backoff_ms, self.max_backoff_ms)
            };
            self.attempt = self.attempt + 1;
            ReconnectDecision::Attempt { attempt: self.attempt, wait_ms }
        } else {
            ReconnectDecision::GiveUp(
                CameraError::ConnectionError(reconnect_failed_message(self.max_retries)),
            )
        }
    }
}

/// Reconnecting a device's camera: the camera held for it is dropped, then
/// it is opened afresh following a [`ReconnectSchedule`]. A camera that
/// opens is registered for the device; giving up leaves none.
pub struct Reconnection {
    device_id: String,
    schedule: ReconnectSchedule,
}

impl Reconnection {
    /// The device being reconnected.
    pub closed spec fn device(&self) -> Seq<char> {
        self.device_id@
    }

    /// The attempts to open it.
    pub closed spec fn spec_schedule(&self) -> ReconnectSchedule {
        self.schedule
    }

    /// Start reconnecting `device_id`: take its camera out of the registry
    /// (the caller stops it) and decide the first attempt, or give up at once
    /// when no attempt is allowed.
    pub fn start<T>(
        registry: &mut CameraRegistry<T>,
        device_id: &str,
        max_retries: u32,
        initial_backoff_ms: u64,
        max_backoff_ms: u64,
    ) -> (r: (Self, Option<T>, ReconnectDecision))
        requires
            old(registry).wf(),
        ensures
            final(registry).wf(),
            final(registry).cameras() == old(registry).cameras().remove(device_id@),
            r.1 is None <==> !old(registry).cameras().contains_key(device_id@),
            r.1 matches Some(c) ==> c == old(registry).cameras()[device_id@],
            r.0.device() == device_id@,
            r.0.spec_schedule().max_attempts() == max_retries,
            r.0.spec_schedule().initial_wait() == initial_backoff_ms,
            r.0.spec_schedule().max_wait() == max_backoff_ms,
            r.0.spec_schedule().attempts_made() <= max_retries,
            max_retries > 0 ==> r.2 == (ReconnectDecision::Attempt { attempt: 1, wait_ms: 0 })
                && r.0.spec_schedule().attempts_made() == 1,
            max_retries == 0 ==> (r.2 matches ReconnectDecision::GiveUp(
                CameraError::ConnectionError(m),
            ) && m@ == reconnect_failed_text(0)),
    {
        let (old_camera, _) = registry.release(device_id);
        let mut schedule = ReconnectSchedule::new(max_retries, initial_backoff_ms, max_backoff_ms);
        let first = schedule.next();
        (Reconnection { device_id: device_id.to_string(), schedule }, old_camera, first)
    }

    /// The attempt opened `camera`: it is registered for the device.
    pub fn connected<T>(&self, registry: &mut CameraRegistry<T>, camera: T)
        requires
            old(registry).wf(),
        ensures
            final(registry).wf(),
            final(registry).cameras() == old(registry).cameras().insert(self.device(), camera),
    {
        registry.register(self.device_id.as_str(), camera);
    }

    /// The attempt failed (the registry is left as it was): decide the next
    /// attempt, or give up with a connection error that says how many
    /// attempts were allowed.
    pub fn attempt_failed(&mut self) -> (d: ReconnectDecision)
        requires
            old(self).spec_schedule().attempts_made() <= old(self).spec_schedule().max_attempts(),
        ensures
            final(self).device() == old(self).device(),
            final(self).spec_schedule().max_attempts() == old(self).spec_schedule().max_attempts(),
            final(self).spec_schedule().initial_wait() == old(self).spec_schedule().initial_wait(),
            final(self).spec_schedule().max_wait() == old(self).spec_schedule().max_wait(),
            final(self).spec_schedule().attempts_made()
                <= final(self).spec_schedule().max_attempts(),
            old(self).spec_schedule().attempts_made() < old(self).spec_schedule().max_attempts()
                ==> final(self).spec_schedule().attempts_made()
                == old(self).spec_schedule().attempts_made() + 1,
            old(self).spec_schedule().attempts_made() == old(self).spec_schedule().max_attempts()
                ==> final(self).spec_schedule().attempts_made()
                == old(self).spec_schedule().attempts_made(),
            old(self).spec_schedule().attempts_made() < old(self).spec_schedule().max_attempts()
                ==> d == (ReconnectDecision::Attempt {
                attempt: (old(self).spec_schedule().attempts_made() + 1) as u32,
                wait_ms: if old(self).spec_schedule().attempts_made() == 0 {
                    0u64
                } else {
                    backoff(
                        old(self).spec_schedule().attempts_made(),
                        old(self).spec_schedule().initial_wait(),
                        old(self).spec_schedule().max_wait(),
                    ) as u64
                },
            }),
            old(self).spec_schedule().attempts_made() == old(self).spec_schedule().max_attempts()
                ==> (d matches ReconnectDecision::GiveUp(CameraError::ConnectionError(m)) && m@
                == reconnect_failed_text(old(self).spec_schedule().max_attempts())),
    {
        self.schedule.next()
    }
}

/// Reconnect a device's camera: drop the camera held for it (handing it to
/// `stop`), then try to open it afresh up to `max_retries` times with
/// exponential backoff. `open(attempt, wait_ms)` waits `wait_ms`, then makes
/// attempt number `attempt` (from 1), giving the camera or `None`.
///
/// On success the camera that opened is the one registered for the device
/// and every other device keeps its own; after the last failed attempt (at
/// once when no attempt is allowed) the error says how many attempts were
/// allowed and no camera is registered for the device.
pub fn reconnect<T, G: FnOnce(T), F: Fn(u32, u64) -> Option<T>>(
    registry: &mut CameraRegistry<T>,
    device_id: &str,
    max_retries: u32,
    initial_backoff_ms: u64,
    max_backoff_ms: u64,
    stop: G,
    open: F,
) -> (r: Result<(), CameraError>)
    requires
        old(registry).wf(),
        forall|c: T| stop.requires((c,)),
        forall|attempt: u32, wait_ms: u64| open.requires((attempt, wait_ms)),
    ensures
        final(registry).wf(),
        r is Ok ==> final(registry).cameras().contains_key(device_id@)
            && final(registry).cameras() == old(registry).cameras().remove(device_id@).insert(
            device_id@,
            final(registry).cameras()[device_id@],
        ) && exists|attempt: u32, wait_ms: u64|
            1 <= attempt <= max_retries && #[trigger] open.ensures(
                (attempt, wait_ms),
                Some(final(registry).cameras()[device_id@]),
            ),
        r is Err ==> final(registry).cameras() == old(registry).cameras().remove(device_id@),
        r matches Err(e) ==> (e matches CameraError::ConnectionError(m) && m@
            == reconnect_failed_text(max_retries as nat)),
        max_retries == 0 ==> r is Err,
{
    let (mut reconnection, old_camera, mut decision) = Reconnection::start(
        registry,
        device_id,
        max_retries,
        initial_backoff_ms,
        max_backoff_ms,
    );
    if let Some(camera) = old_camera {
        stop(camera);
    }
    loop
        invariant
            registry.wf(),
            registry.cameras() == old(registry).cameras().remove(device_id@),
            reconnection.device() == device_id@,
            reconnection.spec_schedule().max_attempts() == max_retries,
            reconnection.spec_schedule().attempts_made() <= max_retries,
            forall|attempt: u32, wait_ms: u64| open.requires((attempt, wait_ms)),
            decision matches ReconnectDecision::Attempt { attempt, .. } ==> 1 <= attempt
                <= max_retries,
            decision matches ReconnectDecision::GiveUp(e) ==> (e matches CameraError::ConnectionError(
                m,
            ) && m@ == reconnect_failed_text(max_retries as nat)),
        decreases 2 * (max_retries - reconnection.spec_schedule().attempts_made()) + if decision is Attempt {
            1int
        } else {
            0int
        },
    {
        match decision {
            ReconnectDecision::Attempt { attempt, wait_ms } => {
                match open(attempt, wait_ms) {
                    Some(camera) => {
                        let ghost opened = camera;
                        assert(open.ensures((attempt, wait_ms), Some(opened)));
                        reconnection.connected(registry, camera);
                        return Ok(());
                    },
                    None => {
                        decision = reconnection.attempt_failed();
                    },
                }
            },
            ReconnectDecision::GiveUp(e) => {
                return Err(e);
            },
        }
    }
}

/// Reconnecting leaves the device with the camera that opened, or with none:
/// starting drops the device's camera and failed attempts change nothing,
/// so after giving up no camera is registered for the device while every
/// other device keeps its own; a camera that opens is the one found for the
/// device afterwards.
pub proof fn lemma_reconnect_outcome<T>(
    cameras: Map<Seq<char>, T>,
    id: Seq<char>,
    camera: T,
    other: Seq<char>,
)
    ensures
        !cameras.remove(id).contains_key(id),
        cameras.remove(id).insert(id, camera).contains_key(id),
        cameras.remove(id).insert(id, camera)[id] == camera,
        other != id ==> (cameras.remove(id).contains_key(other) <==> cameras.contains_key(other)),
        other != id && cameras.contains_key(other) ==> cameras.remove(id)[other] == cameras[other],
{
}

/// Where a capture with reconnection stands.
#[derive(Debug, Clone, Copy, PartialEq, Eq, Structural)]
pub enum SessionPhase {
    /// Waiting for the device's camera to be found or opened.
    Opening,
    /// Waiting for the first capture.
    FirstCapture,
    /// Waiting for the camera to be reopened.
    Reconnecting,
    /// Waiting for the capture after the camera was reopened.
    Recapture,
    /// The outcome has been given.
    Done,
}

/// What the driver of a session reports.
#[derive(Debug, Clone, PartialEq, Eq)]
pub enum SessionEvent {
    /// The camera was found or (re)opened.
    CameraReady,
    /// The camera could not be (re)opened.
    CameraFailed(CameraError),
    /// A frame was captured.
    Captured,
    /// The capture failed.
    CaptureFailed(CameraError),
}

/// What the driver of a session is to do next.
#[derive(Debug, Clone, PartialEq, Eq)]
pub enum SessionAction {
    /// Start the stream, let the camera warm up and capture a frame.
    Capture,
    /// Drop the device's camera and reopen it, following a
    /// [`ReconnectSchedule`].
    Reconnect,
    /// Hand the captured frame to the caller.
    ReturnFrame,
    /// Fail with this error.
    ReturnError(CameraError),
}

/// Whether `event` is one that can follow in `phase`: camera events while a
/// camera is being opened, capture events while a frame is awaited.
pub open spec fn expects(phase: SessionPhase, event: SessionEvent) -> bool {
    match phase {
        SessionPhase::Opening | SessionPhase::Reconnecting => event is CameraReady
            || event is CameraFailed,
        SessionPhase::FirstCapture | SessionPhase::Recapture => event is Captured
            || event is CaptureFailed,
        SessionPhase::Done => false,
    }
}

/// The number of steps a session in `phase` can still take.
pub open spec fn steps_left(phase: SessionPhase) -> nat {
    match phase {
        SessionPhase::Opening => 4,
        SessionPhase::FirstCapture => 3,
        SessionPhase::Reconnecting => 2,
        SessionPhase::Recapture => 1,
        SessionPhase::Done => 0,
    }
}

/// Capture with automatic reconnection on failure: the camera is found or
/// opened, a frame captured; when that capture fails, the camera is reopened
/// and a frame captured once more.
pub struct CaptureSession {
    phase: SessionPhase,
}

impl CaptureSession {
    /// The phase the session is in.
    pub closed spec fn spec_phase(&self) -> SessionPhase {
        self.phase
    }

    /// A session that first looks up or opens the device's camera.
    pub fn new() -> (s: Self)
        ensures
            s.spec_phase() == SessionPhase::Opening,
    {
        CaptureSession { phase: SessionPhase::Opening }
    }

    /// The phase the session is in.
    pub fn phase(&self) -> (p: SessionPhase)
        ensures
            p == self.spec_phase(),
    {
        self.phase
    }

    /// Take the outcome of the last action and decide the next one. A
    /// camera that cannot be opened, at first or on reconnection, is an
    /// error. The first frame is returned as it is; when it fails, the
    /// camera is reopened. A failure of the capture after that is a capture
    /// error that carries the cause.
    pub fn step(&mut self, event: SessionEvent) -> (a: SessionAction)
        requires
            expects(old(self).spec_phase(), event),
        ensures
            steps_left(final(self).spec_phase()) < steps_left(old(self).spec_phase()),
            (a is ReturnFrame || a is ReturnError) <==> final(self).spec_phase()
                == SessionPhase::Done,
            (old(self).spec_phase() == SessionPhase::Opening || old(self).spec_phase()
                == SessionPhase::Reconnecting) ==> match event {
                SessionEvent::CameraFailed(e) => a == SessionAction::ReturnError(e),
                _ => a == SessionAction::Capture && final(self).spec_phase() == if old(
                    self,
                ).spec_phase() == SessionPhase::Opening {
                    SessionPhase::FirstCapture
                } else {
                    SessionPhase::Recapture
                },
            },
            old(self).spec_phase() == SessionPhase::FirstCapture ==> match event {
                SessionEvent::Captured => a == SessionAction::ReturnFrame,
                _ => a == SessionAction::Reconnect && final(self).spec_phase()
                    == SessionPhase::Reconnecting,
            },
            old(self).spec_phase() == SessionPhase::Recapture ==> match event {
                SessionEvent::CaptureFailed(e) => a matches SessionAction::ReturnError(
                    CameraError::CaptureError(m),
                ) && m@ == recapture_failed_text(e),
                _ => a == SessionAction::ReturnFrame,
            },
    {
        match self.phase {
            SessionPhase::Opening | SessionPhase::Reconnecting => match event {
                SessionEvent::CameraFailed(e) => {
                    self.phase = SessionPhase::Done;
                    SessionAction::ReturnError(e)
                },
                _ => {
                    self.phase = if self.phase == SessionPhase::Opening {
                        SessionPhase::FirstCapture
                    } else {
                        SessionPhase::Recapture
                    };
                    SessionAction::Capture
                },
            },
            SessionPhase::FirstCapture => match event {
                SessionEvent::Captured => {
                    self.phase = SessionPhase::Done;
                    SessionAction::ReturnFrame
                },
                _ => {
                    self.phase = SessionPhase::Reconnecting;
                    SessionAction::Reconnect
                },
            },
            SessionPhase::Recapture => match event {
                SessionEvent::CaptureFailed(e) => {
                    self.phase = SessionPhase::Done;
                    let mut m = "Capture failed after reconnection: ".to_string();
                    m.append(e.message().as_str());
                    SessionAction::ReturnError(CameraError::CaptureError(m))
                },
                _ => {
                    self.phase = SessionPhase::Done;
                    SessionAction::ReturnFrame
                },
            },
            SessionPhase::Done => SessionAction::ReturnFrame,
        }
    }
}

/// "Failed to reconnect camera after N attempts".
fn reconnect_failed_message(attempts: u32) -> (s: String)
    ensures
        s@ == reconnect_failed_text(attempts as nat),
{
    let mut m = "Failed to reconnect camera after ".to_string();
    m.append(decimal_string(attempts as usize).as_str());
    m.append(" attempts");
    m
}

} // verus!
