//! The decisions of the smart capture trigger.
//!
//! The trigger watches a stream of analysed frames and says when to capture:
//! after enough consecutive good frames that have stayed good for long
//! enough, or when a timeout runs out. The clock readings and the quality
//! comparison (floating point) are made by the caller and handed in as an
//! observation; this module holds the state machine that decides.

use vstd::prelude::*;
use vstd::string::StringExecFns;
use crate::text::{decimal, decimal_string};

verus! {

broadcast use vstd::string::to_string_from_display_ensures_for_str;

// ---------------------------------------------------------------------------
// Trigger state machine
// ---------------------------------------------------------------------------

/// Status of the smart trigger monitor
#[derive(Debug, Clone, PartialEq)]
pub enum TriggerStatus {
    /// Waiting for better conditions
    Thinking(String),
    /// Ready to capture (conditions met)
    Ready,
    /// Timeout reached, capturing best available
    Timeout,
    /// Processing complete
    Captured,
}

impl TriggerStatus {
    /// Whether this status says to capture now.
    pub fn is_ready(&self) -> (b: bool)
        ensures
            b == (*self is Ready),
    {
        matches!(self, TriggerStatus::Ready)
    }
}

/// The rules a trigger applies (the integer and boolean part of its
/// configuration).
#[derive(Debug, Clone, Copy, PartialEq, Eq, Structural)]
pub struct TriggerRules {
    /// Number of consecutive frames that must meet criteria.
    pub required_consecutive_good_frames: usize,
    /// Once `Ready` is reached, lock the trigger (return `Captured`) until
    /// reset, preventing rapid re-triggering on subsequent good frames.
    pub lock_after_ready: bool,
}

/// What the trigger remembers between frames.
#[derive(Debug, Clone, Copy, PartialEq, Eq, Structural)]
pub struct TriggerState {
    /// Number of consecutive frames that met the quality threshold.
    pub good_frame_streak: usize,
    /// Whether the current run of good frames has started its stability
    /// clock (the time of its first good frame is recorded).
    pub streak_clock_running: bool,
    /// Whether a capture was triggered and the trigger holds until reset.
    pub locked: bool,
}

/// What the caller measured about the current frame.
#[derive(Debug, Clone, Copy, PartialEq, Eq, Structural)]
pub struct FrameObservation {
    /// A timeout is configured and has run out since the sequence started.
    pub timed_out: bool,
    /// The frame's overall quality score meets the minimum.
    pub meets_quality: bool,
    /// The run of good frames (this one included) has lasted at least the
    /// minimum stability duration.
    pub stable: bool,
}

/// The state of a fresh or reset trigger.
pub open spec fn initial_state() -> TriggerState {
    TriggerState { good_frame_streak: 0, streak_clock_running: false, locked: false }
}

/// The text of the status while the trigger waits on a good frame.
pub open spec fn improving_text() -> Seq<char> {
    "Improving quality..."@
}

/// The text of the status while a run of good frames builds up.
pub open spec fn stabilizing_text(streak: nat, required: nat) -> Seq<char> {
    "Stabilizing ("@ + decimal(streak) + "/"@ + decimal(required) + ")"@
}

/// The status a step reports, over the state before it.
pub open spec fn step_status_spec(
    s: TriggerState,
    rules: TriggerRules,
    obs: FrameObservation,
) -> Option<Seq<char>> {
    // `None` stands for a non-`Thinking` status; see `step_spec`.
    if s.locked || obs.timed_out {
        None
    } else if obs.meets_quality {
        if s.good_frame_streak + 1 >= rules.required_consecutive_good_frames && obs.stable {
            None
        } else {
            Some(
                stabilizing_text(
                    (s.good_frame_streak + 1) as nat,
                    rules.required_consecutive_good_frames as nat,
                ),
            )
        }
    } else {
        Some(improving_text())
    }
}

/// One decision of the trigger: the next state and the kind of status
/// (`Ready`, `Timeout`, `Captured`, or `Thinking` with the given text).
pub open spec fn step_spec(s: TriggerState, rules: TriggerRules, obs: FrameObservation) -> (
    TriggerState,
    TriggerStatusKind,
) {
    if s.locked {
        (s, TriggerStatusKind::Captured)
    } else if obs.timed_out {
        (s, TriggerStatusKind::Timeout)
    } else if obs.meets_quality {
        let streak = (s.good_frame_streak + 1) as usize;
        if streak >= rules.required_consecutive_good_frames && obs.stable {
            (
                TriggerState {
                    good_frame_streak: streak,
                    streak_clock_running: true,
                    locked: rules.lock_after_ready,
                },
                TriggerStatusKind::Ready,
            )
        } else {
            (
                TriggerState { good_frame_streak: streak, streak_clock_running: true, locked: false },
                TriggerStatusKind::Thinking,
            )
        }
    } else {
        (
            TriggerState { good_frame_streak: 0, streak_clock_running: false, locked: false },
            TriggerStatusKind::Thinking,
        )
    }
}

/// The variant of a [`TriggerStatus`], without its text.
#[derive(Debug, Clone, Copy, PartialEq, Eq, Structural)]
pub enum TriggerStatusKind {
    /// `TriggerStatus::Thinking`.
    Thinking,
    /// `TriggerStatus::Ready`.
    Ready,
    /// `TriggerStatus::Timeout`.
    Timeout,
    /// `TriggerStatus::Captured`.
    Captured,
}

/// The variant of a status.
pub open spec fn kind_of(st: TriggerStatus) -> TriggerStatusKind {
    match st {
        TriggerStatus::Thinking(_) => TriggerStatusKind::Thinking,
        TriggerStatus::Ready => TriggerStatusKind::Ready,
        TriggerStatus::Timeout => TriggerStatusKind::Timeout,
        TriggerStatus::Captured => TriggerStatusKind::Captured,
    }
}

impl TriggerState {
    /// The state of a fresh trigger; also what a reset returns to.
    pub fn new() -> (s: Self)
        ensures
            s == initial_state(),
    {
        TriggerState { good_frame_streak: 0, streak_clock_running: false, locked: false }
    }

    /// Reset trigger state for a new capture sequence
    pub fn reset(&mut self)
        ensures
            *final(self) == initial_state(),
    {
        *self = TriggerState::new();
    }

    /// Process the observation of a new frame and decide whether to capture.
    ///
    /// A locked trigger answers `Captured`; a timed-out one `Timeout`. A good
    /// frame extends the streak (starting its stability clock), and when the
    /// streak is long enough and stable the answer is `Ready` (locking the
    /// trigger if the rules say so). A poor frame ends the streak. Otherwise
    /// the trigger is `Thinking`, with a message on its progress.
    pub fn process(&mut self, rules: &TriggerRules, obs: FrameObservation) -> (st: TriggerStatus)
        requires
            obs.meets_quality && !old(self).locked && !obs.timed_out
                ==> old(self).good_frame_streak < usize::MAX,
        ensures
            (*final(self), kind_of(st)) == step_spec(*old(self), *rules, obs),
            st matches TriggerStatus::Thinking(msg) ==> step_status_spec(
                *old(self),
                *rules,
                obs,
            ) == Some(msg@),
    {
        if self.locked {
            return TriggerStatus::Captured;
        }
        if obs.timed_out {
            return TriggerStatus::Timeout;
        }
        if obs.meets_quality {
            self.good_frame_streak = self.good_frame_streak + 1;
            self.streak_clock_running = true;
            if self.good_frame_streak >= rules.required_consecutive_good_frames && obs.stable {
                if rules.lock_after_ready {
                    self.locked = true;
                }
                return TriggerStatus::Ready;
            }
            let mut msg = "Stabilizing (".to_string();
            msg.append(decimal_string(self.good_frame_streak).as_str());
            msg.append("/");
            msg.append(decimal_string(rules.required_consecutive_good_frames).as_str());
            msg.append(")");
            TriggerStatus::Thinking(msg)
        } else {
            self.good_frame_streak = 0;
            self.streak_clock_running = false;
            TriggerStatus::Thinking("Improving quality...".to_string())
        }
    }
}

// ---------------------------------------------------------------------------
// Laws
// ---------------------------------------------------------------------------

/// Once a locking trigger reports `Ready`, it is locked: every later frame is
/// answered `Captured` and leaves the state unchanged, whatever is observed,
/// until the trigger is reset. A trigger never reports `Ready` twice in a row
/// under such rules.
pub proof fn lemma_lock_prevents_duplicate(
    s: TriggerState,
    rules: TriggerRules,
    first: FrameObservation,
    later: FrameObservation,
)
    requires
        rules.lock_after_ready,
        step_spec(s, rules, first).1 == TriggerStatusKind::Ready,
    ensures
        step_spec(s, rules, first).0.locked,
        step_spec(step_spec(s, rules, first).0, rules, later) == (
            step_spec(s, rules, first).0,
            TriggerStatusKind::Captured,
        ),
{
}

/// Without locking, a trigger that reported `Ready` reports `Ready` again on
/// the next good, stable frame (the streak only grows).
pub proof fn lemma_no_lock_allows_retrigger(
    s: TriggerState,
    rules: TriggerRules,
    first: FrameObservation,
    later: FrameObservation,
)
    requires
        !rules.lock_after_ready,
        step_spec(s, rules, first).1 == TriggerStatusKind::Ready,
        later.meets_quality,
        later.stable,
        !later.timed_out,
        step_spec(s, rules, first).0.good_frame_streak < usize::MAX,
    ensures
        step_spec(step_spec(s, rules, first).0, rules, later).1 == TriggerStatusKind::Ready,
{
}

/// `Ready` is only reported for a stable run of at least the required number
/// of good frames, the current one included.
pub proof fn lemma_ready_needs_streak(s: TriggerState, rules: TriggerRules, obs: FrameObservation)
    requires
        step_spec(s, rules, obs).1 == TriggerStatusKind::Ready,
    ensures
        obs.meets_quality,
        obs.stable,
        !obs.timed_out,
        !s.locked,
        step_spec(s, rules, obs).0.good_frame_streak >= rules.required_consecutive_good_frames,
{
}

/// A poor frame ends the streak: the next state is the reset state unless the
/// trigger is locked or timed out, which leave the state unchanged.
pub proof fn lemma_poor_frame_resets_streak(s: TriggerState, rules: TriggerRules, obs: FrameObservation)
    requires
        !obs.meets_quality,
    ensures
        s.locked || obs.timed_out ==> step_spec(s, rules, obs).0 == s,
        !s.locked && !obs.timed_out ==> step_spec(s, rules, obs).0 == initial_state(),
{
}

} // verus!
