//! The per-frame decisions of the live preview stream: how long to wait
//! between captures, which frames are analysed for quality, and what the
//! preview event reports about quality on the others.

use vstd::prelude::*;
use crate::quality::trigger::TriggerStatus;

verus! {

broadcast use vstd::string::to_string_from_display_ensures_for_str;

/// The configuration checks of a preview stream, in the order they are made:
/// the first failing one is reported.
pub open spec fn preview_config_error(
    fps_target: u32,
    downscale_in_range: bool,
    quality_sample_rate: u32,
    jpeg_quality: u8,
) -> Option<Seq<char>> {
    if !(1 <= fps_target <= 60) {
        Some("fps_target must be 1-60"@)
    } else if !downscale_in_range {
        Some("downscale must be 0.1-1.0"@)
    } else if quality_sample_rate == 0 {
        Some("quality_sample_rate must be >= 1"@)
    } else if !(30 <= jpeg_quality <= 95) {
        Some("jpeg_quality must be 30-95"@)
    } else {
        None
    }
}

/// Validate that all preview settings are within acceptable bounds:
/// `fps_target` in 1..=60, the downscale factor in 0.1..=1.0 (checked by the
/// caller, `downscale_in_range`), `quality_sample_rate` at least 1 and
/// `jpeg_quality` in 30..=95. The first failing check is reported.
pub fn validate_preview_config(
    fps_target: u32,
    downscale_in_range: bool,
    quality_sample_rate: u32,
    jpeg_quality: u8,
) -> (r: Result<(), String>)
    ensures
        match preview_config_error(fps_target, downscale_in_range, quality_sample_rate, jpeg_quality) {
            None => r is Ok,
            Some(msg) => r matches Err(m) && m@ == msg,
        },
{
    if !(1 <= fps_target && fps_target <= 60) {
        return Err("fps_target must be 1-60".to_string());
    }
    if !downscale_in_range {
        return Err("downscale must be 0.1-1.0".to_string());
    }
    if quality_sample_rate == 0 {
        return Err("quality_sample_rate must be >= 1".to_string());
    }
    if !(30 <= jpeg_quality && jpeg_quality <= 95) {
        return Err("jpeg_quality must be 30-95".to_string());
    }
    Ok(())
}

/// Pause between two captures of a stream running at `fps_target` frames per
/// second, in milliseconds.
pub fn capture_interval_ms(fps_target: u32) -> (ms: u64)
    requires
        fps_target >= 1,
    ensures
        ms == 1000u32 / fps_target,
{
    (1000 / fps_target) as u64
}

/// Where a preview event's quality report comes from.
#[derive(Debug, Clone, Copy, PartialEq, Eq, Structural)]
pub enum QualitySource {
    /// This frame is analysed now.
    Fresh,
    /// The report of the last analysed frame is repeated (stale).
    Cached,
    /// No frame has been analysed yet: there is no report.
    Initial,
}

/// What the stream does with a newly captured frame.
#[derive(Debug, Clone, Copy, PartialEq, Eq, Structural)]
pub struct FramePlan {
    /// Number of this frame (the first captured frame is 1).
    pub frame_number: u64,
    /// Where its quality report comes from.
    pub source: QualitySource,
    /// Whether the report is one of an earlier frame.
    pub stale: bool,
    /// Number of the frame the report was made on (0 while there is none).
    pub last_sampled_frame: u64,
}

/// The counters of a preview stream.
pub struct PreviewSchedule {
    frame_number: u64,
    last_sampled_frame: u64,
    has_quality: bool,
}

impl PreviewSchedule {
    /// Number of frames captured so far.
    pub closed spec fn frames(&self) -> u64 {
        self.frame_number
    }

    /// Number of the last analysed frame (0 before the first analysis).
    pub closed spec fn last_sampled(&self) -> u64 {
        self.last_sampled_frame
    }

    /// Whether some frame has been analysed.
    pub closed spec fn has_report(&self) -> bool {
        self.has_quality
    }

    /// The counters keep their relation: the last analysed frame is one of
    /// the captured frames, and there is a report exactly when some frame was
    /// analysed.
    pub closed spec fn wf(&self) -> bool {
        &&& self.last_sampled_frame <= self.frame_number
        &&& self.has_quality <==> self.last_sampled_frame > 0
    }

    /// A stream that has captured nothing yet.
    pub fn new() -> (s: Self)
        ensures
            s.wf(),
            s.frames() == 0,
            s.last_sampled() == 0,
            !s.has_report(),
    {
        PreviewSchedule { frame_number: 0, last_sampled_frame: 0, has_quality: false }
    }

    /// Number of frames captured so far.
    pub fn frame_count(&self) -> (n: u64)
        ensures
            n == self.frames(),
    {
        self.frame_number
    }

    /// Account for a newly captured frame: every `quality_sample_rate`-th
    /// frame is analysed; other frames repeat the last report, marked stale,
    /// or carry none before the first analysis.
    pub fn on_frame_captured(&mut self, quality_sample_rate: u32) -> (plan: FramePlan)
        requires
            old(self).wf(),
            quality_sample_rate >= 1,
            old(self).frames() < u64::MAX,
        ensures
            final(self).wf(),
            final(self).frames() == old(self).frames() + 1,
            plan.frame_number == final(self).frames(),
            plan.last_sampled_frame == final(self).last_sampled(),
            plan.last_sampled_frame <= plan.frame_number,
            plan.stale ==> plan.last_sampled_frame < plan.frame_number,
            (plan.frame_number as int) % (quality_sample_rate as int) == 0 ==> {
                &&& plan.source == QualitySource::Fresh
                &&& !plan.stale
                &&& final(self).last_sampled() == plan.frame_number
                &&& final(self).has_report()
            },
            (plan.frame_number as int) % (quality_sample_rate as int) != 0 ==> {
                &&& final(self).last_sampled() == old(self).last_sampled()
                &&& final(self).has_report() == old(self).has_report()
                &&& old(self).has_report() ==> plan.source == QualitySource::Cached && plan.stale
                &&& !old(self).has_report() ==> plan.source == QualitySource::Initial
                    && !plan.stale
            },
    {
        self.frame_number = self.frame_number + 1;
        let n = self.frame_number;
        let source = if n % (quality_sample_rate as u64) == 0 {
            self.has_quality = true;
            self.last_sampled_frame = n;
            QualitySource::Fresh
        } else if self.has_quality {
            QualitySource::Cached
        } else {
            QualitySource::Initial
        };
        FramePlan {
            frame_number: n,
            source,
            stale: source == QualitySource::Cached,
            last_sampled_frame: self.last_sampled_frame,
        }
    }
}

/// The trigger status a preview event carries for a frame that was not
/// analysed: `Thinking("stale")` when an earlier report is repeated,
/// `Thinking("initial")` before the first one. A fresh frame takes the
/// status the trigger gives it.
pub fn unanalysed_status(source: QualitySource) -> (st: Option<TriggerStatus>)
    ensures
        source == QualitySource::Fresh ==> st is None,
        source == QualitySource::Cached ==> (st matches Some(TriggerStatus::Thinking(m)) && m@
            == "stale"@),
        source == QualitySource::Initial ==> (st matches Some(TriggerStatus::Thinking(m)) && m@
            == "initial"@),
{
    match source {
        QualitySource::Fresh => None,
        QualitySource::Cached => Some(TriggerStatus::Thinking("stale".to_string())),
        QualitySource::Initial => Some(TriggerStatus::Thinking("initial".to_string())),
    }
}

} // verus!
