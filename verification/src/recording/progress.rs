//! The bookkeeping of a recording: which incoming frames are rejected,
//! dropped or written, and the counts a recording reports.
//!
//! The clock reading (whether a frame came too soon after the previous one),
//! the encoder and the muxer are outside; they report to this state, which
//! decides.

use vstd::prelude::*;
use vstd::string::StringExecFns;
use crate::errors::CameraError;
use crate::text::{decimal, decimal_string};

verus! {

broadcast use vstd::string::to_string_from_display_ensures_for_str;

/// The message for a frame whose size differs from the recording's.
pub open spec fn dimension_mismatch_text(width: u32, height: u32, cfg_w: u32, cfg_h: u32) -> Seq<
    char,
> {
    "Frame dimensions "@ + decimal(width as nat) + "x"@ + decimal(height as nat)
        + " don't match recording config "@ + decimal(cfg_w as nat) + "x"@ + decimal(
        cfg_h as nat,
    )
}

/// Counters and state of a recording in progress.
pub struct RecordingProgress {
    width: u32,
    height: u32,
    frame_count: u64,
    dropped_frames: u64,
    started: bool,
}

impl RecordingProgress {
    /// Width every frame must have.
    pub closed spec fn spec_width(&self) -> u32 {
        self.width
    }

    /// Height every frame must have.
    pub closed spec fn spec_height(&self) -> u32 {
        self.height
    }

    /// Number of frames written.
    pub closed spec fn written(&self) -> u64 {
        self.frame_count
    }

    /// Number of frames dropped (too soon, or nothing encoded).
    pub closed spec fn dropped(&self) -> u64 {
        self.dropped_frames
    }

    /// Whether the first frame has arrived.
    pub closed spec fn started(&self) -> bool {
        self.started
    }

    /// A recording of `width` x `height` frames that has seen no frame yet.
    pub fn new(width: u32, height: u32) -> (p: Self)
        ensures
            p.spec_width() == width,
            p.spec_height() == height,
            p.written() == 0,
            p.dropped() == 0,
            !p.started(),
    {
        RecordingProgress { width, height, frame_count: 0, dropped_frames: 0, started: false }
    }

    /// Get the current frame count
    pub fn frame_count(&self) -> (n: u64)
        ensures
            n == self.written(),
    {
        self.frame_count
    }

    /// Get the number of dropped frames
    pub fn dropped_frames(&self) -> (n: u64)
        ensures
            n == self.dropped(),
    {
        self.dropped_frames
    }

    /// Check if recording has started
    pub fn is_recording(&self) -> (b: bool)
        ensures
            b == self.started(),
    {
        self.started
    }

    /// Refuse a frame whose size is not the recording's.
    pub fn check_dimensions(&self, width: u32, height: u32) -> (r: Result<(), CameraError>)
        ensures
            r is Ok <==> (width == self.spec_width() && height == self.spec_height()),
            r matches Err(e) ==> (e matches CameraError::EncodingError(m) && m@
                == dimension_mismatch_text(width, height, self.spec_width(), self.spec_height())),
    {
        if width != self.width || height != self.height {
            let mut m = "Frame dimensions ".to_string();
            m.append(decimal_string(width as usize).as_str());
            m.append("x");
            m.append(decimal_string(height as usize).as_str());
            m.append(" don't match recording config ");
            m.append(decimal_string(self.width as usize).as_str());
            m.append("x");
            m.append(decimal_string(self.height as usize).as_str());
            return Err(CameraError::EncodingError(m));
        }
        Ok(())
    }

    /// A camera frame arrives. The recording starts with its first frame. A
    /// frame that came too soon after the previous one is dropped
    /// (`Ok(false)`); one of the wrong size is refused; otherwise it is to be
    /// encoded (`Ok(true)`).
    pub fn admit_camera_frame(&mut self, too_soon: bool, width: u32, height: u32) -> (r: Result<
        bool,
        CameraError,
    >)
        requires
            old(self).dropped() < u64::MAX,
        ensures
            final(self).started(),
            final(self).spec_width() == old(self).spec_width(),
            final(self).spec_height() == old(self).spec_height(),
            final(self).written() == old(self).written(),
            too_soon ==> r == Ok::<bool, CameraError>(false) && final(self).dropped() == old(
                self,
            ).dropped() + 1,
            !too_soon ==> final(self).dropped() == old(self).dropped() && (r is Ok <==> (width
                == old(self).spec_width() && height == old(self).spec_height())) && (r is Ok ==> r
                == Ok::<bool, CameraError>(true)) && (r matches Err(e) ==> (e matches CameraError::EncodingError(m)
                && m@ == dimension_mismatch_text(
                width,
                height,
                old(self).spec_width(),
                old(self).spec_height(),
            ))),
    {
        self.started = true;
        if too_soon {
            self.dropped_frames = self.dropped_frames + 1;
            return Ok(false);
        }
        match self.check_dimensions(width, height) {
            Ok(()) => Ok(true),
            Err(e) => Err(e),
        }
    }

    /// Raw RGB data arrives: one of the wrong size is refused before the
    /// recording starts; otherwise the recording starts (if it had not) and
    /// the data is to be encoded.
    pub fn admit_rgb_frame(&mut self, width: u32, height: u32) -> (r: Result<(), CameraError>)
        ensures
            final(self).spec_width() == old(self).spec_width(),
            final(self).spec_height() == old(self).spec_height(),
            final(self).written() == old(self).written(),
            final(self).dropped() == old(self).dropped(),
            r is Ok <==> (width == old(self).spec_width() && height == old(self).spec_height()),
            r is Ok ==> final(self).started(),
            r is Err ==> final(self).started() == old(self).started(),
            r matches Err(e) ==> (e matches CameraError::EncodingError(m) && m@
                == dimension_mismatch_text(width, height, old(self).spec_width(), old(self).spec_height())),
    {
        let checked = self.check_dimensions(width, height);
        if checked.is_ok() {
            self.started = true;
        }
        checked
    }

    /// The encoder produced its output for an admitted frame: an empty output
    /// is dropped (`false`); otherwise the frame is to be written (`true`).
    pub fn after_encode(&mut self, encoded_empty: bool) -> (write: bool)
        requires
            old(self).dropped() < u64::MAX,
        ensures
            write == !encoded_empty,
            final(self).written() == old(self).written(),
            final(self).dropped() == old(self).dropped() + if encoded_empty {
                1int
            } else {
                0int
            },
            final(self).started() == old(self).started(),
            final(self).spec_width() == old(self).spec_width(),
            final(self).spec_height() == old(self).spec_height(),
    {
        if encoded_empty {
            self.dropped_frames = self.dropped_frames + 1;
            return false;
        }
        true
    }

    /// A frame was written to the muxer; its index (the count before it) is
    /// what its presentation time derives from.
    pub fn after_write(&mut self) -> (index: u64)
        requires
            old(self).written() < u64::MAX,
        ensures
            index == old(self).written(),
            final(self).written() == old(self).written() + 1,
            final(self).dropped() == old(self).dropped(),
            final(self).started() == old(self).started(),
            final(self).spec_width() == old(self).spec_width(),
            final(self).spec_height() == old(self).spec_height(),
    {
        let index = self.frame_count;
        self.frame_count = self.frame_count + 1;
        index
    }
}

} // verus!
