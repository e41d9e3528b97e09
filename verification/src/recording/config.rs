//! Recording configuration types

use vstd::prelude::*;

verus! {

/// Audio configuration for recording
#[derive(Debug, Clone)]
pub struct AudioConfig {
    /// Audio device ID (None = default device)
    pub device_id: Option<String>,
    /// Sample rate (must be 48000 for Opus)
    pub sample_rate: u32,
    /// Number of channels (1 or 2)
    pub channels: u16,
    /// Opus bitrate in bits per second
    pub bitrate: u32,
}

impl Default for AudioConfig {
    fn default() -> (c: Self)
        ensures
            c.device_id is None,
            c.sample_rate == 48000,
            c.channels == 2,
            c.bitrate == 128_000,
    {
        Self { device_id: None, sample_rate: 48000, channels: 2, bitrate: 128_000 }
    }
}

impl AudioConfig {
    /// Create audio config for a specific device
    pub fn with_device(device_id: String) -> (c: Self)
        ensures
            c.device_id matches Some(d) && d@ == device_id@,
            c.sample_rate == 48000,
            c.channels == 2,
            c.bitrate == 128_000,
    {
        Self { device_id: Some(device_id), ..Default::default() }
    }

    /// Set mono audio
    pub fn mono(self) -> (c: Self)
        ensures
            c == (Self { channels: 1, ..self }),
    {
        let mut c = self;
        c.channels = 1;
        c
    }

    /// Set stereo audio
    pub fn stereo(self) -> (c: Self)
        ensures
            c == (Self { channels: 2, ..self }),
    {
        let mut c = self;
        c.channels = 2;
        c
    }

    /// Set bitrate
    pub fn with_bitrate(self, bitrate: u32) -> (c: Self)
        ensures
            c == (Self { bitrate, ..self }),
    {
        let mut c = self;
        c.bitrate = bitrate;
        c
    }
}

/// Quality presets for video recording
#[derive(Debug, Clone, Copy, PartialEq, Eq, Structural)]
pub enum RecordingQuality {
    /// 720p at 30fps, lower bitrate - good for previews/streaming
    Low,
    /// 1080p at 30fps, standard bitrate - balanced quality
    Medium,
    /// 1080p at 60fps or 4K at 30fps - high quality
    High,
    /// Custom settings
    Custom,
}

impl Default for RecordingQuality {
    fn default() -> (q: Self)
        ensures
            q == RecordingQuality::High,
    {
        RecordingQuality::High
    }
}

/// The recommended bitrate of a preset, in bits per second.
pub open spec fn preset_bitrate(q: RecordingQuality) -> u32 {
    match q {
        RecordingQuality::Low => 2_500_000u32,
        RecordingQuality::Medium => 5_000_000u32,
        RecordingQuality::High => 10_000_000u32,
        RecordingQuality::Custom => 5_000_000u32,
    }
}

/// The recommended resolution of a preset, (width, height).
pub open spec fn preset_resolution(q: RecordingQuality) -> (u32, u32) {
    match q {
        RecordingQuality::Low => (1280u32, 720u32),
        _ => (1920u32, 1080u32),
    }
}

impl RecordingQuality {
    /// Get recommended bitrate in bits per second
    pub fn bitrate(&self) -> (b: u32)
        ensures
            b == preset_bitrate(*self),
    {
        match self {
            RecordingQuality::Low => 2_500_000,
            RecordingQuality::Medium => 5_000_000,
            RecordingQuality::High => 10_000_000,
            RecordingQuality::Custom => 5_000_000,
        }
    }

    /// Get recommended resolution (width, height)
    pub fn resolution(&self) -> (r: (u32, u32))
        ensures
            r == preset_resolution(*self),
    {
        match self {
            RecordingQuality::Low => (1280, 720),
            RecordingQuality::Medium => (1920, 1080),
            RecordingQuality::High => (1920, 1080),
            RecordingQuality::Custom => (1920, 1080),
        }
    }
}

/// A higher preset never asks for fewer bits per second: Low < Medium < High,
/// and Custom starts from Medium's bitrate.
pub proof fn lemma_bitrate_grows_with_quality()
    ensures
        preset_bitrate(RecordingQuality::Low) < preset_bitrate(RecordingQuality::Medium),
        preset_bitrate(RecordingQuality::Medium) < preset_bitrate(RecordingQuality::High),
        preset_bitrate(RecordingQuality::Custom) == preset_bitrate(RecordingQuality::Medium),
{
}

} // verus!
