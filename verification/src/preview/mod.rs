//! Live preview: JPEG encoding and downscaling of frames, and the per-frame
//! decisions of the preview stream.

pub mod encode;
pub mod resize;
pub mod schedule;
