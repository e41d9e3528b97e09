//! Recording configuration: quality presets and audio settings.

pub mod config;
pub mod progress;
