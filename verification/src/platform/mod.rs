//! Platform-level logic: the camera system's answers per platform, device
//! hot-plug bookkeeping, control conversions, Linux device discovery and the
//! mock camera's behaviour registry.

pub mod system;
pub mod devices;
pub mod controls;
pub mod linux;
pub mod mock;
pub mod table;
pub mod manager;
pub mod metrics;
pub mod v4l2;
