//! Frame quality analysis: grades, profiles, integer image kernels and the
//! smart-capture decision logic.

pub mod downscale;
pub mod kernels;
pub mod grade;
pub mod trigger;
pub mod recommend;
pub mod stats;
