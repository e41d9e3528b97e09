//! Synthetic test data shaped like real camera output.

pub mod synthetic;
