//! Basic timing utilities for presentation timestamps
//!
//! Simple monotonic clock for timestamp generation.

use vstd::prelude::*;
use std::sync::Arc;
use std::time::Instant;

verus! {

#[verifier::external_type_specification]
#[verifier::external_body]
pub struct ExInstant(std::time::Instant);

/// `std::time::Instant::now`: the current reading of the monotonic clock.
/// Nothing is stated of it; it depends on when it is called.
#[verifier::external_body]
fn instant_now() -> (t: Instant) {
    Instant::now()
}

/// Monotonic clock for presentation timestamps
///
/// All timestamps derive from this single source
/// to ensure monotonic ordering.
#[derive(Debug, Clone)]
pub struct PTSClock {
    start: Arc<Instant>,
}

impl PTSClock {
    /// The instant that is time zero of this clock.
    pub closed spec fn start(&self) -> Instant {
        *self.start
    }

    /// Create a new PTS clock with the current instant as time zero
    pub fn new() -> (c: Self) {
        Self { start: Arc::new(instant_now()) }
    }

    /// Create a PTS clock from an existing start instant
    ///
    /// Use this to share the same timebase between components.
    pub fn from_instant(start: Instant) -> (c: Self)
        ensures
            c.start() == start,
    {
        Self { start: Arc::new(start) }
    }

    /// Get the start instant for sharing with other components
    pub fn start_instant(&self) -> (t: Instant)
        ensures
            t == self.start(),
    {
        *self.start
    }
}

impl Default for PTSClock {
    fn default() -> (c: Self) {
        Self::new()
    }
}

} // verus!
