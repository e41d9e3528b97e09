//! Performance bookkeeping of a capturing camera: the counters kept across
//! captures, and the resident memory read from a Linux `statm` record.

use vstd::prelude::*;
use vstd::string::StrSliceExecFns;
use crate::text::{parse_u64_in, parsed_u64};

verus! {

// ---------------------------------------------------------------------------
// Capture counters
// ---------------------------------------------------------------------------

/// The counts a camera keeps across its captures.
pub struct CaptureCounters {
    /// Total number of successful captures observed.
    pub frames_captured: u64,
    /// Number of capture attempts that failed (used to detect frame drops).
    pub dropped_frames: u32,
    /// Number of times the caller pulled a frame faster than the device could
    /// deliver a new one (detected as a zero-interval capture).
    pub buffer_overruns: u32,
    /// Whether a capture succeeded before, so that an interval can be measured.
    pub has_previous: bool,
}

impl CaptureCounters {
    /// Create a new tracker with zeroed counters.
    pub fn new() -> (c: Self)
        ensures
            c.frames_captured == 0,
            c.dropped_frames == 0,
            c.buffer_overruns == 0,
            !c.has_previous,
    {
        CaptureCounters { frames_captured: 0, dropped_frames: 0, buffer_overruns: 0, has_previous: false }
    }

    /// Record a successful capture. `interval_positive` says whether a
    /// measurable time passed since the previous successful capture. The
    /// result says whether the frame rate is to be recomputed from that
    /// interval: only when there was a previous capture and time passed; a
    /// capture after no measurable time counts as a buffer overrun.
    pub fn record_capture(&mut self, interval_positive: bool) -> (update_rate: bool)
        requires
            old(self).frames_captured < u64::MAX,
            old(self).buffer_overruns < u32::MAX,
        ensures
            final(self).frames_captured == old(self).frames_captured + 1,
            final(self).dropped_frames == old(self).dropped_frames,
            final(self).has_previous,
            update_rate == (old(self).has_previous && interval_positive),
            final(self).buffer_overruns == if old(self).has_previous && !interval_positive {
                old(self).buffer_overruns + 1
            } else {
                old(self).buffer_overruns as int
            },
    {
        self.frames_captured = self.frames_captured + 1;
        let mut update_rate = false;
        if self.has_previous {
            if interval_positive {
                update_rate = true;
            } else {
                self.buffer_overruns = self.buffer_overruns + 1;
            }
        }
        self.has_previous = true;
        update_rate
    }

    /// Record a failed capture attempt as a dropped frame.
    pub fn record_drop(&mut self)
        requires
            old(self).dropped_frames < u32::MAX,
        ensures
            final(self).dropped_frames == old(self).dropped_frames + 1,
            final(self).frames_captured == old(self).frames_captured,
            final(self).buffer_overruns == old(self).buffer_overruns,
            final(self).has_previous == old(self).has_previous,
    {
        self.dropped_frames = self.dropped_frames + 1;
    }
}

// ---------------------------------------------------------------------------
// The `statm` record
// ---------------------------------------------------------------------------

/// Whether `c` is white space: a character with Unicode's White_Space
/// property.
pub open spec fn is_white_space(c: char) -> bool {
    let u = c as u32;
    ||| 0x09 <= u <= 0x0D
    ||| u == 0x20
    ||| u == 0x85
    ||| u == 0xA0
    ||| u == 0x1680
    ||| 0x2000 <= u <= 0x200A
    ||| u == 0x2028
    ||| u == 0x2029
    ||| u == 0x202F
    ||| u == 0x205F
    ||| u == 0x3000
}

/// Whether `c` is white space.
fn white_space(c: char) -> (b: bool)
    ensures
        b == is_white_space(c),
{
    let u = c as u32;
    (0x09 <= u && u <= 0x0D) || u == 0x20 || u == 0x85 || u == 0xA0 || u == 0x1680 || (0x2000
        <= u && u <= 0x200A) || u == 0x2028 || u == 0x2029 || u == 0x202F || u == 0x205F || u
        == 0x3000
}

/// The first position at or after `i` that does not hold white space (or
/// the end of `s`).
pub open spec fn skip_space(s: Seq<char>, i: int) -> int
    decreases s.len() - i,
{
    if i < 0 || i >= s.len() || !is_white_space(s[i]) {
        i
    } else {
        skip_space(s, i + 1)
    }
}

/// The first position at or after `i` that holds white space (or the end of
/// `s`).
pub open spec fn skip_word(s: Seq<char>, i: int) -> int
    decreases s.len() - i,
{
    if i < 0 || i >= s.len() || is_white_space(s[i]) {
        i
    } else {
        skip_word(s, i + 1)
    }
}

/// The second field of `s`, fields being the runs of characters between
/// white space.
pub open spec fn second_field(s: Seq<char>) -> Option<Seq<char>> {
    let a = skip_space(s, 0);
    let b = skip_word(s, a);
    let c = skip_space(s, b);
    let d = skip_word(s, c);
    if c < s.len() {
        Some(s.subrange(c, d))
    } else {
        None
    }
}

/// The number of resident pages in a `statm` record: its second field, read
/// as a number. `None` when the record has no second field or that field is
/// not a number.
pub open spec fn statm_resident_pages(contents: Seq<char>) -> Option<u64> {
    match second_field(contents) {
        Some(f) => parsed_u64(f),
        None => None,
    }
}

/// The first position at or after `i` that does (`want_space`) or does not
/// hold white space, or the end.
fn scan(s: &str, n: usize, i: usize, want_space: bool) -> (j: usize)
    requires
        n == s@.len(),
        i <= n,
    ensures
        want_space ==> j == skip_word(s@, i as int),
        !want_space ==> j == skip_space(s@, i as int),
        i <= j <= n,
    decreases n - i,
{
    if i == n {
        return i;
    }
    let c = s.get_char(i);
    if white_space(c) == want_space {
        i
    } else {
        scan(s, n, i + 1, want_space)
    }
}

/// The number of resident pages in the text of `/proc/self/statm`: its
/// second field, read as a number.
pub fn resident_pages_from_statm(contents: &str) -> (r: Option<u64>)
    ensures
        r == statm_resident_pages(contents@),
{
    let n = contents.unicode_len();
    let a = scan(contents, n, 0, false);
    let b = scan(contents, n, a, true);
    let c = scan(contents, n, b, false);
    let d = scan(contents, n, c, true);
    if c >= n {
        return None;
    }
    parse_u64_in(contents, c, d)
}

} // verus!
