//! A point in time with second resolution, stored as seconds since the
//! Unix epoch in a fixed reference timezone (UTC).

use vstd::prelude::*;

verus! {

/// Largest magnitude, in seconds from the Unix epoch, of an instant that the
/// time library can represent (it is documented to cover roughly
/// 262,000 years on either side of the common era, about 8.34e12 seconds).
pub const MAX_INSTANT_SECS: i64 = 8_400_000_000_000;

/// Largest magnitude, in seconds from the Unix epoch, of an instant whose
/// local calendar date may be asked for. Tighter than [`MAX_INSTANT_SECS`]
/// so that adding any UTC offset (less than a day) stays representable.
pub const MAX_LOCAL_SECS: i64 = 8_000_000_000_000;

/// An absolute point in time with second resolution, in UTC.
/// Two instants are totally ordered by their second count.
#[derive(Clone, Copy, PartialEq, Eq, Structural, Debug)]
pub struct Instant {
    pub secs: i64,
}

impl Instant {
    /// True when the second count is within the range the time library
    /// can represent.
    pub open spec fn in_range(self) -> bool {
        -MAX_INSTANT_SECS <= self.secs <= MAX_INSTANT_SECS
    }

    /// True when the instant is far enough from the representable range's
    /// edges that conversion to a local calendar date cannot overflow.
    pub open spec fn local_safe(self) -> bool {
        -MAX_LOCAL_SECS <= self.secs <= MAX_LOCAL_SECS
    }

    pub fn new(secs: i64) -> (r: Instant)
        ensures
            r.secs == secs,
    {
        Instant { secs }
    }
}

} // verus!
