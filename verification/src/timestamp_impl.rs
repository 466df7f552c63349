//! Timestamps: converting between seconds, milliseconds and nanoseconds, and
//! deciding how far to move the sandbox clock.
use vstd::prelude::*;

use crate::types::Timestamp;

verus! {

/// Milliseconds in a second.
pub const MS_DECIMALS: u64 = 1_000;

/// Nanoseconds in a second.
pub const NS_DECIMALS: u64 = 1_000_000_000;

/// Unit conversions for timestamps.
pub trait TimestampExtension: Sized {
    /// The time that the value stands for.
    spec fn time(self) -> nat;

    /// Seconds to milliseconds: `self * 1000`, which must fit in a `u64`.
    fn sec_to_ms(self) -> (r: Timestamp)
        requires
            self.time() * 1000 <= u64::MAX,
        ensures
            r == self.time() * 1000,
    ;

    /// Nanoseconds to whole seconds: `self / 1_000_000_000`, rounded down.
    fn ns_to_sec(self) -> (r: Timestamp)
        ensures
            r == self.time() / 1_000_000_000,
    ;
}

impl TimestampExtension for Timestamp {
    open spec fn time(self) -> nat {
        self as nat
    }

    fn sec_to_ms(self) -> (r: Timestamp) {
        self * MS_DECIMALS
    }

    fn ns_to_sec(self) -> (r: Timestamp) {
        self / NS_DECIMALS
    }
}

/// How far to move the sandbox clock towards `expected`, given that it now
/// reads `now` (both in seconds): the distance while the clock is behind,
/// `None` once it has reached or passed `expected`.
pub fn fast_forward_step(expected: Timestamp, now: Timestamp) -> (r: Option<u64>)
    ensures
        r == (if expected > now {
            Some((expected - now) as u64)
        } else {
            None::<u64>
        }),
{
    if expected > now {
        Some(expected - now)
    } else {
        None
    }
}

/// A time in seconds, written in milliseconds and then in nanoseconds, reads
/// back as the same number of seconds.
pub proof fn law_seconds_roundtrip(s: u64)
    requires
        s.time() * 1000 <= u64::MAX,
    ensures
        (s.time() * 1000 * 1_000_000) / 1_000_000_000 == s.time(),
{
}

} // verus!
