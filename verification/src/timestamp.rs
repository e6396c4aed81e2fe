//! Points in time as the host chain counts them.

use vstd::prelude::*;

verus! {

/// Nanoseconds in one second.
pub const NANOS_PER_SECOND: u64 = 1_000_000_000;

/// A point in time: nanoseconds since 1970-01-01T00:00:00Z.
#[derive(Clone, Copy, Debug, PartialEq, Eq, Structural)]
pub struct Timestamp {
    pub nanos: u64,
}

impl Timestamp {
    /// The point in time `nanos` nanoseconds after the epoch.
    pub fn from_nanos(nanos: u64) -> (r: Timestamp)
        ensures
            r.nanos == nanos,
    {
        Timestamp { nanos }
    }

    /// Nanoseconds since the epoch.
    pub fn nanos(&self) -> (r: u64)
        ensures
            r == self.nanos,
    {
        self.nanos
    }

    /// The nanosecond count `seconds` seconds after this point, unbounded.
    pub open spec fn after_seconds(self, seconds: u64) -> int {
        self.nanos + seconds * NANOS_PER_SECOND
    }

    /// The point in time `seconds` seconds later, or `None` where 64 bits
    /// cannot hold it.
    pub fn checked_plus_seconds(&self, seconds: u64) -> (r: Option<Timestamp>)
        ensures
            self.after_seconds(seconds) <= u64::MAX ==> r == Some(
                Timestamp { nanos: self.after_seconds(seconds) as u64 },
            ),
            self.after_seconds(seconds) > u64::MAX ==> r is None,
    {
        if seconds > (u64::MAX - self.nanos) / NANOS_PER_SECOND {
            assert(self.after_seconds(seconds) > u64::MAX) by (nonlinear_arith)
                requires
                    seconds > (u64::MAX - self.nanos) / (NANOS_PER_SECOND as int),
                    self.after_seconds(seconds) == self.nanos + seconds * NANOS_PER_SECOND,
                    NANOS_PER_SECOND == 1_000_000_000,
            ;
            None
        } else {
            assert(self.after_seconds(seconds) <= u64::MAX) by (nonlinear_arith)
                requires
                    seconds <= (u64::MAX - self.nanos) / (NANOS_PER_SECOND as int),
                    self.after_seconds(seconds) == self.nanos + seconds * NANOS_PER_SECOND,
                    NANOS_PER_SECOND == 1_000_000_000,
            ;
            Some(Timestamp { nanos: plus_seconds(self.nanos, seconds) })
        }
    }
}

/// `cosmwasm_std::Timestamp::plus_seconds`, on nanosecond counts: the count
/// grows by a thousand million for each second. The outside function panics
/// where the sum leaves 64 bits, so callers keep it within them.
#[verifier::external_body]
fn plus_seconds(nanos: u64, seconds: u64) -> (r: u64)
    requires
        nanos + seconds * NANOS_PER_SECOND <= u64::MAX,
    ensures
        r == nanos + seconds * NANOS_PER_SECOND,
{
    cosmwasm_std::Timestamp::from_nanos(nanos).plus_seconds(seconds).nanos()
}

} // verus!
