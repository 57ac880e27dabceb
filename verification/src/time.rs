//! Lengths of time.

use vstd::prelude::*;

verus! {

/// A length of time in whole seconds and additional nanoseconds.
#[derive(Clone, Copy, Debug, PartialEq, Eq, Structural)]
pub struct Duration {
    pub secs: u64,
    pub nanos: u32,
}

/// A point in time, in nanoseconds relative to the Unix epoch.
#[derive(Clone, Copy, Debug, PartialEq, Eq, Structural)]
pub struct SystemTime {
    pub nanos_since_epoch: i128,
}

/// What `{:?}` renders for a `std::time::Duration` of these seconds and nanoseconds.
pub uninterp spec fn duration_debug(secs: u64, nanos: u32) -> Seq<char>;

/// The `Debug` text of `std::time::Duration::new(secs, nanos)`: the same for equal arguments.
/// The bound on the nanoseconds keeps the constructor from carrying, which could overflow.
#[verifier::external_body]
fn std_duration_debug(secs: u64, nanos: u32) -> (r: String)
    requires
        nanos < 1_000_000_000,
    ensures
        r@ == duration_debug(secs, nanos),
{
    format!("{:?}", std::time::Duration::new(secs, nanos))
}

impl Duration {
    /// The nanoseconds stay below one second.
    pub open spec fn wf(self) -> bool {
        self.nanos < 1_000_000_000
    }

    /// The length of time is exactly so many milliseconds.
    pub open spec fn lasts(self, millis: int) -> bool {
        self.secs * 1_000_000_000 + self.nanos == millis * 1_000_000
    }

    /// Whole milliseconds, rounded down.
    pub open spec fn spec_millis(self) -> int {
        self.secs * 1000 + (self.nanos as int) / 1_000_000
    }

    /// A length of whole seconds.
    pub fn from_secs(secs: u64) -> (r: Duration)
        ensures
            r.wf(),
            r == (Duration { secs, nanos: 0 }),
    {
        Duration { secs, nanos: 0 }
    }

    /// A length of whole milliseconds.
    pub open spec fn of_millis(millis: u64) -> Duration {
        Duration { secs: millis / 1000, nanos: (millis % 1000 * 1_000_000) as u32 }
    }

    /// A length of whole milliseconds.
    pub fn from_millis(millis: u64) -> (r: Duration)
        ensures
            r.wf(),
            r == Duration::of_millis(millis),
            r.spec_millis() == millis,
    {
        let rest: u64 = millis % 1000;
        Duration { secs: millis / 1000, nanos: (rest as u32) * 1_000_000 }
    }

    /// Whole milliseconds, or the greatest `u64` where they do not fit.
    pub fn millis_saturating(&self) -> (r: u64)
        requires
            self.wf(),
        ensures
            r == (if self.spec_millis() <= u64::MAX {
                self.spec_millis()
            } else {
                u64::MAX as int
            }),
    {
        let total: u128 = (self.secs as u128) * 1000 + (self.nanos as u128) / 1_000_000;
        if total <= u64::MAX as u128 {
            total as u64
        } else {
            u64::MAX
        }
    }
}

/// The `Debug` text of a duration.
pub fn duration_text(d: Duration) -> (r: String)
    requires
        d.wf(),
    ensures
        r@ == duration_debug(d.secs, d.nanos),
{
    std_duration_debug(d.secs, d.nanos)
}

} // verus!
