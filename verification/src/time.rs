//! Points in time.

use vstd::prelude::*;

verus! {

/// A UTC instant: whole seconds since the Unix epoch and the nanoseconds past
/// that second. A leap second is written with a nanosecond part of a second or
/// more.
#[derive(Debug, Clone, Copy, PartialEq, Eq, PartialOrd, Ord, Hash, Structural)]
pub struct Timestamp {
    pub secs: i64,
    pub nanos: u32,
}

impl Timestamp {
    /// The Unix epoch.
    pub fn epoch() -> (res: Timestamp)
        ensures
            res == (Timestamp { secs: 0, nanos: 0 }),
    {
        Timestamp { secs: 0, nanos: 0 }
    }

    /// Chronological order.
    pub open spec fn earlier_than(self, other: Timestamp) -> bool {
        self.secs < other.secs || self.secs == other.secs && self.nanos < other.nanos
    }

    /// Whether this instant lies strictly before `other`.
    pub fn before(&self, other: &Timestamp) -> (res: bool)
        ensures
            res == self.earlier_than(*other),
    {
        self.secs < other.secs || self.secs == other.secs && self.nanos < other.nanos
    }
}

} // verus!
