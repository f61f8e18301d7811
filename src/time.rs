use vstd::prelude::*;

verus! {

/// An instant in UTC: whole seconds since the Unix epoch and the nanoseconds
/// past that second. Instants are ordered by seconds, then by nanoseconds.
#[derive(Clone, Copy, Debug, PartialEq, Eq, PartialOrd, Ord, Structural)]
pub struct Timestamp {
    pub secs: i64,
    pub nanos: u32,
}

impl Timestamp {
    /// A single integer that orders instants as (secs, nanos) does.
    pub open spec fn ord_key(self) -> int {
        self.secs as int * 0x1_0000_0000 + self.nanos as int
    }

    pub open spec fn spec_le(self, other: Timestamp) -> bool {
        self.ord_key() <= other.ord_key()
    }

    pub open spec fn spec_lt(self, other: Timestamp) -> bool {
        self.ord_key() < other.ord_key()
    }

    /// Whether this instant is at or before `other`.
    pub fn is_at_or_before(&self, other: &Timestamp) -> (r: bool)
        ensures
            r == self.spec_le(*other),
    {
        self.secs < other.secs || (self.secs == other.secs && self.nanos <= other.nanos)
    }

    /// Whether this instant is strictly before `other`.
    pub fn is_before(&self, other: &Timestamp) -> (r: bool)
        ensures
            r == self.spec_lt(*other),
    {
        self.secs < other.secs || (self.secs == other.secs && self.nanos < other.nanos)
    }
}

/// Relies on chrono::Utc::now, read as whole seconds and sub-second
/// nanoseconds; nothing is known of the value.
#[verifier::external_body]
pub(crate) fn clock_now() -> (r: Timestamp) {
    let now = chrono::Utc::now();
    Timestamp { secs: now.timestamp(), nanos: now.timestamp_subsec_nanos() }
}

} // verus!
