//! Timestamps: monotonically non-decreasing seconds since the epoch, used
//! both as wall-clock values and as opaque synchronization cursors.

use vstd::prelude::*;

verus! {

/// Seconds since the Unix epoch. The epoch itself (`zero`) stands for
/// "no cursor": a client that presents it asks for the whole history.
#[derive(Debug, Clone, Copy, PartialEq, Eq, Structural)]
pub struct Timestamp(pub(crate) i64);

impl Timestamp {
    /// The numeric value of this timestamp.
    pub closed spec fn value(self) -> int {
        self.0 as int
    }

    /// Timestamps are nothing but their value: equality of the values is
    /// equality of the timestamps.
    pub proof fn lemma_value_injective(a: Timestamp, b: Timestamp)
        ensures
            (a.value() == b.value()) == (a == b),
    {
    }

    /// Wraps a raw seconds-since-epoch count.
    pub fn from_i64(i: i64) -> (r: Self)
        ensures
            r.value() == i as int,
    {
        Timestamp(i)
    }

    /// The epoch: "no cursor" / "synchronize everything".
    pub fn zero() -> (r: Self)
        ensures
            r.value() == 0,
    {
        Timestamp(0)
    }

    /// The raw seconds-since-epoch count.
    pub fn as_i64(&self) -> (r: i64)
        ensures
            r as int == self.value(),
    {
        self.0
    }

    /// Whether this timestamp is at or before `other`.
    pub fn le(&self, other: &Timestamp) -> (r: bool)
        ensures
            r == (self.value() <= other.value()),
    {
        self.0 <= other.0
    }

    /// The current wall-clock time.
    ///
    /// Relies on `std::time::SystemTime::now`: the result is the machine
    /// clock's offset from the Unix epoch, and fails only when the clock
    /// reads earlier than the epoch. Nothing can be promised of the value.
    #[verifier::external_body]
    pub fn now() -> (r: Result<Self, ()>) {
        std::time::SystemTime::now()
            .duration_since(std::time::SystemTime::UNIX_EPOCH)
            .map(|duration| Timestamp(duration.as_secs() as i64))
            .map_err(|_| ())
    }
}

impl DeepView for Timestamp {
    type V = int;

    open spec fn deep_view(&self) -> int {
        self.value()
    }
}

} // verus!
