//! The client-reported wall-clock time of an episode action, kept as whole
//! seconds since the epoch.

use vstd::prelude::*;

verus! {

/// A client-reported point in time, in whole seconds since the epoch.
/// Distinct from [`crate::time::Timestamp`], which the server stamps rows
/// with: this one travels inside an episode action and takes part in its
/// content hash.
#[derive(Debug, Clone, Copy, PartialEq, Eq, Structural)]
pub struct Time(pub(crate) i64);

impl Time {
    /// The numeric value of this time.
    pub closed spec fn value(self) -> int {
        self.0 as int
    }

    /// The epoch itself.
    pub fn epoch() -> (r: Self)
        ensures
            r.value() == 0,
    {
        Time(0)
    }

    /// The time `i` seconds after the epoch, for a count that stays within
    /// the first minute.
    pub fn from_i64(i: i64) -> (r: Self)
        requires
            0 <= i < 60,
        ensures
            r.value() == i as int,
    {
        Time(i)
    }

    /// The time `s` seconds after the epoch, for any count.
    pub fn from_seconds(s: i64) -> (r: Self)
        ensures
            r.value() == s as int,
    {
        Time(s)
    }

    /// The raw seconds-since-epoch count.
    pub fn as_i64(&self) -> (r: i64)
        ensures
            r as int == self.value(),
    {
        self.0
    }
}

impl DeepView for Time {
    type V = int;

    open spec fn deep_view(&self) -> int {
        self.value()
    }
}

} // verus!
