//! Points in time and spans of time, counted in nanoseconds.

use vstd::prelude::*;

verus! {

/// Nanoseconds in one second.
pub const NANOS_PER_SEC: u64 = 1_000_000_000;

/// A span of time.
#[derive(Clone, Copy, Debug, PartialEq, Eq, PartialOrd, Ord, Hash, Structural)]
pub struct Duration {
    pub nanos: u64,
}

impl View for Duration {
    type V = nat;

    open spec fn view(&self) -> nat {
        self.nanos as nat
    }
}

impl Duration {
    pub fn from_nanos(nanos: u64) -> (d: Duration)
        ensures
            d@ == nanos,
    {
        Duration { nanos }
    }

    pub fn from_secs(secs: u32) -> (d: Duration)
        ensures
            d@ == secs * NANOS_PER_SEC,
    {
        let wide: u64 = secs as u64;
        Duration { nanos: wide * NANOS_PER_SEC }
    }

    pub fn as_nanos(&self) -> (n: u64)
        ensures
            n == self@,
    {
        self.nanos
    }
}

/// A point on a backend's clock: nanoseconds since the origin that the
/// embedding event loop chose.
#[derive(Clone, Copy, Debug, PartialEq, Eq, PartialOrd, Ord, Hash, Structural)]
pub struct Timestamp {
    pub nanos: u64,
}

impl View for Timestamp {
    type V = nat;

    open spec fn view(&self) -> nat {
        self.nanos as nat
    }
}

impl Timestamp {
    pub fn from_nanos(nanos: u64) -> (t: Timestamp)
        ensures
            t@ == nanos,
    {
        Timestamp { nanos }
    }

    pub fn as_nanos(&self) -> (n: u64)
        ensures
            n == self@,
    {
        self.nanos
    }

    /// The point `duration` after this one, or `None` where the clock
    /// cannot represent it.
    pub fn checked_add(&self, duration: Duration) -> (r: Option<Timestamp>)
        ensures
            r.is_some() <==> self@ + duration@ <= u64::MAX,
            r matches Some(t) ==> t@ == self@ + duration@,
    {
        match self.nanos.checked_add(duration.nanos) {
            Some(nanos) => Some(Timestamp { nanos }),
            None => None,
        }
    }
}

} // verus!
