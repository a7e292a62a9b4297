//! Time as plain nanosecond counts.
//!
//! The library never reads a clock. Whoever drives it passes in readings of one
//! monotonic clock as [`Instant`] values.

use vstd::prelude::*;

verus! {

/// Nanoseconds in a second.
pub const NANOS_PER_SEC: u128 = 1_000_000_000;

/// A span of time. Its view is the number of nanoseconds.
#[derive(Clone, Copy, Debug, PartialEq, Eq, Structural)]
pub struct Duration {
    nanos: u128,
}

impl View for Duration {
    type V = nat;

    closed spec fn view(&self) -> nat {
        self.nanos as nat
    }
}

impl Duration {
    /// A span of `secs` whole seconds.
    pub fn from_secs(secs: u64) -> (d: Duration)
        ensures
            d@ == secs as nat * NANOS_PER_SEC as nat,
    {
        Duration { nanos: secs as u128 * NANOS_PER_SEC }
    }

    /// A span of `nanos` nanoseconds.
    pub fn from_nanos(nanos: u128) -> (d: Duration)
        ensures
            d@ == nanos as nat,
    {
        Duration { nanos }
    }

    /// The span in nanoseconds.
    pub fn as_nanos(&self) -> (nanos: u128)
        ensures
            nanos as nat == self@,
    {
        self.nanos
    }

    /// Whether the span is empty.
    pub fn is_zero(&self) -> (zero: bool)
        ensures
            zero == (self@ == 0),
    {
        self.nanos == 0
    }

    /// Whether this span is at least as long as `limit`.
    pub fn at_least(&self, limit: &Duration) -> (r: bool)
        ensures
            r == (self@ >= limit@),
    {
        self.nanos >= limit.nanos
    }
}

/// Two spans of the same length are the same value.
pub broadcast proof fn duration_view_injective(a: Duration, b: Duration)
    ensures
        #![trigger a@, b@]
        a@ == b@ ==> a == b,
{
}

/// There is a span of every length up to 128 bits of nanoseconds.
pub proof fn duration_exists(nanos: nat)
    requires
        nanos <= u128::MAX,
    ensures
        exists|d: Duration| d@ == nanos,
{
    let d = Duration { nanos: nanos as u128 };
    assert(d@ == nanos);
}

/// A reading of a monotonic clock. Its view is the number of nanoseconds since
/// the clock's origin.
#[derive(Clone, Copy, Debug, PartialEq, Eq, Structural)]
pub struct Instant {
    nanos: u128,
}

impl View for Instant {
    type V = nat;

    closed spec fn view(&self) -> nat {
        self.nanos as nat
    }
}

/// The time from `earlier` to `later`, or nothing where `later` comes first.
pub open spec fn elapsed(earlier: nat, later: nat) -> nat {
    if later >= earlier {
        (later - earlier) as nat
    } else {
        0
    }
}

/// A reading of the clock has 128 bits at most.
pub proof fn instants_are_bounded(t: Instant)
    ensures
        t@ <= u128::MAX,
{
}

/// The time that has passed leads from the earlier reading to the later one; there is
/// none between readings in the wrong order.
pub proof fn elapsed_leads_on(earlier: nat, later: nat)
    ensures
        earlier <= later ==> earlier + elapsed(earlier, later) == later,
        later <= earlier ==> elapsed(earlier, later) == 0,
{
}

impl Instant {
    /// The reading `nanos` nanoseconds after the clock's origin.
    pub fn from_nanos(nanos: u128) -> (t: Instant)
        ensures
            t@ == nanos as nat,
    {
        Instant { nanos }
    }

    /// The time that passed since `earlier`, zero where `earlier` is later.
    pub fn duration_since(&self, earlier: &Instant) -> (d: Duration)
        ensures
            d@ == elapsed(earlier@, self@),
    {
        if self.nanos >= earlier.nanos {
            Duration { nanos: self.nanos - earlier.nanos }
        } else {
            Duration { nanos: 0 }
        }
    }
}

} // verus!
