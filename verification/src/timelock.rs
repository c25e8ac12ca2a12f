//! The time of the last compile request, in seconds since the epoch.

use vstd::prelude::*;

verus! {

/// The time of the last compile request.
#[derive(Clone, Copy, Debug, PartialEq, Eq, Structural)]
pub struct Timelock {
    pub last: isize,
}

/// The current time, in whole seconds since the epoch.
///
/// Trusted: `time::get_time`. The result depends on the clock, so the
/// contract promises nothing of it.
#[verifier::external_body]
pub fn current() -> isize {
    time::get_time().sec as isize
}

/// The time that the lock holds.
pub fn get(t: &Timelock) -> (last: isize)
    ensures
        last == t.last,
{
    t.last
}

/// A lock that holds the time `now`.
pub fn at(now: isize) -> (t: Timelock)
    ensures
        t.last == now,
{
    Timelock { last: now }
}

/// Makes the lock hold the time `now`.
pub fn set(t: &mut Timelock, now: isize)
    ensures
        final(t).last == now,
{
    t.last = now;
}

/// A lock that holds the current time.
pub fn new() -> Timelock {
    at(current())
}

/// Makes the lock hold the current time.
pub fn update(t: &mut Timelock) {
    set(t, current());
}

} // verus!
