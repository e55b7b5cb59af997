//! Times on the monotonic clock, in nanoseconds.

use vstd::prelude::*;

verus! {

pub const NANOS_PER_SEC: u128 = 1_000_000_000;

/// The latest time that the clock can show: its seconds fit in 64 bits.
pub const CLOCK_MAX: u128 = 18_446_744_073_709_551_615_999_999_999;

/// A time that the clock can show.
pub open spec fn is_clock(t: u128) -> bool {
    t <= CLOCK_MAX
}

/// Time from `then` to `now`; nothing where `then` is later.
pub open spec fn elapsed_between(now: u128, then: u128) -> int {
    if now >= then {
        now - then
    } else {
        0
    }
}

/// Time from `then` to `now`; nothing where `then` is later.
pub fn elapsed(now: u128, then: u128) -> (r: u128)
    ensures
        r == elapsed_between(now, then),
{
    if now >= then {
        now - then
    } else {
        0
    }
}

/// Whole seconds from `then` to `now`; nothing where `then` is later.
pub fn elapsed_secs(now: u128, then: u128) -> (r: u64)
    requires
        is_clock(now),
    ensures
        r == elapsed_between(now, then) / 1_000_000_000,
{
    let d: u128 = elapsed(now, then);
    (d / NANOS_PER_SEC) as u64
}

/// Seconds as a span of time.
pub fn secs(n: u64) -> (r: u128)
    ensures
        r == n * 1_000_000_000,
        r <= CLOCK_MAX,
{
    n as u128 * NANOS_PER_SEC
}

/// The time `n` seconds after `now`.
pub fn after_secs(now: u128, n: u64) -> (r: u128)
    requires
        is_clock(now),
    ensures
        r == now + n * 1_000_000_000,
{
    now + secs(n)
}

/// Whether a time has been set and is still to come.
pub open spec fn is_ahead(until: Option<u128>, now: u128) -> bool {
    until matches Some(t) && now < t
}

/// Whether a time has been set and is still to come.
pub fn ahead(until: Option<u128>, now: u128) -> (r: bool)
    ensures
        r == is_ahead(until, now),
{
    match until {
        Some(t) => now < t,
        None => false,
    }
}

/// What has passed is what is added to get from the one time to the other, and it never runs
/// backwards.
pub proof fn law_time_passes(then: u128, span: u128)
    requires
        then + span <= u128::MAX,
    ensures
        elapsed_between((then + span) as u128, then) == span,
        elapsed_between(then, (then + span) as u128) == 0,
        is_ahead(Some((then + span) as u128), then) <==> span > 0,
        !is_ahead(Some(then), (then + span) as u128),
        !is_ahead(None, then),
{
}

} // verus!
