//! Times during which nothing is switched, because the user wants it so.

use crate::clock::{after_secs, is_clock, CLOCK_MAX};
use crate::status_text::HoldKind;
use vstd::prelude::*;

verus! {

/// A time during which nothing is switched.
#[derive(Clone, Copy, Debug, PartialEq, Eq, Structural)]
pub struct HoldState {
    pub until: u128,
    pub kind: HoldKind,
}

/// Begins such a time.
pub fn hold_for(kind: HoldKind, secs: u64, now: u128) -> (r: HoldState)
    requires
        is_clock(now),
    ensures
        r.kind == kind,
        r.until == now + secs * 1_000_000_000,
{
    HoldState { until: after_secs(now, secs), kind }
}

/// Whole seconds that are left, and the kind, where the time is not over.
pub open spec fn hold_left(h: Option<HoldState>, now: u128) -> (int, Option<HoldKind>) {
    match h {
        Some(st) => if now < st.until {
            ((st.until - now) / 1_000_000_000, Some(st.kind))
        } else {
            (0, None)
        },
        None => (0, None),
    }
}

/// Whole seconds that are left, and the kind, where the time is not over.
pub fn hold_remaining(h: &Option<HoldState>, now: u128) -> (r: (u64, Option<HoldKind>))
    requires
        h matches Some(st) ==> st.until <= now + CLOCK_MAX,
    ensures
        r.0 == hold_left(*h, now).0,
        r.1 == hold_left(*h, now).1,
{
    match h {
        Some(st) => if now < st.until {
            let left: u128 = st.until - now;
            ((left / 1_000_000_000) as u64, Some(st.kind))
        } else {
            (0, None)
        },
        None => (0, None),
    }
}

/// Forgets a time that is over.
pub fn forget_if_over(h: &mut Option<HoldState>, now: u128)
    ensures
        *final(h) == (match *old(h) {
            Some(st) => if now < st.until {
                Some(st)
            } else {
                None
            },
            None => None,
        }),
{
    if let Some(st) = *h {
        if now >= st.until {
            *h = None;
        }
    }
}

/// A time of so many seconds runs from its beginning until they have passed, and what is left of it is
/// told in whole seconds, with its kind.
pub proof fn law_hold_lasts_its_seconds(kind: HoldKind, secs: u64, at: u128, now: u128)
    requires
        is_clock(at),
        at <= now,
    ensures
        ({
            let h = Some(HoldState { until: (at + secs * 1_000_000_000) as u128, kind });
            let left = hold_left(h, now);
            &&& left.1 == Some(kind) <==> now < at + secs * 1_000_000_000
            &&& left.1 is None <==> now >= at + secs * 1_000_000_000
            &&& left.1 is Some ==> left.0 * 1_000_000_000 <= at + secs * 1_000_000_000 - now < (left.0
                + 1) * 1_000_000_000
            &&& left.1 is None ==> left.0 == 0
            &&& hold_left(None, now) == (0int, None::<HoldKind>)
        }),
{
}

} // verus!
