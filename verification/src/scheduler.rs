//! What is done about the link from one look to the next: when something may be switched, where
//! to, and what is remembered of it.

use crate::band_bond::{
    aps, best_on_band, best_target, bssid_eq, home_contains, homes, in_group, is_target,
    law_target_is_the_strongest, may_go_to, opt_ap, same_bssid, strongest, HomeAp, HomeApModel,
    ScanAp, ScanApModel,
};
use crate::clock::{
    after_secs, ahead, elapsed, elapsed_between, elapsed_secs, is_ahead, is_clock, secs, CLOCK_MAX,
};
use crate::config::opt_text;
use crate::hold::{hold_left, HoldState};
use crate::numbers::{dec, dec_int, i32_text, u64_text, usize_text};
use crate::power_state::PowerState;
use crate::score::Rank;
use crate::state_machine::SwitchHint;
use crate::status_text::HoldKind;
use crate::text::{
    ascii_lower, cat, contains, find_class, from_chars, has_prefix, has_sub, law_standing_in,
    lower_case, prefix_len, str_eq, to_chars, to_lowercase, trim, trimmed, Class,
};
use crate::wpa_ctrl::{WpaModel, WpaStatus};
use vstd::prelude::*;
use vstd::string::*;

verus! {

/// What is remembered from one look at the link to the next. Times are on the monotonic clock.
#[derive(Debug)]
pub struct Scheduler {
    last_scan: u128,
    prev_link_key: String,
    suppress_until: Option<u128>,
    lock_until: Option<u128>,
    roam_pending: Option<(String, u128)>,
    grace_until: Option<u128>,
    last_screen: PowerState,
    weak_bad_since: Option<u128>,
    weak_disconnected: bool,
    best_pref: Option<i32>,
    fail_key: String,
    fail_streak: u32,
    backoff_until: Option<u128>,
    no_target_reason: String,
}

/// What a `Scheduler` holds.
#[verifier::ext_equal]
pub struct SchedulerModel {
    pub last_scan: u128,
    /// The name and the BSSID of the link, in lower case.
    pub prev_link_key: Seq<char>,
    /// Until when a change of the link is taken to be the daemon's own.
    pub suppress_until: Option<u128>,
    /// Until when the access point is kept after a switch.
    pub lock_until: Option<u128>,
    /// A better access point on the same band, and since when it has been seen.
    pub roam_pending: Option<(Seq<char>, u128)>,
    /// Until when nothing is done after the screen has come on.
    pub grace_until: Option<u128>,
    pub last_screen: PowerState,
    /// Since when the link has been weak.
    pub weak_bad_since: Option<u128>,
    /// Whether the link has been dropped for being weak.
    pub weak_disconnected: bool,
    /// The strongest signal of the preferred band at the last scan.
    pub best_pref: Option<i32>,
    /// The switch that has failed, and how often in a row.
    pub fail_key: Seq<char>,
    pub fail_streak: u32,
    /// Until when nothing is tried after repeated failures.
    pub backoff_until: Option<u128>,
    pub no_target_reason: Seq<char>,
}

impl View for Scheduler {
    type V = SchedulerModel;

    closed spec fn view(&self) -> SchedulerModel {
        SchedulerModel {
            last_scan: self.last_scan,
            prev_link_key: self.prev_link_key@,
            suppress_until: self.suppress_until,
            lock_until: self.lock_until,
            roam_pending: match self.roam_pending {
                Some((k, t)) => Some((k@, t)),
                None => None,
            },
            grace_until: self.grace_until,
            last_screen: self.last_screen,
            weak_bad_since: self.weak_bad_since,
            weak_disconnected: self.weak_disconnected,
            best_pref: self.best_pref,
            fail_key: self.fail_key@,
            fail_streak: self.fail_streak,
            backoff_until: self.backoff_until,
            no_target_reason: self.no_target_reason@,
        }
    }
}

/// A name and a BSSID as one text.
pub open spec fn link_key(ssid: Seq<char>, bssid: Seq<char>) -> Seq<char> {
    ssid + "|"@ + bssid
}

/// The name in a link's key.
pub open spec fn key_ssid(key: Seq<char>) -> Seq<char> {
    key.take(prefix_len(key, Class::Is('|')))
}

/// Whether the link has been moved to another network by someone else: the name has changed (a
/// change of the access point alone is the system's roaming), the link stands, and the daemon
/// has not just switched itself. Without a time to hold off, or while paused, it does not matter.
pub open spec fn is_manual_switch(
    m: SchedulerModel,
    lower_ssid: Seq<char>,
    lower_bssid: Seq<char>,
    ssid: Seq<char>,
    wpa_state: Seq<char>,
    hold_secs: u64,
    paused: bool,
    now: u128,
) -> bool {
    &&& m.prev_link_key.len() > 0
    &&& link_key(lower_ssid, lower_bssid) != m.prev_link_key
    &&& key_ssid(m.prev_link_key).len() > 0
    &&& lower_ssid != key_ssid(m.prev_link_key)
    &&& wpa_state == "COMPLETED"@
    &&& ssid.len() > 0
    &&& !is_ahead(m.suppress_until, now)
    &&& hold_secs > 0
    &&& !paused
}

/// The key that is remembered after a look: that of a link that stands and has a BSSID.
pub open spec fn next_link_key(
    m: SchedulerModel,
    lower_ssid: Seq<char>,
    lower_bssid: Seq<char>,
    wpa_state: Seq<char>,
) -> Seq<char> {
    let key = link_key(lower_ssid, lower_bssid);
    if wpa_state == "COMPLETED"@ && key.last() != '|' {
        key
    } else {
        m.prev_link_key
    }
}

/// What came of a link that had been dropped.
#[derive(Clone, Copy, Debug, PartialEq, Eq, Structural)]
pub enum WeakStep {
    /// Nothing is to be done.
    Nothing,
    /// The link is to be taken up again.
    Reconnect,
    /// The link stands again.
    Restored,
}

/// Whether something may be switched at all: not with the screen off, not while paused or held
/// off, not in a retreat, not right after the screen has come on.
pub open spec fn may_act(
    m: SchedulerModel,
    screen_off: bool,
    paused: bool,
    hold_rem: u64,
    in_grace: bool,
    now: u128,
) -> bool {
    !screen_off && !paused && hold_rem == 0 && !is_ahead(m.backoff_until, now) && !in_grace
}

/// What is left of a retreat after a look: it is forgotten once it is over.
pub open spec fn gated(
    m: SchedulerModel,
    screen_off: bool,
    paused: bool,
    hold_rem: u64,
    now: u128,
) -> SchedulerModel {
    SchedulerModel {
        backoff_until: if !screen_off && !paused && hold_rem == 0 && !is_ahead(
            m.backoff_until,
            now,
        ) {
            None
        } else {
            m.backoff_until
        },
        ..m
    }
}

/// What becomes of a link that was dropped for being weak: it is taken up again, at most once in
/// ten seconds, until it stands.
pub open spec fn weak_stepped(m: SchedulerModel, auto_reconnect: bool, up: bool, now: u128) -> (
    SchedulerModel,
    WeakStep,
) {
    if m.weak_disconnected && auto_reconnect && !up {
        if elapsed_between(now, m.last_scan) > 10_000_000_000 {
            (SchedulerModel { last_scan: now, ..m }, WeakStep::Reconnect)
        } else {
            (m, WeakStep::Nothing)
        }
    } else {
        (
            SchedulerModel { weak_disconnected: m.weak_disconnected && !up, ..m },
            if m.weak_disconnected && auto_reconnect {
                WeakStep::Restored
            } else {
                WeakStep::Nothing
            },
        )
    }
}

/// Since when the link has been weak, and whether it is to be rescued: it has been weak for long
/// enough, and the last scan is at least eight seconds ago.
pub open spec fn weak_watched(m: SchedulerModel, weak: bool, weak_hold_secs: u64, now: u128) -> (
    SchedulerModel,
    bool,
) {
    if weak {
        let since = match m.weak_bad_since {
            Some(t) => t,
            None => now,
        };
        (
            SchedulerModel { weak_bad_since: Some(since), ..m },
            elapsed_between(now, since) / 1_000_000_000 >= weak_hold_secs && elapsed_between(
                now,
                m.last_scan,
            ) >= 8_000_000_000,
        )
    } else {
        (SchedulerModel { weak_bad_since: None, ..m }, false)
    }
}

/// How long a retreat lasts after so many failures in a row: three minutes after the third, a
/// minute more for each further one, ten minutes at most.
pub open spec fn backoff_secs(streak: int) -> int {
    let n = 180 + (streak - 3) * 60;
    if n < 600 {
        n
    } else {
        600
    }
}

/// How often a switch has failed in a row, after another failure.
pub open spec fn next_streak(m: SchedulerModel, key: Seq<char>) -> u32 {
    if m.fail_key == key {
        if m.fail_streak < u32::MAX {
            (m.fail_streak + 1) as u32
        } else {
            u32::MAX
        }
    } else {
        1
    }
}

/// How long the retreat is that so many failures in a row lead to: none before the third.
pub open spec fn retreat(streak: u32) -> Option<u64> {
    if streak >= 3 {
        Some(backoff_secs(streak as int) as u64)
    } else {
        None
    }
}

/// What is remembered after a switch that has not come off.
pub open spec fn switch_failed(m: SchedulerModel, key: Seq<char>, now: u128) -> SchedulerModel {
    let n = next_streak(m, key);
    SchedulerModel {
        fail_key: key,
        fail_streak: n,
        backoff_until: match retreat(n) {
            Some(b) => Some((now + b * 1_000_000_000) as u128),
            None => m.backoff_until,
        },
        ..m
    }
}

/// What is remembered after a switch that has come off.
pub open spec fn switched(
    m: SchedulerModel,
    lock_secs: u64,
    rescue: bool,
    now: u128,
) -> SchedulerModel {
    SchedulerModel {
        fail_streak: 0,
        fail_key: seq![],
        backoff_until: None,
        lock_until: if lock_secs > 0 {
            Some((now + lock_secs * 1_000_000_000) as u128)
        } else {
            m.lock_until
        },
        weak_bad_since: if rescue {
            None
        } else {
            m.weak_bad_since
        },
        no_target_reason: seq![],
        ..m
    }
}

/// What is remembered after a link has been dropped for being weak.
pub open spec fn weak_dropped(m: SchedulerModel) -> SchedulerModel {
    SchedulerModel { weak_disconnected: true, weak_bad_since: None, ..m }
}

/// A pending move to a better access point, after a look that has shown one, or none.
pub open spec fn next_pending(
    pending: Option<(Seq<char>, u128)>,
    seen: Option<Seq<char>>,
    hold_secs: u64,
    now: u128,
) -> (Option<(Seq<char>, u128)>, bool) {
    match seen {
        None => (None, false),
        Some(key) => match pending {
            Some((k, since)) => if k == key {
                if elapsed_between(now, since) >= hold_secs * 1_000_000_000 {
                    (None, true)
                } else {
                    (pending, false)
                }
            } else {
                (Some((key, now)), false)
            },
            None => (Some((key, now)), false),
        },
    }
}

impl Scheduler {
    /// Nothing is remembered; the last scan counts as a minute ago.
    pub fn new(now: u128) -> (r: Self)
        requires
            now >= 60_000_000_000,
        ensures
            r@ == (SchedulerModel {
                last_scan: (now - 60_000_000_000) as u128,
                prev_link_key: seq![],
                suppress_until: None,
                lock_until: None,
                roam_pending: None,
                grace_until: None,
                last_screen: PowerState::On,
                weak_bad_since: None,
                weak_disconnected: false,
                best_pref: None,
                fail_key: seq![],
                fail_streak: 0,
                backoff_until: None,
                no_target_reason: seq![],
            }),
    {
        Scheduler {
            last_scan: now - 60_000_000_000,
            prev_link_key: String::new(),
            suppress_until: None,
            lock_until: None,
            roam_pending: None,
            grace_until: None,
            last_screen: PowerState::On,
            weak_bad_since: None,
            weak_disconnected: false,
            best_pref: None,
            fail_key: String::new(),
            fail_streak: 0,
            backoff_until: None,
            no_target_reason: String::new(),
        }
    }

    /// Takes the state of the screen: when it comes on, nothing is done for three seconds.
    /// Whether that time runs.
    pub fn on_screen(&mut self, screen: PowerState, now: u128) -> (in_grace: bool)
        requires
            is_clock(now),
        ensures
            final(self)@ == (SchedulerModel {
                grace_until: if screen == PowerState::On && old(self)@.last_screen
                    == PowerState::Off {
                    Some((now + 3_000_000_000) as u128)
                } else {
                    old(self)@.grace_until
                },
                last_screen: screen,
                ..old(self)@
            }),
            in_grace == is_ahead(final(self)@.grace_until, now),
    {
        if screen == PowerState::On && self.last_screen == PowerState::Off {
            self.grace_until = Some(after_secs(now, 3));
        }
        self.last_screen = screen;
        ahead(self.grace_until, now)
    }

    /// Whole seconds for which the access point is still kept.
    pub fn lock_remaining(&self, now: u128) -> (r: u64)
        requires
            self@.lock_until matches Some(t) ==> t <= now + CLOCK_MAX,
        ensures
            r == (match self@.lock_until {
                Some(t) => if now < t {
                    (t - now) / 1_000_000_000
                } else {
                    0
                },
                None => 0,
            }),
    {
        match self.lock_until {
            Some(t) => if now < t {
                let left: u128 = t - now;
                (left / 1_000_000_000) as u64
            } else {
                0
            },
            None => 0,
        }
    }

    /// Whole seconds that are left of a retreat, where there is one.
    pub fn backoff_left(&self, now: u128) -> (r: Option<u64>)
        requires
            self@.backoff_until matches Some(t) ==> t <= now + CLOCK_MAX,
        ensures
            r is Some <==> is_ahead(self@.backoff_until, now),
            r matches Some(n) ==> n == (self@.backoff_until->0 - now) / 1_000_000_000,
    {
        match self.backoff_until {
            Some(t) => if now < t {
                let left: u128 = t - now;
                Some((left / 1_000_000_000) as u64)
            } else {
                None
            },
            None => None,
        }
    }

    /// Whether the link has been dropped for being weak.
    pub fn is_weak_disconnected(&self) -> (r: bool)
        ensures
            r == self@.weak_disconnected,
    {
        self.weak_disconnected
    }

    /// The strongest signal of the preferred band at the last scan.
    pub fn best_preferred(&self) -> (r: Option<i32>)
        ensures
            r == self@.best_pref,
    {
        self.best_pref
    }

    /// Takes a look at where the link is, given its name and BSSID in lower case too. Whether it
    /// has been moved to another network by someone else.
    pub fn see_link_lowered(
        &mut self,
        lower_ssid: &str,
        lower_bssid: &str,
        ssid: &str,
        wpa_state: &str,
        hold_secs: u64,
        paused: bool,
        now: u128,
    ) -> (r: bool)
        ensures
            r == is_manual_switch(
                old(self)@,
                lower_ssid@,
                lower_bssid@,
                ssid@,
                wpa_state@,
                hold_secs,
                paused,
                now,
            ),
            final(self)@ == (SchedulerModel {
                prev_link_key: next_link_key(old(self)@, lower_ssid@, lower_bssid@, wpa_state@),
                ..old(self)@
            }),
    {
        let key = cat(cat(lower_ssid.to_owned(), "|"), lower_bssid);
        let prev = to_chars(self.prev_link_key.as_str());
        assert(prev@.skip(0) == prev@);
        let n = find_class(&prev, Class::Is('|'), 0);
        let prev_ssid = from_chars(&prev, 0, n);
        assert(prev_ssid@ == key_ssid(self.prev_link_key@));
        let completed = str_eq(wpa_state, "COMPLETED");
        let manual = !self.prev_link_key.as_str().is_empty() && !str_eq(
            key.as_str(),
            self.prev_link_key.as_str(),
        ) && !prev_ssid.as_str().is_empty() && !str_eq(lower_ssid, prev_ssid.as_str()) && completed
            && !ssid.is_empty() && !ahead(self.suppress_until, now) && hold_secs > 0 && !paused;
        let kv = to_chars(key.as_str());
        proof {
            reveal_strlit("|");
        }
        if completed && kv[kv.len() - 1] != '|' {
            self.prev_link_key = key;
        }
        manual
    }

    /// Takes a look at where the link is. Whether it has been moved to another network by
    /// someone else.
    pub fn see_link(
        &mut self,
        ssid: &str,
        bssid: &str,
        wpa_state: &str,
        hold_secs: u64,
        paused: bool,
        now: u128,
    ) -> (r: bool)
        ensures
            r == is_manual_switch(
                old(self)@,
                lower_case(ssid@),
                lower_case(bssid@),
                ssid@,
                wpa_state@,
                hold_secs,
                paused,
                now,
            ),
            final(self)@ == (SchedulerModel {
                prev_link_key: next_link_key(
                    old(self)@,
                    lower_case(ssid@),
                    lower_case(bssid@),
                    wpa_state@,
                ),
                ..old(self)@
            }),
    {
        self.see_link_lowered(
            to_lowercase(ssid).as_str(),
            to_lowercase(bssid).as_str(),
            ssid,
            wpa_state,
            hold_secs,
            paused,
            now,
        )
    }

    /// Whether something may be switched at all. A retreat that is over is forgotten.
    pub fn gate(
        &mut self,
        screen_off: bool,
        paused: bool,
        hold_rem: u64,
        in_grace: bool,
        now: u128,
    ) -> (r: bool)
        ensures
            r == may_act(old(self)@, screen_off, paused, hold_rem, in_grace, now),
            final(self)@ == gated(old(self)@, screen_off, paused, hold_rem, now),
    {
        if screen_off || paused || hold_rem > 0 {
            return false;
        }
        if ahead(self.backoff_until, now) {
            return false;
        }
        self.backoff_until = None;
        !in_grace
    }

    /// Takes up a link again that has been dropped: every ten seconds, where that is wanted.
    pub fn weak_step(&mut self, auto_reconnect: bool, wpa_state: &str, now: u128) -> (r: WeakStep)
        ensures
            (final(self)@, r) == weak_stepped(
                old(self)@,
                auto_reconnect,
                wpa_state@ == "COMPLETED"@,
                now,
            ),
    {
        let up = str_eq(wpa_state, "COMPLETED");
        if self.weak_disconnected && auto_reconnect {
            if !up {
                if elapsed(now, self.last_scan) > secs(10) {
                    self.last_scan = now;
                    return WeakStep::Reconnect;
                }
                return WeakStep::Nothing;
            }
            self.weak_disconnected = false;
            return WeakStep::Restored;
        }
        if up {
            self.weak_disconnected = false;
        }
        WeakStep::Nothing
    }

    /// Outside the home group a weak link is left alone.
    pub fn leave_weak_alone(&mut self)
        ensures
            final(self)@ == (SchedulerModel { weak_bad_since: None, ..old(self)@ }),
    {
        self.weak_bad_since = None;
    }

    /// Watches for a weak link. Whether it is to be rescued: it has been weak for as long as is
    /// set, and the last scan is eight seconds ago or more.
    pub fn watch_weak(
        &mut self,
        weak_action: &str,
        wpa_state: &str,
        rssi: i32,
        rssi_disconnect: i32,
        weak_hold_secs: u64,
        now: u128,
    ) -> (rescue: bool)
        requires
            is_clock(now),
        ensures
            (final(self)@, rescue) == weak_watched(
                old(self)@,
                weak_action@ == "disconnect"@ && wpa_state@ == "COMPLETED"@ && rssi
                    < rssi_disconnect,
                weak_hold_secs,
                now,
            ),
    {
        if str_eq(weak_action, "disconnect") && str_eq(wpa_state, "COMPLETED") && rssi
            < rssi_disconnect {
            let since = match self.weak_bad_since {
                Some(t) => t,
                None => now,
            };
            self.weak_bad_since = Some(since);
            elapsed_secs(now, since) >= weak_hold_secs && elapsed(now, self.last_scan) >= secs(8)
        } else {
            self.weak_bad_since = None;
            false
        }
    }

    /// Whether there is to be a scan first: the last one is longer ago than the gap, or a link is
    /// to be rescued.
    pub fn scan_first(&self, gap_secs: u64, rescue: bool, now: u128) -> (r: bool)
        ensures
            r == (rescue || elapsed_between(now, self@.last_scan) > gap_secs * 1_000_000_000),
    {
        rescue || elapsed(now, self.last_scan) > secs(gap_secs)
    }

    /// A scan has been made.
    pub fn on_scanned(&mut self, now: u128)
        ensures
            final(self)@ == (SchedulerModel { last_scan: now, ..old(self)@ }),
    {
        self.last_scan = now;
    }

    /// Remembers the strongest signal of the preferred band.
    pub fn note_scan(&mut self, best_pref: Option<i32>)
        ensures
            final(self)@ == (SchedulerModel { best_pref, ..old(self)@ }),
    {
        self.best_pref = best_pref;
    }

    /// Forgets a pending move to a better access point.
    pub fn forget_roam(&mut self)
        ensures
            final(self)@ == (SchedulerModel { roam_pending: None, ..old(self)@ }),
    {
        self.roam_pending = None;
    }

    /// Takes the better access point that has been seen, by its BSSID in lower case, or that none
    /// has. Whether to move there: it has been seen for as long as is set.
    pub fn roam_step_lowered(&mut self, seen: Option<String>, hold_secs: u64, now: u128) -> (fire:
        bool)
        ensures
            ({
                let n = next_pending(old(self)@.roam_pending, opt_text(seen), hold_secs, now);
                &&& final(self)@ == (SchedulerModel { roam_pending: n.0, ..old(self)@ })
                &&& fire == n.1
            }),
    {
        match seen {
            None => {
                self.roam_pending = None;
                false
            },
            Some(key) => {
                let (same, over) = match &self.roam_pending {
                    Some((k, since)) => (
                        str_eq(k.as_str(), key.as_str()),
                        elapsed(now, *since) >= secs(hold_secs),
                    ),
                    None => (false, false),
                };
                if same {
                    if over {
                        self.roam_pending = None;
                    }
                    over
                } else {
                    self.roam_pending = Some((key, now));
                    false
                }
            },
        }
    }

    /// Takes the better access point that has been seen, or that none has. Whether to move there.
    pub fn roam_step(&mut self, seen: Option<&ScanAp>, hold_secs: u64, now: u128) -> (fire: bool)
        ensures
            ({
                let key = match seen {
                    Some(a) => Some(lower_case(a@.bssid)),
                    None => None,
                };
                let n = next_pending(old(self)@.roam_pending, key, hold_secs, now);
                &&& final(self)@ == (SchedulerModel { roam_pending: n.0, ..old(self)@ })
                &&& fire == n.1
            }),
    {
        let key = match seen {
            Some(a) => Some(to_lowercase(a.bssid.as_str())),
            None => None,
        };
        self.roam_step_lowered(key, hold_secs, now)
    }

    /// A change of the link in the next seconds is the daemon's own.
    pub fn suppress(&mut self, n: u64, now: u128)
        requires
            is_clock(now),
        ensures
            final(self)@ == (SchedulerModel {
                suppress_until: Some((now + n * 1_000_000_000) as u128),
                ..old(self)@
            }),
    {
        self.suppress_until = Some(after_secs(now, n));
    }

    /// Where the link is after a switch, given its name and BSSID in lower case; a link without
    /// a name is passed over.
    pub fn settle_link(&mut self, ssid: &str, lower_ssid: &str, lower_bssid: &str)
        ensures
            final(self)@ == (SchedulerModel {
                prev_link_key: if ssid@.len() > 0 {
                    link_key(lower_ssid@, lower_bssid@)
                } else {
                    old(self)@.prev_link_key
                },
                ..old(self)@
            }),
    {
        if !ssid.is_empty() {
            self.prev_link_key = cat(cat(lower_ssid.to_owned(), "|"), lower_bssid);
        }
    }

    /// Where the link is after a switch.
    pub fn settle(&mut self, ssid: &str, bssid: &str)
        ensures
            final(self)@ == (SchedulerModel {
                prev_link_key: if ssid@.len() > 0 {
                    link_key(lower_case(ssid@), lower_case(bssid@))
                } else {
                    old(self)@.prev_link_key
                },
                ..old(self)@
            }),
    {
        self.settle_link(ssid, to_lowercase(ssid).as_str(), to_lowercase(bssid).as_str());
    }

    /// A switch has come off: failures are forgotten, and the access point is kept for a while.
    pub fn on_switched(&mut self, lock_secs: u64, rescue: bool, now: u128)
        requires
            is_clock(now),
        ensures
            final(self)@ == switched(old(self)@, lock_secs, rescue, now),
    {
        self.fail_streak = 0;
        self.fail_key = String::new();
        self.backoff_until = None;
        if lock_secs > 0 {
            self.lock_until = Some(after_secs(now, lock_secs));
        }
        if rescue {
            self.weak_bad_since = None;
        }
        self.no_target_reason = String::new();
    }

    /// A switch has not come off. From the third failure in a row on there is a retreat, so that
    /// the system does not put the network out of use: its length in seconds.
    pub fn on_switch_failed(&mut self, key: &str, now: u128) -> (r: Option<u64>)
        requires
            is_clock(now),
        ensures
            r == retreat(next_streak(old(self)@, key@)),
            final(self)@ == switch_failed(old(self)@, key@, now),
    {
        if str_eq(self.fail_key.as_str(), key) {
            if self.fail_streak < u32::MAX {
                self.fail_streak = self.fail_streak + 1;
            }
        } else {
            self.fail_key = key.to_owned();
            self.fail_streak = 1;
        }
        if self.fail_streak < 3 {
            return None;
        }
        let wide: u64 = 180 + (self.fail_streak as u64 - 3) * 60;
        let back: u64 = if wide < 600 {
            wide
        } else {
            600
        };
        self.backoff_until = Some(after_secs(now, back));
        Some(back)
    }

    /// How often the last switch has failed in a row.
    pub fn streak(&self) -> (r: u32)
        ensures
            r == self@.fail_streak,
    {
        self.fail_streak
    }

    /// The link has been dropped for being weak.
    pub fn on_weak_dropped(&mut self)
        ensures
            final(self)@ == weak_dropped(old(self)@),
    {
        self.weak_disconnected = true;
        self.weak_bad_since = None;
    }

    /// There is nowhere to go. Whether that is to be logged: always where a switch was wanted,
    /// else only when the reason changes.
    pub fn note_no_target(&mut self, wanted: bool, reason: &str) -> (log: bool)
        ensures
            log == (wanted || reason@ != old(self)@.no_target_reason),
            final(self)@ == (if wanted {
                old(self)@
            } else {
                SchedulerModel { no_target_reason: reason@, ..old(self)@ }
            }),
    {
        if wanted {
            return true;
        }
        if str_eq(reason, self.no_target_reason.as_str()) {
            return false;
        }
        self.no_target_reason = reason.to_owned();
        true
    }
}

/// Whether to look for a better access point on the preferred band: the score is below the one at
/// which the link is watched, there is a home group, and nothing else is going on.
pub fn wants_roam_probe(
    roam_enable: bool,
    on_preferred: bool,
    score: Rank,
    detect_th: Rank,
    home_n: usize,
    locked: bool,
    hint: SwitchHint,
    rescue: bool,
) -> (r: bool)
    ensures
        r == (roam_enable && on_preferred && score.lt(detect_th) && home_n > 0 && !locked && hint
            == SwitchHint::Stay && !rescue),
{
    roam_enable && on_preferred && score.below(detect_th) && home_n > 0 && !locked && hint
        == SwitchHint::Stay && !rescue
}

/// The strongest signal on the preferred band, in the home group where there is one.
pub open spec fn best_signal(s: Seq<ScanApModel>, prefer_5: bool, home: Seq<HomeApModel>) -> Option<
    i32,
>
    decreases s.len(),
{
    if s.len() == 0 {
        None
    } else {
        let b = best_signal(s.drop_last(), prefer_5, home);
        let a = s.last();
        if (a.freq > 5000) == prefer_5 && (home.len() == 0 || in_group(home, a.bssid)) && (
        b matches Some(x) ==> a.signal > x) {
            Some(a.signal)
        } else {
            b
        }
    }
}

/// The strongest signal on the preferred band, in the home group where there is one.
pub fn best_preferred_signal(scans: &[ScanAp], prefer_5: bool, home: &[HomeAp]) -> (r: Option<i32>)
    ensures
        r == best_signal(aps(scans@), prefer_5, homes(home@)),
{
    let ghost s = aps(scans@);
    let mut best: Option<i32> = None;
    let mut i: usize = 0;
    assert(s.take(0) == Seq::<ScanApModel>::empty());
    while i < scans.len()
        invariant
            s == aps(scans@),
            i <= scans@.len(),
            best == best_signal(s.take(i as int), prefer_5, homes(home@)),
        decreases scans@.len() - i,
    {
        let a = &scans[i];
        assert(s.take(i + 1).drop_last() == s.take(i as int));
        assert(s.take(i + 1).last() == a@);
        if a.is_5g() == prefer_5 && (home.len() == 0 || home_contains(home, a.bssid.as_str())) {
            match best {
                Some(b) => {
                    if a.signal > b {
                        best = Some(a.signal);
                    }
                },
                None => {
                    best = Some(a.signal);
                },
            }
        }
        i = i + 1;
    }
    assert(s.take(i as int) == s);
    best
}

/// The access point, where it is not the one that the link is on.
pub open spec fn elsewhere(ap: Option<ScanApModel>, cur: Seq<char>) -> Option<ScanApModel> {
    match ap {
        Some(a) => if same_bssid(a.bssid, cur) {
            None
        } else {
            Some(a)
        },
        None => None,
    }
}

fn not_current(ap: Option<ScanAp>, cur: &str) -> (r: Option<ScanAp>)
    ensures
        opt_ap(r) == elsewhere(opt_ap(ap), cur@),
{
    match ap {
        Some(a) => if bssid_eq(a.bssid.as_str(), cur) {
            None
        } else {
            Some(a)
        },
        None => None,
    }
}

/// Where the link is, and what the settings say about leaving it.
#[derive(Clone, Copy, Debug)]
pub struct LinkFacts {
    pub rssi: i32,
    pub prefer_5: bool,
    /// Whether the link itself is on 5 GHz.
    pub on_5g: bool,
    pub up_rssi: i32,
    pub rssi_disconnect: i32,
}

impl LinkFacts {
    /// Signals have room for the leads that are asked for.
    pub open spec fn in_range(self) -> bool {
        self.rssi <= i32::MAX - 8 && self.rssi_disconnect <= i32::MAX - 10
    }
}

/// Where to go. Leaving the preferred band: first to an access point on it that is 8 dB better,
/// else to the other band, from -80 dBm on. Going back: to the preferred band, from the signal on
/// that is set. To the rescue of a weak link: to one on the same band that is 5 dB better, else
/// from 5 GHz to 2.4 GHz, 10 dB above where the link would be dropped.
pub open spec fn target(
    hint: SwitchHint,
    rescue: bool,
    scans: Seq<ScanApModel>,
    ssid: Seq<char>,
    cur: Seq<char>,
    f: LinkFacts,
    home: Seq<HomeApModel>,
) -> Option<ScanApModel> {
    match hint {
        SwitchHint::Downswitch => {
            let same = elsewhere(
                best_target(scans, ssid, f.prefer_5, (f.rssi + 8) as i32, home),
                cur,
            );
            if same is Some {
                same
            } else {
                best_target(scans, ssid, !f.prefer_5, (-80) as i32, home)
            }
        },
        SwitchHint::Upswitch => best_target(scans, ssid, f.prefer_5, f.up_rssi, home),
        SwitchHint::SameBandRoam => None,
        SwitchHint::Stay => if rescue {
            let same = elsewhere(
                best_target(scans, ssid, f.on_5g, (f.rssi + 5) as i32, home),
                cur,
            );
            if same is Some {
                same
            } else if f.on_5g {
                elsewhere(
                    best_target(scans, ssid, false, (f.rssi_disconnect + 10) as i32, home),
                    cur,
                )
            } else {
                None
            }
        } else {
            None
        },
    }
}

/// Where to go.
pub fn choose_target(
    hint: SwitchHint,
    rescue: bool,
    scans: &[ScanAp],
    ssid: &str,
    cur_bssid: &str,
    f: &LinkFacts,
    home: &[HomeAp],
) -> (r: Option<ScanAp>)
    requires
        f.in_range(),
    ensures
        opt_ap(r) == target(
            hint,
            rescue,
            aps(scans@),
            ssid@,
            cur_bssid@,
            *f,
            homes(home@),
        ),
{
    match hint {
        SwitchHint::Downswitch => {
            let same = not_current(
                best_on_band(scans, ssid, f.prefer_5, f.rssi + 8, home),
                cur_bssid,
            );
            if same.is_some() {
                same
            } else {
                best_on_band(scans, ssid, !f.prefer_5, -80, home)
            }
        },
        SwitchHint::Upswitch => best_on_band(scans, ssid, f.prefer_5, f.up_rssi, home),
        SwitchHint::SameBandRoam => None,
        SwitchHint::Stay => {
            if !rescue {
                return None;
            }
            let same = not_current(
                best_on_band(scans, ssid, f.on_5g, f.rssi + 5, home),
                cur_bssid,
            );
            if same.is_some() {
                same
            } else if f.on_5g {
                not_current(
                    best_on_band(scans, ssid, false, f.rssi_disconnect + 10, home),
                    cur_bssid,
                )
            } else {
                None
            }
        },
    }
}

/// An access point on the preferred band that is better than the link by the lead that is set.
pub fn better_on_preferred(
    scans: &[ScanAp],
    ssid: &str,
    cur_bssid: &str,
    prefer_5: bool,
    rssi: i32,
    margin_db: i32,
    home: &[HomeAp],
) -> (r: Option<ScanAp>)
    requires
        i32::MIN <= rssi + margin_db <= i32::MAX,
    ensures
        opt_ap(r) == elsewhere(
            best_target(aps(scans@), ssid@, prefer_5, (rssi + margin_db) as i32, homes(home@)),
            cur_bssid@,
        ),
{
    not_current(best_on_band(scans, ssid, prefer_5, rssi + margin_db, home), cur_bssid)
}

/// Whether the link has got where it was to go: it stands, with the name of the target; within
/// one network on its access point too.
pub open spec fn reached(st: WpaModel, ssid: Seq<char>, bssid: Seq<char>, require_bssid: bool) -> bool {
    &&& st.wpa_state == "COMPLETED"@
    &&& st.ssid == Some(ssid)
    &&& ssid.len() > 0
    &&& require_bssid && trimmed(bssid).len() > 0 ==> (st.bssid matches Some(b) && same_bssid(
        b,
        trimmed(bssid),
    ))
}

/// Whether the link has got where it was to go.
pub fn link_reached_peer(
    st: &WpaStatus,
    peer_ssid: &str,
    peer_bssid: &str,
    require_bssid: bool,
) -> (r: bool)
    ensures
        r == reached(st@, peer_ssid@, peer_bssid@, require_bssid),
{
    if !str_eq(st.wpa_state.as_str(), "COMPLETED") {
        return false;
    }
    match &st.ssid {
        Some(s) => {
            if s.as_str().is_empty() || !str_eq(s.as_str(), peer_ssid) {
                return false;
            }
        },
        None => {
            return false;
        },
    }
    if !require_bssid {
        return true;
    }
    let want = trim(peer_bssid);
    if want.as_str().is_empty() {
        return true;
    }
    match &st.bssid {
        Some(b) => bssid_eq(b.as_str(), want.as_str()),
        None => false,
    }
}

/// What is done next to get a switch under way.
#[derive(Clone, Copy, Debug, PartialEq, Eq, Structural)]
pub enum SwitchStep {
    /// Move within the network.
    Roam,
    /// Connect through the system.
    Connect,
    /// Select the saved network.
    Select,
    /// It is under way.
    Issued,
    /// It has failed.
    Failed,
}

/// The first step: within a network to roam, to another one to connect.
pub fn first_step(same_ssid: bool) -> (r: SwitchStep)
    ensures
        r == (if same_ssid {
            SwitchStep::Roam
        } else {
            SwitchStep::Connect
        }),
{
    if same_ssid {
        SwitchStep::Roam
    } else {
        SwitchStep::Connect
    }
}

/// The step after one that has gone well or not: after roaming comes connecting; to another
/// network selecting comes after connecting.
pub open spec fn step_after(step: SwitchStep, same_ssid: bool, ok: bool) -> SwitchStep {
    match step {
        SwitchStep::Roam => if ok {
            SwitchStep::Issued
        } else {
            SwitchStep::Connect
        },
        SwitchStep::Connect => if ok {
            SwitchStep::Issued
        } else if same_ssid {
            SwitchStep::Failed
        } else {
            SwitchStep::Select
        },
        SwitchStep::Select => if ok {
            SwitchStep::Issued
        } else {
            SwitchStep::Failed
        },
        SwitchStep::Issued => SwitchStep::Issued,
        SwitchStep::Failed => SwitchStep::Failed,
    }
}

/// The step after one that has gone well or not.
pub fn next_step(step: SwitchStep, same_ssid: bool, ok: bool) -> (r: SwitchStep)
    ensures
        r == step_after(step, same_ssid, ok),
{
    match step {
        SwitchStep::Roam => if ok {
            SwitchStep::Issued
        } else {
            SwitchStep::Connect
        },
        SwitchStep::Connect => if ok {
            SwitchStep::Issued
        } else if same_ssid {
            SwitchStep::Failed
        } else {
            SwitchStep::Select
        },
        SwitchStep::Select => if ok {
            SwitchStep::Issued
        } else {
            SwitchStep::Failed
        },
        SwitchStep::Issued => SwitchStep::Issued,
        SwitchStep::Failed => SwitchStep::Failed,
    }
}

/// A switch that is to be made.
#[derive(Debug)]
pub struct SwitchPlan {
    /// What failures are counted by.
    pub bond_key: String,
    pub same_ssid: bool,
    pub reason: &'static str,
    pub to_band: &'static str,
}

pub open spec fn reason_name(rescue: bool, hint: SwitchHint, roam: bool) -> Seq<char> {
    if rescue && hint == SwitchHint::Stay {
        "WeakRescue"@
    } else if roam {
        "SameBandRoam"@
    } else {
        "Score"@
    }
}

/// A switch from a network to an access point.
pub fn plan_switch(ssid: &str, peer: &ScanAp, hint: SwitchHint, rescue: bool, roam: bool) -> (r:
    SwitchPlan)
    ensures
        r.bond_key@ == ssid@ + "->"@ + peer@.ssid + "/"@ + peer@.bssid,
        r.same_ssid == (peer@.ssid == ssid@),
        r.reason@ == reason_name(rescue, hint, roam),
        r.to_band@ == (if peer.freq > 5000 {
            "5"@
        } else {
            "2.4"@
        }),
{
    let mut key = ssid.to_owned();
    key.append("->");
    key.append(peer.ssid.as_str());
    key.append("/");
    key.append(peer.bssid.as_str());
    let reason = if rescue && hint == SwitchHint::Stay {
        "WeakRescue"
    } else if roam {
        "SameBandRoam"
    } else {
        "Score"
    };
    SwitchPlan {
        bond_key: key,
        same_ssid: str_eq(peer.ssid.as_str(), ssid),
        reason,
        to_band: if peer.freq > 5000 {
            "5"
        } else {
            "2.4"
        },
    }
}

/// Whether an error is one that the user can mend, so that the pause is a short one.
pub open spec fn is_mendable(msg: Seq<char>) -> bool {
    has_sub(msg, "请先在系统设置"@) || has_sub(msg, "no network id"@)
}

/// Whether an error is one that the user can mend.
pub fn is_user_mendable(msg: &str) -> (r: bool)
    ensures
        r == is_mendable(msg@),
{
    contains(msg, "请先在系统设置") || contains(msg, "no network id")
}

/// What is said where a network can be neither connected to nor selected.
pub fn unselectable_text(ssid: &str, e: &str) -> (r: String)
    ensures
        r@ == "无法切换到「"@ + ssid@ + "」："@ + e@ + "；请确认系统已保存该网且未被停用"@,
{
    let mut out = "无法切换到「".to_owned();
    out.append(ssid);
    out.append("」：");
    out.append(e);
    out.append("；请确认系统已保存该网且未被停用");
    out
}

/// What is said where a switch has had no effect.
pub fn not_landed_text(ssid: &str, got: &str) -> (r: String)
    ensures
        r@ == "切换未生效（目标 "@ + ssid@ + "，仍为 "@ + got@ + "）"@,
{
    let mut out = "切换未生效（目标 ".to_owned();
    out.append(ssid);
    out.append("，仍为 ");
    out.append(got);
    out.append("）");
    out
}

/// What is said of a retreat.
pub fn backoff_text(ssid: &str, streak: u32, back: u64) -> (r: String)
    ensures
        r@ == "连「"@ + ssid@ + "」连续失败 "@ + dec(streak as nat) + " 次，已退避 "@ + dec(
            back as nat,
        ) + "s。请系统里检查该网是否被停用后重连保存"@,
{
    let mut out = "连「".to_owned();
    out.append(ssid);
    out.append("」连续失败 ");
    out.append(u64_text(streak as u64).as_str());
    out.append(" 次，已退避 ");
    out.append(u64_text(back).as_str());
    out.append("s。请系统里检查该网是否被停用后重连保存");
    out
}

/// Where a link is, in one text.
pub open spec fn place(st: WpaModel) -> Seq<char> {
    st.wpa_state + "|"@ + (match st.ssid {
        Some(s) => s,
        None => ""@,
    }) + "|"@ + (match st.bssid {
        Some(b) => b,
        None => ""@,
    })
}

/// Where a link is, in one text.
pub fn got_text(st: &WpaStatus) -> (r: String)
    ensures
        r@ == place(st@),
{
    let mut out = st.wpa_state.clone();
    out.append("|");
    match &st.ssid {
        Some(s) => {
            out.append(s.as_str());
        },
        None => {
            out.append("");
        },
    }
    out.append("|");
    match &st.bssid {
        Some(b) => {
            out.append(b.as_str());
        },
        None => {
            out.append("");
        },
    }
    out
}

/// Why a weak link has been dropped.
#[derive(Clone, Copy, Debug, PartialEq, Eq, Structural)]
pub enum WeakCause {
    /// The best access point is the one that the link is on.
    StillBest,
    /// There is none.
    NoTarget,
    /// The switch had no effect.
    NotLanded,
    /// The switch could not be made.
    Failed,
}

pub open spec fn weak_message(cause: WeakCause, rssi: i32, rssi_disconnect: i32) -> Seq<char> {
    match cause {
        WeakCause::StillBest => "弱信号已断开（"@ + dec_int(rssi as int) + " dBm，无更优 AP）"@,
        WeakCause::NoTarget => "弱信号已断开（无更优 AP，"@ + dec_int(rssi as int) + " dBm < "@
            + dec_int(rssi_disconnect as int) + "）"@,
        WeakCause::NotLanded => "弱信号已断开（切换失败，"@ + dec_int(rssi as int) + " dBm）"@,
        WeakCause::Failed => "弱信号已断开（无可用网络，"@ + dec_int(rssi as int) + " dBm）"@,
    }
}

/// What is said of a weak link that has been dropped.
pub fn weak_text(cause: WeakCause, rssi: i32, rssi_disconnect: i32) -> (r: String)
    ensures
        r@ == weak_message(cause, rssi, rssi_disconnect),
{
    let level = i32_text(rssi);
    match cause {
        WeakCause::StillBest => cat(
            cat("弱信号已断开（".to_owned(), level.as_str()),
            " dBm，无更优 AP）",
        ),
        WeakCause::NoTarget => cat(
            cat(
                cat(cat("弱信号已断开（无更优 AP，".to_owned(), level.as_str()), " dBm < "),
                i32_text(rssi_disconnect).as_str(),
            ),
            "）",
        ),
        WeakCause::NotLanded => cat(
            cat("弱信号已断开（切换失败，".to_owned(), level.as_str()),
            " dBm）",
        ),
        WeakCause::Failed => cat(
            cat("弱信号已断开（无可用网络，".to_owned(), level.as_str()),
            " dBm）",
        ),
    }
}

/// What the user is notified of a weak link that has been dropped.
pub fn weak_notice(cause: WeakCause, rssi: i32) -> (r: String)
    ensures
        r@ == "弱信号已断开（"@ + dec_int(rssi as int) + (if cause == WeakCause::NotLanded {
            "dBm，救援切换未成功）"@
        } else {
            "dBm，无更优 AP）"@
        }),
{
    let head = cat("弱信号已断开（".to_owned(), i32_text(rssi).as_str());
    match cause {
        WeakCause::NotLanded => cat(head, "dBm，救援切换未成功）"),
        _ => cat(head, "dBm，无更优 AP）"),
    }
}

/// What the user is notified of a switch.
pub fn switched_notice(to_band: &str, ssid: &str) -> (r: String)
    ensures
        r@ == "已切换到 "@ + to_band@ + "G："@ + ssid@,
{
    cat(cat(cat("已切换到 ".to_owned(), to_band), "G："), ssid)
}

/// Why there is nowhere to go.
pub open spec fn no_target_message(
    hint: SwitchHint,
    best_pref: Option<i32>,
    up_rssi: i32,
    home_n: nat,
) -> Seq<char> {
    match hint {
        SwitchHint::Upswitch => match best_pref {
            Some(b) => "上切未执行：家网 5G 最强 "@ + dec_int(b as int) + " dBm < 上切线 "@
                + dec_int(up_rssi as int) + " dBm"@,
            None => "上切未执行：未扫到家网 5G（上切线 "@ + dec_int(up_rssi as int) + " dBm）"@,
        },
        SwitchHint::Downswitch => "下切未执行：未扫到可用 2.4G 家网 AP"@,
        _ => "无可用对端 AP（家网 "@ + dec(home_n) + " 个）"@,
    }
}

/// Why there is nowhere to go.
pub fn no_target_text(
    hint: SwitchHint,
    best_pref: Option<i32>,
    up_rssi: i32,
    home_n: usize,
) -> (r: String)
    ensures
        r@ == no_target_message(hint, best_pref, up_rssi, home_n as nat),
{
    match hint {
        SwitchHint::Upswitch => match best_pref {
            Some(b) => {
                let mut out = "上切未执行：家网 5G 最强 ".to_owned();
                out.append(i32_text(b).as_str());
                out.append(" dBm < 上切线 ");
                out.append(i32_text(up_rssi).as_str());
                out.append(" dBm");
                out
            },
            None => cat(
                cat(
                    "上切未执行：未扫到家网 5G（上切线 ".to_owned(),
                    i32_text(up_rssi).as_str(),
                ),
                " dBm）",
            ),
        },
        SwitchHint::Downswitch => "下切未执行：未扫到可用 2.4G 家网 AP".to_owned(),
        _ => cat(
            cat("无可用对端 AP（家网 ".to_owned(), usize_text(home_n).as_str()),
            " 个）",
        ),
    }
}

/// Whether the link could be controlled, and what was done about it where not.
#[derive(Clone, Copy, Debug, PartialEq, Eq, Structural)]
pub struct ControlWatch {
    pub fail_streak: u32,
    pub last_reconnect: Option<u128>,
    pub last_log: Option<u128>,
}

/// Whether so many seconds have passed since a time, or there is none.
pub open spec fn is_due(last: Option<u128>, n: u64, now: u128) -> bool {
    last matches Some(t) ==> elapsed_between(now, t) / 1_000_000_000 >= n
}

fn due(last: Option<u128>, n: u64, now: u128) -> (r: bool)
    requires
        is_clock(now),
    ensures
        r == is_due(last, n, now),
{
    match last {
        Some(t) => elapsed_secs(now, t) >= n,
        None => true,
    }
}

impl ControlWatch {
    pub fn new() -> (r: Self)
        ensures
            r == (ControlWatch { fail_streak: 0, last_reconnect: None, last_log: None }),
    {
        ControlWatch { fail_streak: 0, last_reconnect: None, last_log: None }
    }

    /// The link could not be controlled. Whether to log it, every half a minute at most, and
    /// whether to try and get hold of it again, every fifteen seconds at most.
    pub fn on_failure(&mut self, now: u128) -> (r: (bool, bool))
        requires
            is_clock(now),
        ensures
            r.0 == is_due(old(self).last_log, 30, now),
            r.1 == is_due(old(self).last_reconnect, 15, now),
            *final(self) == (ControlWatch {
                fail_streak: if old(self).fail_streak < u32::MAX {
                    (old(self).fail_streak + 1) as u32
                } else {
                    u32::MAX
                },
                last_log: if is_due(old(self).last_log, 30, now) {
                    Some(now)
                } else {
                    old(self).last_log
                },
                last_reconnect: if is_due(old(self).last_reconnect, 15, now) {
                    Some(now)
                } else {
                    old(self).last_reconnect
                },
            }),
    {
        if self.fail_streak < u32::MAX {
            self.fail_streak = self.fail_streak + 1;
        }
        let log = due(self.last_log, 30, now);
        if log {
            self.last_log = Some(now);
        }
        let again = due(self.last_reconnect, 15, now);
        if again {
            self.last_reconnect = Some(now);
        }
        (log, again)
    }

    /// The link is under control again.
    pub fn on_reconnected(&mut self)
        ensures
            *final(self) == (ControlWatch { fail_streak: 0, ..*old(self) }),
    {
        self.fail_streak = 0;
    }
}

/// A target in a home group is a member of it, whatever the reason for going there; nothing leads
/// out of the group.
pub proof fn law_targets_stay_in_home_group(
    hint: SwitchHint,
    rescue: bool,
    scans: Seq<ScanApModel>,
    ssid: Seq<char>,
    cur: Seq<char>,
    f: LinkFacts,
    home: Seq<HomeApModel>,
)
    requires
        home.len() > 0,
    ensures
        target(hint, rescue, scans, ssid, cur, f, home) matches Some(a) ==> in_group(
            home,
            a.bssid,
        ) && scans.contains(a),
{
    lemma_best_in_group(scans, ssid, f.prefer_5, (f.rssi + 8) as i32, home);
    lemma_best_in_group(scans, ssid, !f.prefer_5, (-80) as i32, home);
    lemma_best_in_group(scans, ssid, f.prefer_5, f.up_rssi, home);
    lemma_best_in_group(scans, ssid, f.on_5g, (f.rssi + 5) as i32, home);
    lemma_best_in_group(scans, ssid, false, (f.rssi_disconnect + 10) as i32, home);
}

proof fn lemma_best_in_group(
    scans: Seq<ScanApModel>,
    ssid: Seq<char>,
    want_5g: bool,
    min_rssi: i32,
    home: Seq<HomeApModel>,
)
    ensures
        home.len() > 0 ==> (best_target(scans, ssid, want_5g, min_rssi, home) matches Some(a)
            ==> in_group(home, a.bssid) && scans.contains(a)),
{
    let g = |ap: ScanApModel| is_target(ap, ssid, want_5g, min_rssi, home);
    crate::band_bond::law_strongest(scans, g);
    if strongest(scans, g) is Some {
        assert(g(strongest(scans, g)->0));
    }
}

/// A link that has only moved between access points of its network is never taken for the user's
/// doing; neither is one that the daemon has just moved itself.
pub proof fn law_roaming_is_not_manual(
    m: SchedulerModel,
    lower_ssid: Seq<char>,
    lower_bssid: Seq<char>,
    ssid: Seq<char>,
    wpa_state: Seq<char>,
    hold_secs: u64,
    paused: bool,
    now: u128,
)
    requires
        lower_ssid == key_ssid(m.prev_link_key) || is_ahead(m.suppress_until, now),
    ensures
        !is_manual_switch(
            m,
            lower_ssid,
            lower_bssid,
            ssid,
            wpa_state,
            hold_secs,
            paused,
            now,
        ),
{
}

/// A retreat lasts from three to ten minutes, and never gets shorter with more failures.
pub proof fn law_backoff_bounds(streak: int, more: int)
    requires
        3 <= streak <= more,
    ensures
        180 <= backoff_secs(streak) <= 600,
        backoff_secs(streak) <= backoff_secs(more),
{
}

/// A switch that cannot be got under way fails after three steps at the latest.
pub proof fn law_steps_end(same_ssid: bool, a: bool, b: bool, c: bool)
    ensures
        ({
            let first = if same_ssid {
                SwitchStep::Roam
            } else {
                SwitchStep::Connect
            };
            let last = step_after(
                step_after(step_after(first, same_ssid, a), same_ssid, b),
                same_ssid,
                c,
            );
            last == SwitchStep::Issued || last == SwitchStep::Failed
        }),
{
}

/// After the user has switched by hand nothing is switched automatically for the time that is
/// set, up to its last second.
pub proof fn law_manual_switch_keeps_hands_off(
    m: SchedulerModel,
    hold_secs: u64,
    at: u128,
    screen_off: bool,
    paused: bool,
    in_grace: bool,
    now: u128,
)
    requires
        is_clock(at),
        at <= now,
        now + 1_000_000_000 <= at + hold_secs * 1_000_000_000,
    ensures
        ({
            let h = Some(
                HoldState {
                    until: (at + hold_secs * 1_000_000_000) as u128,
                    kind: HoldKind::Manual,
                },
            );
            &&& 1 <= hold_left(h, now).0 <= hold_secs
            &&& !may_act(m, screen_off, paused, hold_left(h, now).0 as u64, in_grace, now)
        }),
{
}

/// After three failures in a row nothing is switched until the retreat is over.
pub proof fn law_failures_lead_to_retreat(
    m: SchedulerModel,
    key: Seq<char>,
    at: u128,
    screen_off: bool,
    paused: bool,
    hold_rem: u64,
    in_grace: bool,
    now: u128,
)
    requires
        is_clock(at),
        m.fail_key == key,
        m.fail_streak >= 2,
        now < at + backoff_secs(next_streak(m, key) as int) * 1_000_000_000,
    ensures
        ({
            let after = switch_failed(m, key, at);
            !may_act(after, screen_off, paused, hold_rem, in_grace, now)
        }),
{
}

/// A better access point is another one of the wanted band, at least as strong as is asked for,
/// and of the home group where there is one.
pub proof fn law_better_is_better(
    scans: Seq<ScanApModel>,
    ssid: Seq<char>,
    cur: Seq<char>,
    want_5g: bool,
    min_rssi: i32,
    home: Seq<HomeApModel>,
)
    ensures
        elsewhere(best_target(scans, ssid, want_5g, min_rssi, home), cur) matches Some(a) ==> {
            &&& scans.contains(a)
            &&& !same_bssid(a.bssid, cur)
            &&& (a.freq > 5000) == want_5g
            &&& a.signal >= min_rssi
            &&& home.len() > 0 ==> in_group(home, a.bssid)
        },
{
    let g = |ap: ScanApModel| is_target(ap, ssid, want_5g, min_rssi, home);
    crate::band_bond::law_strongest(scans, g);
    if strongest(scans, g) is Some {
        assert(g(strongest(scans, g)->0));
    }
}

/// Where a link goes that leaves the preferred band: to another access point on that band that is at
/// least 8 dB better, where the strongest of those is not the one that it is on; else to the
/// strongest one on the other band from -80 dBm on, where there is any. With a home group or without.
pub proof fn law_leaving_the_preferred_band(
    rescue: bool,
    scans: Seq<ScanApModel>,
    ssid: Seq<char>,
    cur: Seq<char>,
    f: LinkFacts,
    home: Seq<HomeApModel>,
)
    requires
        f.in_range(),
    ensures
        target(SwitchHint::Downswitch, rescue, scans, ssid, cur, f, home) matches Some(a) ==> {
            &&& scans.contains(a)
            &&& {
                ||| may_go_to(a, ssid, f.prefer_5, f.rssi + 8, home) && ascii_lower(a.bssid)
                    != ascii_lower(cur) && forall|i: int|
                    0 <= i < scans.len() && may_go_to(
                        #[trigger] scans[i],
                        ssid,
                        f.prefer_5,
                        f.rssi + 8,
                        home,
                    ) ==> scans[i].signal <= a.signal
                ||| may_go_to(a, ssid, !f.prefer_5, -80, home) && forall|i: int|
                    0 <= i < scans.len() && may_go_to(
                        #[trigger] scans[i],
                        ssid,
                        !f.prefer_5,
                        -80,
                        home,
                    ) ==> scans[i].signal <= a.signal
            }
        },
        // Whatever can be gone to on the other band is enough for there to be a target.
        (exists|i: int|
            0 <= i < scans.len() && may_go_to(#[trigger] scans[i], ssid, !f.prefer_5, -80, home))
            ==> target(SwitchHint::Downswitch, rescue, scans, ssid, cur, f, home) is Some,
        // So is a better one on the band itself, where no other one of its strength is the link's own.
        forall|i: int|
            0 <= i < scans.len() && may_go_to(
                #[trigger] scans[i],
                ssid,
                f.prefer_5,
                f.rssi + 8,
                home,
            ) && (forall|j: int|
                0 <= j < scans.len() && may_go_to(
                    #[trigger] scans[j],
                    ssid,
                    f.prefer_5,
                    f.rssi + 8,
                    home,
                ) && scans[j].signal >= scans[i].signal ==> ascii_lower(scans[j].bssid)
                    != ascii_lower(cur)) ==> (target(
                SwitchHint::Downswitch,
                rescue,
                scans,
                ssid,
                cur,
                f,
                home,
            ) matches Some(a) && (a.freq > 5000) == f.prefer_5),
        // The other band is gone to only where the band itself offers nothing but the link's own.
        target(SwitchHint::Downswitch, rescue, scans, ssid, cur, f, home) matches Some(a) && (
        a.freq > 5000) != f.prefer_5 ==> forall|i: int|
            0 <= i < scans.len() && may_go_to(
                #[trigger] scans[i],
                ssid,
                f.prefer_5,
                f.rssi + 8,
                home,
            ) ==> exists|j: int|
                0 <= j < scans.len() && ascii_lower((#[trigger] scans[j]).bssid) == ascii_lower(cur)
                    && may_go_to(scans[j], ssid, f.prefer_5, f.rssi + 8, home) && scans[j].signal
                    >= scans[i].signal,
        // There is no target only where the other band offers nothing.
        target(SwitchHint::Downswitch, rescue, scans, ssid, cur, f, home) is None ==> forall|i: int|
            0 <= i < scans.len() ==> !may_go_to(
                #[trigger] scans[i],
                ssid,
                !f.prefer_5,
                -80,
                home,
            ),
{
    law_target_is_the_strongest(scans, ssid, f.prefer_5, (f.rssi + 8) as i32, home);
    law_target_is_the_strongest(scans, ssid, !f.prefer_5, (-80) as i32, home);
    let b = best_target(scans, ssid, f.prefer_5, (f.rssi + 8) as i32, home);
    if b is Some {
        let k = choose|k: int| 0 <= k < scans.len() && #[trigger] scans[k] == b->0;
        assert(may_go_to(scans[k], ssid, f.prefer_5, f.rssi + 8, home));
    }
}

/// Where a link goes back to the preferred band: to the strongest access point on it that it may go
/// to, from the signal on that is set, where there is any.
pub proof fn law_going_back_to_the_preferred_band(
    rescue: bool,
    scans: Seq<ScanApModel>,
    ssid: Seq<char>,
    cur: Seq<char>,
    f: LinkFacts,
    home: Seq<HomeApModel>,
)
    ensures
        target(SwitchHint::Upswitch, rescue, scans, ssid, cur, f, home) is None <==> forall|i: int|
            0 <= i < scans.len() ==> !may_go_to(
                #[trigger] scans[i],
                ssid,
                f.prefer_5,
                f.up_rssi as int,
                home,
            ),
        target(SwitchHint::Upswitch, rescue, scans, ssid, cur, f, home) matches Some(a) ==> {
            &&& scans.contains(a)
            &&& may_go_to(a, ssid, f.prefer_5, f.up_rssi as int, home)
            &&& forall|i: int|
                0 <= i < scans.len() && may_go_to(
                    #[trigger] scans[i],
                    ssid,
                    f.prefer_5,
                    f.up_rssi as int,
                    home,
                ) ==> scans[i].signal <= a.signal
        },
{
    law_target_is_the_strongest(scans, ssid, f.prefer_5, f.up_rssi, home);
    let b = best_target(scans, ssid, f.prefer_5, f.up_rssi, home);
    if b is Some {
        let k = choose|k: int| 0 <= k < scans.len() && #[trigger] scans[k] == b->0;
        assert(may_go_to(scans[k], ssid, f.prefer_5, f.up_rssi as int, home));
    }
}

/// Where a weak link goes: to another access point on its own band that is at least 5 dB better,
/// else from 5 GHz to another one on 2.4 GHz that is 10 dB above where the link would be dropped.
/// Where every such access point is another one, the strongest is found.
pub proof fn law_rescue_of_a_weak_link(
    scans: Seq<ScanApModel>,
    ssid: Seq<char>,
    cur: Seq<char>,
    f: LinkFacts,
    home: Seq<HomeApModel>,
)
    requires
        f.in_range(),
    ensures
        target(SwitchHint::Stay, false, scans, ssid, cur, f, home) is None,
        target(SwitchHint::Stay, true, scans, ssid, cur, f, home) matches Some(a) ==> {
            &&& scans.contains(a)
            &&& ascii_lower(a.bssid) != ascii_lower(cur)
            &&& {
                ||| may_go_to(a, ssid, f.on_5g, f.rssi + 5, home) && forall|i: int|
                    0 <= i < scans.len() && may_go_to(
                        #[trigger] scans[i],
                        ssid,
                        f.on_5g,
                        f.rssi + 5,
                        home,
                    ) ==> scans[i].signal <= a.signal
                ||| f.on_5g && may_go_to(a, ssid, false, f.rssi_disconnect + 10, home) && forall|
                    i: int,
                |
                    0 <= i < scans.len() && may_go_to(
                        #[trigger] scans[i],
                        ssid,
                        false,
                        f.rssi_disconnect + 10,
                        home,
                    ) ==> scans[i].signal <= a.signal
            }
        },
        forall|i: int|
            0 <= i < scans.len() && may_go_to(#[trigger] scans[i], ssid, f.on_5g, f.rssi + 5, home)
                && (forall|j: int|
                0 <= j < scans.len() && may_go_to(
                    #[trigger] scans[j],
                    ssid,
                    f.on_5g,
                    f.rssi + 5,
                    home,
                ) && scans[j].signal >= scans[i].signal ==> ascii_lower(scans[j].bssid)
                    != ascii_lower(cur)) ==> (target(
                SwitchHint::Stay,
                true,
                scans,
                ssid,
                cur,
                f,
                home,
            ) matches Some(a) && (a.freq > 5000) == f.on_5g),
        forall|i: int|
            f.on_5g && 0 <= i < scans.len() && may_go_to(
                #[trigger] scans[i],
                ssid,
                false,
                f.rssi_disconnect + 10,
                home,
            ) && (forall|j: int|
                0 <= j < scans.len() && may_go_to(
                    #[trigger] scans[j],
                    ssid,
                    false,
                    f.rssi_disconnect + 10,
                    home,
                ) && scans[j].signal >= scans[i].signal ==> ascii_lower(scans[j].bssid)
                    != ascii_lower(cur)) ==> target(
                SwitchHint::Stay,
                true,
                scans,
                ssid,
                cur,
                f,
                home,
            ) is Some,
        // The other band is gone to only where the link's own offers nothing but the link's own place.
        target(SwitchHint::Stay, true, scans, ssid, cur, f, home) matches Some(a) && (a.freq > 5000)
            != f.on_5g ==> forall|i: int|
            0 <= i < scans.len() && may_go_to(#[trigger] scans[i], ssid, f.on_5g, f.rssi + 5, home)
                ==> exists|j: int|
                0 <= j < scans.len() && ascii_lower((#[trigger] scans[j]).bssid) == ascii_lower(cur)
                    && may_go_to(scans[j], ssid, f.on_5g, f.rssi + 5, home) && scans[j].signal
                    >= scans[i].signal,
{
    law_target_is_the_strongest(scans, ssid, f.on_5g, (f.rssi + 5) as i32, home);
    law_target_is_the_strongest(scans, ssid, false, (f.rssi_disconnect + 10) as i32, home);
    let b = best_target(scans, ssid, f.on_5g, (f.rssi + 5) as i32, home);
    if b is Some {
        let k = choose|k: int| 0 <= k < scans.len() && #[trigger] scans[k] == b->0;
        assert(may_go_to(scans[k], ssid, f.on_5g, f.rssi + 5, home));
    }
    let d = best_target(scans, ssid, false, (f.rssi_disconnect + 10) as i32, home);
    if d is Some {
        let k = choose|k: int| 0 <= k < scans.len() && #[trigger] scans[k] == d->0;
        assert(may_go_to(scans[k], ssid, false, f.rssi_disconnect + 10, home));
    }
}

/// A better access point is found where the strongest one that the link may go to is another one,
/// and only there.
pub proof fn law_better_is_found(
    scans: Seq<ScanApModel>,
    ssid: Seq<char>,
    cur: Seq<char>,
    want_5g: bool,
    least: i32,
    home: Seq<HomeApModel>,
)
    ensures
        elsewhere(best_target(scans, ssid, want_5g, least, home), cur) matches Some(a) ==> {
            &&& scans.contains(a)
            &&& ascii_lower(a.bssid) != ascii_lower(cur)
            &&& may_go_to(a, ssid, want_5g, least as int, home)
            &&& forall|i: int|
                0 <= i < scans.len() && may_go_to(
                    #[trigger] scans[i],
                    ssid,
                    want_5g,
                    least as int,
                    home,
                ) ==> scans[i].signal <= a.signal
        },
        elsewhere(best_target(scans, ssid, want_5g, least, home), cur) is None ==> forall|i: int|
            0 <= i < scans.len() && may_go_to(
                #[trigger] scans[i],
                ssid,
                want_5g,
                least as int,
                home,
            ) ==> exists|j: int|
                0 <= j < scans.len() && ascii_lower((#[trigger] scans[j]).bssid) == ascii_lower(cur)
                    && may_go_to(scans[j], ssid, want_5g, least as int, home) && scans[j].signal
                    >= scans[i].signal,
{
    law_target_is_the_strongest(scans, ssid, want_5g, least, home);
    let b = best_target(scans, ssid, want_5g, least, home);
    if b is Some {
        let k = choose|k: int| 0 <= k < scans.len() && #[trigger] scans[k] == b->0;
        assert(may_go_to(scans[k], ssid, want_5g, least as int, home));
    }
}

/// The strongest signal on the preferred band is that of an access point seen on it, of the home
/// group where there is one, and none of those is stronger; there is none only where none was seen.
pub proof fn law_best_signal(s: Seq<ScanApModel>, prefer_5: bool, home: Seq<HomeApModel>)
    ensures
        forall|i: int|
            0 <= i < s.len() && (if prefer_5 {
                (#[trigger] s[i]).freq > 5000
            } else {
                s[i].freq <= 5000
            }) && (home.len() > 0 ==> exists|j: int|
                0 <= j < home.len() && ascii_lower(#[trigger] home[j].bssid) == ascii_lower(
                    s[i].bssid,
                )) ==> (best_signal(s, prefer_5, home) matches Some(b) && s[i].signal <= b),
        best_signal(s, prefer_5, home) matches Some(b) ==> exists|i: int|
            0 <= i < s.len() && (#[trigger] s[i]).signal == b && (s[i].freq > 5000) == prefer_5 && (
            home.len() > 0 ==> in_group(home, s[i].bssid)),
    decreases s.len(),
{
    if s.len() > 0 {
        let t = s.drop_last();
        law_best_signal(t, prefer_5, home);
        assert forall|i: int|
            0 <= i < s.len() && (if prefer_5 {
                (#[trigger] s[i]).freq > 5000
            } else {
                s[i].freq <= 5000
            }) && (home.len() > 0 ==> exists|j: int|
                0 <= j < home.len() && ascii_lower(#[trigger] home[j].bssid) == ascii_lower(
                    s[i].bssid,
                )) implies (best_signal(s, prefer_5, home) matches Some(b) && s[i].signal <= b) by {
            if i < t.len() {
                assert(t[i] == s[i]);
            } else if home.len() > 0 {
                let j = choose|j: int|
                    0 <= j < home.len() && ascii_lower(#[trigger] home[j].bssid) == ascii_lower(
                        s[i].bssid,
                    );
                assert(same_bssid(home[j].bssid, s[i].bssid));
                assert(in_group(home, s[i].bssid));
            }
        }
        if best_signal(s, prefer_5, home) is Some {
            let b = best_signal(s, prefer_5, home)->0;
            let a = s.last();
            let e = best_signal(t, prefer_5, home);
            if (a.freq > 5000) == prefer_5 && (home.len() == 0 || in_group(home, a.bssid)) && (
            e matches Some(x) ==> a.signal > x) {
                assert(s[s.len() - 1].signal == b);
            } else {
                let i = choose|i: int|
                    0 <= i < t.len() && (#[trigger] t[i]).signal == b && (t[i].freq > 5000)
                        == prefer_5 && (home.len() > 0 ==> in_group(home, t[i].bssid));
                assert(s[i] == t[i]);
            }
        }
    }
}

/// The user has switched exactly where the remembered link had a name, the link stands now under a
/// name that is another one in lower case, the daemon has not just switched itself, there is a time
/// to hold off, and nothing is paused.
pub proof fn law_other_name_is_manual(
    m: SchedulerModel,
    name: Seq<char>,
    rest: Seq<char>,
    lower_ssid: Seq<char>,
    lower_bssid: Seq<char>,
    ssid: Seq<char>,
    wpa_state: Seq<char>,
    hold_secs: u64,
    paused: bool,
    now: u128,
)
    requires
        m.prev_link_key == name + seq!['|'] + rest,
        !name.contains('|'),
        !lower_ssid.contains('|'),
    ensures
        is_manual_switch(
            m,
            lower_ssid,
            lower_bssid,
            ssid,
            wpa_state,
            hold_secs,
            paused,
            now,
        ) <==> {
            &&& name.len() > 0
            &&& lower_ssid != name
            &&& ssid.len() > 0
            &&& wpa_state == "COMPLETED"@
            &&& m.suppress_until matches Some(t) ==> t <= now
            &&& hold_secs > 0
            &&& !paused
        },
{
    reveal_strlit("|");
    let key = m.prev_link_key;
    let n = name.len() as int;
    assert forall|i: int| 0 <= i < n implies !crate::text::in_class(
        Class::Is('|'),
        #[trigger] key[i],
    ) by {
        assert(key[i] == name[i]);
        assert(name.contains(name[i]));
    }
    assert(key[n] == '|');
    crate::text::lemma_prefix_len_is(key, Class::Is('|'), n);
    assert(key.take(n) == name);
    let k = link_key(lower_ssid, lower_bssid);
    if lower_ssid != name && k == key {
        let l = lower_ssid.len() as int;
        assert(k[l] == '|');
        if l < n {
            assert(key[l] == name[l]);
            assert(name.contains(name[l]));
        } else if l > n {
            assert(k[n] == lower_ssid[n]);
            assert(lower_ssid.contains(lower_ssid[n]));
        } else {
            assert(k.take(n) == lower_ssid);
        }
        assert(false);
    }
}

/// Of two looks at a link that stands, the second is the user's switch exactly where its name is
/// another one in lower case, the daemon has not just switched itself, there is a time to hold off,
/// and nothing is paused.
pub proof fn law_second_look_tells_the_users_switch(
    m: SchedulerModel,
    first_name: Seq<char>,
    first_bssid: Seq<char>,
    name: Seq<char>,
    bssid: Seq<char>,
    hold_secs: u64,
    paused: bool,
    now: u128,
)
    requires
        lower_case(first_name).len() > 0,
        !lower_case(first_name).contains('|'),
        lower_case(first_bssid).len() > 0,
        lower_case(first_bssid).last() != '|',
        name.len() > 0,
        !lower_case(name).contains('|'),
    ensures
        ({
            let seen = SchedulerModel {
                prev_link_key: next_link_key(
                    m,
                    lower_case(first_name),
                    lower_case(first_bssid),
                    "COMPLETED"@,
                ),
                ..m
            };
            is_manual_switch(
                seen,
                lower_case(name),
                lower_case(bssid),
                name,
                "COMPLETED"@,
                hold_secs,
                paused,
                now,
            ) <==> lower_case(name) != lower_case(first_name) && (m.suppress_until matches Some(t)
                ==> t <= now) && hold_secs > 0 && !paused
        }),
{
    reveal_strlit("|");
    let a = lower_case(first_name);
    let b = lower_case(first_bssid);
    let key = link_key(a, b);
    assert(key.last() == b.last());
    let seen = SchedulerModel { prev_link_key: next_link_key(m, a, b, "COMPLETED"@), ..m };
    assert(seen.prev_link_key == a + seq!['|'] + b);
    law_other_name_is_manual(
        seen,
        a,
        b,
        lower_case(name),
        lower_case(bssid),
        name,
        "COMPLETED"@,
        hold_secs,
        paused,
        now,
    );
}

/// A link that stands and has a BSSID is remembered by its name and its BSSID; any other look leaves
/// what is remembered alone.
pub proof fn law_standing_link_is_remembered(
    m: SchedulerModel,
    lower_ssid: Seq<char>,
    lower_bssid: Seq<char>,
    wpa_state: Seq<char>,
)
    ensures
        wpa_state == "COMPLETED"@ && lower_bssid.len() > 0 && lower_bssid.last() != '|'
            ==> next_link_key(m, lower_ssid, lower_bssid, wpa_state) == lower_ssid + seq!['|']
            + lower_bssid,
        wpa_state != "COMPLETED"@ || lower_bssid.len() == 0 ==> next_link_key(
            m,
            lower_ssid,
            lower_bssid,
            wpa_state,
        ) == m.prev_link_key,
{
    reveal_strlit("|");
    let key = link_key(lower_ssid, lower_bssid);
    if lower_bssid.len() > 0 {
        assert(key.last() == lower_bssid.last());
    } else {
        assert(key.last() == '|');
    }
}

/// Something may be switched exactly where the screen is on, nothing is paused or held off, no
/// retreat runs, and the screen has not just come on. A retreat that is over is forgotten, and
/// nothing else is.
pub proof fn law_gate(
    m: SchedulerModel,
    screen_off: bool,
    paused: bool,
    hold_rem: u64,
    in_grace: bool,
    now: u128,
)
    ensures
        may_act(m, screen_off, paused, hold_rem, in_grace, now) <==> {
            &&& !screen_off
            &&& !paused
            &&& hold_rem == 0
            &&& !in_grace
            &&& m.backoff_until matches Some(t) ==> t <= now
        },
        gated(m, screen_off, paused, hold_rem, now) == m || gated(
            m,
            screen_off,
            paused,
            hold_rem,
            now,
        ) == (SchedulerModel { backoff_until: None, ..m }),
        (m.backoff_until matches Some(t) && now < t) ==> gated(m, screen_off, paused, hold_rem, now)
            == m,
{
}

/// A link that was dropped for being weak is taken up again where that is wanted, when more than ten
/// seconds have passed since the last try or scan, until it stands; then that is told once.
pub proof fn law_dropped_link_is_taken_up(
    m: SchedulerModel,
    auto_reconnect: bool,
    up: bool,
    now: u128,
)
    requires
        m.last_scan <= now,
    ensures
        weak_stepped(m, auto_reconnect, up, now).1 == WeakStep::Reconnect <==> m.weak_disconnected
            && auto_reconnect && !up && now > m.last_scan + 10_000_000_000,
        weak_stepped(m, auto_reconnect, up, now).1 == WeakStep::Restored <==> m.weak_disconnected
            && auto_reconnect && up,
        weak_stepped(m, auto_reconnect, up, now).0.weak_disconnected <==> m.weak_disconnected && !up,
        weak_stepped(m, auto_reconnect, up, now).1 == WeakStep::Reconnect ==> weak_stepped(
            m,
            auto_reconnect,
            up,
            now,
        ).0.last_scan == now,
        weak_stepped(m, auto_reconnect, up, now).1 != WeakStep::Reconnect ==> weak_stepped(
            m,
            auto_reconnect,
            up,
            now,
        ).0.last_scan == m.last_scan,
        (SchedulerModel {
            last_scan: m.last_scan,
            weak_disconnected: m.weak_disconnected,
            ..weak_stepped(m, auto_reconnect, up, now).0
        }) == m,
{
}

/// A link is rescued exactly where it is weak, has been for the seconds that are set, and the last
/// scan is eight seconds ago or more. A link that is not weak is no longer one that has been.
pub proof fn law_weak_link_is_rescued(
    m: SchedulerModel,
    weak: bool,
    weak_hold_secs: u64,
    now: u128,
)
    requires
        m.last_scan <= now,
        m.weak_bad_since matches Some(t) ==> t <= now,
    ensures
        weak_watched(m, weak, weak_hold_secs, now).1 <==> {
            &&& weak
            &&& now >= m.last_scan + 8_000_000_000
            &&& now >= (match m.weak_bad_since {
                Some(t) => t,
                None => now,
            }) + weak_hold_secs * 1_000_000_000
        },
        weak_watched(m, weak, weak_hold_secs, now).0 == (SchedulerModel {
            weak_bad_since: if !weak {
                None
            } else if m.weak_bad_since is Some {
                m.weak_bad_since
            } else {
                Some(now)
            },
            ..m
        }),
{
}

/// The third failure in a row leads to a retreat of three minutes, each further one to a minute
/// more, up to ten; a failure of another switch counts anew, and a switch that has come off ends the
/// count and the retreat.
pub proof fn law_failures_are_counted(
    m: SchedulerModel,
    key: Seq<char>,
    other: Seq<char>,
    lock_secs: u64,
    rescue: bool,
    now: u128,
)
    requires
        m.fail_streak < u32::MAX - 1,
        other != key,
        is_clock(now),
    ensures
        ({
            let once = switch_failed(m, key, now);
            let twice = switch_failed(once, key, now);
            let aside = switch_failed(once, other, now);
            let done = switched(twice, lock_secs, rescue, now);
            &&& once.fail_streak == (if m.fail_key == key {
                m.fail_streak + 1
            } else {
                1
            })
            &&& twice.fail_streak == once.fail_streak + 1
            &&& aside.fail_streak == 1
            &&& twice.fail_streak < 3 ==> twice.backoff_until == m.backoff_until
            &&& 3 <= twice.fail_streak <= 10 ==> twice.backoff_until == Some(
                (now + (twice.fail_streak as int * 60) * 1_000_000_000) as u128,
            )
            &&& twice.fail_streak > 10 ==> twice.backoff_until == Some(
                (now + 600_000_000_000) as u128,
            )
            &&& done.fail_streak == 0 && done.backoff_until is None
            &&& lock_secs > 0 ==> done.lock_until == Some(
                (now + lock_secs * 1_000_000_000) as u128,
            )
            &&& lock_secs == 0 ==> done.lock_until == m.lock_until
            &&& rescue ==> done.weak_bad_since is None
            &&& !rescue ==> done.weak_bad_since == m.weak_bad_since
            &&& (SchedulerModel {
                fail_key: m.fail_key,
                fail_streak: m.fail_streak,
                backoff_until: m.backoff_until,
                lock_until: m.lock_until,
                weak_bad_since: m.weak_bad_since,
                no_target_reason: m.no_target_reason,
                ..done
            }) == m
        }),
{
}

/// A better access point is moved to exactly when it has been seen look after look for the seconds
/// that are set: a look at another one, or at none, starts anew.
pub proof fn law_better_must_stay_in_view(
    key: Seq<char>,
    other: Seq<char>,
    hold_secs: u64,
    pending: Option<(Seq<char>, u128)>,
    at: u128,
    now: u128,
)
    requires
        at <= now,
        key != other,
        pending matches Some((k, _)) ==> k != key,
    ensures
        ({
            let first = next_pending(pending, Some(key), hold_secs, at);
            let again = next_pending(first.0, Some(key), hold_secs, now);
            &&& !first.1 && first.0 == Some((key, at))
            &&& again.1 <==> now >= at + hold_secs * 1_000_000_000
            &&& again.1 ==> again.0 is None
            &&& !again.1 ==> again.0 == first.0
            &&& next_pending(first.0, Some(other), hold_secs, now) == (Some((other, now)), false)
            &&& next_pending(first.0, None::<Seq<char>>, hold_secs, now) == (
                None::<(Seq<char>, u128)>,
                false,
            )
        }),
{
}

/// A link has arrived exactly where it stands under the name of the target and, where its access
/// point is asked for and known, on that one in whatever case.
pub proof fn law_arrival(st: WpaModel, ssid: Seq<char>, bssid: Seq<char>, require_bssid: bool)
    ensures
        reached(st, ssid, bssid, require_bssid) <==> {
            &&& st.wpa_state == "COMPLETED"@
            &&& st.ssid matches Some(s) && s == ssid && s.len() > 0
            &&& {
                ||| !require_bssid
                ||| trimmed(bssid).len() == 0
                ||| st.bssid matches Some(b) && ascii_lower(b) == ascii_lower(trimmed(bssid))
            }
        },
{
}

/// A switch is tried in every way before it has failed: within a network by roaming and then by
/// connecting, to another one by connecting and then by selecting; what goes well ends it.
pub proof fn law_every_way_is_tried(step: SwitchStep, same_ssid: bool)
    ensures
        step != SwitchStep::Failed ==> step_after(step, same_ssid, true) == SwitchStep::Issued,
        step_after(SwitchStep::Roam, true, false) == SwitchStep::Connect,
        step_after(step_after(SwitchStep::Roam, true, false), true, false) == SwitchStep::Failed,
        step_after(SwitchStep::Connect, false, false) == SwitchStep::Select,
        step_after(step_after(SwitchStep::Connect, false, false), false, false)
            == SwitchStep::Failed,
{
}

/// Why a switch is made is told: to rescue a weak link where that is all there is to it, else for a
/// better access point on the same band where it is for that, and else for the score.
pub proof fn law_reason_of_a_switch(rescue: bool, hint: SwitchHint, roam: bool)
    ensures
        reason_name(rescue, hint, roam) == "WeakRescue"@ <==> rescue && hint == SwitchHint::Stay,
        reason_name(rescue, hint, roam) == "SameBandRoam"@ <==> roam && !(rescue && hint
            == SwitchHint::Stay),
        reason_name(rescue, hint, roam) == "Score"@ <==> !roam && !(rescue && hint
            == SwitchHint::Stay),
{
    reveal_strlit("WeakRescue");
    reveal_strlit("SameBandRoam");
    reveal_strlit("Score");
    assert("WeakRescue"@.len() == 10 && "SameBandRoam"@.len() == 12 && "Score"@.len() == 5);
}

proof fn lemma_stands_between(a: Seq<char>, p: Seq<char>, b: Seq<char>, h: Seq<char>)
    requires
        h =~= a + p + b,
    ensures
        has_sub(h, p),
{
    law_standing_in(a, p, b);
}

/// A link that was dropped because it was weak is told with its signal and the cause, whatever that
/// was; where there was nowhere to go, with the limit as well.
pub proof fn law_dropped_link_is_told(cause: WeakCause, rssi: i32, limit: i32)
    ensures
        has_prefix(weak_message(cause, rssi, limit), "弱信号已断开（"@),
        has_sub(weak_message(cause, rssi, limit), dec_int(rssi as int)),
        cause == WeakCause::NoTarget ==> has_sub(
            weak_message(cause, rssi, limit),
            dec_int(limit as int),
        ),
        weak_message(WeakCause::StillBest, rssi, limit) == "弱信号已断开（"@ + dec_int(rssi as int)
            + " dBm，无更优 AP）"@,
        cause == WeakCause::NotLanded ==> has_sub(weak_message(cause, rssi, limit), "切换失败"@),
        cause == WeakCause::Failed ==> has_sub(weak_message(cause, rssi, limit), "无可用网络"@),
{
    let m = weak_message(cause, rssi, limit);
    let r = dec_int(rssi as int);
    let l = dec_int(limit as int);
    reveal_strlit("弱信号已断开（");
    reveal_strlit("弱信号已断开（无更优 AP，");
    reveal_strlit("弱信号已断开（切换失败，");
    reveal_strlit("弱信号已断开（无可用网络，");
    reveal_strlit("切换失败");
    reveal_strlit("无可用网络");
    assert(m.take(7) =~= "弱信号已断开（"@);
    match cause {
        WeakCause::StillBest => {
            lemma_stands_between("弱信号已断开（"@, r, " dBm，无更优 AP）"@, m);
        },
        WeakCause::NoTarget => {
            let a = "弱信号已断开（无更优 AP，"@;
            lemma_stands_between(a, r, " dBm < "@ + l + "）"@, m);
            lemma_stands_between(a + r + " dBm < "@, l, "）"@, m);
        },
        WeakCause::NotLanded => {
            let a = "弱信号已断开（切换失败，"@;
            lemma_stands_between(a, r, " dBm）"@, m);
            lemma_stands_between(a.take(7), "切换失败"@, a.skip(11) + r + " dBm）"@, m);
        },
        WeakCause::Failed => {
            let a = "弱信号已断开（无可用网络，"@;
            lemma_stands_between(a, r, " dBm）"@, m);
            lemma_stands_between(a.take(7), "无可用网络"@, a.skip(12) + r + " dBm）"@, m);
        },
    }
}

/// Where there is nothing to go to, it is told which way was wanted, and on the way back how strong
/// the strongest is, if there is any, and how strong it would have to be.
pub proof fn law_no_target_is_told(hint: SwitchHint, best: Option<i32>, up: i32, home_n: nat)
    ensures
        hint == SwitchHint::Upswitch ==> has_prefix(
            no_target_message(hint, best, up, home_n),
            "上切未执行：家网 5G 最强 "@,
        ) == (best is Some),
        hint == SwitchHint::Upswitch && best is Some ==> has_sub(
            no_target_message(hint, best, up, home_n),
            dec_int(best->0 as int),
        ),
        hint == SwitchHint::Upswitch ==> has_sub(
            no_target_message(hint, best, up, home_n),
            dec_int(up as int),
        ),
        hint == SwitchHint::Downswitch ==> has_prefix(
            no_target_message(hint, best, up, home_n),
            "下切未执行"@,
        ),
        hint != SwitchHint::Upswitch && hint != SwitchHint::Downswitch ==> has_sub(
            no_target_message(hint, best, up, home_n),
            dec(home_n),
        ),
{
    let m = no_target_message(hint, best, up, home_n);
    let u = dec_int(up as int);
    let a = "上切未执行：家网 5G 最强 "@;
    let n = "上切未执行：未扫到家网 5G（上切线 "@;
    reveal_strlit("上切未执行：家网 5G 最强 ");
    reveal_strlit("上切未执行：未扫到家网 5G（上切线 ");
    reveal_strlit("下切未执行：未扫到可用 2.4G 家网 AP");
    reveal_strlit("下切未执行");
    if hint == SwitchHint::Upswitch {
        match best {
            Some(b) => {
                let d = dec_int(b as int);
                assert(m.take(a.len() as int) =~= a);
                lemma_stands_between(a, d, " dBm < 上切线 "@ + u + " dBm"@, m);
                lemma_stands_between(a + d + " dBm < 上切线 "@, u, " dBm"@, m);
            },
            None => {
                lemma_stands_between(n, u, " dBm）"@, m);
                assert(m[6] == n[6] && n[6] != a[6]);
                if has_prefix(m, a) {
                    assert(m.take(a.len() as int)[6] == m[6]);
                }
            },
        }
    } else if hint == SwitchHint::Downswitch {
        assert(m.take(5) =~= "下切未执行"@);
    } else {
        lemma_stands_between("无可用对端 AP（家网 "@, dec(home_n), " 个）"@, m);
    }
}

/// Something is due exactly from the second on at which so many have passed, and at once where it has
/// never been done.
pub proof fn law_due_after_its_seconds(then: u128, n: u64, now: u128)
    ensures
        is_due(Some(then), n, now) <==> n == 0 || now >= then + n * 1_000_000_000,
        is_due(None, n, now),
{
    let d = elapsed_between(now, then);
    assert(d / 1_000_000_000 >= n <==> d >= n * 1_000_000_000);
}

} // verus!
