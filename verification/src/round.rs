//! One round of the scheduling: what a look at the link leads to, where to go, and what becomes
//! of a link that has nowhere to go.

use crate::band_bond::{
    aps, best_target, bssid_eq, homes, opt_ap, same_bssid, HomeAp, ScanAp, ScanApModel,
};
use crate::clock::{elapsed_between, is_ahead, is_clock};
use crate::config::{Config, ConfigModel};
use crate::scheduler::{
    better_on_preferred, choose_target, elsewhere, gated, may_act, next_pending, target,
    wants_roam_probe, weak_stepped, weak_watched, LinkFacts, Scheduler, SchedulerModel, WeakCause,
    WeakStep,
};
use crate::score::Rank;
use crate::state_machine::{step, MachineModel, State, StateMachine, SwitchHint};
use crate::text::{ascii_lower, lower_case, str_eq};
use crate::tick::{is_on_preferred, on_preferred_band, preferred_is_5g, prefers_5, Tick};
use vstd::prelude::*;
use vstd::string::*;

verus! {

/// Why somewhere better is looked for.
#[derive(Clone, Copy, Debug, PartialEq, Eq, Structural)]
pub struct Search {
    /// What the state machine asks for.
    pub hint: SwitchHint,
    /// Whether a weak link is to be rescued.
    pub rescue: bool,
    /// Whether a better access point of the same band would do.
    pub probe: bool,
}

/// What is done in a round.
#[derive(Clone, Copy, Debug, PartialEq, Eq, Structural)]
pub enum Course {
    /// Nothing may be done.
    Wait,
    /// The link is none of the home group and is left alone.
    Away,
    /// The link stays.
    Rest,
    /// Somewhere better is looked for.
    Seek(Search),
}

/// What a round leads to: what becomes of a link that was dropped, then the course.
#[derive(Clone, Copy, Debug, PartialEq, Eq, Structural)]
pub struct Round {
    pub weak: WeakStep,
    pub course: Course,
}

/// The search that a look asks for.
pub open spec fn search_of(
    t: Tick,
    c: ConfigModel,
    points: i32,
    hint: SwitchHint,
    rescue: bool,
) -> Search {
    Search {
        hint,
        rescue,
        probe: c.roam_enable && on_preferred_band(prefers_5(c), t.freq) && Rank::At(points).lt(
            c.score_detect_threshold.rank,
        ) && c.home_aps.len() > 0 && t.lock_rem == 0 && hint == SwitchHint::Stay && !rescue,
    }
}

/// A round: nothing is done while something stands against it; then a dropped link is taken up
/// again; a weak one is watched, outside the home group only where that is allowed; apart from its
/// rescue a link outside the home group is left alone; the state machine takes the score, unless
/// the access point is locked after a switch; and where it, a rescue or a better access point asks
/// for it, somewhere better is looked for.
pub open spec fn round_of(
    m: SchedulerModel,
    sm: MachineModel,
    t: Tick,
    c: ConfigModel,
    wpa_state: Seq<char>,
    points: i32,
    now: u128,
) -> (SchedulerModel, MachineModel, Round) {
    let paused = c.mode == "pause"@;
    let g = gated(m, t.screen_off, paused, t.hold_rem, now);
    if !may_act(m, t.screen_off, paused, t.hold_rem, t.in_grace, now) {
        (g, sm, Round { weak: WeakStep::Nothing, course: Course::Wait })
    } else {
        let up = wpa_state == "COMPLETED"@;
        let (w, weak) = weak_stepped(g, c.auto_reconnect, up, now);
        let away = c.home_aps.len() > 0 && !t.in_home;
        let (v, rescue) = weak_watched(
            w,
            (!away || c.allow_weak_off_home) && c.weak_action == "disconnect"@ && up && t.rssi
                < c.rssi_disconnect_dbm,
            c.weak_hold_secs,
            now,
        );
        if away {
            (
                v,
                sm,
                Round {
                    weak,
                    course: if rescue {
                        Course::Seek(Search { hint: SwitchHint::Stay, rescue, probe: false })
                    } else {
                        Course::Away
                    },
                },
            )
        } else {
            let (after, hint) = if t.lock_rem > 0 {
                (sm, SwitchHint::Stay)
            } else {
                step(
                    sm,
                    points,
                    c.score_switch_threshold.rank,
                    c.score_detect_threshold.rank,
                    on_preferred_band(prefers_5(c), t.freq),
                    now,
                )
            };
            let s = search_of(t, c, points, hint, rescue);
            (
                v,
                after,
                Round {
                    weak,
                    course: if s.hint != SwitchHint::Stay || s.rescue || s.probe {
                        Course::Seek(s)
                    } else {
                        Course::Rest
                    },
                },
            )
        }
    }
}

/// What is done about a target, or the lack of one.
#[derive(Clone, Copy, Debug, PartialEq, Eq, Structural)]
pub enum Move {
    /// The link already stands at its best.
    Remain,
    /// The link is switched to the target.
    Go,
    /// The link is dropped.
    Drop(WeakCause),
    /// There is nowhere to go.
    Nowhere,
}

pub open spec fn move_of(goal: Option<ScanApModel>, cur: Seq<char>, rescue: bool) -> Move {
    match goal {
        Some(a) => if !same_bssid(a.bssid, cur) {
            Move::Go
        } else if rescue {
            Move::Drop(WeakCause::StillBest)
        } else {
            Move::Remain
        },
        None => if rescue {
            Move::Drop(WeakCause::NoTarget)
        } else {
            Move::Nowhere
        },
    }
}

/// What is done about a target, or the lack of one.
pub fn decide_move(goal: &Option<ScanAp>, cur_bssid: &str, rescue: bool) -> (r: Move)
    ensures
        r == move_of(opt_ap(*goal), cur_bssid@, rescue),
{
    match goal {
        Some(a) => if !bssid_eq(a.bssid.as_str(), cur_bssid) {
            Move::Go
        } else if rescue {
            Move::Drop(WeakCause::StillBest)
        } else {
            Move::Remain
        },
        None => if rescue {
            Move::Drop(WeakCause::NoTarget)
        } else {
            Move::Nowhere
        },
    }
}

impl Scheduler {
    /// Decides on one round.
    pub fn round(
        &mut self,
        machine: &mut StateMachine,
        t: &Tick,
        c: &Config,
        wpa_state: &str,
        points: i32,
        now: u128,
    ) -> (r: Round)
        requires
            is_clock(now),
            old(machine)@.well_formed(),
        ensures
            final(machine)@.well_formed(),
            (final(self)@, final(machine)@, r) == round_of(
                old(self)@,
                old(machine)@,
                *t,
                c@,
                wpa_state@,
                points,
                now,
            ),
    {
        let paused = str_eq(c.mode.as_str(), "pause");
        if !self.gate(t.screen_off, paused, t.hold_rem, t.in_grace, now) {
            return Round { weak: WeakStep::Nothing, course: Course::Wait };
        }
        let weak = self.weak_step(c.auto_reconnect, wpa_state, now);
        let away = c.home_aps.len() > 0 && !t.in_home;
        if away && !c.allow_weak_off_home {
            self.leave_weak_alone();
            return Round { weak, course: Course::Away };
        }
        let rescue = self.watch_weak(
            c.weak_action.as_str(),
            wpa_state,
            t.rssi,
            c.rssi_disconnect_dbm,
            c.weak_hold_secs,
            now,
        );
        if away {
            return Round {
                weak,
                course: if rescue {
                    Course::Seek(Search { hint: SwitchHint::Stay, rescue, probe: false })
                } else {
                    Course::Away
                },
            };
        }
        let on_preferred = is_on_preferred(preferred_is_5g(c), t.freq);
        let switch_th = c.score_switch_threshold.rank;
        let detect_th = c.score_detect_threshold.rank;
        let locked = t.lock_rem > 0;
        let hint = if locked {
            SwitchHint::Stay
        } else {
            machine.on_score(points, switch_th, detect_th, on_preferred, now)
        };
        let probe = wants_roam_probe(
            c.roam_enable,
            on_preferred,
            Rank::At(points),
            detect_th,
            c.home_aps.len(),
            locked,
            hint,
            rescue,
        );
        if hint != SwitchHint::Stay || rescue || probe {
            Round { weak, course: Course::Seek(Search { hint, rescue, probe }) }
        } else {
            Round { weak, course: Course::Rest }
        }
    }

    /// Where to go, and whether that is a move to a better access point that has stayed in view
    /// for long enough.
    pub fn pick(
        &mut self,
        s: Search,
        scans: &[ScanAp],
        ssid: &str,
        cur_bssid: &str,
        f: &LinkFacts,
        margin_db: i32,
        hold_secs: u64,
        home: &[HomeAp],
        now: u128,
    ) -> (r: (Option<ScanAp>, bool))
        requires
            s.probe ==> i32::MIN <= f.rssi + margin_db <= i32::MAX,
            !s.probe ==> f.in_range(),
        ensures
            ({
                let better = elsewhere(
                    best_target(
                        aps(scans@),
                        ssid@,
                        f.prefer_5,
                        (f.rssi + margin_db) as i32,
                        homes(home@),
                    ),
                    cur_bssid@,
                );
                let key = match better {
                    Some(a) => Some(lower_case(a.bssid)),
                    None => None,
                };
                let n = next_pending(old(self)@.roam_pending, key, hold_secs, now);
                if s.probe {
                    &&& final(self)@ == (SchedulerModel { roam_pending: n.0, ..old(self)@ })
                    &&& r.1 == n.1
                    &&& opt_ap(r.0) == (if n.1 {
                        better
                    } else {
                        None
                    })
                } else {
                    &&& final(self)@ == (SchedulerModel { roam_pending: None, ..old(self)@ })
                    &&& !r.1
                    &&& opt_ap(r.0) == target(
                        s.hint,
                        s.rescue,
                        aps(scans@),
                        ssid@,
                        cur_bssid@,
                        *f,
                        homes(home@),
                    )
                }
            }),
    {
        if s.probe {
            let better = better_on_preferred(
                scans,
                ssid,
                cur_bssid,
                f.prefer_5,
                f.rssi,
                margin_db,
                home,
            );
            let fire = self.roam_step(better.as_ref(), hold_secs, now);
            if fire {
                (better, true)
            } else {
                (None, false)
            }
        } else {
            self.forget_roam();
            (choose_target(s.hint, s.rescue, scans, ssid, cur_bssid, f, home), false)
        }
    }
}

/// With the screen off or just come on, while paused, while the user's choice is protected or
/// during a retreat nothing is switched, and the state machine does not move.
pub proof fn law_round_waits(
    m: SchedulerModel,
    sm: MachineModel,
    t: Tick,
    c: ConfigModel,
    wpa_state: Seq<char>,
    points: i32,
    now: u128,
)
    requires
        t.screen_off || t.in_grace || c.mode == "pause"@ || t.hold_rem > 0
            || is_ahead(m.backoff_until, now),
    ensures
        round_of(m, sm, t, c, wpa_state, points, now).1 == sm,
        round_of(m, sm, t, c, wpa_state, points, now).2 == (Round {
            weak: WeakStep::Nothing,
            course: Course::Wait,
        }),
{
}

/// A link outside the home group is neither switched nor dropped, unless the rescue of weak links
/// is allowed there.
pub proof fn law_strangers_are_left_alone(
    m: SchedulerModel,
    sm: MachineModel,
    t: Tick,
    c: ConfigModel,
    wpa_state: Seq<char>,
    points: i32,
    now: u128,
)
    requires
        c.home_aps.len() > 0,
        !t.in_home,
        !c.allow_weak_off_home,
    ensures
        round_of(m, sm, t, c, wpa_state, points, now).1 == sm,
        round_of(m, sm, t, c, wpa_state, points, now).2.course == Course::Wait || round_of(
            m,
            sm,
            t,
            c,
            wpa_state,
            points,
            now,
        ).2.course == Course::Away,
{
}

/// Where the rescue of weak links is allowed outside the home group, it is all that is done there,
/// and it is owed to every link that has been weak for long enough.
pub proof fn law_strangers_are_rescued_where_allowed(
    m: SchedulerModel,
    sm: MachineModel,
    t: Tick,
    c: ConfigModel,
    wpa_state: Seq<char>,
    points: i32,
    now: u128,
)
    requires
        c.home_aps.len() > 0,
        !t.in_home,
        c.allow_weak_off_home,
    ensures
        round_of(m, sm, t, c, wpa_state, points, now).1 == sm,
        round_of(m, sm, t, c, wpa_state, points, now).2.course matches Course::Seek(s) ==> s == (
        Search { hint: SwitchHint::Stay, rescue: true, probe: false }),
        ({
            &&& may_act(m, t.screen_off, c.mode == "pause"@, t.hold_rem, t.in_grace, now)
            &&& c.weak_action == "disconnect"@ && wpa_state == "COMPLETED"@
            &&& t.rssi < c.rssi_disconnect_dbm
            &&& m.weak_bad_since matches Some(since) && elapsed_between(now, since)
                / 1_000_000_000 >= c.weak_hold_secs
            &&& elapsed_between(now, m.last_scan) >= 8_000_000_000
        }) ==> round_of(m, sm, t, c, wpa_state, points, now).2.course is Seek,
{
}

/// While the access point is locked after a switch, only the rescue of a weak link goes anywhere.
pub proof fn law_lock_admits_only_rescues(
    m: SchedulerModel,
    sm: MachineModel,
    t: Tick,
    c: ConfigModel,
    wpa_state: Seq<char>,
    points: i32,
    now: u128,
)
    requires
        t.lock_rem > 0,
    ensures
        round_of(m, sm, t, c, wpa_state, points, now).2.course matches Course::Seek(s) ==> s.rescue
            && s.hint == SwitchHint::Stay && !s.probe,
{
}

/// The state machine waits for a switch only where one is looked for on its behalf: no round takes
/// what it asks for away from it and leaves it waiting.
pub proof fn law_no_hint_is_lost(
    m: SchedulerModel,
    sm: MachineModel,
    t: Tick,
    c: ConfigModel,
    wpa_state: Seq<char>,
    points: i32,
    now: u128,
)
    requires
        sm.state != State::Switching,
    ensures
        round_of(m, sm, t, c, wpa_state, points, now).1.state == State::Switching ==> (round_of(
            m,
            sm,
            t,
            c,
            wpa_state,
            points,
            now,
        ).2.course matches Course::Seek(s) && s.hint != SwitchHint::Stay),
{
}

/// Links are dropped only where the user has asked for it, only when they are weak, and only
/// where there is nowhere better to go.
pub proof fn law_rescue_comes_before_dropping(
    m: SchedulerModel,
    sm: MachineModel,
    t: Tick,
    c: ConfigModel,
    wpa_state: Seq<char>,
    points: i32,
    now: u128,
    goal: Option<ScanApModel>,
    cur: Seq<char>,
)
    ensures
        round_of(m, sm, t, c, wpa_state, points, now).2.course matches Course::Seek(s) ==> (
        move_of(goal, cur, s.rescue) is Drop ==> {
            &&& c.weak_action == "disconnect"@
            &&& t.rssi < c.rssi_disconnect_dbm
            &&& goal is None || same_bssid((goal->0).bssid, cur)
        }),
{
}

/// A target that is not where the link is leads there; where it is, the link stays, unless it was to be
/// rescued: then it is dropped. Without a target a link that was to be rescued is dropped, and any other
/// stays.
pub proof fn law_moves(goal: ScanApModel, cur: Seq<char>)
    ensures
        ascii_lower(goal.bssid) != ascii_lower(cur) ==> move_of(Some(goal), cur, true) == Move::Go
            && move_of(Some(goal), cur, false) == Move::Go,
        ascii_lower(goal.bssid) == ascii_lower(cur) ==> move_of(Some(goal), cur, true) == Move::Drop(
            WeakCause::StillBest,
        ) && move_of(Some(goal), cur, false) == Move::Remain,
        move_of(None, cur, true) == Move::Drop(WeakCause::NoTarget),
        move_of(None, cur, false) == Move::Nowhere,
{
}

/// What is looked for in a round in which something may be done and the link is at home: what the machine
/// asks for, unless the access point is locked; the rescue of a weak link; or, where neither is and nothing
/// is locked, something better on the preferred band where the score is below the line for watching, that is
/// wanted, and there is a home group.
pub proof fn law_what_is_looked_for(
    m: SchedulerModel,
    sm: MachineModel,
    t: Tick,
    c: ConfigModel,
    wpa_state: Seq<char>,
    points: i32,
    now: u128,
    switch_at: i32,
    detect_at: i32,
)
    requires
        c.score_switch_threshold.rank == Rank::At(switch_at),
        c.score_detect_threshold.rank == Rank::At(detect_at),
        !t.screen_off,
        c.mode != "pause"@,
        t.hold_rem == 0,
        !t.in_grace,
        m.backoff_until matches Some(u) ==> u <= now,
        c.home_aps.len() == 0 || t.in_home,
    ensures
        ({
            let (n, after, r) = round_of(m, sm, t, c, wpa_state, points, now);
            let on_pref = t.freq is Some && ((t.freq->0 > 5000) == prefers_5(c));
            let asked = step(sm, points, Rank::At(switch_at), Rank::At(detect_at), on_pref, now);
            let hint = if t.lock_rem > 0 {
                SwitchHint::Stay
            } else {
                asked.1
            };
            &&& t.lock_rem > 0 ==> after == sm
            &&& t.lock_rem == 0 ==> after == asked.0
            &&& r.course matches Course::Seek(s) ==> {
                &&& s.hint == hint
                &&& s.probe <==> c.roam_enable && on_pref && points < detect_at && c.home_aps.len() > 0
                    && t.lock_rem == 0 && hint == SwitchHint::Stay && !s.rescue
                &&& s.rescue ==> c.weak_action == "disconnect"@ && wpa_state == "COMPLETED"@ && t.rssi
                    < c.rssi_disconnect_dbm
                &&& s.hint != SwitchHint::Stay || s.rescue || s.probe
            }
            &&& r.course is Rest ==> hint == SwitchHint::Stay && !(c.roam_enable && on_pref && points
                < detect_at && c.home_aps.len() > 0 && t.lock_rem == 0)
            &&& r.course is Rest || r.course is Seek
        }),
{
}

} // verus!
