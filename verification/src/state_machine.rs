//! When to leave the preferred band and when to go back to it: debouncing, and the pause after
//! a switch that failed.

use crate::clock::{after_secs, elapsed, elapsed_between, is_clock, secs, CLOCK_MAX};
use crate::order::{ints, law_order_is_stable, order_desc, order_of};
use crate::score::Rank;
use std::collections::VecDeque;
use vstd::prelude::*;
use vstd::string::*;

verus! {

/// What the daemon is doing.
#[derive(Clone, Copy, Debug, PartialEq, Eq, Structural)]
pub enum State {
    Idle,
    GradientDetect,
    Switching,
    Penalty,
    Frozen,
}

/// What is to be tried.
#[derive(Clone, Copy, Debug, PartialEq, Eq, Structural)]
pub enum SwitchHint {
    Stay,
    Downswitch,
    Upswitch,
    /// A better access point on the preferred band.
    SameBandRoam,
}

/// A pause after a switch that failed.
#[derive(Debug)]
pub struct PenaltyLock {
    pub bond_id: String,
    pub until: u128,
    pub cooldown_secs: u64,
}

/// What a `PenaltyLock` holds.
#[verifier::ext_equal]
pub struct PenaltyModel {
    pub bond_id: Seq<char>,
    pub until: int,
    pub cooldown_secs: int,
}

impl View for PenaltyLock {
    type V = PenaltyModel;

    open spec fn view(&self) -> PenaltyModel {
        PenaltyModel {
            bond_id: self.bond_id@,
            until: self.until as int,
            cooldown_secs: self.cooldown_secs as int,
        }
    }
}

/// The pause after another failure: twice as long, 300 seconds at most.
pub open spec fn doubled_cooldown(prev: int) -> int {
    if prev * 2 < 300 {
        prev * 2
    } else {
        300
    }
}

impl PenaltyLock {
    /// A pause that begins now.
    pub fn new(bond_id: &str, cooldown_secs: u64, now: u128) -> (r: Self)
        requires
            is_clock(now),
        ensures
            r@ == (PenaltyModel {
                bond_id: bond_id@,
                until: now + cooldown_secs * 1_000_000_000,
                cooldown_secs: cooldown_secs as int,
            }),
    {
        PenaltyLock {
            bond_id: bond_id.to_owned(),
            until: after_secs(now, cooldown_secs),
            cooldown_secs,
        }
    }

    /// Whether the pause is not over.
    pub fn active(&self, now: u128) -> (r: bool)
        ensures
            r == (now < self@.until),
    {
        now < self.until
    }

    /// The length of the pause after another failure.
    pub fn next_cooldown(prev: u64) -> (r: u64)
        requires
            prev * 2 <= u64::MAX,
        ensures
            r == doubled_cooldown(prev as int),
    {
        let next: u64 = prev * 2;
        if next < 300 {
            next
        } else {
            300
        }
    }
}

/// A window of samples that must stay bad for some time before they count. Samples are ranks of
/// scores.
#[derive(Debug)]
pub struct Debouncer {
    window: VecDeque<i32>,
    capacity: usize,
    started: Option<u128>,
    need: u128,
}

/// What a `Debouncer` holds. Times are in nanoseconds.
#[verifier::ext_equal]
pub struct DebouncerModel {
    pub window: Seq<i32>,
    pub capacity: int,
    pub started: Option<u128>,
    pub need: int,
}

impl View for Debouncer {
    type V = DebouncerModel;

    closed spec fn view(&self) -> DebouncerModel {
        DebouncerModel {
            window: self.window@,
            capacity: self.capacity as int,
            started: self.started,
            need: self.need as int,
        }
    }
}

impl DebouncerModel {
    /// There is room for samples, and no more samples than there is room for.
    pub open spec fn well_formed(self) -> bool {
        1 <= self.capacity < usize::MAX && self.window.len() <= self.capacity
    }

    /// With no samples.
    pub open spec fn cleared(self) -> DebouncerModel {
        DebouncerModel { window: seq![], started: None, ..self }
    }

    /// With another length of time to wait: at least a second.
    pub open spec fn with_need_secs(self, secs: int) -> DebouncerModel {
        DebouncerModel {
            need: (if secs < 1 {
                1
            } else {
                secs
            }) * 1_000_000_000,
            ..self
        }
    }

    /// With one more sample; the oldest gives way where there is no room. The first sample
    /// starts the time.
    pub open spec fn pushed(self, sample: i32, now: u128) -> DebouncerModel {
        let w = self.window.push(sample);
        DebouncerModel {
            window: if w.len() > self.capacity {
                w.skip(w.len() - self.capacity)
            } else {
                w
            },
            started: match self.started {
                Some(t) => Some(t),
                None => Some(now),
            },
            ..self
        }
    }

    /// Whether the time is over and there are at least three samples.
    pub open spec fn is_due(self, now: u128) -> bool {
        &&& self.started matches Some(t)
        &&& elapsed_between(now, t) >= self.need
        &&& self.window.len() >= 3
    }
}

/// The sample in the middle when they are sorted; of an even number the higher of the two.
pub open spec fn median(w: Seq<i32>) -> i32 {
    w[order_of(ints(w), w.len())[w.len() - 1 - w.len() as int / 2]]
}

/// Where the median is below a threshold, more than half of the samples are: a single outlier
/// does not decide.
pub proof fn law_median_speaks_for_most(w: Seq<i32>, t: int)
    requires
        w.len() > 0,
        median(w) < t,
    ensures
        Set::new(|i: int| 0 <= i < w.len() && w[i] < t).finite(),
        Set::new(|i: int| 0 <= i < w.len() && w[i] < t).len() > w.len() as int / 2,
{
    let n = w.len() as int;
    let k = ints(w);
    let o = order_of(k, w.len());
    law_order_is_stable(k, w.len());
    let from = n - 1 - n / 2;
    let tail = o.skip(from);
    let below = Set::new(|i: int| 0 <= i < w.len() && w[i] < t);
    let all = vstd::set_lib::set_int_range(0, n);
    vstd::set_lib::lemma_int_range(0, n);
    assert(below.subset_of(all));
    vstd::set_lib::lemma_len_subset(below, all);
    assert forall|a: int, b: int| 0 <= a < tail.len() && 0 <= b < tail.len() && a != b implies
        tail[a] != tail[b] by {
        assert(tail[a] == o[from + a] && tail[b] == o[from + b]);
    }
    tail.unique_seq_to_set();
    assert forall|i: int| tail.to_set().contains(i) implies below.contains(i) by {
        let a = choose|a: int| 0 <= a < tail.len() && tail[a] == i;
        assert(tail[a] == o[from + a]);
        let m = o[from];
        assert(k[m] == w[m]);
        assert(k[i] == w[i]);
        if a > 0 {
            assert(k[o[from]] >= k[o[from + a]]);
        }
    }
    vstd::set_lib::lemma_len_subset(tail.to_set(), below);
}

/// Samples that are all below a threshold have a median below it.
pub proof fn law_median_of_samples_below(w: Seq<i32>, t: int)
    requires
        w.len() > 0,
        forall|i: int| 0 <= i < w.len() ==> #[trigger] w[i] < t,
    ensures
        median(w) < t,
{
    law_order_is_stable(ints(w), w.len());
    let m = order_of(ints(w), w.len())[w.len() - 1 - w.len() as int / 2];
    assert(w[m] < t);
}

impl Debouncer {
    /// For leaving the preferred band: five samples, four seconds.
    pub fn downswitch() -> (r: Self)
        ensures
            r@ == (DebouncerModel {
                window: seq![],
                capacity: 5,
                started: None,
                need: 4_000_000_000,
            }),
    {
        Debouncer { window: VecDeque::new(), capacity: 5, started: None, need: secs(4) }
    }

    /// For going back to the preferred band: eight samples, seven seconds.
    pub fn upswitch() -> (r: Self)
        ensures
            r@ == (DebouncerModel {
                window: seq![],
                capacity: 8,
                started: None,
                need: 7_000_000_000,
            }),
    {
        Debouncer { window: VecDeque::new(), capacity: 8, started: None, need: secs(7) }
    }

    /// Sets how long samples must stay bad: at least a second.
    pub fn set_need_secs(&mut self, n: u64)
        ensures
            final(self)@ == old(self)@.with_need_secs(n as int),
    {
        self.need = secs(
            if n < 1 {
                1
            } else {
                n
            },
        );
    }

    /// Forgets the samples.
    pub fn reset(&mut self)
        ensures
            final(self)@ == old(self)@.cleared(),
    {
        self.window.clear();
        self.started = None;
    }

    /// Takes a sample. True where the samples have been coming for long enough and their median
    /// is still bad.
    pub fn push_and_ready<F: Fn(i32) -> bool>(&mut self, sample: i32, still_bad: F, now: u128) -> (r:
        bool)
        requires
            old(self)@.well_formed(),
            forall|m: i32| call_requires(still_bad, (m,)),
        ensures
            final(self)@ == old(self)@.pushed(sample, now),
            final(self)@.well_formed(),
            !final(self)@.is_due(now) ==> !r,
            final(self)@.is_due(now) ==> call_ensures(still_bad, (median(final(self)@.window),), r),
    {
        if self.started.is_none() {
            self.started = Some(now);
        }
        self.window.push_back(sample);
        if self.window.len() > self.capacity {
            let ghost w = self.window@;
            self.window.pop_front();
            assert(self.window@ == w.skip(w.len() - self.capacity));
        }
        let since = match self.started {
            Some(t) => elapsed(now, t),
            None => 0,
        };
        if since < self.need || self.window.len() < 3 {
            return false;
        }
        let mut v: Vec<i32> = Vec::new();
        let mut i: usize = 0;
        while i < self.window.len()
            invariant
                i <= self.window@.len(),
                v@ == self.window@.take(i as int),
            decreases self.window@.len() - i,
        {
            v.push(self.window[i]);
            i = i + 1;
            assert(v@ == self.window@.take(i as int));
        }
        assert(v@ == self.window@);
        let o = order_desc(&v);
        let at: usize = v.len() - 1 - v.len() / 2;
        let ghost om = order_of(ints(v@), v@.len());
        assert(om[at as int] == o@[at as int]);
        let mid = v[o[at]];
        still_bad(mid)
    }
}

/// The machine that decides when to switch.
#[derive(Debug)]
pub struct StateMachine {
    pub state: State,
    pub penalty: Option<PenaltyLock>,
    down_deb: Debouncer,
    up_deb: Debouncer,
    up_base: u64,
    /// When the other band was last looked at from outside the preferred one.
    pub last_peer_probe: Option<u128>,
}

/// What a `StateMachine` holds.
#[verifier::ext_equal]
pub struct MachineModel {
    pub state: State,
    pub penalty: Option<PenaltyModel>,
    pub down: DebouncerModel,
    pub up: DebouncerModel,
    /// Seconds that the way back to the preferred band waits where the link is not healthy.
    pub up_base: int,
    pub last_peer_probe: Option<u128>,
}

impl View for StateMachine {
    type V = MachineModel;

    closed spec fn view(&self) -> MachineModel {
        MachineModel {
            state: self.state,
            penalty: match self.penalty {
                Some(p) => Some(p@),
                None => None,
            },
            down: self.down_deb@,
            up: self.up_deb@,
            up_base: self.up_base as int,
            last_peer_probe: self.last_peer_probe,
        }
    }
}

impl MachineModel {
    /// The windows are in order, and the pause is one that can be doubled.
    pub open spec fn well_formed(self) -> bool {
        &&& self.down.well_formed()
        &&& self.up.well_formed()
        &&& self.penalty matches Some(p) ==> 0 <= p.cooldown_secs && p.cooldown_secs * 2
            <= u64::MAX
    }

    /// Whether there is a pause that is not over.
    pub open spec fn is_in_penalty(self, now: u128) -> bool {
        self.penalty matches Some(p) && now < p.until
    }

    /// With a pause that is over forgotten.
    pub open spec fn without_due_penalty(self, now: u128) -> MachineModel {
        if self.penalty is Some && !self.is_in_penalty(now) {
            MachineModel { penalty: None, state: State::Idle, ..self }
        } else {
            self
        }
    }

    /// Idle, with no samples; a pause stays.
    pub open spec fn at_rest(self) -> MachineModel {
        MachineModel {
            state: State::Idle,
            down: self.down.cleared(),
            up: self.up.cleared(),
            ..self
        }
    }
}

/// The machine after a score on the preferred band, and what is to be tried: below `switch_th`
/// samples are collected until the link is left; from there up to `detect_th` the link is
/// watched; above it is at rest.
pub open spec fn step_on_preferred(
    m: MachineModel,
    score: i32,
    switch_th: Rank,
    detect_th: Rank,
    now: u128,
) -> (MachineModel, SwitchHint) {
    let n = MachineModel { up: m.up.cleared(), ..m };
    if Rank::At(score).lt(switch_th) {
        let d = n.down.pushed(score, now);
        if d.is_due(now) && Rank::At(median(d.window)).lt(switch_th) {
            (
                MachineModel { state: State::Switching, down: d.cleared(), ..n },
                SwitchHint::Downswitch,
            )
        } else {
            (MachineModel { state: State::GradientDetect, down: d, ..n }, SwitchHint::Stay)
        }
    } else if Rank::At(score).lt(detect_th) {
        (
            MachineModel { state: State::GradientDetect, down: n.down.cleared(), ..n },
            SwitchHint::Stay,
        )
    } else {
        (MachineModel { state: State::Idle, down: n.down.cleared(), ..n }, SwitchHint::Stay)
    }
}

/// The machine after a score off the preferred band, and what is to be tried: the way back is
/// tried after the time that is set, or after 25 seconds where the link is still healthy.
pub open spec fn step_off_preferred(m: MachineModel, score: i32, detect_th: Rank, now: u128) -> (
    MachineModel,
    SwitchHint,
) {
    let need = if Rank::At(score).ge(detect_th) {
        25
    } else {
        m.up_base
    };
    let u = m.up.with_need_secs(need).pushed(score, now);
    let n = MachineModel { down: m.down.cleared(), ..m };
    if u.is_due(now) {
        (MachineModel { state: State::Switching, up: u.cleared(), ..n }, SwitchHint::Upswitch)
    } else {
        (MachineModel { state: State::GradientDetect, up: u, ..n }, SwitchHint::Stay)
    }
}

/// The machine after a score, and what is to be tried. Nothing is tried during a pause or while
/// a switch is under way.
pub open spec fn step(
    before: MachineModel,
    score: i32,
    switch_th: Rank,
    detect_th: Rank,
    on_preferred_band: bool,
    now: u128,
) -> (MachineModel, SwitchHint) {
    let m = before.without_due_penalty(now);
    if m.is_in_penalty(now) {
        (MachineModel { state: State::Penalty, ..m }, SwitchHint::Stay)
    } else if m.state == State::Switching {
        (m, SwitchHint::Stay)
    } else if on_preferred_band {
        step_on_preferred(m, score, switch_th, detect_th, now)
    } else {
        step_off_preferred(m, score, detect_th, now)
    }
}

/// The machine at the beginning of a pause: of 30 seconds, or of twice the last one where that is
/// not forgotten.
pub open spec fn penalised(m: MachineModel, bond_id: Seq<char>, now: u128) -> MachineModel {
    let cool = match m.penalty {
        Some(p) => doubled_cooldown(p.cooldown_secs),
        None => 30,
    };
    MachineModel {
        state: State::Penalty,
        penalty: Some(
            PenaltyModel { bond_id, until: now + cool * 1_000_000_000, cooldown_secs: cool },
        ),
        ..m.at_rest()
    }
}

/// The machine with its pause, where there is one, made one of so many seconds that begins now.
pub open spec fn with_pause_of(m: MachineModel, cooldown_secs: u64, now: u128) -> MachineModel {
    MachineModel {
        penalty: match m.penalty {
            Some(p) => Some(
                PenaltyModel {
                    bond_id: p.bond_id,
                    until: now + cooldown_secs * 1_000_000_000,
                    cooldown_secs: cooldown_secs as int,
                },
            ),
            None => None,
        },
        ..m
    }
}

impl StateMachine {
    /// A machine at rest.
    pub fn new() -> (r: Self)
        ensures
            r@ == (MachineModel {
                state: State::Idle,
                penalty: None,
                down: DebouncerModel {
                    window: seq![],
                    capacity: 5,
                    started: None,
                    need: 4_000_000_000,
                },
                up: DebouncerModel {
                    window: seq![],
                    capacity: 8,
                    started: None,
                    need: 7_000_000_000,
                },
                up_base: 7,
                last_peer_probe: None,
            }),
            r@.well_formed(),
    {
        StateMachine {
            state: State::Idle,
            penalty: None,
            down_deb: Debouncer::downswitch(),
            up_deb: Debouncer::upswitch(),
            up_base: 7,
            last_peer_probe: None,
        }
    }

    /// What the machine is doing.
    pub fn current(&self) -> (r: State)
        ensures
            r == self@.state,
    {
        self.state
    }

    /// Whether there is a pause that is not over.
    pub fn in_penalty(&self, now: u128) -> (r: bool)
        ensures
            r == self@.is_in_penalty(now),
    {
        match &self.penalty {
            Some(p) => p.active(now),
            None => false,
        }
    }

    /// Whole seconds that are left of a pause.
    pub fn penalty_remaining_secs(&self, now: u128) -> (r: u64)
        requires
            self@.penalty matches Some(p) ==> p.until <= now + CLOCK_MAX,
        ensures
            r == (if self@.is_in_penalty(now) {
                (self@.penalty->0.until - now) / 1_000_000_000
            } else {
                0
            }),
    {
        match &self.penalty {
            Some(p) => if p.active(now) {
                let left: u128 = p.until - now;
                (left / 1_000_000_000) as u64
            } else {
                0
            },
            None => 0,
        }
    }

    /// Sets the debouncing: 7 and 12 seconds to save power, else 4 and 7.
    pub fn apply_eco(&mut self, eco: bool)
        ensures
            final(self)@ == (MachineModel {
                down: old(self)@.down.with_need_secs(
                    if eco {
                        7
                    } else {
                        4
                    },
                ),
                up: old(self)@.up.with_need_secs(
                    if eco {
                        12
                    } else {
                        7
                    },
                ),
                up_base: if eco {
                    12
                } else {
                    7
                },
                ..old(self)@
            }),
    {
        self.up_base = if eco {
            12
        } else {
            7
        };
        self.down_deb.set_need_secs(
            if eco {
                7
            } else {
                4
            },
        );
        self.up_deb.set_need_secs(self.up_base);
    }

    /// Begins a pause: 30 seconds, or twice the last one where that is not forgotten.
    pub fn enter_penalty(&mut self, bond_id: &str, now: u128)
        requires
            old(self)@.well_formed(),
            is_clock(now),
        ensures
            final(self)@.well_formed(),
            final(self)@ == penalised(old(self)@, bond_id@, now),
    {
        let cool: u64 = match &self.penalty {
            Some(p) => PenaltyLock::next_cooldown(p.cooldown_secs),
            None => 30,
        };
        self.penalty = Some(PenaltyLock::new(bond_id, cool, now));
        self.state = State::Penalty;
        self.down_deb.reset();
        self.up_deb.reset();
    }

    /// Makes the pause a short one that begins now, where there is one.
    pub fn shorten_penalty(&mut self, cooldown_secs: u64, now: u128)
        requires
            is_clock(now),
        ensures
            final(self)@ == with_pause_of(old(self)@, cooldown_secs, now),
    {
        let id = match &self.penalty {
            Some(p) => p.bond_id.clone(),
            None => {
                return ;
            },
        };
        self.penalty = Some(PenaltyLock::new(id.as_str(), cooldown_secs, now));
    }

    /// Forgets a pause that is over.
    pub fn clear_penalty_if_due(&mut self, now: u128)
        ensures
            final(self)@ == old(self)@.without_due_penalty(now),
    {
        let due = match &self.penalty {
            Some(p) => !p.active(now),
            None => false,
        };
        if due {
            self.penalty = None;
            self.state = State::Idle;
        }
    }

    /// Takes a score, and says what is to be tried.
    ///
    /// 1. On the preferred band a score that stays below `switch_th` leads away from it.
    /// 2. Off the preferred band the way back is tried whatever the score; the signal of the
    ///    other side is for the caller to judge.
    /// 3. On the preferred band a score from `switch_th` up to `detect_th` is only watched.
    pub fn on_score(
        &mut self,
        score: i32,
        switch_th: Rank,
        detect_th: Rank,
        on_preferred_band: bool,
        now: u128,
    ) -> (r: SwitchHint)
        requires
            old(self)@.well_formed(),
        ensures
            final(self)@.well_formed(),
            (final(self)@, r) == step(
                old(self)@,
                score,
                switch_th,
                detect_th,
                on_preferred_band,
                now,
            ),
    {
        self.clear_penalty_if_due(now);
        if self.in_penalty(now) {
            self.state = State::Penalty;
            return SwitchHint::Stay;
        }
        if self.state == State::Switching {
            return SwitchHint::Stay;
        }
        if on_preferred_band {
            self.up_deb.reset();
            if Rank::At(score).below(switch_th) {
                self.state = State::GradientDetect;
                let bad = |m: i32| -> (b: bool)
                    ensures
                        b == Rank::At(m).lt(switch_th),
                    { Rank::At(m).below(switch_th) };
                if self.down_deb.push_and_ready(score, bad, now) {
                    self.down_deb.reset();
                    self.state = State::Switching;
                    return SwitchHint::Downswitch;
                }
                return SwitchHint::Stay;
            }
            self.down_deb.reset();
            if Rank::At(score).below(detect_th) {
                self.state = State::GradientDetect;
                return SwitchHint::Stay;
            }
            self.state = State::Idle;
            return SwitchHint::Stay;
        }
        self.down_deb.reset();
        self.state = State::GradientDetect;
        let up_need: u64 = if Rank::At(score).at_least(detect_th) {
            25
        } else {
            self.up_base
        };
        self.up_deb.set_need_secs(up_need);
        let bad = |m: i32| -> (b: bool)
            ensures
                b,
            { true };
        if self.up_deb.push_and_ready(score, bad, now) {
            self.up_deb.reset();
            self.state = State::Switching;
            return SwitchHint::Upswitch;
        }
        SwitchHint::Stay
    }

    /// A switch has succeeded.
    pub fn finish_switch_ok(&mut self)
        ensures
            final(self)@ == old(self)@.at_rest(),
    {
        self.state = State::Idle;
        self.down_deb.reset();
        self.up_deb.reset();
    }

    /// The user has switched by hand, or something else has come between: back to rest, with no
    /// samples. A pause stays.
    pub fn reset_soft(&mut self)
        ensures
            final(self)@ == old(self)@.at_rest(),
    {
        self.state = State::Idle;
        self.down_deb.reset();
        self.up_deb.reset();
    }
}

/// During a pause nothing is tried, whatever the score.
pub proof fn law_penalty_blocks(
    m: MachineModel,
    score: i32,
    switch_th: Rank,
    detect_th: Rank,
    on_preferred_band: bool,
    now: u128,
)
    requires
        m.is_in_penalty(now),
    ensures
        step(m, score, switch_th, detect_th, on_preferred_band, now).1 == SwitchHint::Stay,
        step(m, score, switch_th, detect_th, on_preferred_band, now).0.state == State::Penalty,
{
}

/// The preferred band is left only for a score below `switch_th` that has stayed there: samples
/// have come for at least the time set, there are three of them or more, and their median is
/// below too. It is never gone back to from itself, and never left from elsewhere. The way back
/// waits for the time that is set, and for 25 seconds where the link is healthy.
pub proof fn law_switches_are_debounced(
    m: MachineModel,
    score: i32,
    switch_th: Rank,
    detect_th: Rank,
    on_preferred_band: bool,
    now: u128,
)
    ensures
        step(m, score, switch_th, detect_th, on_preferred_band, now).1 == SwitchHint::Downswitch
            ==> {
            &&& on_preferred_band
            &&& Rank::At(score).lt(switch_th)
            &&& m.down.pushed(score, now).is_due(now)
            &&& Rank::At(median(m.down.pushed(score, now).window)).lt(switch_th)
        },
        step(m, score, switch_th, detect_th, on_preferred_band, now).1 == SwitchHint::Upswitch ==> {
            &&& !on_preferred_band
            &&& m.up.with_need_secs(
                if Rank::At(score).ge(detect_th) {
                    25
                } else {
                    m.up_base
                },
            ).pushed(score, now).is_due(now)
        },
        step(m, score, switch_th, detect_th, on_preferred_band, now).1 != SwitchHint::SameBandRoam,
{
}

/// While power is saved the way back to the preferred band waits for at least twelve seconds from
/// the first look, whatever the score; a look does not end the saving.
pub proof fn law_saving_power_waits(
    m: MachineModel,
    score: i32,
    switch_th: Rank,
    detect_th: Rank,
    on_preferred_band: bool,
    now: u128,
)
    requires
        m.up_base == 12,
    ensures
        step(m, score, switch_th, detect_th, on_preferred_band, now).1 == SwitchHint::Upswitch ==> (
        m.up.started matches Some(t) && t + 12_000_000_000 <= now),
        step(m, score, switch_th, detect_th, on_preferred_band, now).0.up_base == 12,
{
}

/// A score that is at least `switch_th` never leads away from the preferred band, and wipes out
/// what was collected before.
pub proof fn law_good_score_stays(
    m: MachineModel,
    score: i32,
    switch_th: Rank,
    detect_th: Rank,
    now: u128,
)
    requires
        Rank::At(score).ge(switch_th),
    ensures
        step(m, score, switch_th, detect_th, true, now).1 == SwitchHint::Stay,
        !m.is_in_penalty(now) && m.without_due_penalty(now).state != State::Switching ==> step(
            m,
            score,
            switch_th,
            detect_th,
            true,
            now,
        ).0.down == m.down.cleared(),
{
}

/// A pause that begins while the last one is not forgotten is twice as long as that, up to 300
/// seconds; one that begins after the last was over and forgotten lasts 30 seconds again.
pub proof fn law_pauses_double_until_forgotten(
    m: MachineModel,
    first: Seq<char>,
    second: Seq<char>,
    at: u128,
    then: u128,
)
    ensures
        ({
            let once = penalised(m, first, at);
            let p = once.penalty->0.cooldown_secs;
            let twice = penalised(once, second, then).penalty->0.cooldown_secs;
            let anew = penalised(once.without_due_penalty(then), second, then);
            &&& p <= 300
            &&& twice == (if p * 2 < 300 {
                p * 2
            } else {
                300
            })
            &&& then >= at + p * 1_000_000_000 ==> anew.penalty->0.cooldown_secs == 30
        }),
{
}

/// Where more than half of the samples are below a threshold, their median is.
pub proof fn law_most_samples_decide(w: Seq<i32>, t: int)
    requires
        w.len() > 0,
        Set::new(|i: int| 0 <= i < w.len() && w[i] < t).len() > w.len() as int / 2,
    ensures
        median(w) < t,
{
    let n = w.len() as int;
    let k = ints(w);
    let o = order_of(k, w.len());
    law_order_is_stable(k, w.len());
    let from = n - 1 - n / 2;
    if median(w) >= t {
        let head = o.take(from + 1);
        let below = Set::new(|i: int| 0 <= i < w.len() && w[i] < t);
        let all = vstd::set_lib::set_int_range(0, n);
        vstd::set_lib::lemma_int_range(0, n);
        assert(below.subset_of(all));
        vstd::set_lib::lemma_len_subset(below, all);
        assert forall|a: int, b: int| 0 <= a < head.len() && 0 <= b < head.len() && a != b implies
            head[a] != head[b] by {
            assert(head[a] == o[a] && head[b] == o[b]);
        }
        head.unique_seq_to_set();
        let above = head.to_set();
        assert forall|i: int| above.contains(i) implies all.contains(i) && !below.contains(i) by {
            let a = choose|a: int| 0 <= a < head.len() && head[a] == i;
            assert(head[a] == o[a]);
            assert(k[o[from]] == w[o[from]]);
            assert(k[i] == w[i]);
            if a < from {
                assert(k[o[a]] >= k[o[from]]);
            }
        }
        assert(above.disjoint(below));
        vstd::set_lib::lemma_set_disjoint_lens(above, below);
        assert((above + below).subset_of(all));
        vstd::set_lib::lemma_len_subset(above + below, all);
    }
}

/// On the preferred band a link is left exactly where no pause and no other switch stands against
/// it, its score is below the line, samples have come for the time that is set, there are three of
/// them or more, and more than half of those that are kept are below the line.
pub proof fn law_bad_link_is_left(
    m: MachineModel,
    score: i32,
    switch_at: i32,
    detect_th: Rank,
    now: u128,
)
    requires
        m.down.capacity >= 1,
        m.down.need > 0,
    ensures
        ({
            let seen = m.down.window.push(score);
            let from = if seen.len() > m.down.capacity {
                seen.len() - m.down.capacity
            } else {
                0
            };
            step(m, score, Rank::At(switch_at), detect_th, true, now).1 == SwitchHint::Downswitch
                <==> {
                &&& m.penalty matches Some(p) ==> p.until <= now
                &&& m.penalty is None ==> m.state != State::Switching
                &&& score < switch_at
                &&& m.down.started matches Some(t)
                &&& t + m.down.need <= now
                &&& seen.len() - from >= 3
                &&& Set::new(|i: int| from <= i < seen.len() && seen[i] < switch_at).len() > (
                seen.len() - from) / 2
            }
        }),
{
    let seen = m.down.window.push(score);
    let from = if seen.len() > m.down.capacity {
        seen.len() - m.down.capacity
    } else {
        0
    };
    let w = m.down.pushed(score, now).window;
    assert(w == seen.skip(from));
    let a = Set::new(|i: int| from <= i < seen.len() && seen[i] < switch_at);
    let b = Set::new(|i: int| 0 <= i < w.len() && w[i] < switch_at);
    let all = vstd::set_lib::set_int_range(0, w.len() as int);
    vstd::set_lib::lemma_int_range(0, w.len() as int);
    assert(b.subset_of(all));
    vstd::set_lib::lemma_len_subset(b, all);
    let shift = |i: int| i + from;
    assert(b.map(shift) == a) by {
        assert forall|i: int| a.contains(i) implies b.map(shift).contains(i) by {
            assert(w[i - from] == seen[i]);
            assert(b.contains(i - from) && shift(i - from) == i);
        }
        assert forall|i: int| b.map(shift).contains(i) implies a.contains(i) by {
            let j = choose|j: int| b.contains(j) && shift(j) == i;
            assert(w[j] == seen[j + from]);
        }
    }
    assert(vstd::relations::injective(shift));
    vstd::set_lib::lemma_map_size(b, a, shift);
    if median(w) < switch_at {
        law_median_speaks_for_most(w, switch_at as int);
    }
    if b.len() > w.len() as int / 2 {
        law_most_samples_decide(w, switch_at as int);
    }
}

/// Off the preferred band the way back is tried exactly where no pause and no other switch stands
/// against it, and there are three looks or more over the time that is set, or over 25 seconds
/// where the link is healthy.
pub proof fn law_preferred_band_is_gone_back_to(
    m: MachineModel,
    score: i32,
    switch_th: Rank,
    detect_at: i32,
    now: u128,
)
    requires
        m.up.capacity >= 3,
    ensures
        ({
            let wait: int = if score >= detect_at {
                25
            } else if m.up_base < 1 {
                1
            } else {
                m.up_base
            };
            step(m, score, switch_th, Rank::At(detect_at), false, now).1 == SwitchHint::Upswitch
                <==> {
                &&& m.penalty matches Some(p) ==> p.until <= now
                &&& m.penalty is None ==> m.state != State::Switching
                &&& m.up.started matches Some(t)
                &&& t + wait * 1_000_000_000 <= now
                &&& m.up.window.len() >= 2
            }
        }),
{
}

/// What the machine is doing after a look: it pauses where a pause is not over, goes on switching
/// where it was, begins to where that is asked for, and else watches a link that is off the
/// preferred band or below the line for it. A look that asks for nothing leaves what is set alone.
pub proof fn law_state_after_a_look(
    m: MachineModel,
    score: i32,
    switch_at: i32,
    detect_at: i32,
    on_preferred_band: bool,
    now: u128,
)
    requires
        switch_at <= detect_at,
    ensures
        ({
            let (n, hint) = step(
                m,
                score,
                Rank::At(switch_at),
                Rank::At(detect_at),
                on_preferred_band,
                now,
            );
            &&& n.state == (if m.penalty is Some && now < m.penalty->0.until {
                State::Penalty
            } else if hint != SwitchHint::Stay || (m.penalty is None && m.state
                == State::Switching) {
                State::Switching
            } else if !on_preferred_band || score < detect_at {
                State::GradientDetect
            } else {
                State::Idle
            })
            &&& n.penalty == (if m.penalty is Some && now < m.penalty->0.until {
                m.penalty
            } else {
                None
            })
            &&& n.up_base == m.up_base && n.last_peer_probe == m.last_peer_probe
            &&& n.down.need == m.down.need && n.down.capacity == m.down.capacity
                && n.up.capacity == m.up.capacity
        }),
{
}

/// The machine after the first `n` looks.
pub open spec fn after_looks(
    m: MachineModel,
    scores: Seq<i32>,
    times: Seq<u128>,
    switch_th: Rank,
    detect_th: Rank,
    on_preferred_band: bool,
    n: nat,
) -> MachineModel
    decreases n,
{
    if n == 0 {
        m
    } else {
        step(
            after_looks(
                m,
                scores,
                times,
                switch_th,
                detect_th,
                on_preferred_band,
                (n - 1) as nat,
            ),
            scores[n - 1],
            switch_th,
            detect_th,
            on_preferred_band,
            times[n - 1],
        ).0
    }
}

/// What a machine at rest holds of a link whose every look was bad and that has not been left.
proof fn lemma_bad_looks_gather(
    m: MachineModel,
    scores: Seq<i32>,
    times: Seq<u128>,
    switch_at: i32,
    detect_th: Rank,
    n: nat,
)
    requires
        m.penalty is None,
        m.down.capacity >= 3,
        m.down.need > 0,
        scores.len() == times.len(),
        n <= scores.len(),
        forall|i: int| 0 <= i < n ==> #[trigger] scores[i] < switch_at,
        forall|i: int| 0 <= i < n ==> times[0] <= #[trigger] times[i],
        forall|i: int| 2 <= i < n ==> #[trigger] times[i] < times[0] + m.down.need,
    ensures
        ({
            let s = after_looks(
                m.at_rest(),
                scores,
                times,
                Rank::At(switch_at),
                detect_th,
                true,
                n,
            );
            &&& s.penalty is None
            &&& s.state != State::Switching
            &&& s.down.capacity == m.down.capacity && s.down.need == m.down.need
            &&& s.down.started == (if n == 0 {
                None
            } else {
                Some(times[0])
            })
            &&& s.down.window.len() == (if n <= m.down.capacity {
                n as int
            } else {
                m.down.capacity
            })
            &&& forall|i: int|
                0 <= i < s.down.window.len() ==> #[trigger] s.down.window[i] < switch_at
        }),
    decreases n,
{
    if n > 0 {
        let k = (n - 1) as nat;
        lemma_bad_looks_gather(m, scores, times, switch_at, detect_th, k);
        let s = after_looks(m.at_rest(), scores, times, Rank::At(switch_at), detect_th, true, k);
        let now = times[n - 1];
        let d = s.down.pushed(scores[n - 1], now);
        let w = s.down.window.push(scores[n - 1]);
        assert forall|i: int| 0 <= i < d.window.len() implies #[trigger] d.window[i]
            < switch_at by {
            let from = w.len() - d.window.len();
            assert(d.window[i] == w[from + i]);
        }
    }
}

/// A link on the preferred band whose every look is below the line is left, and not before: from a
/// machine at rest, at the first look that is the third or a later one and comes when the time that
/// is set has passed since the first.
pub proof fn law_bad_looks_lead_away(
    m: MachineModel,
    scores: Seq<i32>,
    times: Seq<u128>,
    switch_at: i32,
    detect_th: Rank,
    n: nat,
)
    requires
        m.penalty is None,
        m.down.capacity >= 3,
        m.down.need > 0,
        scores.len() == times.len(),
        n < scores.len(),
        forall|i: int| 0 <= i <= n ==> #[trigger] scores[i] < switch_at,
        forall|i: int| 0 <= i <= n ==> times[0] <= #[trigger] times[i],
        forall|i: int| 2 <= i < n ==> #[trigger] times[i] < times[0] + m.down.need,
    ensures
        step(
            after_looks(m.at_rest(), scores, times, Rank::At(switch_at), detect_th, true, n),
            scores[n as int],
            Rank::At(switch_at),
            detect_th,
            true,
            times[n as int],
        ).1 == (if n >= 2 && times[n as int] >= times[0] + m.down.need {
            SwitchHint::Downswitch
        } else {
            SwitchHint::Stay
        }),
{
    lemma_bad_looks_gather(m, scores, times, switch_at, detect_th, n);
    let s = after_looks(m.at_rest(), scores, times, Rank::At(switch_at), detect_th, true, n);
    let d = s.down.pushed(scores[n as int], times[n as int]);
    let w = s.down.window.push(scores[n as int]);
    assert forall|i: int| 0 <= i < d.window.len() implies #[trigger] d.window[i] < switch_at by {
        let from = w.len() - d.window.len();
        assert(d.window[i] == w[from + i]);
    }
    law_median_of_samples_below(d.window, switch_at as int);
}

/// What the debouncing is set to is what is waited for, from its first sample on; what has been
/// gathered before it was set stays.
pub proof fn law_set_time_is_waited_for(d: DebouncerModel, secs: int, sample: i32, now: u128)
    requires
        secs >= 1,
        d.capacity >= 3,
        d.started is Some,
        d.window.len() >= 2,
    ensures
        d.with_need_secs(secs).pushed(sample, now).is_due(now) <==> d.started->0 + secs
            * 1_000_000_000 <= now,
        d.with_need_secs(secs).window == d.window && d.with_need_secs(secs).started == d.started,
{
}

/// What a machine at rest holds of a link that has been off the preferred band for some looks.
proof fn lemma_looks_off_band_gather(
    m: MachineModel,
    scores: Seq<i32>,
    times: Seq<u128>,
    switch_th: Rank,
    detect_at: i32,
    n: nat,
)
    requires
        m.penalty is None,
        m.up.capacity >= 3,
        m.up_base >= 1,
        scores.len() == times.len(),
        n <= scores.len(),
        forall|i: int| 0 <= i < n ==> times[0] <= #[trigger] times[i],
        forall|i: int|
            2 <= i < n ==> #[trigger] times[i] < times[0] + (if scores[i] >= detect_at {
                25
            } else {
                m.up_base
            }) * 1_000_000_000,
    ensures
        ({
            let s = after_looks(
                m.at_rest(),
                scores,
                times,
                switch_th,
                Rank::At(detect_at),
                false,
                n,
            );
            &&& s.penalty is None
            &&& s.state != State::Switching
            &&& s.up.capacity == m.up.capacity && s.up_base == m.up_base
            &&& s.up.started == (if n == 0 {
                None
            } else {
                Some(times[0])
            })
            &&& s.up.window.len() == (if n <= m.up.capacity {
                n as int
            } else {
                m.up.capacity
            })
        }),
    decreases n,
{
    if n > 0 {
        lemma_looks_off_band_gather(m, scores, times, switch_th, detect_at, (n - 1) as nat);
    }
}

/// A link off the preferred band is led back, whatever its scores, and not before: from a machine at
/// rest, at the first look that is the third or a later one and comes when the time that is set has
/// passed since the first, or 25 seconds where the link is healthy.
pub proof fn law_looks_off_band_lead_back(
    m: MachineModel,
    scores: Seq<i32>,
    times: Seq<u128>,
    switch_th: Rank,
    detect_at: i32,
    n: nat,
)
    requires
        m.penalty is None,
        m.up.capacity >= 3,
        m.up_base >= 1,
        scores.len() == times.len(),
        n < scores.len(),
        forall|i: int| 0 <= i <= n ==> times[0] <= #[trigger] times[i],
        forall|i: int|
            2 <= i < n ==> #[trigger] times[i] < times[0] + (if scores[i] >= detect_at {
                25
            } else {
                m.up_base
            }) * 1_000_000_000,
    ensures
        step(
            after_looks(m.at_rest(), scores, times, switch_th, Rank::At(detect_at), false, n),
            scores[n as int],
            switch_th,
            Rank::At(detect_at),
            false,
            times[n as int],
        ).1 == (if n >= 2 && times[n as int] >= times[0] + (if scores[n as int] >= detect_at {
            25
        } else {
            m.up_base
        }) * 1_000_000_000 {
            SwitchHint::Upswitch
        } else {
            SwitchHint::Stay
        }),
{
    lemma_looks_off_band_gather(m, scores, times, switch_th, detect_at, n);
}

/// A pause that begins now stands against every switch until its seconds have passed, and no longer:
/// from then on a look finds the machine as if it were at rest with no pause.
pub proof fn law_pause_lasts_its_seconds(
    m: MachineModel,
    bond_id: Seq<char>,
    at: u128,
    score: i32,
    switch_th: Rank,
    detect_th: Rank,
    on_preferred_band: bool,
    now: u128,
)
    ensures
        ({
            let p = penalised(m, bond_id, at);
            let rested = MachineModel {
                state: State::Idle,
                penalty: None,
                down: DebouncerModel { window: seq![], started: None, ..m.down },
                up: DebouncerModel { window: seq![], started: None, ..m.up },
                ..m
            };
            &&& p.penalty matches Some(q) && q.bond_id == bond_id && q.until == at
                + q.cooldown_secs * 1_000_000_000
            &&& m.penalty is None ==> p.penalty->0.cooldown_secs == 30
            &&& now < p.penalty->0.until ==> step(
                p,
                score,
                switch_th,
                detect_th,
                on_preferred_band,
                now,
            ) == (p, SwitchHint::Stay)
            &&& now >= p.penalty->0.until ==> step(
                p,
                score,
                switch_th,
                detect_th,
                on_preferred_band,
                now,
            ) == step(rested, score, switch_th, detect_th, on_preferred_band, now)
        }),
{
    let p = penalised(m, bond_id, at);
    let rested = MachineModel {
        state: State::Idle,
        penalty: None,
        down: DebouncerModel { window: seq![], started: None, ..m.down },
        up: DebouncerModel { window: seq![], started: None, ..m.up },
        ..m
    };
    assert(p.without_due_penalty(now).down == rested.down);
    if now >= p.penalty->0.until {
        assert(p.without_due_penalty(now) == rested);
    }
}

/// A shortened pause lasts the seconds that are given from now on; without a pause there is none.
pub proof fn law_shortened_pause(m: MachineModel, secs: u64, at: u128, now: u128)
    ensures
        with_pause_of(m, secs, at).is_in_penalty(now) <==> m.penalty is Some && now < at + secs
            * 1_000_000_000,
        with_pause_of(m, secs, at).state == m.state,
        m.penalty matches Some(p) ==> with_pause_of(m, secs, at).penalty->0.bond_id == p.bond_id,
{
}

} // verus!
