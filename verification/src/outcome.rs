//! What becomes of the machine and of what is remembered when a search or a switch is over.

use crate::clock::is_clock;
use crate::round::Move;
use crate::scheduler::{
    is_mendable, is_user_mendable, next_streak, retreat, switch_failed, switched, weak_dropped,
    Scheduler, SchedulerModel, SwitchPlan, WeakCause,
};
use crate::state_machine::{penalised, with_pause_of, MachineModel, State, StateMachine};
use crate::text::has_sub;
use vstd::prelude::*;
use vstd::string::*;

verus! {

/// How a switch has ended.
#[derive(Debug)]
pub enum Outcome {
    /// The link stands at its target.
    Landed,
    /// The switch was taken up, and the link has not come to its target.
    NotLanded,
    /// The switch was refused, with that message.
    Refused(String),
}

/// What follows a switch.
#[derive(Clone, Copy, Debug, PartialEq, Eq)]
pub struct Aftermath {
    /// How often the switch has failed in a row, and for how many seconds nothing is tried.
    pub retreat: Option<(u32, u64)>,
    /// Why the link is to be dropped, where it is.
    pub drop: Option<WeakCause>,
}

/// The machine after a switch: at rest, or in a pause, which is a short one of fifteen seconds
/// where the user can mend what was refused.
pub open spec fn machine_after(
    sm: MachineModel,
    bond_key: Seq<char>,
    o: Outcome,
    now: u128,
) -> MachineModel {
    match o {
        Outcome::Landed => sm.at_rest(),
        Outcome::NotLanded => penalised(sm, bond_key, now),
        Outcome::Refused(msg) => if is_mendable(msg@) {
            with_pause_of(penalised(sm, bond_key, now), 15, now)
        } else {
            penalised(sm, bond_key, now)
        },
    }
}

/// What follows a switch: a retreat where it has not landed for the third time in a row or more,
/// and the end of a link that was to be rescued and was not.
pub open spec fn aftermath_of(
    m: SchedulerModel,
    bond_key: Seq<char>,
    o: Outcome,
    rescue: bool,
) -> Aftermath {
    let streak = next_streak(m, bond_key);
    Aftermath {
        retreat: match o {
            Outcome::NotLanded => match retreat(streak) {
                Some(b) => Some((streak, b)),
                None => None,
            },
            _ => None,
        },
        drop: match o {
            Outcome::Landed => None,
            Outcome::NotLanded => if rescue {
                Some(WeakCause::NotLanded)
            } else {
                None
            },
            Outcome::Refused(_) => if rescue {
                Some(WeakCause::Failed)
            } else {
                None
            },
        },
    }
}

/// What is remembered after a switch.
pub open spec fn remembered_after(
    m: SchedulerModel,
    bond_key: Seq<char>,
    o: Outcome,
    rescue: bool,
    lock_secs: u64,
    now: u128,
) -> SchedulerModel {
    let n = match o {
        Outcome::Landed => switched(m, lock_secs, rescue, now),
        Outcome::NotLanded => switch_failed(m, bond_key, now),
        Outcome::Refused(_) => m,
    };
    if aftermath_of(m, bond_key, o, rescue).drop is Some {
        weak_dropped(n)
    } else {
        n
    }
}

/// The machine after a move has been decided on: it goes on waiting only for a switch that is made.
pub open spec fn released(sm: MachineModel, mv: Move) -> MachineModel {
    if mv == Move::Go {
        sm
    } else {
        sm.at_rest()
    }
}

impl Scheduler {
    /// Takes the end of a switch, and says what follows it.
    pub fn settle_outcome(
        &mut self,
        machine: &mut StateMachine,
        plan: &SwitchPlan,
        o: Outcome,
        rescue: bool,
        lock_secs: u64,
        now: u128,
    ) -> (r: Aftermath)
        requires
            is_clock(now),
            old(machine)@.well_formed(),
        ensures
            final(machine)@.well_formed(),
            final(machine)@ == machine_after(old(machine)@, plan.bond_key@, o, now),
            final(self)@ == remembered_after(
                old(self)@,
                plan.bond_key@,
                o,
                rescue,
                lock_secs,
                now,
            ),
            r == aftermath_of(old(self)@, plan.bond_key@, o, rescue),
    {
        let key = plan.bond_key.as_str();
        let mut retreat: Option<(u32, u64)> = None;
        let drop = match o {
            Outcome::Landed => {
                machine.finish_switch_ok();
                self.on_switched(lock_secs, rescue, now);
                None
            },
            Outcome::NotLanded => {
                if let Some(back) = self.on_switch_failed(key, now) {
                    retreat = Some((self.streak(), back));
                }
                machine.enter_penalty(key, now);
                if rescue {
                    Some(WeakCause::NotLanded)
                } else {
                    None
                }
            },
            Outcome::Refused(msg) => {
                machine.enter_penalty(key, now);
                if is_user_mendable(msg.as_str()) {
                    machine.shorten_penalty(15, now);
                }
                if rescue {
                    Some(WeakCause::Failed)
                } else {
                    None
                }
            },
        };
        if drop.is_some() {
            self.on_weak_dropped();
        }
        Aftermath { retreat, drop }
    }

    /// Takes a move that is no switch: the machine is at rest again. Why the link is to be
    /// dropped, where it is.
    pub fn settle_move(&mut self, machine: &mut StateMachine, mv: Move) -> (r: Option<WeakCause>)
        requires
            old(machine)@.well_formed(),
        ensures
            final(machine)@.well_formed(),
            final(machine)@ == released(old(machine)@, mv),
            final(self)@ == (if mv is Drop {
                weak_dropped(old(self)@)
            } else {
                old(self)@
            }),
            r == (match mv {
                Move::Drop(cause) => Some(cause),
                _ => None,
            }),
    {
        match mv {
            Move::Go => None,
            Move::Drop(cause) => {
                machine.finish_switch_ok();
                self.on_weak_dropped();
                Some(cause)
            },
            _ => {
                machine.finish_switch_ok();
                None
            },
        }
    }
}

/// However a switch ends, the machine does not go on waiting for it: it is at rest, or in a pause
/// that ends.
pub proof fn law_every_switch_is_settled(
    sm: MachineModel,
    bond_key: Seq<char>,
    o: Outcome,
    now: u128,
)
    ensures
        machine_after(sm, bond_key, o, now).state == (if o is Landed {
            State::Idle
        } else {
            State::Penalty
        }),
        o is Refused && is_mendable(o->Refused_0@) ==> machine_after(
            sm,
            bond_key,
            o,
            now,
        ).penalty->0.until == now + 15_000_000_000,
{
}

/// Whatever is decided on, the machine is at rest unless a switch is made.
pub proof fn law_every_move_is_settled(sm: MachineModel, mv: Move)
    ensures
        mv != Move::Go ==> released(sm, mv).state == State::Idle,
        mv == Move::Go ==> released(sm, mv) == sm,
{
}

/// A link that was to be rescued is dropped exactly where the switch has not landed, and the
/// scheduler then knows of it.
pub proof fn law_failed_rescue_ends_the_link(
    m: SchedulerModel,
    bond_key: Seq<char>,
    o: Outcome,
    rescue: bool,
    lock_secs: u64,
    now: u128,
)
    ensures
        aftermath_of(m, bond_key, o, rescue).drop is Some <==> rescue && !(o is Landed),
        rescue && !(o is Landed) ==> remembered_after(
            m,
            bond_key,
            o,
            rescue,
            lock_secs,
            now,
        ).weak_disconnected,
{
}

/// What a switch leaves behind. One that has landed ends the count of failures and locks the access point for
/// the seconds that are set. One that has not landed is counted, and pauses the machine; from the third in a
/// row on there is a retreat. One that was refused only pauses the machine.
pub proof fn law_what_a_switch_leaves_behind(
    m: SchedulerModel,
    sm: MachineModel,
    key: Seq<char>,
    msg: String,
    rescue: bool,
    lock_secs: u64,
    now: u128,
)
    requires
        m.fail_streak < u32::MAX,
        sm.penalty is None,
        is_clock(now),
    ensures
        ({
            let landed = remembered_after(m, key, Outcome::Landed, rescue, lock_secs, now);
            let missed = remembered_after(m, key, Outcome::NotLanded, rescue, lock_secs, now);
            let refused = remembered_after(m, key, Outcome::Refused(msg), rescue, lock_secs, now);
            let count = if m.fail_key == key {
                m.fail_streak + 1
            } else {
                1
            };
            &&& landed.fail_streak == 0 && landed.backoff_until is None
            &&& lock_secs > 0 ==> landed.lock_until == Some(
                (now + lock_secs * 1_000_000_000) as u128,
            )
            &&& missed.fail_streak == count && missed.fail_key == key
            &&& count >= 3 <==> aftermath_of(m, key, Outcome::NotLanded, rescue).retreat is Some
            &&& count >= 3 ==> missed.backoff_until == Some(
                (now + (if count <= 10 {
                    count * 60
                } else {
                    600
                }) * 1_000_000_000) as u128,
            )
            &&& count < 3 ==> missed.backoff_until == m.backoff_until
            &&& refused.fail_streak == m.fail_streak && refused.backoff_until == m.backoff_until
            &&& aftermath_of(m, key, Outcome::Landed, rescue).retreat is None
            &&& aftermath_of(m, key, Outcome::Refused(msg), rescue).retreat is None
            &&& missed.weak_disconnected == (m.weak_disconnected || rescue)
            &&& refused.weak_disconnected == (m.weak_disconnected || rescue)
            &&& landed.weak_disconnected == m.weak_disconnected
            &&& machine_after(sm, key, Outcome::NotLanded, now).penalty->0.until == now
                + 30_000_000_000
            &&& machine_after(sm, key, Outcome::Refused(msg), now).penalty->0.until == now + (if has_sub(
                msg@,
                "请先在系统设置"@,
            ) || has_sub(msg@, "no network id"@) {
                15_000_000_000int
            } else {
                30_000_000_000int
            })
            &&& machine_after(sm, key, Outcome::Landed, now).penalty is None
        }),
{
}

} // verus!
