use amberguard::l3::{report, L3Kind};
use amberguard::outcome::{Aftermath, Outcome};
use amberguard::round::Move;
use amberguard::scheduler::{Scheduler, SwitchPlan, WeakCause};
use amberguard::score::{rank_of_whole, Rank};
use amberguard::state_machine::{State, StateMachine, SwitchHint};

const SEC: u128 = 1_000_000_000;
const T0: u128 = 1000 * SEC;
const CALM: Aftermath = Aftermath { retreat: None, drop: None };

fn plan() -> SwitchPlan {
    SwitchPlan { bond_key: "home|5".into(), same_ssid: true, reason: "Downswitch", to_band: "2.4" }
}

/// A machine that waits for a switch.
fn switching() -> StateMachine {
    let Rank::At(bad) = rank_of_whole(10) else { unreachable!() };
    let mut m = StateMachine::new();
    for i in 0..20u128 {
        let now = T0 - 100 * SEC + i * SEC;
        if m.on_score(bad, rank_of_whole(30), rank_of_whole(70), true, now) != SwitchHint::Stay {
            break;
        }
    }
    assert_eq!(m.state, State::Switching);
    m
}

#[test]
fn landed_switches_end_the_count_and_lock() {
    let mut s = Scheduler::new(T0);
    let mut m = switching();
    for i in 0..3u128 {
        s.settle_outcome(&mut m, &plan(), Outcome::NotLanded, false, 30, T0 + i * SEC);
    }
    assert_eq!(s.streak(), 3);
    let after = s.settle_outcome(&mut m, &plan(), Outcome::Landed, true, 30, T0 + 3 * SEC);
    assert_eq!(after, CALM);
    assert_eq!(m.state, State::Idle);
    // The last pause is not forgotten before its time.
    assert_eq!(m.penalty.as_ref().unwrap().cooldown_secs, 120);
    assert_eq!(s.streak(), 0);
}

#[test]
fn missed_switches_lead_to_pauses_and_to_retreat() {
    let mut s = Scheduler::new(T0);
    let mut m = switching();
    for i in 0..2u128 {
        let after = s.settle_outcome(&mut m, &plan(), Outcome::NotLanded, false, 30, T0 + i * SEC);
        assert_eq!((after, m.state), (CALM, State::Penalty));
    }
    let p = m.penalty.as_ref().unwrap();
    assert_eq!((p.bond_id.as_str(), p.cooldown_secs, p.until), ("home|5", 60, T0 + 61 * SEC));
    let after = s.settle_outcome(&mut m, &plan(), Outcome::NotLanded, true, 30, T0 + 2 * SEC);
    assert_eq!(after.retreat, Some((3, 180)));
    assert_eq!(after.drop, Some(WeakCause::NotLanded));
}

#[test]
fn refused_switches_pause_shortly_where_the_user_can_mend_them() {
    let mut s = Scheduler::new(T0);
    let mut m = switching();
    let msg = "no network id for HOME".to_string();
    let after = s.settle_outcome(&mut m, &plan(), Outcome::Refused(msg), false, 30, T0);
    assert_eq!((after, m.state, s.streak()), (CALM, State::Penalty, 0));
    assert_eq!(m.penalty.as_ref().unwrap().until, T0 + 15 * SEC);
    let mut m = switching();
    let after = s.settle_outcome(&mut m, &plan(), Outcome::Refused("FAIL".into()), true, 30, T0);
    assert_eq!(after, Aftermath { retreat: None, drop: Some(WeakCause::Failed) });
    assert_eq!(m.penalty.as_ref().unwrap().until, T0 + 30 * SEC);
}

#[test]
fn moves_that_are_no_switch_release_the_machine() {
    let settled = [
        (Move::Remain, None, State::Idle),
        (Move::Nowhere, None, State::Idle),
        (Move::Drop(WeakCause::NoTarget), Some(WeakCause::NoTarget), State::Idle),
        (Move::Drop(WeakCause::StillBest), Some(WeakCause::StillBest), State::Idle),
        (Move::Go, None, State::Switching),
    ];
    for (mv, cause, state) in settled {
        let mut s = Scheduler::new(T0);
        let mut m = switching();
        assert_eq!(s.settle_move(&mut m, mv), cause);
        assert_eq!(m.state, state);
    }
}

#[test]
fn findings_are_reported() {
    assert_eq!(report(&Ok(L3Kind::Skip)), (L3Kind::Skip.as_prefix().to_string(), "Ok"));
    let (text, word) = report(&Err((L3Kind::Timeout, "slow".into())));
    assert_eq!(text, format!("{}:slow", L3Kind::Timeout.as_prefix()));
    assert_eq!(word, "OkL3Timeout");
}
