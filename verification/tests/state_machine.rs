use amberguard::score::{rank_of_whole, Rank};
use amberguard::state_machine::{Debouncer, PenaltyLock, State, StateMachine, SwitchHint};

const SEC: u128 = 1_000_000_000;

fn rank(n: u8) -> i32 {
    match rank_of_whole(n) {
        Rank::At(r) => r,
        Rank::NotANumber => unreachable!(),
    }
}

/// One look at a link of `points`, with the default lines of 30 and 70.
fn look(m: &mut StateMachine, points: u8, on_preferred: bool, now: u128) -> SwitchHint {
    m.on_score(rank(points), rank_of_whole(30), rank_of_whole(70), on_preferred, now)
}

#[test]
fn penalties_end_at_their_time() {
    let p = PenaltyLock::new("HOME", 30, 100 * SEC);
    assert_eq!((p.bond_id.as_str(), p.until, p.cooldown_secs), ("HOME", 130 * SEC, 30));
    assert!(p.active(130 * SEC - 1));
    assert!(!p.active(130 * SEC));
}

#[test]
fn cooldowns_double_up_to_five_minutes() {
    let mut secs: u64 = 30;
    let mut seen = vec![secs];
    for _ in 0..5 {
        secs = PenaltyLock::next_cooldown(secs);
        seen.push(secs);
    }
    assert_eq!(seen, [30, 60, 120, 240, 300, 300]);
    assert_eq!(PenaltyLock::next_cooldown(0), 0);
}

#[test]
fn debouncer_waits_for_time_and_samples() {
    let mut d = Debouncer::downswitch();
    let low = |m: i32| m < 10;
    assert!(!d.push_and_ready(1, low, 0));
    // The time has come, the samples are too few.
    assert!(!d.push_and_ready(1, low, 5 * SEC));
    assert!(d.push_and_ready(1, low, 5 * SEC));
    d.reset();
    assert!(!d.push_and_ready(1, low, 10 * SEC));
    assert!(!d.push_and_ready(1, low, 11 * SEC));
    assert!(!d.push_and_ready(1, low, 14 * SEC - 1));
    assert!(d.push_and_ready(1, low, 14 * SEC));
}

#[test]
fn debouncer_goes_by_the_median_of_its_window() {
    let mut d = Debouncer::downswitch();
    d.set_need_secs(0);
    let low = |m: i32| m < 10;
    d.push_and_ready(50, low, 0);
    d.push_and_ready(1, low, 2 * SEC);
    assert!(d.push_and_ready(1, low, 2 * SEC));
    // Of four samples the third smallest decides.
    assert!(!d.push_and_ready(60, low, 2 * SEC));
    // Five are kept, then the oldest leaves.
    assert!(!d.push_and_ready(70, low, 2 * SEC));
    assert!(d.push_and_ready(2, low, 2 * SEC));
}

#[test]
fn a_need_is_at_least_a_second() {
    let mut d = Debouncer::upswitch();
    d.set_need_secs(0);
    for _ in 0..5 {
        assert!(!d.push_and_ready(0, |_| true, SEC));
    }
    assert!(d.push_and_ready(0, |_| true, 2 * SEC));
}

#[test]
fn bad_score_leaves_the_preferred_band() {
    let mut m = StateMachine::new();
    assert_eq!(m.current(), State::Idle);
    for s in 0..4u128 {
        assert_eq!(look(&mut m, 20, true, s * SEC), SwitchHint::Stay);
        assert_eq!(m.current(), State::GradientDetect);
    }
    assert_eq!(look(&mut m, 20, true, 4 * SEC), SwitchHint::Downswitch);
    assert_eq!(m.current(), State::Switching);
    // Nothing more is asked for while the switch runs.
    assert_eq!(look(&mut m, 20, true, 60 * SEC), SwitchHint::Stay);
    m.finish_switch_ok();
    assert_eq!(m.current(), State::Idle);
}

#[test]
fn good_moment_starts_the_wait_anew() {
    let mut m = StateMachine::new();
    for s in 0..4u128 {
        look(&mut m, 20, true, s * SEC);
    }
    assert_eq!(look(&mut m, 30, true, 4 * SEC), SwitchHint::Stay);
    assert_eq!(m.current(), State::GradientDetect);
    assert_eq!(look(&mut m, 20, true, 5 * SEC), SwitchHint::Stay);
    assert_eq!(look(&mut m, 70, true, 6 * SEC), SwitchHint::Stay);
    assert_eq!(m.current(), State::Idle);
}

#[test]
fn other_band_is_left_after_seven_or_twenty_five_seconds() {
    let mut m = StateMachine::new();
    for s in 0..7u128 {
        assert_eq!(look(&mut m, 69, false, s * SEC), SwitchHint::Stay);
    }
    assert_eq!(look(&mut m, 69, false, 7 * SEC), SwitchHint::Upswitch);
    let mut m = StateMachine::new();
    for s in 0..25u128 {
        assert_eq!(look(&mut m, 70, false, s * SEC), SwitchHint::Stay);
    }
    assert_eq!(look(&mut m, 70, false, 25 * SEC), SwitchHint::Upswitch);
}

#[test]
fn saving_power_waits_longer() {
    let mut m = StateMachine::new();
    m.apply_eco(true);
    for s in 0..7u128 {
        assert_eq!(look(&mut m, 20, true, s * SEC), SwitchHint::Stay);
    }
    assert_eq!(look(&mut m, 20, true, 7 * SEC), SwitchHint::Downswitch);
}

#[test]
fn penalty_blocks_until_it_is_over() {
    let mut m = StateMachine::new();
    m.enter_penalty("HOME", 100 * SEC);
    assert!(m.in_penalty(100 * SEC));
    assert_eq!(m.penalty_remaining_secs(101 * SEC + 1), 28);
    for s in 0..30u128 {
        assert_eq!(look(&mut m, 20, true, (100 + s) * SEC), SwitchHint::Stay);
        assert_eq!(m.current(), State::Penalty);
    }
    assert_eq!(look(&mut m, 90, true, 130 * SEC), SwitchHint::Stay);
    assert_eq!(m.current(), State::Idle);
    assert!(m.penalty.is_none());
    assert_eq!(m.penalty_remaining_secs(130 * SEC), 0);
}

#[test]
fn forgotten_penalties_grow_no_further() {
    let mut m = StateMachine::new();
    m.enter_penalty("HOME", 0);
    m.enter_penalty("OTHER", 10 * SEC);
    assert_eq!(m.penalty.as_ref().unwrap().cooldown_secs, 60);
    assert_eq!(look(&mut m, 80, true, 70 * SEC), SwitchHint::Stay);
    assert!(m.penalty.is_none());
    m.enter_penalty("HOME", 71 * SEC);
    assert_eq!(m.penalty.as_ref().unwrap().cooldown_secs, 30);
    assert_eq!(m.penalty.as_ref().unwrap().until, 101 * SEC);
}

#[test]
fn repeated_penalties_grow() {
    let mut m = StateMachine::new();
    m.enter_penalty("HOME", 0);
    m.enter_penalty("HOME", 0);
    assert_eq!(m.penalty.as_ref().unwrap().cooldown_secs, 60);
    m.shorten_penalty(8, 10 * SEC);
    assert_eq!(m.penalty.as_ref().unwrap().until, 18 * SEC);
    assert_eq!(m.penalty.as_ref().unwrap().cooldown_secs, 8);
    m.reset_soft();
    assert!(m.in_penalty(17 * SEC));
    m.clear_penalty_if_due(18 * SEC);
    assert!(m.penalty.is_none());
}

#[test]
fn threshold_that_is_no_number_never_switches() {
    let mut m = StateMachine::new();
    for s in 0..20u128 {
        let hint = m.on_score(rank(20), Rank::NotANumber, rank_of_whole(70), true, s * SEC);
        assert_eq!(hint, SwitchHint::Stay);
    }
    assert_eq!(m.current(), State::GradientDetect);
}

#[test]
fn saving_power_waits_longer_on_the_way_back() {
    let mut m = StateMachine::new();
    m.apply_eco(true);
    for s in [0, 4, 8, 11] {
        assert_eq!(look(&mut m, 20, false, s * SEC), SwitchHint::Stay);
    }
    assert_eq!(look(&mut m, 20, false, 12 * SEC), SwitchHint::Upswitch);
    m.finish_switch_ok();
    // A healthy link still waits for twenty-five seconds.
    for s in [20, 30, 44] {
        assert_eq!(look(&mut m, 70, false, s * SEC), SwitchHint::Stay);
    }
    assert_eq!(look(&mut m, 70, false, 45 * SEC), SwitchHint::Upswitch);
    m.finish_switch_ok();
    m.apply_eco(false);
    for s in [50, 53, 56] {
        assert_eq!(look(&mut m, 20, false, s * SEC), SwitchHint::Stay);
    }
    assert_eq!(look(&mut m, 20, false, 57 * SEC), SwitchHint::Upswitch);
}
