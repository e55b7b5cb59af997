use amberguard::band_bond::{HomeAp, ScanAp};
use amberguard::config::Config;
use amberguard::round::{decide_move, Course, Move, Search};
use amberguard::scheduler::{LinkFacts, Scheduler, WeakCause, WeakStep};
use amberguard::score::{rank_of_whole, Rank};
use amberguard::state_machine::{State, StateMachine, SwitchHint};
use amberguard::status_text::HoldKind;
use amberguard::tick::Tick;

const SEC: u128 = 1_000_000_000;
const T0: u128 = 1000 * SEC;

fn calm() -> Tick {
    Tick {
        rssi: -60,
        freq: Some(5180),
        hold_rem: 0,
        hold_kind: None,
        in_home: true,
        best_pref: None,
        pen_rem: 0,
        lock_rem: 0,
        screen_off: false,
        in_grace: false,
        backoff_left: None,
        weak_disconnected: false,
        persisted: true,
        machine: State::Idle,
    }
}

fn settings() -> Config {
    let mut c = Config::default();
    c.home_aps = ["a5", "b5"]
        .iter()
        .map(|b| HomeAp { bssid: b.to_string(), ssid: "HOME".into(), band: "5".into() })
        .collect();
    c
}

fn rank(n: u8) -> i32 {
    match rank_of_whole(n) {
        Rank::At(r) => r,
        Rank::NotANumber => unreachable!(),
    }
}

fn ap(bssid: &str, signal: i32) -> ScanAp {
    ScanAp { bssid: bssid.into(), freq: 5180, signal, ssid: "HOME".into() }
}

#[test]
fn nothing_is_done_while_something_stands_against_it() {
    let blocked = [
        Tick { screen_off: true, ..calm() },
        Tick { in_grace: true, ..calm() },
        Tick { hold_rem: 5, hold_kind: Some(HoldKind::Manual), ..calm() },
    ];
    for t in blocked {
        let mut s = Scheduler::new(T0);
        let mut m = StateMachine::new();
        for i in 0..20u128 {
            let r = s.round(&mut m, &t, &settings(), "COMPLETED", rank(10), T0 + i * SEC);
            assert_eq!((r.weak, r.course), (WeakStep::Nothing, Course::Wait));
        }
        assert_eq!(m.current(), State::Idle);
    }
    let mut paused = settings();
    paused.mode = "pause".into();
    let r = Scheduler::new(T0).round(&mut StateMachine::new(), &calm(), &paused, "COMPLETED", rank(10), T0);
    assert_eq!(r.course, Course::Wait);
    let mut s = Scheduler::new(T0);
    for _ in 0..3 {
        s.on_switch_failed("k", T0);
    }
    let r = s.round(&mut StateMachine::new(), &calm(), &settings(), "COMPLETED", rank(10), T0 + SEC);
    assert_eq!(r.course, Course::Wait);
}

#[test]
fn links_outside_the_home_group_are_left_alone() {
    let mut s = Scheduler::new(T0);
    let mut m = StateMachine::new();
    let t = Tick { in_home: false, rssi: -99, ..calm() };
    let mut c = settings();
    c.weak_action = "disconnect".into();
    for i in 0..60u128 {
        let r = s.round(&mut m, &t, &c, "COMPLETED", rank(10), T0 + i * SEC);
        assert_eq!(r.course, Course::Away);
    }
    assert_eq!(m.current(), State::Idle);
}

#[test]
fn weak_links_outside_the_home_group_are_rescued_where_that_is_allowed() {
    let mut s = Scheduler::new(T0);
    let mut m = StateMachine::new();
    let t = Tick { in_home: false, rssi: -99, ..calm() };
    let mut c = settings();
    c.allow_weak_off_home = true;
    // Only where weak links are to be dropped at all.
    assert_eq!(s.round(&mut m, &t, &c, "COMPLETED", rank(10), T0).course, Course::Away);
    c.weak_action = "disconnect".into();
    for i in 0..15u128 {
        let r = s.round(&mut m, &t, &c, "COMPLETED", rank(10), T0 + i * SEC);
        assert_eq!(r.course, Course::Away);
    }
    let r = s.round(&mut m, &t, &c, "COMPLETED", rank(10), T0 + 15 * SEC);
    let rescue = Search { hint: SwitchHint::Stay, rescue: true, probe: false };
    assert_eq!(r.course, Course::Seek(rescue));
    assert_eq!(m.current(), State::Idle);
}

#[test]
fn bad_links_are_sought_to_be_left() {
    let mut s = Scheduler::new(T0);
    let mut m = StateMachine::new();
    let c = settings();
    assert_eq!(s.round(&mut m, &calm(), &c, "COMPLETED", rank(80), T0).course, Course::Rest);
    for i in 0..4u128 {
        let r = s.round(&mut m, &calm(), &c, "COMPLETED", rank(20), T0 + i * SEC);
        let probe = Search { hint: SwitchHint::Stay, rescue: false, probe: true };
        assert_eq!(r.course, Course::Seek(probe));
    }
    let r = s.round(&mut m, &calm(), &c, "COMPLETED", rank(20), T0 + 4 * SEC);
    let leave = Search { hint: SwitchHint::Downswitch, rescue: false, probe: false };
    assert_eq!(r.course, Course::Seek(leave));
    // Without a home group there is no better access point to look for.
    let r = Scheduler::new(T0).round(
        &mut StateMachine::new(),
        &calm(),
        &Config::default(),
        "COMPLETED",
        rank(20),
        T0,
    );
    assert_eq!(r.course, Course::Rest);
}

#[test]
fn locked_access_points_are_left_only_in_a_rescue() {
    let mut s = Scheduler::new(T0);
    let mut m = StateMachine::new();
    let mut c = settings();
    c.weak_action = "disconnect".into();
    let t = Tick { lock_rem: 30, rssi: -95, ..calm() };
    for i in 0..15u128 {
        let r = s.round(&mut m, &t, &c, "COMPLETED", rank(10), T0 + i * SEC);
        assert_eq!(r.course, Course::Rest);
    }
    let r = s.round(&mut m, &t, &c, "COMPLETED", rank(10), T0 + 15 * SEC);
    let rescue = Search { hint: SwitchHint::Stay, rescue: true, probe: false };
    assert_eq!(r.course, Course::Seek(rescue));
}

#[test]
fn lock_that_ends_leaves_the_way_back_open() {
    let mut s = Scheduler::new(T0);
    let mut m = StateMachine::new();
    let c = settings();
    let locked = Tick { freq: Some(2437), lock_rem: 30, ..calm() };
    for i in [0, 4, 8, 12] {
        let r = s.round(&mut m, &locked, &c, "COMPLETED", rank(80), T0 + i * SEC);
        assert_eq!((r.course, m.state), (Course::Rest, State::Idle));
    }
    let free = Tick { freq: Some(2437), ..calm() };
    for i in [40, 50, 60] {
        let r = s.round(&mut m, &free, &c, "COMPLETED", rank(80), T0 + i * SEC);
        assert_eq!((r.course, m.state), (Course::Rest, State::GradientDetect));
    }
    let r = s.round(&mut m, &free, &c, "COMPLETED", rank(80), T0 + 65 * SEC);
    let back = Search { hint: SwitchHint::Upswitch, rescue: false, probe: false };
    assert_eq!((r.course, m.state), (Course::Seek(back), State::Switching));
}

#[test]
fn dropped_links_come_back_in_a_round() {
    let mut s = Scheduler::new(T0);
    let mut m = StateMachine::new();
    s.on_weak_dropped();
    let r = s.round(&mut m, &calm(), &settings(), "DISCONNECTED", rank(80), T0);
    assert_eq!((r.weak, r.course), (WeakStep::Reconnect, Course::Rest));
    let r = s.round(&mut m, &calm(), &settings(), "COMPLETED", rank(80), T0 + SEC);
    assert_eq!((r.weak, r.course), (WeakStep::Restored, Course::Rest));
}

#[test]
fn picks() {
    let mut s = Scheduler::new(T0);
    let scans = vec![ap("A5", -80), ap("b5", -60), ap("n5", -30)];
    let home = settings().home_aps;
    let f = LinkFacts { rssi: -80, prefer_5: true, on_5g: true, up_rssi: -65, rssi_disconnect: -90 };
    let probe = Search { hint: SwitchHint::Stay, rescue: false, probe: true };
    let (first, fire) = s.pick(probe, &scans, "HOME", "a5", &f, 12, 6, &home, T0);
    assert!(first.is_none() && !fire);
    let (then, fire) = s.pick(probe, &scans, "HOME", "a5", &f, 12, 6, &home, T0 + 6 * SEC);
    assert_eq!((then.map(|a| a.bssid).as_deref(), fire), (Some("b5"), true));
    // Too little better.
    let (none, fire) = s.pick(probe, &scans, "HOME", "a5", &f, 21, 0, &home, T0 + 7 * SEC);
    assert!(none.is_none() && !fire);
    let leave = Search { hint: SwitchHint::Downswitch, rescue: false, probe: false };
    let (away, fire) = s.pick(leave, &scans, "HOME", "a5", &f, 12, 6, &home, T0 + 8 * SEC);
    assert_eq!((away.map(|a| a.bssid).as_deref(), fire), (Some("b5"), false));
}

#[test]
fn moves() {
    assert_eq!(decide_move(&Some(ap("x", -50)), "y", true), Move::Go);
    assert_eq!(decide_move(&Some(ap("X", -50)), "x", false), Move::Remain);
    assert_eq!(decide_move(&Some(ap("X", -50)), "x", true), Move::Drop(WeakCause::StillBest));
    assert_eq!(decide_move(&None, "x", true), Move::Drop(WeakCause::NoTarget));
    assert_eq!(decide_move(&None, "x", false), Move::Nowhere);
}
