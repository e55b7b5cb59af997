use amberguard::band_bond::{HomeAp, ScanAp};
use amberguard::power_state::PowerState;
use amberguard::scheduler::{
    backoff_text, best_preferred_signal, better_on_preferred, choose_target,
    first_step, got_text, is_user_mendable, link_reached_peer, next_step, no_target_text,
    not_landed_text, plan_switch, switched_notice, unselectable_text, wants_roam_probe,
    weak_notice, weak_text, ControlWatch, LinkFacts, Scheduler, SwitchStep, WeakCause, WeakStep,
};
use amberguard::score::rank_of_whole;
use amberguard::state_machine::SwitchHint;
use amberguard::wpa_ctrl::WpaStatus;

const SEC: u128 = 1_000_000_000;
const T0: u128 = 1000 * SEC;

fn ap(bssid: &str, freq: u32, signal: i32, ssid: &str) -> ScanAp {
    ScanAp { bssid: bssid.into(), freq, signal, ssid: ssid.into() }
}

fn home() -> Vec<HomeAp> {
    ["a5", "b5", "a2"]
        .iter()
        .map(|b| HomeAp { bssid: b.to_string(), ssid: "HOME".into(), band: "auto".into() })
        .collect()
}

fn on_5g(rssi: i32) -> LinkFacts {
    LinkFacts { rssi, prefer_5: true, on_5g: true, up_rssi: -65, rssi_disconnect: -90 }
}

#[test]
fn screen_coming_on_brings_a_pause() {
    let mut s = Scheduler::new(T0);
    assert!(!s.on_screen(PowerState::On, T0));
    assert!(!s.on_screen(PowerState::Off, T0));
    assert!(s.on_screen(PowerState::On, T0));
    assert!(s.on_screen(PowerState::On, T0 + 3 * SEC - 1));
    assert!(!s.on_screen(PowerState::On, T0 + 3 * SEC));
}

#[test]
fn change_of_name_is_a_manual_switch() {
    let mut s = Scheduler::new(T0);
    let see = |s: &mut Scheduler, ssid: &str, bssid: &str| s.see_link(ssid, bssid, "COMPLETED", 60, false, T0);
    assert!(!see(&mut s, "HOME", "a5"));
    // Another access point of the same name is the system roaming; case does not matter.
    assert!(!see(&mut s, "home", "B5"));
    assert!(see(&mut s, "CAFE", "c1"));
    assert!(!see(&mut s, "CAFE", "c1"));
    // Nothing without a link, without a hold, while paused or while it is our own doing.
    assert!(!s.see_link("HOME", "a5", "SCANNING", 60, false, T0));
    assert!(!s.see_link("HOME", "a5", "COMPLETED", 0, false, T0));
    assert!(!s.see_link("CAFE", "c1", "COMPLETED", 60, true, T0));
    s.suppress(12, T0);
    assert!(!see(&mut s, "HOME", "a5"));
    assert!(s.see_link("CAFE", "c1", "COMPLETED", 60, false, T0 + 12 * SEC));
}

#[test]
fn names_are_kept_in_lower_case() {
    let mut s = Scheduler::new(T0);
    assert!(!s.see_link("ÄB", "a5", "COMPLETED", 60, false, T0));
    assert!(!s.see_link("äb", "a5", "COMPLETED", 60, false, T0));
    s.settle("CAFÉ", "c1");
    assert!(!s.see_link("café", "c1", "COMPLETED", 60, false, T0));
    s.settle("", "x");
    assert!(!s.see_link("café", "c1", "COMPLETED", 60, false, T0));
}

#[test]
fn gate_is_closed_for_each_reason() {
    let mut s = Scheduler::new(T0);
    assert!(s.gate(false, false, 0, false, T0));
    assert!(!s.gate(true, false, 0, false, T0));
    assert!(!s.gate(false, true, 0, false, T0));
    assert!(!s.gate(false, false, 1, false, T0));
    assert!(!s.gate(false, false, 0, true, T0));
}

#[test]
fn failures_lead_to_a_retreat() {
    let mut s = Scheduler::new(T0);
    assert_eq!(s.on_switch_failed("k", T0), None);
    assert_eq!(s.on_switch_failed("k", T0), None);
    assert_eq!(s.on_switch_failed("other", T0), None);
    assert_eq!(s.streak(), 1);
    s.on_switch_failed("other", T0);
    assert_eq!(s.on_switch_failed("other", T0), Some(180));
    assert_eq!(s.backoff_left(T0 + SEC), Some(179));
    assert!(!s.gate(false, false, 0, false, T0 + 180 * SEC - 1));
    assert!(s.gate(false, false, 0, false, T0 + 180 * SEC));
    assert_eq!(s.backoff_left(T0 + 180 * SEC), None);
    assert_eq!(s.on_switch_failed("other", T0), Some(240));
    for _ in 0..20 {
        s.on_switch_failed("other", T0);
    }
    assert_eq!(s.on_switch_failed("other", T0), Some(600));
    s.on_switched(45, false, T0);
    assert_eq!((s.streak(), s.backoff_left(T0), s.lock_remaining(T0)), (0, None, 45));
    assert_eq!(s.lock_remaining(T0 + 45 * SEC), 0);
    s.on_switched(0, false, T0 + SEC);
    assert_eq!(s.lock_remaining(T0 + SEC), 44);
}

#[test]
fn dropped_links_are_taken_up_again() {
    let mut s = Scheduler::new(T0);
    assert_eq!(s.weak_step(true, "COMPLETED", T0), WeakStep::Nothing);
    s.on_weak_dropped();
    assert!(s.is_weak_disconnected());
    assert_eq!(s.weak_step(true, "DISCONNECTED", T0), WeakStep::Reconnect);
    assert_eq!(s.weak_step(true, "DISCONNECTED", T0 + 10 * SEC), WeakStep::Nothing);
    assert_eq!(s.weak_step(true, "DISCONNECTED", T0 + 10 * SEC + 1), WeakStep::Reconnect);
    assert_eq!(s.weak_step(true, "COMPLETED", T0 + 20 * SEC), WeakStep::Restored);
    assert!(!s.is_weak_disconnected());
    s.on_weak_dropped();
    assert_eq!(s.weak_step(false, "COMPLETED", T0), WeakStep::Nothing);
    assert!(!s.is_weak_disconnected());
}

#[test]
fn weak_links_are_rescued_after_their_time() {
    let mut s = Scheduler::new(T0);
    let watch = |s: &mut Scheduler, rssi: i32, now: u128| s.watch_weak("disconnect", "COMPLETED", rssi, -90, 15, now);
    assert!(!watch(&mut s, -91, T0));
    assert!(!watch(&mut s, -91, T0 + 15 * SEC - 1));
    assert!(watch(&mut s, -91, T0 + 15 * SEC));
    // Not again within eight seconds of a scan.
    s.on_scanned(T0 + 15 * SEC);
    assert!(!watch(&mut s, -91, T0 + 23 * SEC - 1));
    assert!(watch(&mut s, -91, T0 + 23 * SEC));
    // A better moment starts the time anew.
    assert!(!watch(&mut s, -90, T0 + 30 * SEC));
    assert!(!watch(&mut s, -91, T0 + 31 * SEC));
    assert!(!s.watch_weak("off", "COMPLETED", -99, -90, 0, T0 + 60 * SEC));
    assert!(!watch(&mut s, -91, T0 + 61 * SEC));
    s.leave_weak_alone();
    assert!(!watch(&mut s, -91, T0 + 99 * SEC));
}

#[test]
fn scans_keep_their_gap() {
    let mut s = Scheduler::new(T0);
    assert!(s.scan_first(59, false, T0));
    assert!(!s.scan_first(60, false, T0));
    s.on_scanned(T0);
    assert!(!s.scan_first(8, false, T0 + 8 * SEC));
    assert!(s.scan_first(8, false, T0 + 8 * SEC + 1));
    assert!(s.scan_first(8, true, T0));
    s.note_scan(Some(-50));
    assert_eq!(s.best_preferred(), Some(-50));
}

#[test]
fn better_access_point_must_stay_in_view() {
    let mut s = Scheduler::new(T0);
    let a = ap("AA", 5180, -50, "HOME");
    let b = ap("bb", 5180, -50, "HOME");
    assert!(!s.roam_step(Some(&a), 6, T0));
    assert!(!s.roam_step(Some(&ap("aa", 5180, -50, "HOME")), 6, T0 + 6 * SEC - 1));
    assert!(s.roam_step(Some(&a), 6, T0 + 6 * SEC));
    assert!(!s.roam_step(Some(&a), 6, T0 + 7 * SEC));
    assert!(!s.roam_step(Some(&b), 6, T0 + 13 * SEC));
    assert!(!s.roam_step(None, 6, T0 + 14 * SEC));
    assert!(!s.roam_step(Some(&b), 6, T0 + 19 * SEC));
    s.forget_roam();
    assert!(!s.roam_step(Some(&b), 6, T0 + 30 * SEC));
}

#[test]
fn when_something_better_is_probed_for() {
    let probe = |on: bool, points: u8, homes: usize, locked: bool, hint: SwitchHint, rescue: bool| {
        wants_roam_probe(on, true, rank_of_whole(points), rank_of_whole(70), homes, locked, hint, rescue)
    };
    assert!(probe(true, 69, 1, false, SwitchHint::Stay, false));
    assert!(!probe(false, 69, 1, false, SwitchHint::Stay, false));
    assert!(!probe(true, 70, 1, false, SwitchHint::Stay, false));
    assert!(!probe(true, 69, 0, false, SwitchHint::Stay, false));
    assert!(!probe(true, 69, 1, true, SwitchHint::Stay, false));
    assert!(!probe(true, 69, 1, false, SwitchHint::Upswitch, false));
    assert!(!probe(true, 69, 1, false, SwitchHint::Stay, true));
}

#[test]
fn targets() {
    let scans = vec![
        ap("A5", 5180, -80, "HOME_5G"),
        ap("b5", 5200, -70, "HOME_5G"),
        ap("a2", 2412, -60, "HOME"),
        ap("n5", 5180, -30, "HOME_5G"),
    ];
    let pick = |hint: SwitchHint, rescue: bool, cur: &str, f: LinkFacts| {
        choose_target(hint, rescue, &scans, "HOME", cur, &f, &home()).map(|a| a.bssid)
    };
    // Leaving the band: an access point of the same band that is 8 dB better comes first.
    assert_eq!(pick(SwitchHint::Downswitch, false, "a5", on_5g(-80)).as_deref(), Some("b5"));
    assert_eq!(pick(SwitchHint::Downswitch, false, "a5", on_5g(-77)).as_deref(), Some("a2"));
    assert_eq!(pick(SwitchHint::Downswitch, false, "B5", on_5g(-80)).as_deref(), Some("a2"));
    // Going back: only above the line.
    let on_2g = LinkFacts { on_5g: false, ..on_5g(-60) };
    assert_eq!(pick(SwitchHint::Upswitch, false, "a2", on_2g), None);
    assert_eq!(pick(SwitchHint::Upswitch, false, "a2", LinkFacts { up_rssi: -70, ..on_2g }).as_deref(), Some("b5"));
    assert_eq!(pick(SwitchHint::SameBandRoam, false, "a5", on_5g(-80)), None);
    assert_eq!(pick(SwitchHint::Stay, false, "a5", on_5g(-80)), None);
    // A rescue: 5 dB better on the band, else the other band.
    assert_eq!(pick(SwitchHint::Stay, true, "a5", on_5g(-75)).as_deref(), Some("b5"));
    assert_eq!(pick(SwitchHint::Stay, true, "a5", on_5g(-74)).as_deref(), Some("a2"));
    assert_eq!(pick(SwitchHint::Stay, true, "a2", LinkFacts { on_5g: false, ..on_5g(-91) }), None);
    assert_eq!(best_preferred_signal(&scans, true, &home()), Some(-70));
    assert_eq!(best_preferred_signal(&scans, true, &[]), Some(-30));
    assert_eq!(best_preferred_signal(&[], true, &[]), None);
    let better = |cur: &str, rssi: i32| better_on_preferred(&scans, "HOME", cur, true, rssi, 12, &home()).map(|a| a.bssid);
    assert_eq!(better("a5", -82).as_deref(), Some("b5"));
    assert_eq!(better("a5", -81), None);
    assert_eq!(better("b5", -82), None);
}

#[test]
fn arrival_is_verified() {
    let st = WpaStatus::parse("wpa_state=COMPLETED\nssid=HOME\nbssid=AA:01");
    assert!(link_reached_peer(&st, "HOME", "zz", false));
    assert!(link_reached_peer(&st, "HOME", " aa:01 ", true));
    assert!(link_reached_peer(&st, "HOME", " ", true));
    assert!(!link_reached_peer(&st, "HOME", "aa:02", true));
    assert!(!link_reached_peer(&st, "OTHER", "aa:01", false));
    assert!(!link_reached_peer(&WpaStatus::parse("wpa_state=SCANNING\nssid=HOME"), "HOME", "", false));
    assert!(!link_reached_peer(&WpaStatus::parse("wpa_state=COMPLETED"), "", "", false));
    assert!(!link_reached_peer(&WpaStatus::parse("wpa_state=COMPLETED\nssid=HOME"), "HOME", "aa", true));
    assert_eq!(got_text(&st), "COMPLETED|HOME|AA:01");
    assert_eq!(got_text(&WpaStatus::default()), "||");
}

#[test]
fn steps_of_a_switch() {
    assert_eq!((first_step(true), first_step(false)), (SwitchStep::Roam, SwitchStep::Connect));
    assert_eq!(next_step(SwitchStep::Roam, true, true), SwitchStep::Issued);
    assert_eq!(next_step(SwitchStep::Roam, true, false), SwitchStep::Connect);
    assert_eq!(next_step(SwitchStep::Connect, true, false), SwitchStep::Failed);
    assert_eq!(next_step(SwitchStep::Connect, false, false), SwitchStep::Select);
    assert_eq!(next_step(SwitchStep::Connect, false, true), SwitchStep::Issued);
    assert_eq!(next_step(SwitchStep::Select, false, true), SwitchStep::Issued);
    assert_eq!(next_step(SwitchStep::Select, false, false), SwitchStep::Failed);
    for same in [true, false] {
        let mut step = first_step(same);
        for _ in 0..2 {
            step = next_step(step, same, false);
        }
        assert_eq!(step, SwitchStep::Failed);
    }
}

#[test]
fn plans() {
    let peer = ap("aa", 5180, -50, "HOME_5G");
    let p = plan_switch("HOME", &peer, SwitchHint::Upswitch, false, false);
    assert_eq!((p.bond_key.as_str(), p.same_ssid, p.reason, p.to_band), ("HOME->HOME_5G/aa", false, "Score", "5"));
    let p = plan_switch("HOME_5G", &peer, SwitchHint::Stay, false, true);
    assert_eq!((p.same_ssid, p.reason), (true, "SameBandRoam"));
    let p = plan_switch("HOME", &ap("aa", 2412, -50, "X"), SwitchHint::Stay, true, false);
    assert_eq!((p.reason, p.to_band), ("WeakRescue", "2.4"));
    assert_eq!(plan_switch("HOME", &peer, SwitchHint::Downswitch, true, false).reason, "Score");
}

#[test]
fn texts_of_a_switch() {
    assert_eq!(unselectable_text("X", "e"), "无法切换到「X」：e；请确认系统已保存该网且未被停用");
    assert_eq!(not_landed_text("X", "a|b|c"), "切换未生效（目标 X，仍为 a|b|c）");
    assert_eq!(backoff_text("X", 3, 180), "连「X」连续失败 3 次，已退避 180s。请系统里检查该网是否被停用后重连保存");
    assert_eq!(switched_notice("5", "X"), "已切换到 5G：X");
    assert_eq!(weak_text(WeakCause::StillBest, -91, -90), "弱信号已断开（-91 dBm，无更优 AP）");
    assert_eq!(weak_text(WeakCause::NoTarget, -91, -90), "弱信号已断开（无更优 AP，-91 dBm < -90）");
    assert_eq!(weak_text(WeakCause::NotLanded, -91, -90), "弱信号已断开（切换失败，-91 dBm）");
    assert_eq!(weak_text(WeakCause::Failed, -91, -90), "弱信号已断开（无可用网络，-91 dBm）");
    for cause in [WeakCause::StillBest, WeakCause::NoTarget, WeakCause::Failed] {
        assert_eq!(weak_notice(cause, -91), "弱信号已断开（-91dBm，无更优 AP）");
    }
    assert_eq!(weak_notice(WeakCause::NotLanded, -91), "弱信号已断开（-91dBm，救援切换未成功）");
    assert_eq!(no_target_text(SwitchHint::Upswitch, Some(-70), -65, 2), "上切未执行：家网 5G 最强 -70 dBm < 上切线 -65 dBm");
    assert_eq!(no_target_text(SwitchHint::Upswitch, None, -65, 2), "上切未执行：未扫到家网 5G（上切线 -65 dBm）");
    assert_eq!(no_target_text(SwitchHint::Downswitch, None, -65, 2), "下切未执行：未扫到可用 2.4G 家网 AP");
    assert_eq!(no_target_text(SwitchHint::Stay, None, -65, 2), "无可用对端 AP（家网 2 个）");
    assert!(is_user_mendable("系统未保存「X」。请先在系统设置连接"));
    assert!(is_user_mendable("no network id"));
    assert!(!is_user_mendable("other"));
    let mut s = Scheduler::new(T0);
    assert!(s.note_no_target(false, "a"));
    assert!(!s.note_no_target(false, "a"));
    assert!(s.note_no_target(true, "b"));
    assert!(!s.note_no_target(false, "a"));
}

#[test]
fn control_is_watched() {
    let mut w = ControlWatch::new();
    assert_eq!(w.on_failure(T0), (true, true));
    assert_eq!(w.on_failure(T0 + 15 * SEC - 1), (false, false));
    assert_eq!(w.on_failure(T0 + 15 * SEC), (false, true));
    assert_eq!(w.on_failure(T0 + 30 * SEC), (true, true));
    assert_eq!(w.fail_streak, 4);
    w.on_reconnected();
    assert_eq!(w.fail_streak, 0);
    assert_eq!(w.on_failure(T0 + 31 * SEC), (false, false));
}
