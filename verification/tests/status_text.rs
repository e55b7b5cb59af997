use amberguard::hold::{forget_if_over, hold_for, hold_remaining, HoldState};
use amberguard::module_prop::{
    binary_changed, describe, description_is_due, description_text, read_module_prop,
    reboot_files_changed, update_info, ModuleFileMtimes,
};
use amberguard::score::{score_of_whole, Rank, Score};
use amberguard::status_text::{
    band_zh, mode_zh, power_zh, status_line_zh, status_summary_zh, threshold_hint_zh, HoldKind,
    StatusFile, SummaryFacts,
};

const SEC: u128 = 1_000_000_000;

fn score(v: f32) -> Score {
    Score {
        rank: Rank::At(v.to_bits() as i32),
        plain: format!("{v}"),
        whole: format!("{v:.0}"),
    }
}

fn facts() -> SummaryFacts {
    SummaryFacts {
        hold_rem: 0,
        pen_rem: 0,
        in_home: true,
        home_n: 1,
        screen_off: false,
        paused: false,
        on_preferred: true,
        lock_rem: 0,
        prefer_5: true,
    }
}

#[test]
fn words_for_modes_and_states() {
    assert_eq!((mode_zh("eco"), mode_zh("pause"), mode_zh("daily"), mode_zh("x")), ("省电", "暂停", "日用", "日用"));
    assert_eq!((band_zh("5"), band_zh("2.4"), band_zh("?")), ("5G", "2.4G", "未知频段"));
    for (s, zh) in [
        (" USER_HOLD(5s)", "手切保护中"),
        ("SOFT_PAUSE(5s)", "观影保护中"),
        ("Idle", "守护中"),
        ("idle", "守护中"),
        ("GradientDetect", "观察中"),
        ("Switching", "切换中"),
        ("Penalty", "冷却中"),
        ("Frozen", "冻结"),
        ("PAUSE", "已暂停"),
        ("Pause", "已暂停"),
        ("OUT_OF_HOME", "非家网"),
        ("WEAK_OFF", "弱信号已断"),
        ("SCREEN_OFF", "息屏降频"),
        ("  ", "—"),
        (" ON ", "ON"),
    ] {
        assert_eq!(power_zh(s), zh);
    }
}

#[test]
fn words_for_holds() {
    assert_eq!(HoldKind::Manual.as_str(), "manual");
    assert_eq!(HoldKind::SoftPause.as_str(), "soft_pause");
    assert_eq!(HoldKind::Manual.block_zh(7), "手切保护中（剩 7s，不自动切网）");
    assert_eq!(HoldKind::SoftPause.block_zh(7), "观影保护中（剩 7s，不自动切网）");
    assert_eq!(HoldKind::Manual.summary_zh(7), "手切保护 · 7s（可点结束保护）");
    assert_eq!(HoldKind::SoftPause.summary_zh(7), "观影保护 · 7s（可点结束保护）");
    assert_eq!(HoldKind::Manual.power_state(7), "USER_HOLD(7s)");
    assert_eq!(HoldKind::SoftPause.power_state(7), "SOFT_PAUSE(7s)");
}

#[test]
fn holds_run_out() {
    let h = Some(hold_for(HoldKind::SoftPause, 60, 10 * SEC));
    assert_eq!(h, Some(HoldState { until: 70 * SEC, kind: HoldKind::SoftPause }));
    assert_eq!(hold_remaining(&h, 10 * SEC), (60, Some(HoldKind::SoftPause)));
    // In the last second it still stands, with no whole second left.
    assert_eq!(hold_remaining(&h, 70 * SEC - 1), (0, Some(HoldKind::SoftPause)));
    assert_eq!(hold_remaining(&h, 70 * SEC), (0, None));
    assert_eq!(hold_remaining(&None, 0), (0, None));
    let mut g = h;
    forget_if_over(&mut g, 70 * SEC - 1);
    assert_eq!(g, h);
    forget_if_over(&mut g, 70 * SEC);
    assert_eq!(g, None);
}

#[test]
fn hints_for_the_thresholds() {
    let (sw, de) = (score_of_whole(30), score_of_whole(70));
    let on = |s: f32| threshold_hint_zh(true, &score(s), -71, &sw, &de, -65, None);
    assert_eq!(on(29.6), "偏好下切带：分 30 < 下切线 30（-71 dBm）→ 防抖后切后备频段");
    assert_eq!(on(30.0), "偏好观察带：下切线 30 ≤ 分 30 < 观察线 70 → 加勤扫描");
    assert_eq!(on(70.0), "偏好稳定带：分 70 ≥ 观察线 70（-71 dBm）→ 守护中");
    let off = |b: Option<i32>| threshold_hint_zh(false, &score(50.0), -71, &sw, &de, -65, b);
    assert_eq!(off(Some(-65)), "后备频段·上切就绪：偏好侧最强 -65 dBm ≥ 上切线 -65 → 防抖后回偏好");
    assert_eq!(off(Some(-66)), "后备频段·等待：偏好侧最强 -66 dBm < 上切线 -65");
    assert_eq!(off(None), "后备频段·寻找偏好 AP（需 ≥ -65 dBm）");
}

#[test]
fn status_lines() {
    assert_eq!(
        status_line_zh("eco", "", "5", &score(41.5), "Idle", ""),
        "AmberGuard · 省电 · 未连接 · 5G · 分42 · 守护中"
    );
    assert_eq!(
        status_line_zh("daily", "HOME", "2.4", &score(8.0), "Idle", "已暂停守护"),
        "AmberGuard · 日用 · HOME · 2.4G · 分8 · 已暂停守护"
    );
}

#[test]
fn summaries() {
    let sum = |s: f32, f: SummaryFacts| status_summary_zh("5", &score(s), "daily", f);
    assert_eq!(sum(70.0, SummaryFacts { paused: true, hold_rem: 5, ..facts() }), "已暂停 · 仅观测");
    assert_eq!(sum(70.0, SummaryFacts { hold_rem: 5, screen_off: true, ..facts() }), "保护中 · 5s（可点结束保护）");
    assert_eq!(sum(70.0, SummaryFacts { screen_off: true, pen_rem: 5, ..facts() }), "息屏降频 · 不主动切");
    assert_eq!(sum(70.0, SummaryFacts { pen_rem: 5, lock_rem: 5, ..facts() }), "切换冷却中 · 5s");
    assert_eq!(sum(70.0, SummaryFacts { lock_rem: 5, in_home: false, ..facts() }), "短时锁 AP · 5s（防踢回）");
    assert_eq!(sum(70.0, SummaryFacts { in_home: false, ..facts() }), "非家网 · 仅观测");
    assert_eq!(sum(70.0, SummaryFacts { in_home: false, home_n: 0, ..facts() }), "5G 良好 · 日用守护中");
    assert_eq!(sum(69.9, facts()), "5G 观察中 · 分 70");
    assert_eq!(sum(30.0, facts()), "5G 观察中 · 分 30");
    assert_eq!(sum(29.9, facts()), "5G 偏弱 · 可能下切");
    assert_eq!(sum(90.0, SummaryFacts { on_preferred: false, ..facts() }), "5G 后备 · 等5G回暖");
    assert_eq!(
        status_summary_zh("2.4", &score(70.0), "eco", SummaryFacts { prefer_5: false, ..facts() }),
        "2.4G 良好 · 省电守护中"
    );
    assert_eq!(
        status_summary_zh("?", &score(70.0), "eco", SummaryFacts { prefer_5: false, on_preferred: false, ..facts() }),
        "未知频段 后备 · 等2.4G回暖"
    );
}

#[test]
fn status_file_follows_changes() {
    let mut f = StatusFile::new();
    assert_eq!(f.write("a", 100).as_deref(), Some("a\n"));
    assert_eq!(f.write("a", 114), None);
    assert_eq!(f.write("b", 114).as_deref(), Some("b\n"));
    assert_eq!(f.write("b", 129).as_deref(), Some("b\n"));
    // A clock that was set back does not make a line old.
    assert_eq!(f.write("b", 5), None);
}

#[test]
fn descriptions_replace_one_line() {
    assert_eq!(description_text(" a=b#c\nd\r "), "a b c d");
    assert_eq!(description_text(&"海".repeat(100)).chars().count(), 96);
    assert_eq!(
        describe("id=x\ndescription=old\nversion=1", "new").as_deref(),
        Some("id=x\ndescription=new\nversion=1\n")
    );
    assert_eq!(describe("id=x", "new").as_deref(), Some("id=x\ndescription=new\n"));
    assert_eq!(describe("id=x", " # "), None);
    assert!(!description_is_due(100, 114));
    assert!(description_is_due(100, 115));
    assert!(!description_is_due(100, 50));
}

#[test]
fn module_files() {
    assert_eq!(
        read_module_prop("id=x\nversion= v1.2 \nconfigResetNeeded=true\n"),
        ("v1.2".to_string(), true)
    );
    assert_eq!(read_module_prop("version=1\nversion=2"), ("2".to_string(), false));
    assert_eq!(read_module_prop("#configResetNeeded=1"), ("".to_string(), true));
    let start = ModuleFileMtimes { binary: Some(1), sepolicy: None, post_fs_data: Some(2), service_sh: Some(3) };
    assert!(!binary_changed(&start, Some(1)));
    assert!(!binary_changed(&start, None));
    assert!(binary_changed(&start, Some(2)));
    assert!(!reboot_files_changed(&start, &start));
    assert!(reboot_files_changed(&start, &ModuleFileMtimes { sepolicy: Some(0), ..start }));
    assert!(reboot_files_changed(&start, &ModuleFileMtimes { post_fs_data: None, ..start }));
    assert!(reboot_files_changed(&start, &ModuleFileMtimes { service_sh: Some(4), ..start }));
    assert!(!reboot_files_changed(&start, &ModuleFileMtimes { binary: Some(9), ..start }));
}

#[test]
fn updates() {
    let u = update_info("2.0", false, false);
    assert!(u.detected && u.can_restart());
    assert_eq!((u.new_version.as_str(), u.message.as_str()), ("2.0", "模块已更新到 2.0，正在自动重启…"));
    assert_eq!(update_info("2.0", true, true).message, "模块已更新到 2.0：需重启手机生效，且本次更新需重置配置");
    assert_eq!(update_info("2.0", true, false).message, "模块已更新到 2.0：需重启手机才能完整生效");
    assert_eq!(update_info("2.0", false, true).message, "模块已更新到 2.0：本次更新需重置配置");
    assert!(!update_info("2.0", true, false).can_restart());
    assert!(!update_info("2.0", false, true).can_restart());
}
