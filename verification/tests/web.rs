use amberguard::band_bond::HomeAp;
use amberguard::config::Config;
use amberguard::http::{
    checked_connect, connect_request, error_reply, history_reply, hold_after_connect, log_lines,
    mode_reply, path_of, query_number, readiness, route, soft_pause_mins, soft_pause_reply,
    Preset, Route, RunMode, Verb,
};
use amberguard::l3::{
    bare_address, classify_line, connect_failure, dns_failure, endpoint, io_failure, l3_reply,
    request_text, L3Action, L3Kind, L3Probe,
};
use amberguard::score::{Rank, Score};
use amberguard::state_machine::State;
use amberguard::status_text::HoldKind;
use amberguard::tick::{
    band_of, block_reason, is_on_preferred, preferred_is_5g, sample_gap, scan_gap, state_text,
    Outage, Tick,
};
use amberguard::web::{StatusSnapshot, SwitchEvent};

const SEC: u128 = 1_000_000_000;

fn score(v: f32) -> Score {
    Score {
        rank: Rank::At(v.to_bits() as i32),
        plain: format!("{v}"),
        whole: format!("{v:.0}"),
    }
}

fn calm() -> Tick {
    Tick {
        rssi: -60,
        freq: Some(5180),
        hold_rem: 0,
        hold_kind: None,
        in_home: true,
        best_pref: Some(-55),
        pen_rem: 0,
        lock_rem: 0,
        screen_off: false,
        in_grace: false,
        backoff_left: None,
        weak_disconnected: false,
        persisted: true,
        machine: State::Idle,
    }
}

fn settings() -> Config {
    let mut c = Config::default();
    c.home_aps = vec![HomeAp { bssid: "aa".into(), ssid: "HOME".into(), band: "5".into() }];
    c
}

#[test]
fn snapshot_is_written() {
    let s = StatusSnapshot::new("0.5.0");
    assert_eq!(
        s.to_json(),
        r#"{"rssi":-65,"score":50,"band":"2.4","state":"DISCONNECTED","ssid":"","power_state":"ON","last_error":"","thresholds":{"score_detect_threshold":70,"score_switch_threshold":30,"upswitch_rssi_min_dbm":-65,"mode":"daily"},"hold_remaining_secs":0,"hold_kind":"","user_hold_secs":60,"link_ctrl":"ok","home_ap_count":0,"in_home":true,"block_reason":"","penalty_remaining_secs":0,"screen":"ON","l3_last":"","bssid":"","threshold_hint":"","best_5g_rssi":null,"summary":"","bssid_lock_remaining_secs":0,"version":"0.5.0"}"#
    );
    let mut t = StatusSnapshot::new("\"v\"");
    t.best_5g_rssi = Some(-48);
    t.score = score(61.25);
    t.ssid = "a\"b".into();
    let j = t.to_json();
    assert!(j.contains(r#""best_5g_rssi":-48,"#) && j.contains(r#""score":61.25,"#));
    assert!(j.contains(r#""ssid":"a\"b","#) && j.ends_with(r#""version":"\"v\""}"#));
}

#[test]
fn readiness_steps() {
    let r = readiness(true, 2, vec!["HOME".into(), "HOME_5G".into()], "why");
    assert_eq!(
        r.to_json(),
        r#"{"persisted":true,"home_configured":true,"home_ap_count":2,"saved_ssids":["HOME","HOME_5G"],"steps":[{"id":"persist","ok":true,"title":"保存配置","hint":"config.toml 已存在"},{"id":"system_dual","ok":true,"title":"系统已保存双频网络","hint":"配对 HOME ↔ HOME_5G"},{"id":"home","ok":true,"title":"勾选家网 AP（建议）","hint":"已选 2 个"}],"block_reason":"why"}"#
    );
    let n = readiness(false, 0, vec![], "");
    assert!(!n.home_configured && n.saved_ssids.is_empty());
    assert_eq!(n.steps[0].hint, "点下方「初始化」写入默认并落盘");
    assert!(!n.steps[1].ok && !n.steps[2].ok);
    assert_eq!(n.steps[2].hint, "可选；多路由强烈建议。空=不限制");
}

#[test]
fn routes() {
    for (verb, path, r) in [
        (Verb::Get, "/api/status", Route::Status),
        (Verb::Post, "/api/status", Route::NotFound),
        (Verb::Get, "/api/history", Route::History),
        (Verb::Post, "/api/history/clear", Route::HistoryClear),
        (Verb::Get, "/api/history/clear", Route::HistoryClear),
        (Verb::Get, "/api/readiness", Route::Readiness),
        (Verb::Get, "/api/config", Route::ConfigGet),
        (Verb::Post, "/api/config", Route::ConfigSet),
        (Verb::Put, "/api/config", Route::ConfigSet),
        (Verb::Get, "/api/config/preset/stable", Route::Preset(Preset::Stable)),
        (Verb::Post, "/api/config/preset/daily", Route::Preset(Preset::Daily)),
        (Verb::Post, "/api/config/preset/sensitive", Route::Preset(Preset::Sensitive)),
        (Verb::Post, "/api/config/preset/none", Route::NotFound),
        (Verb::Get, "/api/mode/pause", Route::Mode(RunMode::Pause)),
        (Verb::Post, "/api/mode/daily", Route::Mode(RunMode::Daily)),
        (Verb::Get, "/api/mode/eco", Route::Mode(RunMode::Eco)),
        (Verb::Get, "/api/hold/clear", Route::HoldClear),
        (Verb::Post, "/api/soft-pause", Route::SoftPause),
        (Verb::Get, "/api/scan", Route::Scan),
        (Verb::Post, "/api/init-config", Route::InitConfig),
        (Verb::Post, "/api/config/reset", Route::ConfigReset),
        (Verb::Get, "/api/config/reset", Route::NotFound),
        (Verb::Post, "/api/notify/test", Route::NotifyTest),
        (Verb::Post, "/api/connect", Route::Connect),
        (Verb::Get, "/api/connect", Route::NotFound),
        (Verb::Get, "/api/logs", Route::Logs),
        (Verb::Get, "/api/logs/clear", Route::LogsClear),
        (Verb::Get, "/", Route::Index),
        (Verb::Get, "/index.html", Route::Index),
        (Verb::Options, "/api/config", Route::Preflight),
        (Verb::Options, "/x", Route::Preflight),
        (Verb::Get, "/panel", Route::Fallback),
        (Verb::Post, "/", Route::Fallback),
        (Verb::Other, "/api/x", Route::NotFound),
        (Verb::Other, "/x", Route::Fallback),
    ] {
        assert_eq!(route(verb, path), r, "{verb:?} {path}");
    }
    assert_eq!((Preset::Daily.id(), Preset::Stable.id(), Preset::Sensitive.id()), ("daily", "stable", "sensitive"));
    assert_eq!((RunMode::Pause.as_str(), RunMode::Daily.as_str(), RunMode::Eco.as_str()), ("pause", "daily", "eco"));
}

#[test]
fn queries() {
    assert_eq!(path_of("/api/logs?lines=5?x"), "/api/logs");
    assert_eq!(path_of("/api"), "/api");
    assert_eq!(query_number("/a?x=1&mins=7", "mins", u64::MAX), Some(7));
    // The first one that is a number counts; what follows a second question mark does not.
    assert_eq!(query_number("/a?mins=x&mins=8", "mins", u64::MAX), Some(8));
    assert_eq!(query_number("/a?b?mins=8", "mins", u64::MAX), None);
    assert_eq!(query_number("/a", "mins", u64::MAX), None);
    assert_eq!(query_number("/a?mins", "mins", u64::MAX), None);
    assert_eq!(query_number("/a?mins=9", "mins", 8), None);
    assert_eq!(soft_pause_mins("/api/soft-pause"), 20);
    assert_eq!(soft_pause_mins("/api/soft-pause?mins=0"), 1);
    assert_eq!(soft_pause_mins("/api/soft-pause?mins=45"), 45);
    assert_eq!(soft_pause_mins("/api/soft-pause?mins=999"), 180);
    assert_eq!(log_lines("/api/logs"), 200);
    assert_eq!(log_lines("/api/logs?lines=1"), 20);
    assert_eq!(log_lines("/api/logs?lines=99999"), 2000);
}

#[test]
fn connect_requests() {
    let r = connect_request(r#"{"bssid":"aa:bb","x":1,"ssid":"café"}"#).unwrap();
    assert_eq!((r.ssid.as_str(), r.bssid.as_str()), ("café", "aa:bb"));
    assert_eq!(r.bssid_arg(), Some("aa:bb"));
    assert_eq!(r.reply(), r#"{"ok":true,"ssid":"café","bssid":"aa:bb"}"#);
    let plain = connect_request(r#"{"ssid":"HOME","bssid":7}"#).unwrap();
    assert_eq!(plain.bssid_arg(), None);
    for body in ["", "not json", "[]", "{}", r#"{"ssid":5}"#, r#"{"ssid":""}"#, r#"{"ssid":"a"} x"#] {
        assert!(connect_request(body).is_err(), "{body}");
    }
    assert_eq!(checked_connect(None, None).unwrap_err(), r#"{"ok":false,"error":"ssid is required"}"#);
    assert_eq!(checked_connect(Some("a".into()), None).unwrap().bssid, "");
    assert_eq!(hold_after_connect(0, SEC), None);
    assert_eq!(hold_after_connect(60, SEC).unwrap().until, 61 * SEC);
    assert_eq!(hold_after_connect(60, SEC).unwrap().kind, HoldKind::Manual);
}

#[test]
fn replies_of_the_panel() {
    assert_eq!(error_reply("校验: x"), r#"{"ok":false,"error":"校验: x"}"#);
    assert_eq!(mode_reply(RunMode::Eco), r#"{"ok":true,"mode":"eco"}"#);
    assert_eq!(soft_pause_reply(20), r#"{"ok":true,"mins":20,"hold_remaining_secs":1200,"hold_kind":"soft_pause"}"#);
    assert_eq!(history_reply(&[]), r#"{"ok":true,"events":[]}"#);
    let e = SwitchEvent {
        ts_unix: 1,
        from_ssid: "a".into(),
        to_ssid: "b".into(),
        from_band: "5".into(),
        to_band: "2.4".into(),
        reason: "Score".into(),
        result: "Ok".into(),
        duration_ms: 2,
    };
    assert_eq!(history_reply(&[e.clone()]), format!(r#"{{"ok":true,"events":[{}]}}"#, e.to_json()));
}

#[test]
fn snapshot_follows_the_settings() {
    let mut s = StatusSnapshot::new("1");
    let mut c = settings();
    c.mode = "pause".into();
    c.user_hold_secs = 7;
    s.last_error = "x".into();
    s.on_config_saved(&c);
    assert_eq!((s.power_state.as_str(), s.thresholds.mode.as_str(), s.last_error.as_str()), ("PAUSE", "pause", ""));
    assert_eq!(s.user_hold_secs, 60);
    c.mode = "eco".into();
    s.on_config_saved(&c);
    assert_eq!(s.power_state, "ON");
    s.on_settings(&c);
    assert_eq!(s.user_hold_secs, 7);
    s.on_mode(RunMode::Pause);
    assert_eq!((s.power_state.as_str(), s.thresholds.mode.as_str()), ("PAUSE", "pause"));
    s.on_mode(RunMode::Daily);
    assert_eq!((s.power_state.as_str(), s.thresholds.mode.as_str()), ("ON", "daily"));
    c.apply_preset("stable").unwrap();
    s.on_thresholds(&c);
    assert_eq!(s.thresholds.score_switch_threshold.plain, "22");
    c.mode = "pause".into();
    s.on_start(&c);
    assert_eq!((s.power_state.as_str(), s.thresholds.mode.as_str()), ("PAUSE", "pause"));
}

#[test]
fn snapshot_follows_holds() {
    let mut s = StatusSnapshot::new("1");
    let line = s.on_soft_pause(2);
    assert_eq!(line, "AmberGuard · 日用 · 未连接 · 2.4G · 分50 · 观影保护中（剩 120s，不自动切网）");
    assert_eq!((s.hold_remaining_secs, s.hold_kind.as_str()), (120, "soft_pause"));
    assert_eq!(s.power_state, "SOFT_PAUSE(120s)");
    assert_eq!(s.summary, "观影保护 · 120s（可点结束保护）");
    let line = s.on_hold_cleared();
    assert_eq!(line, "AmberGuard · 日用 · 未连接 · 2.4G · 分50 · ON");
    assert_eq!((s.hold_remaining_secs, s.hold_kind.as_str()), (0, ""));
    assert_eq!((s.power_state.as_str(), s.block_reason.as_str(), s.summary.as_str()), ("ON", "", ""));
    s.power_state = "PAUSE".into();
    s.on_hold_cleared();
    assert_eq!(s.power_state, "PAUSE");
}

#[test]
fn bands_and_gaps() {
    assert_eq!((band_of(Some(5180)), band_of(Some(5000)), band_of(None)), ("5", "2.4", "?"));
    let mut c = Config::default();
    assert!(preferred_is_5g(&c));
    c.preferred_band = "".into();
    assert!(preferred_is_5g(&c));
    c.preferred_band = "2.4".into();
    assert!(!preferred_is_5g(&c));
    assert!(is_on_preferred(true, Some(5180)) && is_on_preferred(false, Some(2412)));
    assert!(!is_on_preferred(true, Some(2412)) && !is_on_preferred(false, None));
    assert_eq!(scan_gap(true, true, true), 60);
    assert_eq!((scan_gap(false, true, true), scan_gap(false, true, false)), (12, 30));
    assert_eq!((scan_gap(false, false, true), scan_gap(false, false, false)), (8, 15));
    assert_eq!(sample_gap(true, State::Idle), 1);
    assert_eq!((sample_gap(false, State::GradientDetect), sample_gap(false, State::Switching)), (1, 1));
    assert_eq!((sample_gap(false, State::Idle), sample_gap(false, State::Penalty)), (3, 3));
    for s in [State::Idle, State::GradientDetect, State::Switching, State::Penalty, State::Frozen] {
        assert_eq!(state_text(s), format!("{s:?}"));
    }
}

#[test]
fn reasons_in_their_order() {
    let mut t = Tick {
        hold_rem: 9,
        hold_kind: Some(HoldKind::Manual),
        in_home: false,
        pen_rem: 8,
        lock_rem: 7,
        screen_off: true,
        in_grace: true,
        backoff_left: Some(6),
        weak_disconnected: true,
        persisted: false,
        ..calm()
    };
    assert_eq!(block_reason(&t, true, 1), "已暂停守护");
    assert_eq!(block_reason(&t, false, 1), "手切保护中（剩 9s，不自动切网）");
    t.hold_kind = None;
    assert_eq!(block_reason(&t, false, 1), "切换冷却中（剩 8s）");
    t.pen_rem = 0;
    assert_eq!(block_reason(&t, false, 1), "息屏降频，不主动切网");
    t.screen_off = false;
    assert_eq!(block_reason(&t, false, 1), "亮屏冷静窗，暂不切网");
    t.in_grace = false;
    assert_eq!(block_reason(&t, false, 1), "短时锁定当前 AP（防踢回，剩 7s）");
    t.lock_rem = 0;
    assert_eq!(block_reason(&t, false, 1), "目标连失败多次，退避中（剩 6s，避免系统停用网络）");
    t.backoff_left = None;
    assert_eq!(block_reason(&t, false, 1), "当前不在家网");
    assert_eq!(block_reason(&t, false, 0), "弱信号已断开");
    t.weak_disconnected = false;
    assert_eq!(block_reason(&t, false, 0), "配置未落盘（可用默认运行）");
    t.persisted = true;
    assert_eq!(block_reason(&t, false, 0), "");
}

#[test]
fn snapshot_follows_a_look() {
    let mut s = StatusSnapshot::new("1");
    let c = settings();
    let line = s.on_tick(&calm(), &c, "COMPLETED", "HOME", "aa", &score(82.5));
    assert_eq!(line, "AmberGuard · 日用 · HOME · 5G · 分82 · 守护中");
    assert_eq!((s.state.as_str(), s.rssi, s.ssid.as_str(), s.bssid.as_str()), ("COMPLETED", -60, "HOME", "aa"));
    assert_eq!((s.band.as_str(), s.score.plain.as_str(), s.link_ctrl.as_str()), ("5", "82.5", "ok"));
    assert_eq!((s.home_ap_count, s.in_home, s.best_5g_rssi), (1, true, Some(-55)));
    assert_eq!(s.threshold_hint, "偏好稳定带：分 82 ≥ 观察线 70（-60 dBm）→ 守护中");
    assert_eq!((s.summary.as_str(), s.screen.as_str(), s.power_state.as_str()), ("5G 良好 · 日用守护中", "ON", "Idle"));
    let held = Tick { hold_rem: 5, hold_kind: Some(HoldKind::Manual), ..calm() };
    s.on_tick(&held, &c, "COMPLETED", "HOME", "aa", &score(82.5));
    assert_eq!((s.power_state.as_str(), s.hold_kind.as_str()), ("USER_HOLD(5s)", "manual"));
    assert_eq!(s.summary, "手切保护 · 5s（可点结束保护）");
    s.on_tick(&Tick { in_home: false, ..calm() }, &c, "COMPLETED", "X", "bb", &score(82.5));
    assert_eq!(s.power_state, "OUT_OF_HOME");
    s.on_tick(&Tick { screen_off: true, ..calm() }, &c, "COMPLETED", "X", "bb", &score(82.5));
    assert_eq!((s.power_state.as_str(), s.screen.as_str()), ("SCREEN_OFF", "OFF"));
    s.on_tick(&Tick { weak_disconnected: true, ..calm() }, &c, "DISCONNECTED", "", "", &score(82.5));
    assert_eq!(s.power_state, "WEAK_OFF");
    s.on_paused();
    s.on_tick(&calm(), &c, "COMPLETED", "HOME", "aa", &score(82.5));
    assert_eq!(s.power_state, "PAUSE");
}

#[test]
fn snapshot_follows_an_outage() {
    let mut s = StatusSnapshot::new("1");
    let mut c = settings();
    s.power_state = "USER_HOLD(5s)".into();
    let line = s.on_outage(&Outage { hold_rem: 0, hold_kind: None, screen_off: false }, &c);
    assert_eq!(line, "AmberGuard · 日用 · 未连接 · 2.4G · 分50 · 链路控制异常，正在重连 wpa");
    assert_eq!((s.power_state.as_str(), s.link_ctrl.as_str(), s.summary.as_str()), ("ON", "reconnect", "链路控制 · 重连中"));
    s.on_reconnect(Some("gone"));
    assert_eq!((s.link_ctrl.as_str(), s.block_reason.as_str()), ("fail", "链路控制重连失败：gone"));
    s.on_reconnect(None);
    assert_eq!(s.link_ctrl, "ok");
    s.on_outage(&Outage { hold_rem: 0, hold_kind: None, screen_off: true }, &c);
    assert_eq!((s.power_state.as_str(), s.summary.as_str(), s.block_reason.as_str()), ("SCREEN_OFF", "息屏降频", "息屏降频，不主动切网"));
    s.on_reconnect(Some("gone"));
    assert_eq!(s.block_reason, "息屏降频，不主动切网");
    c.mode = "pause".into();
    s.on_outage(&Outage { hold_rem: 3, hold_kind: Some(HoldKind::SoftPause), screen_off: true }, &c);
    assert_eq!((s.power_state.as_str(), s.block_reason.as_str()), ("SOFT_PAUSE(3s)", "已暂停守护"));
    s.on_outage(&Outage { hold_rem: 0, hold_kind: None, screen_off: true }, &c);
    assert_eq!(s.power_state, "PAUSE");
}

#[test]
fn snapshot_follows_switches() {
    let mut s = StatusSnapshot::new("1");
    s.on_error("e");
    assert_eq!(s.last_error, "e");
    s.on_weak_restored();
    assert_eq!(s.last_error, "e");
    s.on_weak_off("弱信号已断开");
    assert_eq!((s.last_error.as_str(), s.power_state.as_str()), ("弱信号已断开", "WEAK_OFF"));
    s.on_weak_restored();
    assert_eq!(s.last_error, "");
    s.on_unselectable("m");
    assert_eq!((s.last_error.as_str(), s.block_reason.as_str()), ("m", "对侧网络无法选中（或已停用）"));
    s.on_no_target("why", "hint".into(), Some(-70));
    assert_eq!((s.last_error.as_str(), s.block_reason.as_str()), ("why", "why"));
    assert_eq!((s.threshold_hint.as_str(), s.best_5g_rssi), ("hint", Some(-70)));
    s.on_l3("portal:x".into());
    assert_eq!(s.l3_last, "portal:x");
    s.on_update("new");
    assert_eq!((s.summary.as_str(), s.ongoing_text(9).as_str()), ("new", "new"));
    s.summary = "".into();
    assert_eq!(s.ongoing_text(9), "未连接");
    s.state = "COMPLETED".into();
    s.ssid = "HOME".into();
    assert_eq!(s.ongoing_text(9), "HOME · -65dBm · 分9");
    s.on_offline(0);
    assert_eq!((s.rssi, s.score.plain.as_str(), s.state.as_str(), s.band.as_str()), (-55, "42", "OFFLINE", "2.4"));
    s.on_offline(23);
    assert_eq!((s.rssi, s.band.as_str()), (-58, "5"));
}

#[test]
fn probe_addresses() {
    assert_eq!((endpoint(0).host, endpoint(0).port, endpoint(0).path), ("connect.rom.miui.com", 80, "/generate_204"));
    assert_eq!((endpoint(1).host, endpoint(1).path), ("connectivitycheck.gstatic.com", "/generate_204"));
    assert_eq!((endpoint(2).host, endpoint(2).path), ("www.msftconnecttest.com", "/connecttest.txt"));
    assert_eq!((bare_address(0), bare_address(1), bare_address(2)), ("223.5.5.5:80", "223.5.5.5:53", "1.1.1.1:80"));
    assert_eq!(request_text("/p", "h"), "GET /p HTTP/1.0\r\nHost: h\r\nConnection: close\r\n\r\n");
}

#[test]
fn probe_replies() {
    let one = "/generate_204";
    let ok = |k: L3Kind| Ok::<L3Kind, (L3Kind, String)>(k);
    let err = |k: L3Kind, s: &str| Err::<L3Kind, (L3Kind, String)>((k, s.to_string()));
    assert_eq!(classify_line(one, "HTTP/1.1 204 No Content"), ok(L3Kind::Online));
    assert_eq!(classify_line(one, "HTTP/1.1 200 OK"), ok(L3Kind::Portal));
    assert_eq!(classify_line("/connecttest.txt", "HTTP/1.1 200 OK"), ok(L3Kind::Online));
    assert_eq!(classify_line(one, "HTTP/1.1 302 Found"), ok(L3Kind::Portal));
    assert_eq!(classify_line(one, "HTTP/1.1 500 Oops"), err(L3Kind::Portal, "状态行: HTTP/1.1 500 Oops"));
    assert_eq!(classify_line(one, "SSH-2.0"), err(L3Kind::Timeout, "非 HTTP: SSH-2.0"));
    assert_eq!(l3_reply(one, &vec![]), err(L3Kind::Timeout, "空响应"));
    assert_eq!(l3_reply(one, &b"HTTP/1.0 204 \xff\r\nX: y\r\n".to_vec()), ok(L3Kind::Online));
    assert_eq!(l3_reply(one, &b"junk \xff\nHTTP/1.0 204".to_vec()), err(L3Kind::Timeout, "非 HTTP: junk \u{fffd}"));
    assert_eq!(dns_failure("h", "无结果"), err(L3Kind::Unreachable, "DNS h: 无结果"));
    assert_eq!(connect_failure("h", "connection timed out"), err(L3Kind::Timeout, "connect h: connection timed out"));
    assert_eq!(connect_failure("h", "refused (os error 111)"), err(L3Kind::Unreachable, "connect h: refused (os error 111)"));
    assert_eq!(connect_failure("h", "os error 110"), err(L3Kind::Timeout, "connect h: os error 110"));
    assert_eq!(io_failure("read", "x"), err(L3Kind::Timeout, "read: x"));
}

fn done(p: &L3Probe) -> Result<L3Kind, (L3Kind, String)> {
    match p.action() {
        L3Action::Done(r) => r,
        _ => panic!("the probe goes on"),
    }
}

#[test]
fn probes_come_to_an_end() {
    let mut p = L3Probe::new();
    assert!(matches!(p.action(), L3Action::Http(0)));
    p.after_http(dns_failure("h", "x"));
    assert!(matches!(p.action(), L3Action::Http(1)));
    p.after_http(Ok(L3Kind::Online));
    assert_eq!(done(&p), Ok(L3Kind::Online));

    let mut p = L3Probe::new();
    p.after_http(Ok(L3Kind::Portal));
    p.after_http(dns_failure("h", "x"));
    p.after_http(dns_failure("h", "x"));
    assert_eq!(done(&p), Err((L3Kind::Portal, "connect.rom.miui.com 非 204".to_string())));

    let mut p = L3Probe::new();
    for _ in 0..3 {
        p.after_http(dns_failure("h", "x"));
    }
    assert!(matches!(p.action(), L3Action::Tcp(0)));
    p.after_tcp(false);
    assert!(matches!(p.action(), L3Action::Tcp(1)));
    p.after_tcp(false);
    p.after_tcp(false);
    assert_eq!(done(&p), Err((L3Kind::Unreachable, "DNS h: x".to_string())));
    for k in [L3Kind::Online, L3Kind::Portal, L3Kind::Timeout, L3Kind::Unreachable, L3Kind::Skip] {
        assert!(k.hist_result().starts_with("Ok"));
    }
    assert_eq!((L3Kind::Unreachable.as_prefix(), L3Kind::Skip.as_prefix()), ("net", "skip"));
}
