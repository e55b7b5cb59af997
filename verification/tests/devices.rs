use amberguard::bssid_stats::{
    clear_all, get_demoted, record_fail, record_success, try_record_fail, BssidStat,
};
use amberguard::file_log::{
    last_lines, level_from_str, log_line, needs_rotation, resolve_log_path, tail, LogLevel,
};
use amberguard::notify::Notifier;
use amberguard::power_state::{
    detect_screen_raw, line_has, read_panel_backlight, read_wakefulness, PowerState,
    PowerStateManager,
};
use amberguard::text_map::TextMap;

const SEC: u128 = 1_000_000_000;

#[test]
fn third_failure_sets_an_access_point_back() {
    let mut m: TextMap<BssidStat> = TextMap::new();
    record_fail(&mut m, "AA:BB", 1800, 1000);
    record_fail(&mut m, "aa:bb", 1800, 1001);
    assert!(get_demoted(&m, 1001).is_empty());
    assert_eq!(m.get("aa:bb").unwrap().cooldown_until_unix, 0);
    record_fail(&mut m, "Aa:bB", 1800, 1002);
    let stat = m.get("aa:bb").unwrap();
    assert_eq!((stat.fail_count, stat.last_fail_unix, stat.cooldown_until_unix), (3, 1002, 2802));
    assert_eq!(get_demoted(&m, 2801), ["aa:bb"]);
    assert!(get_demoted(&m, 2802).is_empty());
    record_success(&mut m, "AA:BB");
    assert!(m.get("aa:bb").is_none());
    assert_eq!(m.len(), 0);
}

#[test]
fn failures_are_forgotten_together() {
    let mut m: TextMap<BssidStat> = TextMap::new();
    for _ in 0..3 {
        record_fail(&mut m, "a", 10, 0);
        record_fail(&mut m, "Ä", 10, 0);
    }
    assert_eq!(get_demoted(&m, 0), ["a", "ä"]);
    clear_all(&mut m);
    assert_eq!(m.len(), 0);
    let d = BssidStat::default();
    assert_eq!((d.fail_count, d.last_fail_unix, d.cooldown_until_unix), (0, 0, 0));
}

#[test]
fn full_record_stands_in_no_other_way() {
    let mut m: TextMap<BssidStat> = TextMap::new();
    m.insert("x".into(), BssidStat { fail_count: u32::MAX, last_fail_unix: 5, cooldown_until_unix: 9 });
    assert!(!try_record_fail(&mut m, "X", 10, 7));
    assert_eq!(m.get("x").unwrap().last_fail_unix, 5);
    record_fail(&mut m, "Y", 10, 7);
    assert!(try_record_fail(&mut m, "y", 10, 8));
    assert_eq!(m.get("y").unwrap().fail_count, 2);
    assert!(!try_record_fail(&mut m, "y", u64::MAX, 8));
    assert_eq!(m.get("y").unwrap().fail_count, 2);
}

#[test]
fn failure_after_a_success_is_the_first() {
    let mut m: TextMap<BssidStat> = TextMap::new();
    for _ in 0..3 {
        record_fail(&mut m, "AA:BB", 1800, 100);
    }
    assert_eq!(get_demoted(&m, 100), ["aa:bb"]);
    record_success(&mut m, "aA:Bb");
    assert!(get_demoted(&m, 100).is_empty());
    record_fail(&mut m, "Aa:bB", 1800, 101);
    assert_eq!(m.get("aa:bb").unwrap().fail_count, 1);
}

#[test]
fn text_maps_keep_one_value_per_key() {
    let mut m: TextMap<BssidStat> = TextMap::new();
    m.insert("a".into(), BssidStat::default());
    m.insert("b".into(), BssidStat::default());
    m.insert("a".into(), BssidStat { fail_count: 2, last_fail_unix: 0, cooldown_until_unix: 0 });
    assert_eq!(m.len(), 2);
    assert_eq!(m.get("a").unwrap().fail_count, 2);
    assert_eq!((m.key_at(0).as_str(), m.value_at(0).fail_count), ("a", 2));
    m.remove("a");
    m.remove("c");
    assert_eq!((m.len(), m.key_at(0).as_str()), (1, "b"));
}

#[test]
fn log_levels() {
    for (s, l) in [
        ("ERROR", LogLevel::Error),
        ("warn", LogLevel::Warn),
        ("Warning", LogLevel::Warn),
        ("debug", LogLevel::Debug),
        ("trace", LogLevel::Trace),
        ("info", LogLevel::Info),
        ("anything", LogLevel::Info),
    ] {
        assert_eq!(level_from_str(s), l);
    }
    assert_eq!(log_line(1700000000, LogLevel::Info, "amberguard", "ready"), "1700000000  INFO [amberguard] ready\n");
    assert_eq!(log_line(1, LogLevel::Error, "t", "m"), "1 ERROR [t] m\n");
    assert_eq!(log_line(1, LogLevel::Debug, "t", "m"), format!("1 {:>5} [t] m\n", "DEBUG"));
    assert_eq!(log_line(1, LogLevel::Warn, "t", "m"), format!("1 {:>5} [t] m\n", "WARN"));
    assert_eq!(log_line(1, LogLevel::Trace, "t", "m"), format!("1 {:>5} [t] m\n", "TRACE"));
}

#[test]
fn log_files() {
    assert!(!needs_rotation(1_048_575));
    assert!(needs_rotation(1_048_576));
    assert_eq!(resolve_log_path(true, false), "/data/adb/amberguard/log/amberguard.log");
    assert_eq!(resolve_log_path(false, true), "/data/adb/amberguard/log/amberguard.log");
    assert_eq!(resolve_log_path(false, false), "amberguard.log");
    assert_eq!(last_lines("a\nb\nc\n", 2), "b\nc\n");
    assert_eq!(last_lines("a\nb\nc", 2), "b\nc\n");
    assert_eq!(last_lines("a\nb", 2), "a\nb");
    assert_eq!(last_lines("a\nb", 0), "");
    assert_eq!(tail(Some("a\nb"), Some("x"), 1), "b\n");
    assert_eq!(tail(None, Some("x\ny"), 1), "y\n");
    assert_eq!(tail(None, None, 5), "");
}

#[test]
fn event_notices_are_numbered() {
    let mut n = Notifier::new();
    assert!(n.can_number());
    assert_eq!(
        n.event("T", "x"),
        [
            "notification", "post", "-S", "messaging", "--conversation", "amber_ev_1",
            "--message", "T：x", "-t", "T", "amber_ev_1", "T",
        ]
    );
    let second = n.test();
    assert_eq!(second[5], "amber_ev_2");
    assert_eq!(second[7], "AmberGuard：通知测试：如果你看到这条，说明通知功能正常工作。");
}

#[test]
fn ongoing_notice_is_throttled() {
    let mut n = Notifier::new();
    assert_eq!(n.ongoing("a", 0, 0), None);
    assert_eq!(
        n.ongoing("a", 30, 0).unwrap(),
        [
            "notification", "post", "--ongoing", "-t", "AmberGuard", "-channel", "amberguard",
            "amber_ongoing", "a",
        ]
    );
    assert_eq!(n.ongoing("a", 30, 30 * SEC - 1), None);
    assert!(n.ongoing("b", 30, 1).is_some());
    assert!(n.ongoing("b", 30, 30 * SEC + 1).is_some());
    assert_eq!(n.cancel_ongoing(), ["notification", "remove", "amber_ongoing"]);
    assert!(n.ongoing("b", 30, 31 * SEC).is_some());
}

#[test]
fn doubt_means_the_screen_is_on() {
    let (on, off) = (Some(PowerState::On), Some(PowerState::Off));
    for (bl, ds, r) in [
        (on, on, PowerState::On),
        (on, off, PowerState::On),
        (off, on, PowerState::On),
        (off, off, PowerState::Off),
        (None, off, PowerState::Off),
        (off, None, PowerState::On),
        (None, None, PowerState::On),
    ] {
        assert_eq!(detect_screen_raw(bl, ds), r);
    }
}

#[test]
fn screen_is_off_at_the_second_look() {
    let off = Some(PowerState::Off);
    let mut p = PowerStateManager::new();
    assert_eq!(p.current_state(off, off), PowerState::On);
    assert_eq!(p.current_state(off, off), PowerState::Off);
    assert_eq!(p.current_state(off, off), PowerState::Off);
    assert_eq!(p.current_state(Some(PowerState::On), off), PowerState::On);
    assert_eq!(p.current_state(off, off), PowerState::On);
}

#[test]
fn backlight_files() {
    let f = |v: &[&str]| read_panel_backlight(&v.iter().map(|s| s.to_string()).collect::<Vec<_>>());
    assert_eq!(f(&[]), None);
    assert_eq!(f(&["x"]), None);
    assert_eq!(f(&[" 0\n"]), Some(PowerState::Off));
    assert_eq!(f(&["0", " 12\n"]), Some(PowerState::On));
    assert_eq!(f(&["-3"]), Some(PowerState::Off));
}

#[test]
fn wakefulness_of_a_dump() {
    for (t, r) in [
        ("a\n  mWakefulness=Awake\n", Some(PowerState::On)),
        ("mWakefulness=Dozing", Some(PowerState::Off)),
        ("mWakefulness=Asleep", Some(PowerState::Off)),
        ("nothing", None),
    ] {
        assert_eq!(read_wakefulness(t), r, "{t}");
    }
    assert!(line_has("a\nbcd", "cd"));
    assert!(!line_has("a\nb", "a\nb"));
    let mut p = PowerStateManager::new();
    assert_eq!(p.cached_dump(0), None);
    assert_eq!(p.note_dump(&vec![], 0), None);
    assert_eq!(p.note_dump(&b"\xff mWakefulness=Asleep".to_vec(), 10 * SEC), Some(PowerState::Off));
    assert_eq!(p.cached_dump(12 * SEC - 1), Some(PowerState::Off));
    assert_eq!(p.cached_dump(12 * SEC), None);
}
