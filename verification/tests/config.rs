use amberguard::band_bond::HomeAp;
use amberguard::config::{
    normalize_home_aps, Config, ConfigError, ConfigPatch, ANDROID_CONFIG_PATH, MAX_HOME_APS,
};
use amberguard::score::{score_of_whole, Rank, Score};

#[test]
fn apply_patch_updates_notification_fields() {
    let mut config = Config::default();
    config
        .apply_patch(ConfigPatch {
            notify_enable: Some(false),
            notify_switch: Some(false),
            notify_weak: Some(true),
            notify_ongoing_secs: Some(45),
            ..ConfigPatch::default()
        })
        .expect("notification patch should validate");

    assert!(!config.notify_enable);
    assert!(!config.notify_switch);
    assert!(config.notify_weak);
    assert_eq!(config.notify_ongoing_secs, 45);
}

#[test]
fn preset_descriptions_are_preference_neutral() {
    assert!(Config::presets()
        .iter()
        .all(|preset| !preset.desc.contains("5G")));
}

fn home(bssid: &str, band: &str) -> HomeAp {
    HomeAp { bssid: bssid.into(), ssid: "HOME".into(), band: band.into() }
}

fn refusal(p: ConfigPatch) -> String {
    let mut config = Config::default();
    let before = config.clone();
    let e = config.apply_patch(p).expect_err("the patch is refused");
    assert_eq!(config.mode, before.mode);
    assert_eq!(config.user_hold_secs, before.user_hold_secs);
    assert_eq!(config.score_detect_threshold.plain, before.score_detect_threshold.plain);
    e.text()
}

#[test]
fn defaults() {
    let c = Config::default();
    assert_eq!(c.interface, "wlan0");
    assert_eq!(c.listen, "127.0.0.1:8080");
    assert_eq!(c.upswitch_rssi_min_dbm, -65);
    assert_eq!(c.score_detect_threshold.plain, "70");
    assert_eq!(c.score_switch_threshold.plain, "30");
    assert_eq!(c.wpa_ctrl_path, None);
    assert!(c.home_aps.is_empty());
    assert!(!c.allow_weak_off_home);
    assert_eq!((c.mode.as_str(), c.log_level.as_str()), ("daily", "info"));
    assert_eq!(c.user_hold_secs, 60);
    assert_eq!((c.weak_action.as_str(), c.rssi_disconnect_dbm, c.weak_hold_secs), ("off", -90, 15));
    assert!(c.auto_reconnect && c.l3_probe_enable && c.roam_enable);
    assert_eq!(c.preferred_band, "5");
    assert_eq!((c.bssid_lock_secs, c.roam_margin_db, c.roam_hold_secs), (45, 12, 6));
    assert!(c.notify_enable && c.notify_switch && !c.notify_weak);
    assert_eq!(c.notify_ongoing_secs, 0);
    assert!(c.soft_auto_enable && c.bssid_memory_enable);
    assert_eq!((c.soft_auto_on_kb, c.soft_auto_off_kb), (400, 80));
    assert_eq!((c.soft_auto_trigger_secs, c.soft_auto_release_secs), (12, 45));
    assert_eq!((c.soft_auto_max_mins, c.bssid_demote_secs), (240, 1800));
    assert!(c.validate().is_ok());
}

#[test]
fn patched_numbers_are_brought_into_range() {
    let mut c = Config::default();
    c.apply_patch(ConfigPatch {
        score_detect_threshold: Some(score_of_whole(99)),
        score_switch_threshold: Some(score_of_whole(8)),
        upswitch_rssi_min_dbm: Some(-20),
        user_hold_secs: Some(301),
        rssi_disconnect_dbm: Some(-120),
        weak_hold_secs: Some(1),
        bssid_lock_secs: Some(999),
        roam_margin_db: Some(100),
        roam_hold_secs: Some(0),
        notify_ongoing_secs: Some(301),
        soft_auto_on_kb: Some(9000),
        soft_auto_off_kb: Some(1),
        soft_auto_trigger_secs: Some(100),
        soft_auto_release_secs: Some(1),
        soft_auto_max_mins: Some(2000),
        bssid_demote_secs: Some(1),
        ..ConfigPatch::default()
    })
    .unwrap();
    assert_eq!(c.score_detect_threshold.plain, "95");
    assert_eq!(c.score_switch_threshold.plain, "10");
    assert_eq!(c.upswitch_rssi_min_dbm, -40);
    assert_eq!(c.user_hold_secs, 300);
    assert_eq!((c.rssi_disconnect_dbm, c.weak_hold_secs), (-95, 5));
    assert_eq!(c.bssid_lock_secs, 300);
    assert_eq!((c.roam_margin_db, c.roam_hold_secs), (25, 2));
    assert_eq!(c.notify_ongoing_secs, 300);
    assert_eq!((c.soft_auto_on_kb, c.soft_auto_off_kb), (5000, 20));
    assert_eq!((c.soft_auto_trigger_secs, c.soft_auto_release_secs), (60, 10));
    assert_eq!((c.soft_auto_max_mins, c.bssid_demote_secs), (1440, 300));
}

#[test]
fn patched_texts_are_normalised() {
    let mut c = Config::default();
    c.apply_patch(ConfigPatch {
        mode: Some("ECO".into()),
        log_level: Some("WARN".into()),
        weak_action: Some("Disconnect".into()),
        preferred_band: Some(" 2.4G ".into()),
        interface: Some("".into()),
        ..ConfigPatch::default()
    })
    .unwrap();
    assert_eq!((c.mode.as_str(), c.log_level.as_str()), ("eco", "warn"));
    assert_eq!((c.weak_action.as_str(), c.preferred_band.as_str()), ("disconnect", "2.4"));
    assert_eq!(c.interface, "wlan0");
    c.apply_patch(ConfigPatch {
        interface: Some("wlan1".into()),
        preferred_band: Some("5GHz".into()),
        ..ConfigPatch::default()
    })
    .unwrap();
    assert_eq!((c.interface.as_str(), c.preferred_band.as_str()), ("wlan1", "5"));
}

#[test]
fn refused_patches_change_nothing() {
    let other = || ConfigPatch { user_hold_secs: Some(5), ..ConfigPatch::default() };
    assert_eq!(
        refusal(ConfigPatch { mode: Some("fast".into()), ..other() }),
        "校验: mode 只能是 daily / eco / pause"
    );
    assert_eq!(
        refusal(ConfigPatch { log_level: Some("trace".into()), ..other() }),
        "校验: log_level 只能是 error/warn/info/debug"
    );
    assert_eq!(
        refusal(ConfigPatch { weak_action: Some("x".into()), ..other() }),
        "校验: weak_action 只能是 off 或 disconnect"
    );
    assert_eq!(
        refusal(ConfigPatch { preferred_band: Some("6".into()), ..other() }),
        "校验: preferred_band 只能是 5 或 2.4"
    );
    assert_eq!(
        refusal(ConfigPatch {
            score_switch_threshold: Some(score_of_whole(70)),
            score_detect_threshold: Some(score_of_whole(50)),
            ..other()
        }),
        "校验: 下切阈值(70) 必须小于 梯度检测阈值(50)"
    );
    assert_eq!(
        refusal(ConfigPatch {
            soft_auto_on_kb: Some(100),
            soft_auto_off_kb: Some(100),
            ..other()
        }),
        "校验: 触发速率(100 KB/s) 必须大于 解除速率(100 KB/s)"
    );
}

#[test]
fn empty_patch_changes_nothing() {
    let mut c = Config::default();
    c.home_aps = vec![home("AA:BB:CC:DD:EE:01", "")];
    c.apply_patch(ConfigPatch::default()).unwrap();
    assert_eq!(c.home_aps[0].bssid, "AA:BB:CC:DD:EE:01");
    assert_eq!(c.home_aps[0].band, "");
    assert_eq!(c.mode, "daily");
}

#[test]
fn home_groups_are_normalised() {
    let list = vec![
        home(" AA:BB:CC:DD:EE:01 ", ""),
        home("aa:bb:cc:dd:ee:01", "5"),
        home("short", "5"),
        home("AA:BB:CC:DD:EE:0Ë", "2.4"),
    ];
    let out = normalize_home_aps(list);
    assert_eq!(out.len(), 2);
    assert_eq!((out[0].bssid.as_str(), out[0].band.as_str()), ("aa:bb:cc:dd:ee:01", "auto"));
    assert_eq!((out[1].bssid.as_str(), out[1].band.as_str()), ("aa:bb:cc:dd:ee:0ë", "2.4"));
    let many: Vec<HomeAp> = (0..40).map(|i| home(&format!("aa:bb:cc:dd:ee:{i:02}"), "5")).collect();
    assert_eq!(normalize_home_aps(many).len(), MAX_HOME_APS);
}

#[test]
fn error_texts() {
    assert_eq!(ConfigError::Io("gone".into()).text(), "IO: gone");
    assert_eq!(ConfigError::TomlDe("bad".into()).text(), "TOML 解析: bad");
    assert_eq!(ConfigError::TomlSer("bad".into()).text(), "TOML 序列化: bad");
    assert_eq!(ConfigError::Validate("x".into()).text(), "校验: x");
}

#[test]
fn weak_action_is_validated_without_regard_to_case() {
    let mut c = Config::default();
    c.weak_action = "DISCONNECT".into();
    assert!(c.validate().is_ok());
    c.weak_action = "maybe".into();
    assert_eq!(c.validate().unwrap_err().text(), "校验: weak_action 只能是 off 或 disconnect");
}

#[test]
fn thresholds_that_are_no_numbers_pass() {
    let mut c = Config::default();
    c.score_switch_threshold =
        Score { rank: Rank::NotANumber, plain: "NaN".into(), whole: "NaN".into() };
    assert!(c.validate().is_ok());
}

#[test]
fn presets_set_three_thresholds() {
    let mut c = Config::default();
    c.apply_preset("stable").unwrap();
    assert_eq!(c.score_detect_threshold.plain, "60");
    assert_eq!(c.score_switch_threshold.plain, "22");
    assert_eq!(c.upswitch_rssi_min_dbm, -58);
    c.apply_preset("sensitive").unwrap();
    assert_eq!(c.score_detect_threshold.plain, "78");
    assert_eq!(c.score_switch_threshold.plain, "42");
    assert_eq!(c.upswitch_rssi_min_dbm, -70);
    c.apply_preset("daily").unwrap();
    assert_eq!(c.score_switch_threshold.plain, "30");
    assert_eq!(c.mode, "daily");
    assert_eq!(c.apply_preset("none").unwrap_err().text(), "校验: 未知预设: none");
    c.weak_action = "x".into();
    assert!(c.apply_preset("stable").is_err());
    assert_eq!(c.score_switch_threshold.plain, "22");
}

#[test]
fn every_preset_is_valid() {
    for p in Config::presets() {
        let mut c = Config::default();
        assert!(c.apply_preset(p.id).is_ok());
        assert!(p.score_switch_threshold.rank.below(p.score_detect_threshold.rank));
    }
}

#[test]
fn guide_for_the_panel() {
    let fields = Config::field_meta();
    assert_eq!(
        fields.iter().map(|f| (f.key, f.default, f.min, f.max, f.step)).collect::<Vec<_>>(),
        [
            ("score_switch_threshold", 30, 10, 80, 1),
            ("upswitch_rssi_min_dbm", -65, -85, -40, 1),
            ("score_detect_threshold", 70, 40, 95, 1),
            ("user_hold_secs", 60, 0, 300, 5),
            ("rssi_disconnect_dbm", -90, -95, -70, 1),
            ("weak_hold_secs", 15, 5, 60, 1),
        ]
    );
    assert_eq!(Config::tips().len(), 9);
    let mut c = Config::default();
    c.mode = "eco".into();
    let r = Config::api_response(&c, true);
    assert_eq!((r.config.mode.as_str(), r.defaults.mode.as_str()), ("eco", "daily"));
    assert_eq!((r.fields.len(), r.presets.len(), r.tips.len()), (6, 3, 9));
    assert!(r.persisted);
    assert!(!Config::api_response(&c, false).persisted);
}

#[test]
fn config_path() {
    assert_eq!(Config::resolve_path(true, false), ANDROID_CONFIG_PATH);
    assert_eq!(Config::resolve_path(false, true), "/data/adb/amberguard/config.toml");
    assert_eq!(Config::resolve_path(false, false), "amberguard_config.toml");
}

#[test]
fn loading_takes_the_whole_file() {
    assert_eq!(Config::load(None).mode, "daily");
    let mut file = Config::default();
    file.mode = "eco".into();
    file.preferred_band = "2G".into();
    file.weak_action = "x".into();
    let c = Config::load(Some(file));
    assert_eq!((c.mode.as_str(), c.preferred_band.as_str(), c.weak_action.as_str()), ("eco", "2G", "x"));
}

#[test]
fn reloading_takes_the_file_over() {
    let mut c = Config::default();
    c.reload(None);
    assert_eq!(c.mode, "daily");
    let mut file = Config::default();
    file.mode = "pause".into();
    file.preferred_band = "2G".into();
    file.home_aps = vec![home("AA:BB:CC:DD:EE:01", "")];
    file.roam_enable = false;
    file.roam_margin_db = 25;
    file.roam_hold_secs = 9;
    file.bssid_lock_secs = 1;
    file.allow_weak_off_home = true;
    file.notify_enable = false;
    file.notify_switch = false;
    file.notify_weak = true;
    file.notify_ongoing_secs = 30;
    c.reload(Some(file));
    // The home group and the band are put in order, the rest is as the file says.
    assert_eq!((c.mode.as_str(), c.preferred_band.as_str()), ("pause", "5"));
    assert_eq!((c.home_aps[0].bssid.as_str(), c.home_aps[0].band.as_str()), ("aa:bb:cc:dd:ee:01", "auto"));
    assert!(!c.roam_enable && c.allow_weak_off_home);
    assert_eq!((c.roam_margin_db, c.roam_hold_secs, c.bssid_lock_secs), (25, 9, 1));
    assert!(!c.notify_enable && !c.notify_switch && c.notify_weak);
    assert_eq!(c.notify_ongoing_secs, 30);
    let mut other = Config::default();
    other.preferred_band = "2.4".into();
    c.reload(Some(other));
    assert_eq!((c.preferred_band.as_str(), c.roam_margin_db), ("2.4", 12));
}
