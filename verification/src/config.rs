//! The settings: their defaults, how a partial update changes them, and what is refused.

use crate::band_bond::{homes, HomeAp, HomeApModel};
use crate::numbers::{dec, u64_text};
use crate::score::{
    clamp_score, clamped_score, score_of_whole, whole_rank, whole_score, Rank, Score, ScoreModel,
};
use crate::text::{
    ascii_lower, byte_len, cat, len_bytes, lower_case, str_eq, to_ascii_lower, to_lowercase, trim,
    trimmed,
};
use vstd::prelude::*;
use vstd::string::*;

verus! {

/// Where the settings are kept on a phone.
pub const ANDROID_CONFIG_PATH: &'static str = "/data/adb/amberguard/config.toml";

/// Where the settings are kept elsewhere.
pub const DEV_CONFIG_PATH: &'static str = "amberguard_config.toml";

/// Most members that a home group can have.
pub const MAX_HOME_APS: usize = 16;

/// Why the settings could not be read, written or changed.
#[derive(Debug)]
pub enum ConfigError {
    Io(String),
    TomlDe(String),
    TomlSer(String),
    Validate(String),
}

impl ConfigError {
    /// What the error says.
    pub open spec fn message(&self) -> Seq<char> {
        match self {
            ConfigError::Io(s) => "IO: "@ + s@,
            ConfigError::TomlDe(s) => "TOML 解析: "@ + s@,
            ConfigError::TomlSer(s) => "TOML 序列化: "@ + s@,
            ConfigError::Validate(s) => "校验: "@ + s@,
        }
    }

    /// What the error says.
    pub fn text(&self) -> (r: String)
        ensures
            r@ == self.message(),
    {
        match self {
            ConfigError::Io(s) => cat("IO: ".to_owned(), s.as_str()),
            ConfigError::TomlDe(s) => cat("TOML 解析: ".to_owned(), s.as_str()),
            ConfigError::TomlSer(s) => cat("TOML 序列化: ".to_owned(), s.as_str()),
            ConfigError::Validate(s) => cat("校验: ".to_owned(), s.as_str()),
        }
    }
}

/// The settings.
#[derive(Debug)]
pub struct Config {
    pub interface: String,
    pub listen: String,
    /// Least signal in dBm that the preferred band must show before the link goes back to it.
    pub upswitch_rssi_min_dbm: i32,
    /// Score under which the link is watched and scanned for, without switching.
    pub score_detect_threshold: Score,
    /// Score under which the link leaves the preferred band. Below `score_detect_threshold`.
    pub score_switch_threshold: Score,
    pub wpa_ctrl_path: Option<String>,
    /// The home group. Where it is not empty, automatic switching stays inside it.
    pub home_aps: Vec<HomeAp>,
    /// Whether a weak link outside the home group may be rescued or dropped.
    pub allow_weak_off_home: bool,
    /// `daily`, `eco` (longer debouncing) or `pause` (watch only).
    pub mode: String,
    /// `error`, `warn`, `info` or `debug`.
    pub log_level: String,
    /// Seconds without automatic switching after the user has switched by hand; 0 for none.
    pub user_hold_secs: u64,
    /// What is done about a weak link: `off` or `disconnect`.
    pub weak_action: String,
    /// Signal in dBm under which a link is weak.
    pub rssi_disconnect_dbm: i32,
    /// Seconds for which a link must be weak before it is dropped.
    pub weak_hold_secs: u64,
    /// Whether to reconnect after dropping a link.
    pub auto_reconnect: bool,
    /// Whether to probe the Internet after a switch.
    pub l3_probe_enable: bool,
    /// `5` or `2.4`.
    pub preferred_band: String,
    /// Seconds for which the access point is kept after a switch; 0 for none.
    pub bssid_lock_secs: u64,
    /// Whether to move to a better access point on the preferred band.
    pub roam_enable: bool,
    /// How much stronger in dB the better access point must be.
    pub roam_margin_db: i32,
    /// Seconds for which the better access point must be seen.
    pub roam_hold_secs: u64,
    /// Whether there are notifications at all.
    pub notify_enable: bool,
    /// Whether switches are notified.
    pub notify_switch: bool,
    /// Whether the dropping of a weak link is notified.
    pub notify_weak: bool,
    /// Seconds between updates of the standing status; 0 for none.
    pub notify_ongoing_secs: u64,
    /// Whether heavy traffic protects the link from switching.
    pub soft_auto_enable: bool,
    /// Traffic in KB/s from which the protection starts.
    pub soft_auto_on_kb: u64,
    /// Traffic in KB/s under which the protection ends. Below `soft_auto_on_kb`.
    pub soft_auto_off_kb: u64,
    /// Seconds of heavy traffic before the protection starts.
    pub soft_auto_trigger_secs: u64,
    /// Seconds of light traffic before the protection ends.
    pub soft_auto_release_secs: u64,
    /// Longest protection at a stretch in minutes; 0 for no limit.
    pub soft_auto_max_mins: u64,
    /// Whether access points that failed are set back.
    pub bssid_memory_enable: bool,
    /// Seconds for which an access point that failed is set back.
    pub bssid_demote_secs: u64,
}

/// What a `Config` holds.
#[verifier::ext_equal]
pub struct ConfigModel {
    pub interface: Seq<char>,
    pub listen: Seq<char>,
    pub upswitch_rssi_min_dbm: i32,
    pub score_detect_threshold: ScoreModel,
    pub score_switch_threshold: ScoreModel,
    pub wpa_ctrl_path: Option<Seq<char>>,
    pub home_aps: Seq<HomeApModel>,
    pub allow_weak_off_home: bool,
    pub mode: Seq<char>,
    pub log_level: Seq<char>,
    pub user_hold_secs: u64,
    pub weak_action: Seq<char>,
    pub rssi_disconnect_dbm: i32,
    pub weak_hold_secs: u64,
    pub auto_reconnect: bool,
    pub l3_probe_enable: bool,
    pub preferred_band: Seq<char>,
    pub bssid_lock_secs: u64,
    pub roam_enable: bool,
    pub roam_margin_db: i32,
    pub roam_hold_secs: u64,
    pub notify_enable: bool,
    pub notify_switch: bool,
    pub notify_weak: bool,
    pub notify_ongoing_secs: u64,
    pub soft_auto_enable: bool,
    pub soft_auto_on_kb: u64,
    pub soft_auto_off_kb: u64,
    pub soft_auto_trigger_secs: u64,
    pub soft_auto_release_secs: u64,
    pub soft_auto_max_mins: u64,
    pub bssid_memory_enable: bool,
    pub bssid_demote_secs: u64,
}

/// The content of a text that may be there.
pub open spec fn opt_text(o: Option<String>) -> Option<Seq<char>> {
    match o {
        Some(s) => Some(s@),
        None => None,
    }
}

/// A copy of a text that may be there.
pub fn copy_opt_text(o: &Option<String>) -> (r: Option<String>)
    ensures
        opt_text(r) == opt_text(*o),
{
    match o {
        Some(s) => Some(s.clone()),
        None => None,
    }
}

/// A copy of a home group.
pub fn copy_homes(v: &Vec<HomeAp>) -> (r: Vec<HomeAp>)
    ensures
        homes(r@) == homes(v@),
{
    let mut out: Vec<HomeAp> = Vec::new();
    let mut i: usize = 0;
    while i < v.len()
        invariant
            i <= v@.len(),
            out@.len() == i,
            forall|x: int| 0 <= x < i ==> (#[trigger] out@[x])@ == v@[x]@,
        decreases v@.len() - i,
    {
        out.push(v[i].clone());
        i = i + 1;
    }
    assert(homes(out@) == homes(v@));
    out
}

impl View for Config {
    type V = ConfigModel;

    open spec fn view(&self) -> ConfigModel {
        ConfigModel {
            interface: self.interface@,
            listen: self.listen@,
            upswitch_rssi_min_dbm: self.upswitch_rssi_min_dbm,
            score_detect_threshold: self.score_detect_threshold@,
            score_switch_threshold: self.score_switch_threshold@,
            wpa_ctrl_path: opt_text(self.wpa_ctrl_path),
            home_aps: homes(self.home_aps@),
            allow_weak_off_home: self.allow_weak_off_home,
            mode: self.mode@,
            log_level: self.log_level@,
            user_hold_secs: self.user_hold_secs,
            weak_action: self.weak_action@,
            rssi_disconnect_dbm: self.rssi_disconnect_dbm,
            weak_hold_secs: self.weak_hold_secs,
            auto_reconnect: self.auto_reconnect,
            l3_probe_enable: self.l3_probe_enable,
            preferred_band: self.preferred_band@,
            bssid_lock_secs: self.bssid_lock_secs,
            roam_enable: self.roam_enable,
            roam_margin_db: self.roam_margin_db,
            roam_hold_secs: self.roam_hold_secs,
            notify_enable: self.notify_enable,
            notify_switch: self.notify_switch,
            notify_weak: self.notify_weak,
            notify_ongoing_secs: self.notify_ongoing_secs,
            soft_auto_enable: self.soft_auto_enable,
            soft_auto_on_kb: self.soft_auto_on_kb,
            soft_auto_off_kb: self.soft_auto_off_kb,
            soft_auto_trigger_secs: self.soft_auto_trigger_secs,
            soft_auto_release_secs: self.soft_auto_release_secs,
            soft_auto_max_mins: self.soft_auto_max_mins,
            bssid_memory_enable: self.bssid_memory_enable,
            bssid_demote_secs: self.bssid_demote_secs,
        }
    }
}

impl Clone for Config {
    fn clone(&self) -> (r: Self)
        ensures
            r@ == self@,
    {
        Config {
            interface: self.interface.clone(),
            listen: self.listen.clone(),
            upswitch_rssi_min_dbm: self.upswitch_rssi_min_dbm,
            score_detect_threshold: self.score_detect_threshold.clone(),
            score_switch_threshold: self.score_switch_threshold.clone(),
            wpa_ctrl_path: copy_opt_text(&self.wpa_ctrl_path),
            home_aps: copy_homes(&self.home_aps),
            allow_weak_off_home: self.allow_weak_off_home,
            mode: self.mode.clone(),
            log_level: self.log_level.clone(),
            user_hold_secs: self.user_hold_secs,
            weak_action: self.weak_action.clone(),
            rssi_disconnect_dbm: self.rssi_disconnect_dbm,
            weak_hold_secs: self.weak_hold_secs,
            auto_reconnect: self.auto_reconnect,
            l3_probe_enable: self.l3_probe_enable,
            preferred_band: self.preferred_band.clone(),
            bssid_lock_secs: self.bssid_lock_secs,
            roam_enable: self.roam_enable,
            roam_margin_db: self.roam_margin_db,
            roam_hold_secs: self.roam_hold_secs,
            notify_enable: self.notify_enable,
            notify_switch: self.notify_switch,
            notify_weak: self.notify_weak,
            notify_ongoing_secs: self.notify_ongoing_secs,
            soft_auto_enable: self.soft_auto_enable,
            soft_auto_on_kb: self.soft_auto_on_kb,
            soft_auto_off_kb: self.soft_auto_off_kb,
            soft_auto_trigger_secs: self.soft_auto_trigger_secs,
            soft_auto_release_secs: self.soft_auto_release_secs,
            soft_auto_max_mins: self.soft_auto_max_mins,
            bssid_memory_enable: self.bssid_memory_enable,
            bssid_demote_secs: self.bssid_demote_secs,
        }
    }
}

/// The settings to start from.
pub open spec fn default_config() -> ConfigModel {
    ConfigModel {
        interface: "wlan0"@,
        listen: "127.0.0.1:8080"@,
        upswitch_rssi_min_dbm: (-65) as i32,
        score_detect_threshold: whole_score(70),
        score_switch_threshold: whole_score(30),
        wpa_ctrl_path: None,
        home_aps: seq![],
        allow_weak_off_home: false,
        mode: "daily"@,
        log_level: "info"@,
        user_hold_secs: 60,
        weak_action: "off"@,
        rssi_disconnect_dbm: (-90) as i32,
        weak_hold_secs: 15,
        auto_reconnect: true,
        l3_probe_enable: true,
        preferred_band: "5"@,
        bssid_lock_secs: 45,
        roam_enable: true,
        roam_margin_db: 12,
        roam_hold_secs: 6,
        notify_enable: true,
        notify_switch: true,
        notify_weak: false,
        notify_ongoing_secs: 0,
        soft_auto_enable: true,
        soft_auto_on_kb: 400,
        soft_auto_off_kb: 80,
        soft_auto_trigger_secs: 12,
        soft_auto_release_secs: 45,
        soft_auto_max_mins: 240,
        bssid_memory_enable: true,
        bssid_demote_secs: 1800,
    }
}

impl Default for Config {
    fn default() -> (r: Self)
        ensures
            r@ == default_config(),
    {
        let home_aps: Vec<HomeAp> = Vec::new();
        assert(homes(home_aps@) == Seq::<HomeApModel>::empty());
        Config {
            interface: "wlan0".to_owned(),
            listen: "127.0.0.1:8080".to_owned(),
            upswitch_rssi_min_dbm: -65,
            score_detect_threshold: score_of_whole(70),
            score_switch_threshold: score_of_whole(30),
            wpa_ctrl_path: None,
            home_aps,
            allow_weak_off_home: false,
            mode: "daily".to_owned(),
            log_level: "info".to_owned(),
            user_hold_secs: 60,
            weak_action: "off".to_owned(),
            rssi_disconnect_dbm: -90,
            weak_hold_secs: 15,
            auto_reconnect: true,
            l3_probe_enable: true,
            preferred_band: "5".to_owned(),
            bssid_lock_secs: 45,
            roam_enable: true,
            roam_margin_db: 12,
            roam_hold_secs: 6,
            notify_enable: true,
            notify_switch: true,
            notify_weak: false,
            notify_ongoing_secs: 0,
            soft_auto_enable: true,
            soft_auto_on_kb: 400,
            soft_auto_off_kb: 80,
            soft_auto_trigger_secs: 12,
            soft_auto_release_secs: 45,
            soft_auto_max_mins: 240,
            bssid_memory_enable: true,
            bssid_demote_secs: 1800,
        }
    }
}

/// A partial update: only the fields that are given are changed.
#[derive(Debug)]
pub struct ConfigPatch {
    pub score_detect_threshold: Option<Score>,
    pub score_switch_threshold: Option<Score>,
    pub upswitch_rssi_min_dbm: Option<i32>,
    pub mode: Option<String>,
    pub log_level: Option<String>,
    pub home_aps: Option<Vec<HomeAp>>,
    pub interface: Option<String>,
    pub user_hold_secs: Option<u64>,
    pub weak_action: Option<String>,
    pub rssi_disconnect_dbm: Option<i32>,
    pub weak_hold_secs: Option<u64>,
    pub auto_reconnect: Option<bool>,
    pub l3_probe_enable: Option<bool>,
    pub preferred_band: Option<String>,
    pub bssid_lock_secs: Option<u64>,
    pub roam_enable: Option<bool>,
    pub roam_margin_db: Option<i32>,
    pub roam_hold_secs: Option<u64>,
    pub notify_enable: Option<bool>,
    pub notify_switch: Option<bool>,
    pub notify_weak: Option<bool>,
    pub notify_ongoing_secs: Option<u64>,
    pub allow_weak_off_home: Option<bool>,
    pub soft_auto_enable: Option<bool>,
    pub soft_auto_on_kb: Option<u64>,
    pub soft_auto_off_kb: Option<u64>,
    pub soft_auto_trigger_secs: Option<u64>,
    pub soft_auto_release_secs: Option<u64>,
    pub soft_auto_max_mins: Option<u64>,
    pub bssid_memory_enable: Option<bool>,
    pub bssid_demote_secs: Option<u64>,
}

/// What a `ConfigPatch` holds.
#[verifier::ext_equal]
pub struct ConfigPatchModel {
    pub score_detect_threshold: Option<ScoreModel>,
    pub score_switch_threshold: Option<ScoreModel>,
    pub upswitch_rssi_min_dbm: Option<i32>,
    pub mode: Option<Seq<char>>,
    pub log_level: Option<Seq<char>>,
    pub home_aps: Option<Seq<HomeApModel>>,
    pub interface: Option<Seq<char>>,
    pub user_hold_secs: Option<u64>,
    pub weak_action: Option<Seq<char>>,
    pub rssi_disconnect_dbm: Option<i32>,
    pub weak_hold_secs: Option<u64>,
    pub auto_reconnect: Option<bool>,
    pub l3_probe_enable: Option<bool>,
    pub preferred_band: Option<Seq<char>>,
    pub bssid_lock_secs: Option<u64>,
    pub roam_enable: Option<bool>,
    pub roam_margin_db: Option<i32>,
    pub roam_hold_secs: Option<u64>,
    pub notify_enable: Option<bool>,
    pub notify_switch: Option<bool>,
    pub notify_weak: Option<bool>,
    pub notify_ongoing_secs: Option<u64>,
    pub allow_weak_off_home: Option<bool>,
    pub soft_auto_enable: Option<bool>,
    pub soft_auto_on_kb: Option<u64>,
    pub soft_auto_off_kb: Option<u64>,
    pub soft_auto_trigger_secs: Option<u64>,
    pub soft_auto_release_secs: Option<u64>,
    pub soft_auto_max_mins: Option<u64>,
    pub bssid_memory_enable: Option<bool>,
    pub bssid_demote_secs: Option<u64>,
}

/// The score of a threshold that may be given.
pub open spec fn opt_score(o: Option<Score>) -> Option<ScoreModel> {
    match o {
        Some(s) => Some(s@),
        None => None,
    }
}

/// The members of a home group that may be given.
pub open spec fn opt_homes(o: Option<Vec<HomeAp>>) -> Option<Seq<HomeApModel>> {
    match o {
        Some(v) => Some(homes(v@)),
        None => None,
    }
}

impl View for ConfigPatch {
    type V = ConfigPatchModel;

    open spec fn view(&self) -> ConfigPatchModel {
        ConfigPatchModel {
            score_detect_threshold: opt_score(self.score_detect_threshold),
            score_switch_threshold: opt_score(self.score_switch_threshold),
            upswitch_rssi_min_dbm: self.upswitch_rssi_min_dbm,
            mode: opt_text(self.mode),
            log_level: opt_text(self.log_level),
            home_aps: opt_homes(self.home_aps),
            interface: opt_text(self.interface),
            user_hold_secs: self.user_hold_secs,
            weak_action: opt_text(self.weak_action),
            rssi_disconnect_dbm: self.rssi_disconnect_dbm,
            weak_hold_secs: self.weak_hold_secs,
            auto_reconnect: self.auto_reconnect,
            l3_probe_enable: self.l3_probe_enable,
            preferred_band: opt_text(self.preferred_band),
            bssid_lock_secs: self.bssid_lock_secs,
            roam_enable: self.roam_enable,
            roam_margin_db: self.roam_margin_db,
            roam_hold_secs: self.roam_hold_secs,
            notify_enable: self.notify_enable,
            notify_switch: self.notify_switch,
            notify_weak: self.notify_weak,
            notify_ongoing_secs: self.notify_ongoing_secs,
            allow_weak_off_home: self.allow_weak_off_home,
            soft_auto_enable: self.soft_auto_enable,
            soft_auto_on_kb: self.soft_auto_on_kb,
            soft_auto_off_kb: self.soft_auto_off_kb,
            soft_auto_trigger_secs: self.soft_auto_trigger_secs,
            soft_auto_release_secs: self.soft_auto_release_secs,
            soft_auto_max_mins: self.soft_auto_max_mins,
            bssid_memory_enable: self.bssid_memory_enable,
            bssid_demote_secs: self.bssid_demote_secs,
        }
    }
}

/// The update that changes nothing.
pub open spec fn empty_patch() -> ConfigPatchModel {
    ConfigPatchModel {
        score_detect_threshold: None,
        score_switch_threshold: None,
        upswitch_rssi_min_dbm: None,
        mode: None,
        log_level: None,
        home_aps: None,
        interface: None,
        user_hold_secs: None,
        weak_action: None,
        rssi_disconnect_dbm: None,
        weak_hold_secs: None,
        auto_reconnect: None,
        l3_probe_enable: None,
        preferred_band: None,
        bssid_lock_secs: None,
        roam_enable: None,
        roam_margin_db: None,
        roam_hold_secs: None,
        notify_enable: None,
        notify_switch: None,
        notify_weak: None,
        notify_ongoing_secs: None,
        allow_weak_off_home: None,
        soft_auto_enable: None,
        soft_auto_on_kb: None,
        soft_auto_off_kb: None,
        soft_auto_trigger_secs: None,
        soft_auto_release_secs: None,
        soft_auto_max_mins: None,
        bssid_memory_enable: None,
        bssid_demote_secs: None,
    }
}

impl Default for ConfigPatch {
    fn default() -> (r: Self)
        ensures
            r@ == empty_patch(),
    {
        ConfigPatch {
            score_detect_threshold: None,
            score_switch_threshold: None,
            upswitch_rssi_min_dbm: None,
            mode: None,
            log_level: None,
            home_aps: None,
            interface: None,
            user_hold_secs: None,
            weak_action: None,
            rssi_disconnect_dbm: None,
            weak_hold_secs: None,
            auto_reconnect: None,
            l3_probe_enable: None,
            preferred_band: None,
            bssid_lock_secs: None,
            roam_enable: None,
            roam_margin_db: None,
            roam_hold_secs: None,
            notify_enable: None,
            notify_switch: None,
            notify_weak: None,
            notify_ongoing_secs: None,
            allow_weak_off_home: None,
            soft_auto_enable: None,
            soft_auto_on_kb: None,
            soft_auto_off_kb: None,
            soft_auto_trigger_secs: None,
            soft_auto_release_secs: None,
            soft_auto_max_mins: None,
            bssid_memory_enable: None,
            bssid_demote_secs: None,
        }
    }
}

/// The group that is made of a list whose BSSIDs are trimmed and in lower case: the first
/// sixteen entries that have a BSSID of at least 11 bytes which no earlier one has. Where no
/// band is given, it is `auto`.
pub open spec fn kept_homes(l: Seq<HomeApModel>) -> Seq<HomeApModel>
    decreases l.len(),
{
    if l.len() == 0 {
        seq![]
    } else {
        let u = kept_homes(l.drop_last());
        let h = l.last();
        if u.len() >= MAX_HOME_APS || byte_len(h.bssid) < 11 || has_bssid(u, h.bssid) {
            u
        } else {
            u.push(
                HomeApModel {
                    band: if h.band.len() == 0 {
                        "auto"@
                    } else {
                        h.band
                    },
                    ..h
                },
            )
        }
    }
}

/// Whether a member has exactly that BSSID.
pub open spec fn has_bssid(u: Seq<HomeApModel>, bssid: Seq<char>) -> bool {
    exists|i: int| 0 <= i < u.len() && (#[trigger] u[i]).bssid == bssid
}

/// A group has at most sixteen members with different BSSIDs of at least 11 bytes, each with a
/// band.
pub proof fn law_group_is_well_formed(l: Seq<HomeApModel>)
    ensures
        kept_homes(l).len() <= MAX_HOME_APS,
        forall|i: int|
            0 <= i < kept_homes(l).len() ==> byte_len((#[trigger] kept_homes(l)[i]).bssid) >= 11
                && kept_homes(l)[i].band.len() > 0,
        forall|i: int, j: int|
            0 <= i < j < kept_homes(l).len() ==> (#[trigger] kept_homes(l)[i]).bssid != (
            #[trigger] kept_homes(l)[j]).bssid,
    decreases l.len(),
{
    reveal_strlit("auto");
    if l.len() > 0 {
        let t = l.drop_last();
        law_group_is_well_formed(t);
        let u = kept_homes(t);
        let q = kept_homes(l);
        assert forall|i: int| 0 <= i < q.len() implies byte_len((#[trigger] q[i]).bssid) >= 11
            && q[i].band.len() > 0 by {
            if i < u.len() {
                assert(q[i] == u[i]);
            }
        }
        assert forall|i: int, j: int| 0 <= i < j < q.len() implies (#[trigger] q[i]).bssid != (
        #[trigger] q[j]).bssid by {
            assert(q[i] == u[i]);
            if j < u.len() {
                assert(q[j] == u[j]);
            }
        }
    }
}

/// Keeps the entries of a list that can be in a home group. BSSIDs come trimmed and in lower
/// case.
pub fn keep_home_aps(list: Vec<HomeAp>) -> (r: Vec<HomeAp>)
    ensures
        homes(r@) == kept_homes(homes(list@)),
{
    let mut out: Vec<HomeAp> = Vec::new();
    let mut i: usize = 0;
    let ghost l = homes(list@);
    assert(l.take(0) == Seq::<HomeApModel>::empty());
    assert(homes(out@) == kept_homes(l.take(0)));
    while i < list.len()
        invariant
            l == homes(list@),
            i <= list@.len(),
            homes(out@) == kept_homes(l.take(i as int)),
        decreases list@.len() - i,
    {
        let ghost q = l.take(i + 1);
        assert(q.drop_last() == l.take(i as int));
        assert(q.last() == list@[i as int]@);
        let h = &list[i];
        let mut known = false;
        let mut k: usize = 0;
        while k < out.len()
            invariant
                k <= out@.len(),
                known == exists|x: int|
                    0 <= x < k && (#[trigger] homes(out@)[x]).bssid == h.bssid@,
            decreases out@.len() - k,
        {
            assert(homes(out@)[k as int].bssid == out@[k as int].bssid@);
            if str_eq(out[k].bssid.as_str(), h.bssid.as_str()) {
                known = true;
            }
            k = k + 1;
        }
        assert(known == has_bssid(homes(out@), h.bssid@));
        if out.len() < MAX_HOME_APS && len_bytes(h.bssid.as_str()) >= 11 && !known {
            let ghost before = out@;
            let entry = HomeAp {
                bssid: h.bssid.clone(),
                ssid: h.ssid.clone(),
                band: if h.band.as_str().is_empty() {
                    "auto".to_owned()
                } else {
                    h.band.clone()
                },
            };
            out.push(entry);
            assert(homes(out@) == homes(before).push(entry@));
        }
        i = i + 1;
    }
    assert(l.take(i as int) == l);
    out
}

/// The list with its BSSIDs trimmed and in lower case.
pub open spec fn lowered_homes(l: Seq<HomeApModel>) -> Seq<HomeApModel> {
    l.map_values(
        |h: HomeApModel| HomeApModel { bssid: lower_case(trimmed(h.bssid)), ..h },
    )
}

fn lower_homes(list: Vec<HomeAp>) -> (r: Vec<HomeAp>)
    ensures
        homes(r@) == lowered_homes(homes(list@)),
{
    let mut out: Vec<HomeAp> = Vec::new();
    let mut i: usize = 0;
    while i < list.len()
        invariant
            i <= list@.len(),
            out@.len() == i,
            forall|x: int|
                0 <= x < i ==> (#[trigger] out@[x])@ == lowered_homes(homes(list@))[x],
        decreases list@.len() - i,
    {
        assert(homes(list@)[i as int] == list@[i as int]@);
        out.push(
            HomeAp {
                bssid: to_lowercase(trim(list[i].bssid.as_str()).as_str()),
                ssid: list[i].ssid.clone(),
                band: list[i].band.clone(),
            },
        );
        i = i + 1;
    }
    assert(homes(out@) == lowered_homes(homes(list@)));
    out
}

/// The home group that is made of any list.
pub fn normalize_home_aps(list: Vec<HomeAp>) -> (r: Vec<HomeAp>)
    ensures
        homes(r@) == kept_homes(lowered_homes(homes(list@))),
{
    keep_home_aps(lower_homes(list))
}

/// The new value of a field with limits.
pub open spec fn picked_u64(o: Option<u64>, cur: u64, lo: u64, hi: u64) -> u64 {
    match o {
        Some(v) => if v < lo {
            lo
        } else if v > hi {
            hi
        } else {
            v
        },
        None => cur,
    }
}

fn pick_u64(o: Option<u64>, cur: u64, lo: u64, hi: u64) -> (r: u64)
    ensures
        r == picked_u64(o, cur, lo, hi),
{
    match o {
        Some(v) => if v < lo {
            lo
        } else if v > hi {
            hi
        } else {
            v
        },
        None => cur,
    }
}

/// The new value of a signed field with limits.
pub open spec fn picked_i32(o: Option<i32>, cur: i32, lo: int, hi: int) -> i32 {
    match o {
        Some(v) => if v < lo {
            lo as i32
        } else if v > hi {
            hi as i32
        } else {
            v
        },
        None => cur,
    }
}

fn pick_i32(o: Option<i32>, cur: i32, lo: i32, hi: i32) -> (r: i32)
    ensures
        r == picked_i32(o, cur, lo as int, hi as int),
{
    match o {
        Some(v) => if v < lo {
            lo
        } else if v > hi {
            hi
        } else {
            v
        },
        None => cur,
    }
}

/// The new value of a switch.
pub open spec fn picked_bool(o: Option<bool>, cur: bool) -> bool {
    match o {
        Some(v) => v,
        None => cur,
    }
}

fn pick_bool(o: Option<bool>, cur: bool) -> (r: bool)
    ensures
        r == picked_bool(o, cur),
{
    match o {
        Some(v) => v,
        None => cur,
    }
}

/// The new value of a threshold, held between `lo` and `hi` points.
pub open spec fn picked_score(o: Option<ScoreModel>, cur: ScoreModel, lo: int, hi: int) -> ScoreModel {
    match o {
        Some(s) => clamped_score(s, lo, hi),
        None => cur,
    }
}

fn pick_score(o: Option<Score>, cur: &Score, lo: u8, hi: u8) -> (r: Score)
    requires
        8 <= lo <= hi < 128,
    ensures
        r@ == picked_score(opt_score(o), cur@, lo as int, hi as int),
{
    match o {
        Some(s) => clamp_score(s, lo, hi),
        None => cur.clone(),
    }
}

/// The band that a text names: `5` or `2.4`.
pub open spec fn band_name(b: Seq<char>) -> Option<Seq<char>> {
    let t = ascii_lower(trimmed(b));
    if t == "5"@ || t == "5g"@ || t == "5ghz"@ {
        Some("5"@)
    } else if t == "2.4"@ || t == "24"@ || t == "2.4g"@ || t == "2g"@ {
        Some("2.4"@)
    } else {
        None
    }
}

fn read_band(b: &str) -> (r: Option<String>)
    ensures
        opt_text(r) == band_name(b@),
{
    let t = to_ascii_lower(trim(b).as_str());
    if str_eq(t.as_str(), "5") || str_eq(t.as_str(), "5g") || str_eq(t.as_str(), "5ghz") {
        Some("5".to_owned())
    } else if str_eq(t.as_str(), "2.4") || str_eq(t.as_str(), "24") || str_eq(t.as_str(), "2.4g")
        || str_eq(t.as_str(), "2g") {
        Some("2.4".to_owned())
    } else {
        None
    }
}

/// The new value of a text.
pub open spec fn picked_text(o: Option<Seq<char>>, cur: Seq<char>) -> Seq<char> {
    match o {
        Some(t) => t,
        None => cur,
    }
}

fn pick_text(o: Option<String>, cur: &String) -> (r: String)
    ensures
        r@ == picked_text(opt_text(o), cur@),
{
    match o {
        Some(t) => t,
        None => cur.clone(),
    }
}

/// The new value of a text that is kept in lower case.
pub open spec fn picked_lower(o: Option<Seq<char>>, cur: Seq<char>) -> Seq<char> {
    match o {
        Some(t) => ascii_lower(t),
        None => cur,
    }
}

fn pick_lower(o: Option<String>, cur: &String) -> (r: String)
    ensures
        r@ == picked_lower(opt_text(o), cur@),
{
    match o {
        Some(t) => to_ascii_lower(t.as_str()),
        None => cur.clone(),
    }
}

/// The new name of the interface; an empty one does not count.
pub open spec fn picked_interface(o: Option<Seq<char>>, cur: Seq<char>) -> Seq<char> {
    match o {
        Some(t) => if t.len() > 0 {
            t
        } else {
            cur
        },
        None => cur,
    }
}

fn pick_interface(o: Option<String>, cur: &String) -> (r: String)
    ensures
        r@ == picked_interface(opt_text(o), cur@),
{
    match o {
        Some(t) => if t.as_str().is_empty() {
            cur.clone()
        } else {
            t
        },
        None => cur.clone(),
    }
}

/// The new preferred band, where it is known.
pub open spec fn picked_band(o: Option<Seq<char>>, cur: Seq<char>) -> Seq<char> {
    match o {
        Some(b) => band_name(b)->0,
        None => cur,
    }
}

fn pick_band(o: Option<String>, cur: &String) -> (r: String)
    requires
        opt_text(o) matches Some(b) ==> band_name(b) is Some,
    ensures
        r@ == picked_band(opt_text(o), cur@),
{
    match o {
        Some(b) => match read_band(b.as_str()) {
            Some(n) => n,
            None => b,
        },
        None => cur.clone(),
    }
}

/// The new home group.
pub open spec fn picked_homes(
    o: Option<Seq<HomeApModel>>,
    cur: Seq<HomeApModel>,
) -> Seq<HomeApModel> {
    match o {
        Some(l) => kept_homes(l),
        None => cur,
    }
}

fn pick_homes(o: Option<Vec<HomeAp>>, cur: &Vec<HomeAp>) -> (r: Vec<HomeAp>)
    ensures
        homes(r@) == picked_homes(opt_homes(o), homes(cur@)),
{
    match o {
        Some(l) => keep_home_aps(l),
        None => copy_homes(cur),
    }
}

pub open spec fn is_mode(m: Seq<char>) -> bool {
    m == "daily"@ || m == "pause"@ || m == "eco"@
}

pub open spec fn is_log_level(l: Seq<char>) -> bool {
    l == "error"@ || l == "warn"@ || l == "info"@ || l == "debug"@
}

pub open spec fn is_weak_action(a: Seq<char>) -> bool {
    a == "off"@ || a == "disconnect"@
}

fn weak_action_known(a: &str) -> (r: bool)
    ensures
        r == is_weak_action(a@),
{
    str_eq(a, "off") || str_eq(a, "disconnect")
}

/// What is wrong with settings as a whole, where anything is.
pub open spec fn config_fault(c: ConfigModel) -> Option<Seq<char>> {
    if c.score_switch_threshold.rank.ge(c.score_detect_threshold.rank) {
        Some(
            "下切阈值("@ + c.score_switch_threshold.whole + ") 必须小于 梯度检测阈值("@
                + c.score_detect_threshold.whole + ")"@,
        )
    } else if !is_weak_action(ascii_lower(c.weak_action)) {
        Some("weak_action 只能是 off 或 disconnect"@)
    } else if c.soft_auto_on_kb <= c.soft_auto_off_kb {
        Some(
            "触发速率("@ + dec(c.soft_auto_on_kb as nat) + " KB/s) 必须大于 解除速率("@ + dec(
                c.soft_auto_off_kb as nat,
            ) + " KB/s)"@,
        )
    } else {
        None
    }
}

/// What is wrong with an update by itself, where anything is: the first field that names
/// something unknown. The mode comes in lower case.
pub open spec fn patch_fault(p: ConfigPatchModel) -> Option<Seq<char>> {
    if p.mode matches Some(m) && !is_mode(m) {
        Some("mode 只能是 daily / eco / pause"@)
    } else if p.log_level matches Some(l) && !is_log_level(ascii_lower(l)) {
        Some("log_level 只能是 error/warn/info/debug"@)
    } else if p.weak_action matches Some(a) && !is_weak_action(ascii_lower(a)) {
        Some("weak_action 只能是 off 或 disconnect"@)
    } else if p.preferred_band matches Some(b) && band_name(b) is None {
        Some("preferred_band 只能是 5 或 2.4"@)
    } else {
        None
    }
}

/// The settings after an update without faults. The mode and the BSSIDs come in lower case, the
/// BSSIDs trimmed.
pub open spec fn patched(c: ConfigModel, p: ConfigPatchModel) -> ConfigModel {
    ConfigModel {
        interface: picked_interface(p.interface, c.interface),
        listen: c.listen,
        upswitch_rssi_min_dbm: picked_i32(p.upswitch_rssi_min_dbm, c.upswitch_rssi_min_dbm, -85, -40),
        score_detect_threshold: picked_score(
            p.score_detect_threshold,
            c.score_detect_threshold,
            40,
            95,
        ),
        score_switch_threshold: picked_score(
            p.score_switch_threshold,
            c.score_switch_threshold,
            10,
            80,
        ),
        wpa_ctrl_path: c.wpa_ctrl_path,
        home_aps: picked_homes(p.home_aps, c.home_aps),
        allow_weak_off_home: picked_bool(p.allow_weak_off_home, c.allow_weak_off_home),
        mode: picked_text(p.mode, c.mode),
        log_level: picked_lower(p.log_level, c.log_level),
        user_hold_secs: picked_u64(p.user_hold_secs, c.user_hold_secs, 0, 300),
        weak_action: picked_lower(p.weak_action, c.weak_action),
        rssi_disconnect_dbm: picked_i32(p.rssi_disconnect_dbm, c.rssi_disconnect_dbm, -95, -70),
        weak_hold_secs: picked_u64(p.weak_hold_secs, c.weak_hold_secs, 5, 60),
        auto_reconnect: picked_bool(p.auto_reconnect, c.auto_reconnect),
        l3_probe_enable: picked_bool(p.l3_probe_enable, c.l3_probe_enable),
        preferred_band: picked_band(p.preferred_band, c.preferred_band),
        bssid_lock_secs: picked_u64(p.bssid_lock_secs, c.bssid_lock_secs, 0, 300),
        roam_enable: picked_bool(p.roam_enable, c.roam_enable),
        roam_margin_db: picked_i32(p.roam_margin_db, c.roam_margin_db, 5, 25),
        roam_hold_secs: picked_u64(p.roam_hold_secs, c.roam_hold_secs, 2, 30),
        notify_enable: picked_bool(p.notify_enable, c.notify_enable),
        notify_switch: picked_bool(p.notify_switch, c.notify_switch),
        notify_weak: picked_bool(p.notify_weak, c.notify_weak),
        notify_ongoing_secs: picked_u64(p.notify_ongoing_secs, c.notify_ongoing_secs, 0, 300),
        soft_auto_enable: picked_bool(p.soft_auto_enable, c.soft_auto_enable),
        soft_auto_on_kb: picked_u64(p.soft_auto_on_kb, c.soft_auto_on_kb, 100, 5000),
        soft_auto_off_kb: picked_u64(p.soft_auto_off_kb, c.soft_auto_off_kb, 20, 1000),
        soft_auto_trigger_secs: picked_u64(p.soft_auto_trigger_secs, c.soft_auto_trigger_secs, 3, 60),
        soft_auto_release_secs: picked_u64(p.soft_auto_release_secs, c.soft_auto_release_secs, 10, 180),
        soft_auto_max_mins: picked_u64(p.soft_auto_max_mins, c.soft_auto_max_mins, 0, 1440),
        bssid_memory_enable: picked_bool(p.bssid_memory_enable, c.bssid_memory_enable),
        bssid_demote_secs: picked_u64(p.bssid_demote_secs, c.bssid_demote_secs, 300, 7200),
    }
}

/// Why an update is refused: its own first fault, or what would be wrong with the settings after
/// it.
pub open spec fn patch_error(c: ConfigModel, p: ConfigPatchModel) -> Option<Seq<char>> {
    match patch_fault(p) {
        Some(e) => Some(e),
        None => config_fault(patched(c, p)),
    }
}

/// The update with its mode in lower case and its BSSIDs trimmed and in lower case.
pub open spec fn lowered_patch(p: ConfigPatchModel) -> ConfigPatchModel {
    ConfigPatchModel {
        mode: match p.mode {
            Some(m) => Some(lower_case(m)),
            None => None,
        },
        home_aps: match p.home_aps {
            Some(l) => Some(lowered_homes(l)),
            None => None,
        },
        ..p
    }
}

fn lower_patch(p: ConfigPatch) -> (r: ConfigPatch)
    ensures
        r@ == lowered_patch(p@),
{
    let mut q = p;
    q.mode = match q.mode {
        Some(m) => Some(to_lowercase(m.as_str())),
        None => None,
    };
    q.home_aps = match q.home_aps {
        Some(l) => Some(lower_homes(l)),
        None => None,
    };
    q
}

/// Whether a result is a refusal for that reason.
pub open spec fn refused(r: Result<(), ConfigError>, why: Seq<char>) -> bool {
    r matches Err(ConfigError::Validate(s)) && s@ == why
}

/// Whether an update names nothing unknown.
fn check_patch(p: &ConfigPatch) -> (r: Result<(), ConfigError>)
    ensures
        match patch_fault(p@) {
            Some(e) => refused(r, e),
            None => r is Ok,
        },
{
    if let Some(m) = &p.mode {
        if !(str_eq(m.as_str(), "daily") || str_eq(m.as_str(), "pause") || str_eq(
            m.as_str(),
            "eco",
        )) {
            return Err(ConfigError::Validate("mode 只能是 daily / eco / pause".to_owned()));
        }
    }
    if let Some(l) = &p.log_level {
        let l = to_ascii_lower(l.as_str());
        if !(str_eq(l.as_str(), "error") || str_eq(l.as_str(), "warn") || str_eq(
            l.as_str(),
            "info",
        ) || str_eq(l.as_str(), "debug")) {
            return Err(
                ConfigError::Validate("log_level 只能是 error/warn/info/debug".to_owned()),
            );
        }
    }
    if let Some(a) = &p.weak_action {
        let a = to_ascii_lower(a.as_str());
        if !weak_action_known(a.as_str()) {
            return Err(
                ConfigError::Validate("weak_action 只能是 off 或 disconnect".to_owned()),
            );
        }
    }
    if let Some(b) = &p.preferred_band {
        if read_band(b.as_str()).is_none() {
            return Err(ConfigError::Validate("preferred_band 只能是 5 或 2.4".to_owned()));
        }
    }
    Ok(())
}

impl Config {
    /// Changes the fields that the update gives, or refuses it and changes nothing.
    pub fn apply_patch(&mut self, p: ConfigPatch) -> (r: Result<(), ConfigError>)
        ensures
            match patch_error(old(self)@, lowered_patch(p@)) {
                Some(e) => refused(r, e) && final(self)@ == old(self)@,
                None => r is Ok && final(self)@ == patched(old(self)@, lowered_patch(p@)),
            },
    {
        self.apply_lowered_patch(lower_patch(p))
    }

    /// Changes the fields that the update gives, or refuses it and changes nothing. The mode and
    /// the BSSIDs come in lower case, the BSSIDs trimmed.
    pub fn apply_lowered_patch(&mut self, p: ConfigPatch) -> (r: Result<(), ConfigError>)
        ensures
            match patch_error(old(self)@, p@) {
                Some(e) => refused(r, e) && final(self)@ == old(self)@,
                None => r is Ok && final(self)@ == patched(old(self)@, p@),
            },
    {
        match check_patch(&p) {
            Ok(()) => {},
            Err(e) => {
                return Err(e);
            },
        }
        let candidate = self.with_patch(p);
        match candidate.validate() {
            Ok(()) => {
                *self = candidate;
                Ok(())
            },
            Err(e) => Err(e),
        }
    }

    /// The settings after an update that has no faults by itself.
    #[verifier::rlimit(60)]
    fn with_patch(&self, p: ConfigPatch) -> (r: Config)
        requires
            patch_fault(p@) is None,
        ensures
            r@ == patched(self@, p@),
    {
        Config {
            interface: pick_interface(p.interface, &self.interface),
            listen: self.listen.clone(),
            upswitch_rssi_min_dbm: pick_i32(p.upswitch_rssi_min_dbm, self.upswitch_rssi_min_dbm, -85, -40),
            score_detect_threshold: pick_score(
                p.score_detect_threshold,
                &self.score_detect_threshold,
                40,
                95,
            ),
            score_switch_threshold: pick_score(
                p.score_switch_threshold,
                &self.score_switch_threshold,
                10,
                80,
            ),
            wpa_ctrl_path: copy_opt_text(&self.wpa_ctrl_path),
            home_aps: pick_homes(p.home_aps, &self.home_aps),
            allow_weak_off_home: pick_bool(p.allow_weak_off_home, self.allow_weak_off_home),
            mode: pick_text(p.mode, &self.mode),
            log_level: pick_lower(p.log_level, &self.log_level),
            user_hold_secs: pick_u64(p.user_hold_secs, self.user_hold_secs, 0, 300),
            weak_action: pick_lower(p.weak_action, &self.weak_action),
            rssi_disconnect_dbm: pick_i32(p.rssi_disconnect_dbm, self.rssi_disconnect_dbm, -95, -70),
            weak_hold_secs: pick_u64(p.weak_hold_secs, self.weak_hold_secs, 5, 60),
            auto_reconnect: pick_bool(p.auto_reconnect, self.auto_reconnect),
            l3_probe_enable: pick_bool(p.l3_probe_enable, self.l3_probe_enable),
            preferred_band: pick_band(p.preferred_band, &self.preferred_band),
            bssid_lock_secs: pick_u64(p.bssid_lock_secs, self.bssid_lock_secs, 0, 300),
            roam_enable: pick_bool(p.roam_enable, self.roam_enable),
            roam_margin_db: pick_i32(p.roam_margin_db, self.roam_margin_db, 5, 25),
            roam_hold_secs: pick_u64(p.roam_hold_secs, self.roam_hold_secs, 2, 30),
            notify_enable: pick_bool(p.notify_enable, self.notify_enable),
            notify_switch: pick_bool(p.notify_switch, self.notify_switch),
            notify_weak: pick_bool(p.notify_weak, self.notify_weak),
            notify_ongoing_secs: pick_u64(p.notify_ongoing_secs, self.notify_ongoing_secs, 0, 300),
            soft_auto_enable: pick_bool(p.soft_auto_enable, self.soft_auto_enable),
            soft_auto_on_kb: pick_u64(p.soft_auto_on_kb, self.soft_auto_on_kb, 100, 5000),
            soft_auto_off_kb: pick_u64(p.soft_auto_off_kb, self.soft_auto_off_kb, 20, 1000),
            soft_auto_trigger_secs: pick_u64(p.soft_auto_trigger_secs, self.soft_auto_trigger_secs, 3, 60),
            soft_auto_release_secs: pick_u64(p.soft_auto_release_secs, self.soft_auto_release_secs, 10, 180),
            soft_auto_max_mins: pick_u64(p.soft_auto_max_mins, self.soft_auto_max_mins, 0, 1440),
            bssid_memory_enable: pick_bool(p.bssid_memory_enable, self.bssid_memory_enable),
            bssid_demote_secs: pick_u64(p.bssid_demote_secs, self.bssid_demote_secs, 300, 7200),
        }
    }

    /// Whether the settings hold together.
    pub fn validate(&self) -> (r: Result<(), ConfigError>)
        ensures
            match config_fault(self@) {
                Some(e) => refused(r, e),
                None => r is Ok,
            },
    {
        if self.score_switch_threshold.rank.at_least(self.score_detect_threshold.rank) {
            let text = cat(
                cat(
                    cat(
                        cat("下切阈值(".to_owned(), self.score_switch_threshold.whole.as_str()),
                        ") 必须小于 梯度检测阈值(",
                    ),
                    self.score_detect_threshold.whole.as_str(),
                ),
                ")",
            );
            return Err(ConfigError::Validate(text));
        }
        let wa = to_ascii_lower(self.weak_action.as_str());
        if !weak_action_known(wa.as_str()) {
            return Err(
                ConfigError::Validate("weak_action 只能是 off 或 disconnect".to_owned()),
            );
        }
        if self.soft_auto_on_kb <= self.soft_auto_off_kb {
            let text = cat(
                cat(
                    cat(
                        cat("触发速率(".to_owned(), u64_text(self.soft_auto_on_kb).as_str()),
                        " KB/s) 必须大于 解除速率(",
                    ),
                    u64_text(self.soft_auto_off_kb).as_str(),
                ),
                " KB/s)",
            );
            return Err(ConfigError::Validate(text));
        }
        Ok(())
    }
}

/// An update that gives nothing changes nothing, and is accepted where the settings hold
/// together.
pub proof fn law_empty_patch_changes_nothing(c: ConfigModel)
    ensures
        patched(c, lowered_patch(empty_patch())) == c,
        patch_error(c, lowered_patch(empty_patch())) == config_fault(c),
{
    assert(patched(c, lowered_patch(empty_patch())) =~= c);
}

/// Settings after an accepted update hold together, and every field that it gives is inside its
/// limits, with the modes, levels, actions and bands that are known.
pub proof fn law_accepted_patch_is_valid(c: ConfigModel, p: ConfigPatchModel)
    requires
        patch_error(c, p) is None,
    ensures
        config_fault(patched(c, p)) is None,
        p.mode is Some ==> is_mode(patched(c, p).mode),
        p.log_level is Some ==> is_log_level(patched(c, p).log_level),
        p.weak_action is Some ==> is_weak_action(patched(c, p).weak_action),
        p.preferred_band is Some ==> patched(c, p).preferred_band == "5"@ || patched(
            c,
            p,
        ).preferred_band == "2.4"@,
        p.home_aps is Some ==> patched(c, p).home_aps.len() <= MAX_HOME_APS,
        p.upswitch_rssi_min_dbm is Some ==> -85 <= patched(c, p).upswitch_rssi_min_dbm <= -40,
        p.user_hold_secs is Some ==> 0 <= patched(c, p).user_hold_secs <= 300,
        p.rssi_disconnect_dbm is Some ==> -95 <= patched(c, p).rssi_disconnect_dbm <= -70,
        p.weak_hold_secs is Some ==> 5 <= patched(c, p).weak_hold_secs <= 60,
        p.bssid_lock_secs is Some ==> 0 <= patched(c, p).bssid_lock_secs <= 300,
        p.roam_margin_db is Some ==> 5 <= patched(c, p).roam_margin_db <= 25,
        p.roam_hold_secs is Some ==> 2 <= patched(c, p).roam_hold_secs <= 30,
        p.notify_ongoing_secs is Some ==> 0 <= patched(c, p).notify_ongoing_secs <= 300,
        p.soft_auto_on_kb is Some ==> 100 <= patched(c, p).soft_auto_on_kb <= 5000,
        p.soft_auto_off_kb is Some ==> 20 <= patched(c, p).soft_auto_off_kb <= 1000,
        p.soft_auto_trigger_secs is Some ==> 3 <= patched(c, p).soft_auto_trigger_secs <= 60,
        p.soft_auto_release_secs is Some ==> 10 <= patched(c, p).soft_auto_release_secs <= 180,
        p.soft_auto_max_mins is Some ==> 0 <= patched(c, p).soft_auto_max_mins <= 1440,
        p.bssid_demote_secs is Some ==> 300 <= patched(c, p).bssid_demote_secs <= 7200,
        p.score_detect_threshold matches Some(s) && s.rank is At ==> patched(c, p).score_detect_threshold.rank.ge(
            whole_score(40).rank,
        ) && whole_score(95).rank.ge(patched(c, p).score_detect_threshold.rank),
        p.score_switch_threshold matches Some(s) && s.rank is At ==> patched(c, p).score_switch_threshold.rank.ge(
            whole_score(10).rank,
        ) && whole_score(80).rank.ge(patched(c, p).score_switch_threshold.rank),
{
    if p.home_aps is Some {
        law_group_is_well_formed(p.home_aps->0);
    }
}

/// The BSSIDs of at least 11 bytes that a list gives.
pub open spec fn usable_bssids(l: Seq<HomeApModel>) -> Set<Seq<char>> {
    l.filter(|h: HomeApModel| byte_len(h.bssid) >= 11).map_values(|h: HomeApModel| h.bssid).to_set()
}

proof fn lemma_usable_bssids(l: Seq<HomeApModel>)
    ensures
        usable_bssids(l).finite(),
        forall|b: Seq<char>|
            #[trigger] usable_bssids(l).contains(b) <==> byte_len(b) >= 11 && exists|i: int|
                0 <= i < l.len() && (#[trigger] l[i]).bssid == b,
{
    let f = |h: HomeApModel| byte_len(h.bssid) >= 11;
    let g = |h: HomeApModel| h.bssid;
    let q = l.filter(f);
    let r = q.map_values(g);
    r.lemma_cardinality_of_set();
    assert forall|b: Seq<char>| #[trigger] usable_bssids(l).contains(b) <==> byte_len(b) >= 11
        && exists|i: int| 0 <= i < l.len() && (#[trigger] l[i]).bssid == b by {
        if usable_bssids(l).contains(b) {
            let x = choose|x: int| 0 <= x < r.len() && r[x] == b;
            assert(f(q[x]));
            assert(q.contains(q[x]));
            l.lemma_filter_contains_rev(f, q[x]);
            let i = choose|i: int| 0 <= i < l.len() && l[i] == q[x];
            assert(l[i].bssid == b);
        }
        if byte_len(b) >= 11 && exists|i: int| 0 <= i < l.len() && (#[trigger] l[i]).bssid == b {
            let i = choose|i: int| 0 <= i < l.len() && (#[trigger] l[i]).bssid == b;
            assert(f(l[i]));
            l.lemma_filter_contains(f, i);
            let x = choose|x: int| 0 <= x < q.len() && q[x] == l[i];
            assert(r[x] == b);
        }
    }
}

/// There are no more members than BSSIDs that a list gives.
proof fn lemma_members_are_given(l: Seq<HomeApModel>)
    ensures
        kept_homes(l).len() <= usable_bssids(l).len(),
{
    law_group_is_well_formed(l);
    lemma_usable_bssids(l);
    let u = kept_homes(l);
    let r = u.map_values(|h: HomeApModel| h.bssid);
    assert(r.no_duplicates()) by {
        assert forall|a: int, b: int| 0 <= a < r.len() && 0 <= b < r.len() && a != b implies r[a]
            != r[b] by {
            if a < b {
                assert(u[a].bssid != u[b].bssid);
            } else {
                assert(u[b].bssid != u[a].bssid);
            }
        }
    }
    r.unique_seq_to_set();
    assert forall|b: Seq<char>| r.to_set().contains(b) implies usable_bssids(l).contains(b) by {
        let x = choose|x: int| 0 <= x < r.len() && r[x] == b;
        assert(u[x].bssid == b);
        lemma_member_is_from(l, x);
        let i = choose|i: int|
            0 <= i < l.len() && (#[trigger] l[i]).bssid == u[x].bssid && l[i].ssid == u[x].ssid && (
            l[i].band == u[x].band || (l[i].band.len() == 0 && u[x].band == "auto"@)) && forall|
                y: int,
            |
                0 <= y < i ==> (#[trigger] l[y]).bssid != u[x].bssid;
        assert(l[i].bssid == b);
    }
    vstd::set_lib::lemma_len_subset(r.to_set(), usable_bssids(l));
}

/// A member is the first entry of its BSSID, with the name and the band that it gives there.
proof fn lemma_member_is_from(l: Seq<HomeApModel>, x: int)
    requires
        0 <= x < kept_homes(l).len(),
    ensures
        exists|i: int|
            0 <= i < l.len() && (#[trigger] l[i]).bssid == kept_homes(l)[x].bssid && l[i].ssid
                == kept_homes(l)[x].ssid && (l[i].band == kept_homes(l)[x].band || (l[i].band.len()
                == 0 && kept_homes(l)[x].band == "auto"@)) && forall|y: int|
                0 <= y < i ==> (#[trigger] l[y]).bssid != kept_homes(l)[x].bssid,
    decreases l.len(),
{
    let t = l.drop_last();
    let u = kept_homes(t);
    let q = kept_homes(l);
    if x < u.len() {
        assert(q[x] == u[x]);
        lemma_member_is_from(t, x);
        let i = choose|i: int|
            0 <= i < t.len() && (#[trigger] t[i]).bssid == u[x].bssid && t[i].ssid == u[x].ssid && (
            t[i].band == u[x].band || (t[i].band.len() == 0 && u[x].band == "auto"@)) && forall|
                y: int,
            |
                0 <= y < i ==> (#[trigger] t[y]).bssid != u[x].bssid;
        assert(l[i] == t[i]);
        assert forall|y: int| 0 <= y < i implies (#[trigger] l[y]).bssid != q[x].bssid by {
            assert(t[y] == l[y]);
        }
    } else {
        let n = l.len() - 1;
        let h = l[n];
        assert(q[x].bssid == h.bssid);
        assert forall|y: int| 0 <= y < n implies (#[trigger] l[y]).bssid != q[x].bssid by {
            if l[y].bssid == h.bssid {
                lemma_room_before(t, y);
                lemma_early_entry_is_kept(t, y);
            }
        }
    }
}

/// While there is room, every entry with a BSSID that can be used is there.
proof fn lemma_early_entry_is_kept(l: Seq<HomeApModel>, i: int)
    requires
        0 <= i < l.len(),
        byte_len(l[i].bssid) >= 11,
        kept_homes(l.take(i)).len() < MAX_HOME_APS,
    ensures
        has_bssid(kept_homes(l), l[i].bssid),
    decreases l.len(),
{
    let t = l.drop_last();
    let u = kept_homes(t);
    let q = kept_homes(l);
    if i < t.len() {
        assert(t.take(i) == l.take(i));
        lemma_early_entry_is_kept(t, i);
        let x = choose|x: int| 0 <= x < u.len() && (#[trigger] u[x]).bssid == t[i].bssid;
        assert(q[x] == u[x]);
    } else {
        assert(l.take(i) == t);
        if has_bssid(u, l[i].bssid) {
            let x = choose|x: int| 0 <= x < u.len() && (#[trigger] u[x]).bssid == l[i].bssid;
            assert(q[x].bssid == l[i].bssid);
        } else {
            assert(q[u.len() as int].bssid == l[i].bssid);
        }
    }
}

/// With room at the end there was room before.
proof fn lemma_room_before(l: Seq<HomeApModel>, i: int)
    requires
        0 <= i <= l.len(),
    ensures
        kept_homes(l.take(i)).len() <= kept_homes(l).len(),
    decreases l.len(),
{
    if i < l.len() {
        let t = l.drop_last();
        assert(t.take(i) == l.take(i));
        lemma_room_before(t, i);
    } else {
        assert(l.take(i) == l);
    }
}

/// Every access point that the user saves with a BSSID of 11 bytes or more is in the home group
/// afterwards, as long as fewer than sixteen other ones come before it; every member is one that the
/// user has saved, with the name and the band given where its BSSID comes first.
pub proof fn law_saved_group_is_kept(c: ConfigModel, p: ConfigPatchModel, l: Seq<HomeApModel>, i: int)
    requires
        p.home_aps == Some(l),
        0 <= i < l.len(),
    ensures
        ({
            let g = patched(c, lowered_patch(p)).home_aps;
            let b = lower_case(trimmed(l[i].bssid));
            &&& byte_len(b) >= 11 && usable_bssids(lowered_homes(l).take(i)).len() < 16 ==> exists|
                x: int,
            |
                0 <= x < g.len() && (#[trigger] g[x]).bssid == b
            &&& byte_len(b) >= 11 && i < 16 ==> exists|x: int|
                0 <= x < g.len() && (#[trigger] g[x]).bssid == b
            &&& forall|x: int|
                0 <= x < g.len() ==> byte_len((#[trigger] g[x]).bssid) >= 11 && is_given(l, g[x])
            &&& g.len() <= 16
        }),
{
    let low = lowered_homes(l);
    let g = patched(c, lowered_patch(p)).home_aps;
    assert(g == kept_homes(low));
    assert(low[i].bssid == lower_case(trimmed(l[i].bssid)));
    law_group_is_well_formed(low);
    lemma_members_are_given(low.take(i));
    lemma_kept_are_few(low.take(i));
    if byte_len(low[i].bssid) >= 11 && (usable_bssids(low.take(i)).len() < 16 || i < 16) {
        lemma_early_entry_is_kept(low, i);
    }
    assert forall|x: int| 0 <= x < g.len() implies byte_len((#[trigger] g[x]).bssid) >= 11
        && is_given(l, g[x]) by {
        lemma_member_is_from(low, x);
        let k = choose|k: int|
            0 <= k < low.len() && (#[trigger] low[k]).bssid == g[x].bssid && low[k].ssid
                == g[x].ssid && (low[k].band == g[x].band || (low[k].band.len() == 0 && g[x].band
                == "auto"@)) && forall|y: int|
                0 <= y < k ==> (#[trigger] low[y]).bssid != g[x].bssid;
        assert(lower_case(trimmed(l[k].bssid)) == g[x].bssid);
        assert forall|y: int| 0 <= y < k implies lower_case(trimmed((#[trigger] l[y]).bssid))
            != g[x].bssid by {
            assert(low[y].bssid != g[x].bssid);
        }
    }
}

/// Whether a member is one of the list: the first of its BSSID, trimmed and in lower case, with that
/// entry's name and band, or `auto` where it gives no band.
pub open spec fn is_given(l: Seq<HomeApModel>, h: HomeApModel) -> bool {
    exists|k: int|
        {
            &&& 0 <= k < l.len()
            &&& lower_case(trimmed((#[trigger] l[k]).bssid)) == h.bssid
            &&& l[k].ssid == h.ssid
            &&& l[k].band.len() > 0 ==> h.band == l[k].band
            &&& l[k].band.len() == 0 ==> h.band == "auto"@
            &&& forall|y: int|
                0 <= y < k ==> lower_case(trimmed((#[trigger] l[y]).bssid)) != h.bssid
        }
}

proof fn lemma_kept_are_few(l: Seq<HomeApModel>)
    ensures
        kept_homes(l).len() <= l.len(),
    decreases l.len(),
{
    if l.len() > 0 {
        lemma_kept_are_few(l.drop_last());
    }
}

/// Whether a number with limits has been taken up: a given one inside its limits as it is, one outside
/// them as the nearer limit, and none leaves it alone.
pub open spec fn taken_up(given: Option<int>, before: int, after: int, lo: int, hi: int) -> bool {
    match given {
        Some(v) => {
            &&& lo <= v <= hi ==> after == v
            &&& v < lo ==> after == lo
            &&& v > hi ==> after == hi
        },
        None => after == before,
    }
}

pub open spec fn opt_u64(o: Option<u64>) -> Option<int> {
    match o {
        Some(v) => Some(v as int),
        None => None,
    }
}

pub open spec fn opt_i32(o: Option<i32>) -> Option<int> {
    match o {
        Some(v) => Some(v as int),
        None => None,
    }
}

/// An accepted update takes up every number that it gives, as it is or as the nearer of its limits,
/// and leaves every other one alone.
pub proof fn law_given_numbers_are_taken_up(c: ConfigModel, p: ConfigPatchModel)
    ensures
        ({
            let n = patched(c, lowered_patch(p));
            &&& taken_up(
                opt_i32(p.upswitch_rssi_min_dbm),
                c.upswitch_rssi_min_dbm as int,
                n.upswitch_rssi_min_dbm as int,
                -85,
                -40,
            )
            &&& taken_up(
                opt_u64(p.user_hold_secs),
                c.user_hold_secs as int,
                n.user_hold_secs as int,
                0,
                300,
            )
            &&& taken_up(
                opt_i32(p.rssi_disconnect_dbm),
                c.rssi_disconnect_dbm as int,
                n.rssi_disconnect_dbm as int,
                -95,
                -70,
            )
            &&& taken_up(
                opt_u64(p.weak_hold_secs),
                c.weak_hold_secs as int,
                n.weak_hold_secs as int,
                5,
                60,
            )
            &&& taken_up(
                opt_u64(p.bssid_lock_secs),
                c.bssid_lock_secs as int,
                n.bssid_lock_secs as int,
                0,
                300,
            )
            &&& taken_up(
                opt_i32(p.roam_margin_db),
                c.roam_margin_db as int,
                n.roam_margin_db as int,
                5,
                25,
            )
            &&& taken_up(
                opt_u64(p.roam_hold_secs),
                c.roam_hold_secs as int,
                n.roam_hold_secs as int,
                2,
                30,
            )
            &&& taken_up(
                opt_u64(p.notify_ongoing_secs),
                c.notify_ongoing_secs as int,
                n.notify_ongoing_secs as int,
                0,
                300,
            )
            &&& taken_up(
                opt_u64(p.soft_auto_on_kb),
                c.soft_auto_on_kb as int,
                n.soft_auto_on_kb as int,
                100,
                5000,
            )
            &&& taken_up(
                opt_u64(p.soft_auto_off_kb),
                c.soft_auto_off_kb as int,
                n.soft_auto_off_kb as int,
                20,
                1000,
            )
            &&& taken_up(
                opt_u64(p.soft_auto_trigger_secs),
                c.soft_auto_trigger_secs as int,
                n.soft_auto_trigger_secs as int,
                3,
                60,
            )
            &&& taken_up(
                opt_u64(p.soft_auto_release_secs),
                c.soft_auto_release_secs as int,
                n.soft_auto_release_secs as int,
                10,
                180,
            )
            &&& taken_up(
                opt_u64(p.soft_auto_max_mins),
                c.soft_auto_max_mins as int,
                n.soft_auto_max_mins as int,
                0,
                1440,
            )
            &&& taken_up(
                opt_u64(p.bssid_demote_secs),
                c.bssid_demote_secs as int,
                n.bssid_demote_secs as int,
                300,
                7200,
            )
        }),
{
}

/// An accepted update takes up every switch that it gives and leaves every other one alone.
pub proof fn law_given_switches_are_taken_up(c: ConfigModel, p: ConfigPatchModel)
    ensures
        ({
            let n = patched(c, lowered_patch(p));
            &&& n.allow_weak_off_home == p.allow_weak_off_home.unwrap_or(c.allow_weak_off_home)
            &&& n.auto_reconnect == p.auto_reconnect.unwrap_or(c.auto_reconnect)
            &&& n.l3_probe_enable == p.l3_probe_enable.unwrap_or(c.l3_probe_enable)
            &&& n.roam_enable == p.roam_enable.unwrap_or(c.roam_enable)
            &&& n.notify_enable == p.notify_enable.unwrap_or(c.notify_enable)
            &&& n.notify_switch == p.notify_switch.unwrap_or(c.notify_switch)
            &&& n.notify_weak == p.notify_weak.unwrap_or(c.notify_weak)
            &&& n.soft_auto_enable == p.soft_auto_enable.unwrap_or(c.soft_auto_enable)
            &&& n.bssid_memory_enable == p.bssid_memory_enable.unwrap_or(c.bssid_memory_enable)
        }),
{
}

/// An accepted update takes up the words that it gives: the mode in lower case, the level and the
/// action in ASCII lower case, the name of the interface unless it is empty, and the band that is meant,
/// in whatever case and with space around it. What it does not give stays; where the settings are
/// served, and where the control socket lies, always stays.
pub proof fn law_given_words_are_taken_up(c: ConfigModel, p: ConfigPatchModel)
    requires
        patch_error(c, lowered_patch(p)) is None,
    ensures
        ({
            let n = patched(c, lowered_patch(p));
            &&& n.mode == (match p.mode {
                Some(m) => lower_case(m),
                None => c.mode,
            })
            &&& n.log_level == (match p.log_level {
                Some(l) => ascii_lower(l),
                None => c.log_level,
            })
            &&& n.weak_action == (match p.weak_action {
                Some(a) => ascii_lower(a),
                None => c.weak_action,
            })
            &&& n.interface == (match p.interface {
                Some(i) => if i.len() == 0 {
                    c.interface
                } else {
                    i
                },
                None => c.interface,
            })
            &&& p.preferred_band is None ==> n.preferred_band == c.preferred_band
            &&& p.preferred_band matches Some(b) ==> {
                let t = ascii_lower(trimmed(b));
                &&& n.preferred_band == "5"@ <==> t == "5"@ || t == "5g"@ || t == "5ghz"@
                &&& n.preferred_band == "2.4"@ <==> t == "2.4"@ || t == "24"@ || t == "2.4g"@ || t
                    == "2g"@
            }
            &&& p.home_aps is None ==> n.home_aps == c.home_aps
            &&& n.listen == c.listen && n.wpa_ctrl_path == c.wpa_ctrl_path
        }),
{
    reveal_strlit("5");
    reveal_strlit("5g");
    reveal_strlit("5ghz");
    reveal_strlit("2.4");
    reveal_strlit("24");
    reveal_strlit("2.4g");
    reveal_strlit("2g");
    assert("5"@.len() == 1 && "2.4"@.len() == 3);
    assert("5"@[0] == '5' && "5g"@[0] == '5' && "5ghz"@[0] == '5');
    assert("2.4"@[0] == '2' && "24"@[0] == '2' && "2.4g"@[0] == '2' && "2g"@[0] == '2');
    if let Some(b) = p.preferred_band {
        assert(lowered_patch(p).preferred_band == Some(b));
        assert(band_name(b) is Some);
    }
}

/// An update is refused exactly where it names a mode, a level, an action or a band that is not known,
/// or where the settings after it would not hold together: the line for leaving the band must be below
/// the one for watching, the action must be known, and protection must start above where it ends.
pub proof fn law_update_is_refused(c: ConfigModel, p: ConfigPatchModel)
    ensures
        patch_error(c, p) is Some <==> {
            let n = patched(c, p);
            ||| p.mode matches Some(m) && m != "daily"@ && m != "eco"@ && m != "pause"@
            ||| p.log_level matches Some(l) && ascii_lower(l) != "error"@ && ascii_lower(l)
                != "warn"@ && ascii_lower(l) != "info"@ && ascii_lower(l) != "debug"@
            ||| p.weak_action matches Some(a) && ascii_lower(a) != "off"@ && ascii_lower(a)
                != "disconnect"@
            ||| p.preferred_band matches Some(b) && !names_a_band(ascii_lower(trimmed(b)))
            ||| n.score_switch_threshold.rank matches Rank::At(s)
                && n.score_detect_threshold.rank matches Rank::At(d) && s >= d
            ||| ascii_lower(n.weak_action) != "off"@ && ascii_lower(n.weak_action) != "disconnect"@
            ||| n.soft_auto_on_kb <= n.soft_auto_off_kb
        },
{
}

/// The ways in which a band may be written.
pub open spec fn names_a_band(t: Seq<char>) -> bool {
    ||| t == "5"@
    ||| t == "5g"@
    ||| t == "5ghz"@
    ||| t == "2.4"@
    ||| t == "24"@
    ||| t == "2.4g"@
    ||| t == "2g"@
}

/// A line that is given is taken up as it is where it lies inside its limits, and as the nearer limit
/// where it does not; one that is not given stays. The line for watching lies between 40 and 95 points,
/// that for leaving the band between 10 and 80.
pub proof fn law_given_lines_are_taken_up(c: ConfigModel, p: ConfigPatchModel)
    ensures
        ({
            let n = patched(c, lowered_patch(p));
            &&& line_taken_up(
                p.score_detect_threshold,
                c.score_detect_threshold,
                n.score_detect_threshold,
                40,
                95,
            )
            &&& line_taken_up(
                p.score_switch_threshold,
                c.score_switch_threshold,
                n.score_switch_threshold,
                10,
                80,
            )
        }),
{
}

/// Whether a line with limits in whole points has been taken up.
pub open spec fn line_taken_up(
    given: Option<ScoreModel>,
    before: ScoreModel,
    after: ScoreModel,
    lo: int,
    hi: int,
) -> bool {
    match given {
        Some(s) => match s.rank {
            Rank::At(r) => {
                &&& whole_rank(lo) <= r <= whole_rank(hi) ==> after == s
                &&& r < whole_rank(lo) ==> after == whole_score(lo)
                &&& r > whole_rank(hi) ==> after == whole_score(hi)
            },
            Rank::NotANumber => after == s,
        },
        None => after == before,
    }
}

/// What is wrong with the settings is told with its kind in front and the text behind it.
pub proof fn law_config_error_is_told(s: String)
    ensures
        ConfigError::Io(s).message() == "IO: "@ + s@,
        ConfigError::TomlDe(s).message() == "TOML 解析: "@ + s@,
        ConfigError::TomlSer(s).message() == "TOML 序列化: "@ + s@,
        ConfigError::Validate(s).message() == "校验: "@ + s@,
{
}

/// A refusal gives its reason, and nothing but an error is one.
pub proof fn law_refusal_gives_its_reason(r: Result<(), ConfigError>, why: Seq<char>)
    ensures
        refused(r, why) <==> r is Err && r->Err_0 is Validate && r->Err_0->Validate_0@ == why,
        refused(r, why) ==> r->Err_0.message() == "校验: "@ + why,
{
}

} // verus!
