//! What a look at the link makes of the status: the band, why nothing is switched, and the
//! state in words.

use crate::band_bond::homes;
use crate::config::{Config, ConfigModel};
use crate::http::thresholds_in;
use crate::numbers::{dec, dec_int, i32_text, u64_text};
use crate::score::{score_of_whole, whole_score, Score, ScoreModel};
use crate::state_machine::State;
use crate::status_text::{
    status_line, status_line_zh, status_summary, status_summary_zh, threshold_hint,
    threshold_hint_zh, HoldKind, SummaryFacts,
};
use crate::text::{cat, contains, has_prefix, has_sub, starts_with, str_eq};
use crate::web::{thresholds_of, StatusModel, StatusSnapshot};
use vstd::prelude::*;
use vstd::string::*;

verus! {

pub open spec fn band_name_of(freq: Option<u32>) -> Seq<char> {
    match freq {
        Some(f) => if f > 5000 {
            "5"@
        } else {
            "2.4"@
        },
        None => "?"@,
    }
}

/// The band of a frequency; `?` where it is not known.
pub fn band_of(freq: Option<u32>) -> (r: &'static str)
    ensures
        r@ == band_name_of(freq),
{
    match freq {
        Some(f) => if f > 5000 {
            "5"
        } else {
            "2.4"
        },
        None => "?",
    }
}

/// Whether 5 GHz is the preferred band.
pub open spec fn prefers_5(c: ConfigModel) -> bool {
    c.preferred_band == "5"@ || c.preferred_band.len() == 0
}

/// Whether 5 GHz is the preferred band.
pub fn preferred_is_5g(c: &Config) -> (r: bool)
    ensures
        r == prefers_5(c@),
{
    str_eq(c.preferred_band.as_str(), "5") || c.preferred_band.as_str().is_empty()
}

/// Whether a frequency is on the preferred band; one that is not known is on neither.
pub open spec fn on_preferred_band(prefer_5: bool, freq: Option<u32>) -> bool {
    freq matches Some(f) && (f > 5000) == prefer_5
}

/// Whether a frequency is on the preferred band.
pub fn is_on_preferred(prefer_5: bool, freq: Option<u32>) -> (r: bool)
    ensures
        r == on_preferred_band(prefer_5, freq),
{
    match freq {
        Some(f) => (f > 5000) == prefer_5,
        None => false,
    }
}

/// Seconds between scans: seldom with the screen off, more often while the link is watched.
pub open spec fn scan_gap_secs(screen_off: bool, eco: bool, observing: bool) -> u64 {
    if screen_off {
        60
    } else if eco {
        if observing {
            12
        } else {
            30
        }
    } else if observing {
        8
    } else {
        15
    }
}

/// Seconds between scans.
pub fn scan_gap(screen_off: bool, eco: bool, observing: bool) -> (r: u64)
    ensures
        r == scan_gap_secs(screen_off, eco, observing),
{
    if screen_off {
        60
    } else if eco {
        if observing {
            12
        } else {
            30
        }
    } else if observing {
        8
    } else {
        15
    }
}

/// Seconds between readings of the link's counters.
pub fn sample_gap(observing: bool, state: State) -> (r: u64)
    ensures
        r == (if observing || state == State::GradientDetect || state == State::Switching {
            1u64
        } else {
            3u64
        }),
{
    if observing || state == State::GradientDetect || state == State::Switching {
        1
    } else {
        3
    }
}

/// What a look at the link has shown, apart from its texts.
#[derive(Clone, Copy, Debug)]
pub struct Tick {
    pub rssi: i32,
    pub freq: Option<u32>,
    pub hold_rem: u64,
    pub hold_kind: Option<HoldKind>,
    pub in_home: bool,
    pub best_pref: Option<i32>,
    pub pen_rem: u64,
    pub lock_rem: u64,
    pub screen_off: bool,
    pub in_grace: bool,
    /// Seconds that are left of a retreat after repeated failures.
    pub backoff_left: Option<u64>,
    pub weak_disconnected: bool,
    /// Whether the settings have been saved.
    pub persisted: bool,
    pub machine: State,
}

pub open spec fn state_name(s: State) -> Seq<char> {
    match s {
        State::Idle => "Idle"@,
        State::GradientDetect => "GradientDetect"@,
        State::Switching => "Switching"@,
        State::Penalty => "Penalty"@,
        State::Frozen => "Frozen"@,
    }
}

/// The name of a state.
pub fn state_text(s: State) -> (r: &'static str)
    ensures
        r@ == state_name(s),
{
    match s {
        State::Idle => "Idle",
        State::GradientDetect => "GradientDetect",
        State::Switching => "Switching",
        State::Penalty => "Penalty",
        State::Frozen => "Frozen",
    }
}

/// Why nothing is switched, the weightiest reason first; empty where nothing stands in the way.
pub open spec fn block_text(t: Tick, paused: bool, home_n: nat) -> Seq<char> {
    if paused {
        "已暂停守护"@
    } else if t.hold_kind is Some {
        t.hold_kind->0.block_text(t.hold_rem as nat)
    } else if t.pen_rem > 0 {
        "切换冷却中（剩 "@ + dec(t.pen_rem as nat) + "s）"@
    } else if t.screen_off {
        "息屏降频，不主动切网"@
    } else if t.in_grace {
        "亮屏冷静窗，暂不切网"@
    } else if t.lock_rem > 0 {
        "短时锁定当前 AP（防踢回，剩 "@ + dec(t.lock_rem as nat) + "s）"@
    } else if t.backoff_left is Some {
        "目标连失败多次，退避中（剩 "@ + dec(t.backoff_left->0 as nat)
            + "s，避免系统停用网络）"@
    } else if home_n > 0 && !t.in_home {
        "当前不在家网"@
    } else if t.weak_disconnected {
        "弱信号已断开"@
    } else if !t.persisted {
        "配置未落盘（可用默认运行）"@
    } else {
        seq![]
    }
}

/// Why nothing is switched.
pub fn block_reason(t: &Tick, paused: bool, home_n: usize) -> (r: String)
    ensures
        r@ == block_text(*t, paused, home_n as nat),
{
    if paused {
        return "已暂停守护".to_owned();
    }
    if let Some(k) = t.hold_kind {
        return k.block_zh(t.hold_rem);
    }
    if t.pen_rem > 0 {
        return cat(cat("切换冷却中（剩 ".to_owned(), u64_text(t.pen_rem).as_str()), "s）");
    }
    if t.screen_off {
        return "息屏降频，不主动切网".to_owned();
    }
    if t.in_grace {
        return "亮屏冷静窗，暂不切网".to_owned();
    }
    if t.lock_rem > 0 {
        return cat(
            cat("短时锁定当前 AP（防踢回，剩 ".to_owned(), u64_text(t.lock_rem).as_str()),
            "s）",
        );
    }
    if let Some(left) = t.backoff_left {
        return cat(
            cat("目标连失败多次，退避中（剩 ".to_owned(), u64_text(left).as_str()),
            "s，避免系统停用网络）",
        );
    }
    if home_n > 0 && !t.in_home {
        return "当前不在家网".to_owned();
    }
    if t.weak_disconnected {
        return "弱信号已断开".to_owned();
    }
    if !t.persisted {
        return "配置未落盘（可用默认运行）".to_owned();
    }
    String::new()
}

/// The state as the panel knows it; a pause stays until it is ended.
pub open spec fn next_power(cur: Seq<char>, t: Tick, home_n: nat) -> Seq<char> {
    if cur == "PAUSE"@ {
        cur
    } else if t.weak_disconnected {
        "WEAK_OFF"@
    } else if t.hold_kind is Some {
        t.hold_kind->0.power_text(t.hold_rem as nat)
    } else if !t.in_home && home_n > 0 {
        "OUT_OF_HOME"@
    } else if t.screen_off {
        "SCREEN_OFF"@
    } else {
        state_name(t.machine)
    }
}

fn power_text(cur: &str, t: &Tick, home_n: usize) -> (r: String)
    ensures
        r@ == next_power(cur@, *t, home_n as nat),
{
    if str_eq(cur, "PAUSE") {
        cur.to_owned()
    } else if t.weak_disconnected {
        "WEAK_OFF".to_owned()
    } else if let Some(k) = t.hold_kind {
        k.power_state(t.hold_rem)
    } else if !t.in_home && home_n > 0 {
        "OUT_OF_HOME".to_owned()
    } else if t.screen_off {
        "SCREEN_OFF".to_owned()
    } else {
        state_text(t.machine).to_owned()
    }
}

pub open spec fn screen_name(off: bool) -> Seq<char> {
    if off {
        "OFF"@
    } else {
        "ON"@
    }
}

fn screen_text(off: bool) -> (r: String)
    ensures
        r@ == screen_name(off),
{
    if off {
        "OFF".to_owned()
    } else {
        "ON".to_owned()
    }
}

pub open spec fn hold_name(k: Option<HoldKind>) -> Seq<char> {
    match k {
        Some(k) => k.name(),
        None => seq![],
    }
}

fn hold_text(k: Option<HoldKind>) -> (r: String)
    ensures
        r@ == hold_name(k),
{
    match k {
        Some(k) => k.as_str().to_owned(),
        None => String::new(),
    }
}

/// The facts of a summary.
pub open spec fn summary_facts(t: Tick, c: ConfigModel) -> SummaryFacts {
    SummaryFacts {
        hold_rem: t.hold_rem,
        pen_rem: t.pen_rem,
        in_home: t.in_home,
        home_n: c.home_aps.len() as usize,
        screen_off: t.screen_off,
        paused: c.mode == "pause"@,
        on_preferred: on_preferred_band(prefers_5(c), t.freq),
        lock_rem: t.lock_rem,
        prefer_5: prefers_5(c),
    }
}

/// The status after a look at the link.
pub open spec fn after_tick(
    s: StatusModel,
    t: Tick,
    c: ConfigModel,
    wpa_state: Seq<char>,
    ssid: Seq<char>,
    bssid: Seq<char>,
    score: ScoreModel,
) -> StatusModel {
    let band = band_name_of(t.freq);
    let on_pref = on_preferred_band(prefers_5(c), t.freq);
    let paused = c.mode == "pause"@;
    StatusModel {
        state: wpa_state,
        rssi: t.rssi,
        ssid,
        bssid,
        band,
        score,
        hold_remaining_secs: t.hold_rem,
        hold_kind: hold_name(t.hold_kind),
        user_hold_secs: c.user_hold_secs,
        link_ctrl: "ok"@,
        home_ap_count: c.home_aps.len() as usize,
        in_home: t.in_home,
        block_reason: block_text(t, paused, c.home_aps.len()),
        threshold_hint: threshold_hint(
            on_pref,
            score,
            t.rssi,
            c.score_switch_threshold,
            c.score_detect_threshold,
            c.upswitch_rssi_min_dbm,
            t.best_pref,
        ),
        best_5g_rssi: t.best_pref,
        penalty_remaining_secs: t.pen_rem,
        bssid_lock_remaining_secs: t.lock_rem,
        summary: match t.hold_kind {
            Some(k) => k.summary_text(t.hold_rem as nat),
            None => status_summary(band, score, c.mode, summary_facts(t, c)),
        },
        screen: screen_name(t.screen_off),
        thresholds: thresholds_in(c),
        power_state: next_power(s.power_state, t, c.home_aps.len()),
        ..s
    }
}

impl StatusSnapshot {
    /// The daemon is paused.
    pub fn on_paused(&mut self)
        ensures
            final(self)@ == (StatusModel { power_state: "PAUSE"@, ..old(self)@ }),
    {
        self.power_state = "PAUSE".to_owned();
    }

    /// Takes a look at the link. The line for the status file.
    pub fn on_tick(
        &mut self,
        t: &Tick,
        c: &Config,
        wpa_state: &str,
        ssid: &str,
        bssid: &str,
        score: &Score,
    ) -> (r: String)
        ensures
            final(self)@ == after_tick(old(self)@, *t, c@, wpa_state@, ssid@, bssid@, score@),
            r@ == status_line(
                c@.mode,
                ssid@,
                band_name_of(t.freq),
                score@,
                final(self)@.power_state,
                final(self)@.block_reason,
            ),
    {
        let ghost before = self@;
        let home_n = c.home_aps.len();
        assert(homes(c.home_aps@).len() == home_n);
        let band = band_of(t.freq);
        let prefer_5 = preferred_is_5g(c);
        let on_pref = is_on_preferred(prefer_5, t.freq);
        let paused = str_eq(c.mode.as_str(), "pause");
        let facts = SummaryFacts {
            hold_rem: t.hold_rem,
            pen_rem: t.pen_rem,
            in_home: t.in_home,
            home_n,
            screen_off: t.screen_off,
            paused,
            on_preferred: on_pref,
            lock_rem: t.lock_rem,
            prefer_5,
        };
        let summary = match t.hold_kind {
            Some(k) => k.summary_zh(t.hold_rem),
            None => status_summary_zh(band, score, c.mode.as_str(), facts),
        };
        let hint = threshold_hint_zh(
            on_pref,
            score,
            t.rssi,
            &c.score_switch_threshold,
            &c.score_detect_threshold,
            c.upswitch_rssi_min_dbm,
            t.best_pref,
        );
        let power = power_text(self.power_state.as_str(), t, home_n);
        let block = block_reason(t, paused, home_n);
        self.state = wpa_state.to_owned();
        self.rssi = t.rssi;
        self.ssid = ssid.to_owned();
        self.bssid = bssid.to_owned();
        self.band = band.to_owned();
        self.score = score.clone();
        self.hold_remaining_secs = t.hold_rem;
        self.hold_kind = hold_text(t.hold_kind);
        self.user_hold_secs = c.user_hold_secs;
        self.link_ctrl = "ok".to_owned();
        self.home_ap_count = home_n;
        self.in_home = t.in_home;
        self.block_reason = block;
        self.threshold_hint = hint;
        self.best_5g_rssi = t.best_pref;
        self.penalty_remaining_secs = t.pen_rem;
        self.bssid_lock_remaining_secs = t.lock_rem;
        self.summary = summary;
        self.screen = screen_text(t.screen_off);
        self.thresholds = thresholds_of(c);
        self.power_state = power;
        assert(self@ =~= after_tick(before, *t, c@, wpa_state@, ssid@, bssid@, score@));
        status_line_zh(
            c.mode.as_str(),
            ssid,
            band,
            score,
            self.power_state.as_str(),
            self.block_reason.as_str(),
        )
    }
}

/// What is shown while the link cannot be controlled, apart from the settings.
#[derive(Clone, Copy, Debug)]
pub struct Outage {
    pub hold_rem: u64,
    pub hold_kind: Option<HoldKind>,
    pub screen_off: bool,
}

/// The status while the link cannot be controlled.
pub open spec fn after_outage(s: StatusModel, o: Outage, c: ConfigModel) -> StatusModel {
    let paused = c.mode == "pause"@;
    StatusModel {
        hold_remaining_secs: o.hold_rem,
        hold_kind: hold_name(o.hold_kind),
        user_hold_secs: c.user_hold_secs,
        home_ap_count: c.home_aps.len() as usize,
        link_ctrl: "reconnect"@,
        screen: screen_name(o.screen_off),
        block_reason: if paused {
            "已暂停守护"@
        } else if o.hold_kind is Some {
            o.hold_kind->0.block_text(o.hold_rem as nat)
        } else if o.screen_off {
            "息屏降频，不主动切网"@
        } else {
            "链路控制异常，正在重连 wpa"@
        },
        summary: if o.hold_kind is Some {
            o.hold_kind->0.summary_text(o.hold_rem as nat)
        } else if o.screen_off {
            "息屏降频"@
        } else {
            "链路控制 · 重连中"@
        },
        power_state: if o.hold_kind is Some {
            o.hold_kind->0.power_text(o.hold_rem as nat)
        } else if paused {
            "PAUSE"@
        } else if o.screen_off {
            "SCREEN_OFF"@
        } else if has_prefix(s.power_state, "USER_HOLD"@) || has_prefix(
            s.power_state,
            "SOFT_PAUSE"@,
        ) {
            "ON"@
        } else {
            s.power_state
        },
        ..s
    }
}

impl StatusSnapshot {
    /// The link cannot be controlled just now. The line for the status file.
    pub fn on_outage(&mut self, o: &Outage, c: &Config) -> (r: String)
        ensures
            final(self)@ == after_outage(old(self)@, *o, c@),
            r@ == status_line(
                c@.mode,
                final(self)@.ssid,
                final(self)@.band,
                final(self)@.score,
                final(self)@.power_state,
                final(self)@.block_reason,
            ),
    {
        let ghost before = self@;
        let paused = str_eq(c.mode.as_str(), "pause");
        assert(homes(c.home_aps@).len() == c.home_aps@.len());
        self.hold_remaining_secs = o.hold_rem;
        self.hold_kind = hold_text(o.hold_kind);
        self.user_hold_secs = c.user_hold_secs;
        self.home_ap_count = c.home_aps.len();
        self.link_ctrl = "reconnect".to_owned();
        self.screen = screen_text(o.screen_off);
        self.block_reason = if paused {
            "已暂停守护".to_owned()
        } else if let Some(k) = o.hold_kind {
            k.block_zh(o.hold_rem)
        } else if o.screen_off {
            "息屏降频，不主动切网".to_owned()
        } else {
            "链路控制异常，正在重连 wpa".to_owned()
        };
        self.summary = if let Some(k) = o.hold_kind {
            k.summary_zh(o.hold_rem)
        } else if o.screen_off {
            "息屏降频".to_owned()
        } else {
            "链路控制 · 重连中".to_owned()
        };
        if let Some(k) = o.hold_kind {
            self.power_state = k.power_state(o.hold_rem);
        } else if paused {
            self.power_state = "PAUSE".to_owned();
        } else if o.screen_off {
            self.power_state = "SCREEN_OFF".to_owned();
        } else if starts_with(self.power_state.as_str(), "USER_HOLD") || starts_with(
            self.power_state.as_str(),
            "SOFT_PAUSE",
        ) {
            self.power_state = "ON".to_owned();
        }
        assert(self@ =~= after_outage(before, *o, c@));
        status_line_zh(
            c.mode.as_str(),
            self.ssid.as_str(),
            self.band.as_str(),
            &self.score,
            self.power_state.as_str(),
            self.block_reason.as_str(),
        )
    }

    /// The link can be controlled again, or not, for that reason.
    pub fn on_reconnect(&mut self, error: Option<&str>)
        ensures
            match error {
                None => final(self)@ == (StatusModel { link_ctrl: "ok"@, ..old(self)@ }),
                Some(e) => final(self)@ == (StatusModel {
                    link_ctrl: "fail"@,
                    block_reason: if old(self)@.block_reason.len() == 0 || has_sub(
                        old(self)@.block_reason,
                        "重连"@,
                    ) {
                        "链路控制重连失败："@ + e@
                    } else {
                        old(self)@.block_reason
                    },
                    ..old(self)@
                }),
            },
    {
        match error {
            None => {
                self.link_ctrl = "ok".to_owned();
            },
            Some(e) => {
                self.link_ctrl = "fail".to_owned();
                if self.block_reason.as_str().is_empty() || contains(
                    self.block_reason.as_str(),
                    "重连",
                ) {
                    self.block_reason = cat("链路控制重连失败：".to_owned(), e);
                }
            },
        }
    }

    /// Something has gone wrong that the panel is to show.
    pub fn on_error(&mut self, message: &str)
        ensures
            final(self)@ == (StatusModel { last_error: message@, ..old(self)@ }),
    {
        self.last_error = message.to_owned();
    }

    /// A weak link has been dropped, for that reason.
    pub fn on_weak_off(&mut self, message: &str)
        ensures
            final(self)@ == (StatusModel {
                last_error: message@,
                power_state: "WEAK_OFF"@,
                ..old(self)@
            }),
    {
        self.last_error = message.to_owned();
        self.power_state = "WEAK_OFF".to_owned();
    }

    /// The link is back after it had been dropped.
    pub fn on_weak_restored(&mut self)
        ensures
            final(self)@ == (StatusModel {
                last_error: if has_prefix(old(self)@.last_error, "弱信号"@) {
                    seq![]
                } else {
                    old(self)@.last_error
                },
                ..old(self)@
            }),
    {
        if starts_with(self.last_error.as_str(), "弱信号") {
            self.last_error = String::new();
        }
    }

    /// The other side cannot be selected, for that reason.
    pub fn on_unselectable(&mut self, message: &str)
        ensures
            final(self)@ == (StatusModel {
                last_error: message@,
                block_reason: "对侧网络无法选中（或已停用）"@,
                ..old(self)@
            }),
    {
        self.last_error = message.to_owned();
        self.block_reason = "对侧网络无法选中（或已停用）".to_owned();
    }

    /// A switch was wanted and there was nowhere to go, for that reason.
    pub fn on_no_target(&mut self, why: &str, hint: String, best_pref: Option<i32>)
        ensures
            final(self)@ == (StatusModel {
                last_error: why@,
                block_reason: why@,
                best_5g_rssi: best_pref,
                threshold_hint: hint@,
                ..old(self)@
            }),
    {
        self.last_error = why.to_owned();
        self.block_reason = why.to_owned();
        self.best_5g_rssi = best_pref;
        self.threshold_hint = hint;
    }

    /// A probe of the Internet has found this.
    pub fn on_l3(&mut self, found: String)
        ensures
            final(self)@ == (StatusModel { l3_last: found@, ..old(self)@ }),
    {
        self.l3_last = found;
    }

    /// An update has been found on disk.
    pub fn on_update(&mut self, message: &str)
        ensures
            final(self)@ == (StatusModel { summary: message@, ..old(self)@ }),
    {
        self.summary = message.to_owned();
    }

    /// What is shown while there is no link at all: values that change, so that the panel is
    /// seen to work.
    pub fn on_offline(&mut self, count: u32)
        ensures
            final(self)@ == (StatusModel {
                rssi: (-55 - (count % 20)) as i32,
                score: whole_score(42),
                state: "OFFLINE"@,
                band: if count % 2 == 0 {
                    "2.4"@
                } else {
                    "5"@
                },
                ..old(self)@
            }),
    {
        self.rssi = -55 - (count % 20) as i32;
        self.score = score_of_whole(42);
        self.state = "OFFLINE".to_owned();
        self.band = if count % 2 == 0 {
            "2.4".to_owned()
        } else {
            "5".to_owned()
        };
    }

    /// The text of the standing notification: the summary where there is one. The score comes
    /// cut to whole points.
    pub fn ongoing_text(&self, points: i32) -> (r: String)
        ensures
            r@ == (if self@.summary.len() > 0 {
                self@.summary
            } else if self@.state == "COMPLETED"@ {
                self@.ssid + " · "@ + dec_int(self@.rssi as int) + "dBm · 分"@ + dec_int(
                    points as int,
                )
            } else {
                "未连接"@
            }),
    {
        if !self.summary.as_str().is_empty() {
            return self.summary.clone();
        }
        if str_eq(self.state.as_str(), "COMPLETED") {
            let mut out = self.ssid.clone();
            out.append(" · ");
            out.append(i32_text(self.rssi).as_str());
            out.append("dBm · 分");
            out.append(i32_text(points).as_str());
            return out;
        }
        "未连接".to_owned()
    }
}

/// A frequency is on 5 GHz above 5000 MHz and on 2.4 GHz up to there; one that is not known is on neither.
pub proof fn law_bands(f: u32, prefer_5: bool)
    ensures
        on_preferred_band(true, Some(f)) <==> f > 5000,
        on_preferred_band(false, Some(f)) <==> f <= 5000,
        !on_preferred_band(prefer_5, None),
        f > 5000 ==> band_name_of(Some(f)) == "5"@,
        f <= 5000 ==> band_name_of(Some(f)) == "2.4"@,
        band_name_of(None) == "?"@,
{
}

/// 5 GHz is preferred unless the settings name the other band.
pub proof fn law_preferred_band(c: ConfigModel)
    ensures
        c.preferred_band == "5"@ || c.preferred_band == ""@ ==> prefers_5(c),
        c.preferred_band == "2.4"@ ==> !prefers_5(c),
{
    reveal_strlit("5");
    reveal_strlit("2.4");
    reveal_strlit("");
    assert("5"@.len() == 1 && "2.4"@.len() == 3);
}

/// Scans are more seldom with the screen off and while power is saved, and more frequent while the link is
/// watched: never more often than every 8 seconds, nor more seldom than once a minute.
pub proof fn law_scan_gaps(screen_off: bool, eco: bool, observing: bool)
    ensures
        8 <= scan_gap_secs(screen_off, eco, observing) <= 60,
        screen_off ==> scan_gap_secs(screen_off, eco, observing) == 60,
        scan_gap_secs(screen_off, eco, true) <= scan_gap_secs(screen_off, eco, false),
        scan_gap_secs(screen_off, false, observing) <= scan_gap_secs(screen_off, true, observing),
        !screen_off ==> scan_gap_secs(screen_off, eco, true) < scan_gap_secs(screen_off, eco, false),
        !screen_off ==> scan_gap_secs(screen_off, false, observing) < scan_gap_secs(
            screen_off,
            true,
            observing,
        ),
{
}

/// The panel says why nothing is switched exactly where something stands against it.
pub proof fn law_reason_is_given(t: Tick, paused: bool, home_n: nat)
    ensures
        block_text(t, paused, home_n).len() > 0 <==> {
            ||| paused
            ||| t.hold_kind is Some
            ||| t.pen_rem > 0
            ||| t.screen_off
            ||| t.in_grace
            ||| t.lock_rem > 0
            ||| t.backoff_left is Some
            ||| home_n > 0 && !t.in_home
            ||| t.weak_disconnected
            ||| !t.persisted
        },
{
    reveal_strlit("已暂停守护");
    reveal_strlit("切换冷却中（剩 ");
    reveal_strlit("息屏降频，不主动切网");
    reveal_strlit("亮屏冷静窗，暂不切网");
    reveal_strlit("短时锁定当前 AP（防踢回，剩 ");
    reveal_strlit("目标连失败多次，退避中（剩 ");
    reveal_strlit("当前不在家网");
    reveal_strlit("弱信号已断开");
    reveal_strlit("配置未落盘（可用默认运行）");
    reveal_strlit("手切保护中（剩 ");
    reveal_strlit("观影保护中（剩 ");
}

/// The weightiest reason is the one that is given: a pause before a time of protection, that before a pause
/// after a failure, that before the screen, and so on down to settings that are not saved.
pub proof fn law_weightiest_reason_is_given(t: Tick, home_n: nat)
    ensures
        block_text(t, true, home_n) == "已暂停守护"@,
        t.hold_kind is None && t.pen_rem == 0 ==> {
            &&& t.screen_off ==> block_text(t, false, home_n) == "息屏降频，不主动切网"@
            &&& !t.screen_off && t.in_grace ==> block_text(t, false, home_n)
                == "亮屏冷静窗，暂不切网"@
            &&& !t.screen_off && !t.in_grace && t.lock_rem == 0 && t.backoff_left is None ==> {
                &&& home_n > 0 && !t.in_home ==> block_text(t, false, home_n) == "当前不在家网"@
                &&& (home_n == 0 || t.in_home) && t.weak_disconnected ==> block_text(t, false, home_n)
                    == "弱信号已断开"@
                &&& (home_n == 0 || t.in_home) && !t.weak_disconnected && !t.persisted
                    ==> block_text(t, false, home_n) == "配置未落盘（可用默认运行）"@
            }
        },
        t.hold_kind == Some(HoldKind::Manual) ==> block_text(t, false, home_n) == "手切保护中（剩 "@
            + dec(t.hold_rem as nat) + "s，不自动切网）"@,
        t.hold_kind == Some(HoldKind::SoftPause) ==> block_text(t, false, home_n)
            == "观影保护中（剩 "@ + dec(t.hold_rem as nat) + "s，不自动切网）"@,
        t.hold_kind is None && t.pen_rem > 0 ==> block_text(t, false, home_n) == "切换冷却中（剩 "@
            + dec(t.pen_rem as nat) + "s）"@,
{
}

/// The state that the panel shows: a pause stays; else a dropped link comes first, then a time of
/// protection, then a link away from home, then the screen, then what the machine is doing.
pub proof fn law_shown_state(cur: Seq<char>, t: Tick, home_n: nat)
    ensures
        cur == "PAUSE"@ ==> next_power(cur, t, home_n) == "PAUSE"@,
        cur != "PAUSE"@ && t.weak_disconnected ==> next_power(cur, t, home_n) == "WEAK_OFF"@,
        cur != "PAUSE"@ && !t.weak_disconnected ==> {
            &&& t.hold_kind == Some(HoldKind::Manual) ==> next_power(cur, t, home_n)
                == "USER_HOLD("@ + dec(t.hold_rem as nat) + "s)"@
            &&& t.hold_kind == Some(HoldKind::SoftPause) ==> next_power(cur, t, home_n)
                == "SOFT_PAUSE("@ + dec(t.hold_rem as nat) + "s)"@
            &&& t.hold_kind is None && !t.in_home && home_n > 0 ==> next_power(cur, t, home_n)
                == "OUT_OF_HOME"@
            &&& t.hold_kind is None && (t.in_home || home_n == 0) && t.screen_off ==> next_power(
                cur,
                t,
                home_n,
            ) == "SCREEN_OFF"@
            &&& t.hold_kind is None && (t.in_home || home_n == 0) && !t.screen_off ==> {
                &&& t.machine == State::Idle ==> next_power(cur, t, home_n) == "Idle"@
                &&& t.machine == State::GradientDetect ==> next_power(cur, t, home_n)
                    == "GradientDetect"@
                &&& t.machine == State::Switching ==> next_power(cur, t, home_n) == "Switching"@
                &&& t.machine == State::Penalty ==> next_power(cur, t, home_n) == "Penalty"@
                &&& t.machine == State::Frozen ==> next_power(cur, t, home_n) == "Frozen"@
            }
        },
{
}

/// What a look has shown is what the panel shows, and what it does not tell stays.
pub proof fn law_panel_shows_the_look(
    s: StatusModel,
    t: Tick,
    c: ConfigModel,
    wpa_state: Seq<char>,
    ssid: Seq<char>,
    bssid: Seq<char>,
    score: ScoreModel,
)
    ensures
        ({
            let n = after_tick(s, t, c, wpa_state, ssid, bssid, score);
            &&& n.state == wpa_state && n.ssid == ssid && n.bssid == bssid && n.score == score
            &&& n.rssi == t.rssi && n.in_home == t.in_home && n.best_5g_rssi == t.best_pref
            &&& n.hold_remaining_secs == t.hold_rem && n.penalty_remaining_secs == t.pen_rem
                && n.bssid_lock_remaining_secs == t.lock_rem
            &&& n.user_hold_secs == c.user_hold_secs
            &&& t.freq matches Some(f) ==> n.band == (if f > 5000 {
                "5"@
            } else {
                "2.4"@
            })
            &&& t.freq is None ==> n.band == "?"@
            &&& t.screen_off ==> n.screen == "OFF"@
            &&& !t.screen_off ==> n.screen == "ON"@
            &&& n.link_ctrl == "ok"@
            &&& t.hold_kind == Some(HoldKind::Manual) ==> n.hold_kind == "manual"@
            &&& t.hold_kind == Some(HoldKind::SoftPause) ==> n.hold_kind == "soft_pause"@
            &&& t.hold_kind is None ==> n.hold_kind.len() == 0
            &&& n.last_error == s.last_error && n.l3_last == s.l3_last && n.version == s.version
        }),
{
}

/// While the link cannot be controlled, that is told; a state of protection that has ended gives way.
pub proof fn law_outage_is_told(s: StatusModel, o: Outage, c: ConfigModel)
    ensures
        ({
            let n = after_outage(s, o, c);
            &&& n.link_ctrl == "reconnect"@
            &&& n.hold_remaining_secs == o.hold_rem
            &&& o.screen_off ==> n.screen == "OFF"@
            &&& !o.screen_off ==> n.screen == "ON"@
            &&& c.mode == "pause"@ ==> n.block_reason == "已暂停守护"@
            &&& c.mode != "pause"@ && o.hold_kind is None && o.screen_off ==> n.block_reason
                == "息屏降频，不主动切网"@ && n.power_state == "SCREEN_OFF"@
            &&& c.mode != "pause"@ && o.hold_kind is None && !o.screen_off ==> n.block_reason
                == "链路控制异常，正在重连 wpa"@ && n.summary == "链路控制 · 重连中"@
            &&& c.mode == "pause"@ && o.hold_kind is None ==> n.power_state == "PAUSE"@
            &&& o.hold_kind == Some(HoldKind::Manual) ==> n.power_state == "USER_HOLD("@ + dec(
                o.hold_rem as nat,
            ) + "s)"@
            &&& n.rssi == s.rssi && n.ssid == s.ssid && n.bssid == s.bssid && n.score == s.score
                && n.band == s.band && n.last_error == s.last_error
        }),
{
}

/// What the panel says of a look: paused exactly where the mode says so, the hint of the band that
/// the link is on against the thresholds of the settings, and as the summary the protection where
/// there is one, and else the state of the link with the seconds that are left of each wait.
pub proof fn law_panel_says_why(
    s: StatusModel,
    t: Tick,
    c: ConfigModel,
    wpa_state: Seq<char>,
    ssid: Seq<char>,
    bssid: Seq<char>,
    score: ScoreModel,
)
    requires
        c.home_aps.len() <= usize::MAX,
    ensures
        ({
            let n = after_tick(s, t, c, wpa_state, ssid, bssid, score);
            let f = SummaryFacts {
                hold_rem: t.hold_rem,
                pen_rem: t.pen_rem,
                in_home: t.in_home,
                home_n: c.home_aps.len() as usize,
                screen_off: t.screen_off,
                paused: c.mode == "pause"@,
                on_preferred: on_preferred_band(prefers_5(c), t.freq),
                lock_rem: t.lock_rem,
                prefer_5: prefers_5(c),
            };
            &&& c.mode == "pause"@ ==> n.block_reason == "已暂停守护"@
            &&& c.mode == "pause"@ && t.hold_kind is None ==> n.summary == "已暂停 · 仅观测"@
            &&& t.hold_kind is None ==> n.summary == status_summary(n.band, score, c.mode, f)
            &&& t.hold_kind matches Some(k) ==> n.summary == k.summary_text(t.hold_rem as nat)
            &&& n.thresholds.score_switch_threshold == c.score_switch_threshold
            &&& n.thresholds.mode == c.mode
            &&& n.home_ap_count == c.home_aps.len()
            &&& n.threshold_hint == threshold_hint(
                on_preferred_band(prefers_5(c), t.freq),
                score,
                t.rssi,
                c.score_switch_threshold,
                c.score_detect_threshold,
                c.upswitch_rssi_min_dbm,
                t.best_pref,
            )
        }),
{
}

} // verus!
