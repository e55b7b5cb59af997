//! The panel's requests: which one is which, what their queries and bodies ask for, what they
//! change in the status, and what is answered.

use crate::band_bond::{distinct_names, dual_band_pair_saved, pair_report};
use crate::clock::is_clock;
use crate::config::{opt_text, Config, ConfigModel};
use crate::events::{event_models, events_json, events_to_json, SwitchEvent};
use crate::hold::{hold_for, HoldState};
use crate::numbers::{
    dec, is_digit, law_decimal_read_back, lemma_dec, parse_unsigned, u64_text, unsigned_value,
    usize_text,
};
use crate::status_text::{status_line, status_line_zh, HoldKind};
use crate::text::{
    cat, contains, find_class, from_chars, has_prefix, has_sub, in_class, law_cutting,
    law_standing_in, prefix_len, split_at_class, split_class, splitn_at_class, splitn_class,
    starts_with, str_eq, texts, to_chars, Class,
};
use crate::web::{
    step_models, thresholds_of, Readiness, ReadinessModel, ReadyStep, StatusModel, StatusSnapshot,
    StepModel, ThresholdsModel,
};
use vstd::prelude::*;
use vstd::string::*;

verus! {

/// The method of a request.
#[derive(Clone, Copy, Debug, PartialEq, Eq, Structural)]
pub enum Verb {
    Get,
    Post,
    Put,
    Options,
    Other,
}

/// A preset that can be asked for.
#[derive(Clone, Copy, Debug, PartialEq, Eq, Structural)]
pub enum Preset {
    Daily,
    Stable,
    Sensitive,
}

impl Preset {
    pub open spec fn name(self) -> Seq<char> {
        match self {
            Preset::Daily => "daily"@,
            Preset::Stable => "stable"@,
            Preset::Sensitive => "sensitive"@,
        }
    }

    /// The id of the preset.
    pub fn id(self) -> (r: &'static str)
        ensures
            r@ == self.name(),
    {
        match self {
            Preset::Daily => "daily",
            Preset::Stable => "stable",
            Preset::Sensitive => "sensitive",
        }
    }
}

/// A mode that can be asked for.
#[derive(Clone, Copy, Debug, PartialEq, Eq, Structural)]
pub enum RunMode {
    Pause,
    Daily,
    Eco,
}

impl RunMode {
    pub open spec fn name(self) -> Seq<char> {
        match self {
            RunMode::Pause => "pause"@,
            RunMode::Daily => "daily"@,
            RunMode::Eco => "eco"@,
        }
    }

    /// The mode as the settings know it.
    pub fn as_str(self) -> (r: &'static str)
        ensures
            r@ == self.name(),
    {
        match self {
            RunMode::Pause => "pause",
            RunMode::Daily => "daily",
            RunMode::Eco => "eco",
        }
    }
}

/// What a request is for.
#[derive(Clone, Copy, Debug, PartialEq, Eq, Structural)]
pub enum Route {
    Status,
    History,
    HistoryClear,
    Readiness,
    ConfigGet,
    ConfigSet,
    Preset(Preset),
    Mode(RunMode),
    HoldClear,
    SoftPause,
    Scan,
    InitConfig,
    ConfigReset,
    NotifyTest,
    Connect,
    Logs,
    LogsClear,
    /// The panel itself.
    Index,
    /// What is allowed.
    Preflight,
    /// Nothing of that name.
    NotFound,
    /// Not the panel's interface: the panel itself, without headers.
    Fallback,
}

/// What a request is for.
pub open spec fn route_of(verb: Verb, path: Seq<char>) -> Route {
    if verb == Verb::Get && path == "/api/status"@ {
        Route::Status
    } else if verb == Verb::Get && path == "/api/history"@ {
        Route::History
    } else if (verb == Verb::Post || verb == Verb::Get) && path == "/api/history/clear"@ {
        Route::HistoryClear
    } else if verb == Verb::Get && path == "/api/readiness"@ {
        Route::Readiness
    } else if verb == Verb::Get && path == "/api/config"@ {
        Route::ConfigGet
    } else if (verb == Verb::Post || verb == Verb::Put) && path == "/api/config"@ {
        Route::ConfigSet
    } else if (verb == Verb::Post || verb == Verb::Get) && path == "/api/config/preset/daily"@ {
        Route::Preset(Preset::Daily)
    } else if (verb == Verb::Post || verb == Verb::Get) && path == "/api/config/preset/stable"@ {
        Route::Preset(Preset::Stable)
    } else if (verb == Verb::Post || verb == Verb::Get) && path == "/api/config/preset/sensitive"@ {
        Route::Preset(Preset::Sensitive)
    } else if (verb == Verb::Get || verb == Verb::Post) && path == "/api/mode/pause"@ {
        Route::Mode(RunMode::Pause)
    } else if (verb == Verb::Get || verb == Verb::Post) && path == "/api/mode/daily"@ {
        Route::Mode(RunMode::Daily)
    } else if (verb == Verb::Get || verb == Verb::Post) && path == "/api/mode/eco"@ {
        Route::Mode(RunMode::Eco)
    } else if (verb == Verb::Get || verb == Verb::Post) && path == "/api/hold/clear"@ {
        Route::HoldClear
    } else if (verb == Verb::Get || verb == Verb::Post) && path == "/api/soft-pause"@ {
        Route::SoftPause
    } else if (verb == Verb::Get || verb == Verb::Post) && path == "/api/scan"@ {
        Route::Scan
    } else if (verb == Verb::Get || verb == Verb::Post) && path == "/api/init-config"@ {
        Route::InitConfig
    } else if verb == Verb::Post && path == "/api/config/reset"@ {
        Route::ConfigReset
    } else if verb == Verb::Post && path == "/api/notify/test"@ {
        Route::NotifyTest
    } else if verb == Verb::Post && path == "/api/connect"@ {
        Route::Connect
    } else if verb == Verb::Get && path == "/api/logs"@ {
        Route::Logs
    } else if (verb == Verb::Post || verb == Verb::Get) && path == "/api/logs/clear"@ {
        Route::LogsClear
    } else if verb == Verb::Get && (path == "/"@ || path == "/index.html"@) {
        Route::Index
    } else if verb == Verb::Options {
        Route::Preflight
    } else if has_prefix(path, "/api/"@) {
        Route::NotFound
    } else {
        Route::Fallback
    }
}

/// What a request is for.
pub fn route(verb: Verb, path: &str) -> (r: Route)
    ensures
        r == route_of(verb, path@),
{
    if verb == Verb::Get && str_eq(path, "/api/status") {
        Route::Status
    } else if verb == Verb::Get && str_eq(path, "/api/history") {
        Route::History
    } else if (verb == Verb::Post || verb == Verb::Get) && str_eq(path, "/api/history/clear") {
        Route::HistoryClear
    } else if verb == Verb::Get && str_eq(path, "/api/readiness") {
        Route::Readiness
    } else if verb == Verb::Get && str_eq(path, "/api/config") {
        Route::ConfigGet
    } else if (verb == Verb::Post || verb == Verb::Put) && str_eq(path, "/api/config") {
        Route::ConfigSet
    } else if (verb == Verb::Post || verb == Verb::Get) && str_eq(path, "/api/config/preset/daily") {
        Route::Preset(Preset::Daily)
    } else if (verb == Verb::Post || verb == Verb::Get) && str_eq(path, "/api/config/preset/stable") {
        Route::Preset(Preset::Stable)
    } else if (verb == Verb::Post || verb == Verb::Get) && str_eq(path, "/api/config/preset/sensitive") {
        Route::Preset(Preset::Sensitive)
    } else if (verb == Verb::Get || verb == Verb::Post) && str_eq(path, "/api/mode/pause") {
        Route::Mode(RunMode::Pause)
    } else if (verb == Verb::Get || verb == Verb::Post) && str_eq(path, "/api/mode/daily") {
        Route::Mode(RunMode::Daily)
    } else if (verb == Verb::Get || verb == Verb::Post) && str_eq(path, "/api/mode/eco") {
        Route::Mode(RunMode::Eco)
    } else if (verb == Verb::Get || verb == Verb::Post) && str_eq(path, "/api/hold/clear") {
        Route::HoldClear
    } else if (verb == Verb::Get || verb == Verb::Post) && str_eq(path, "/api/soft-pause") {
        Route::SoftPause
    } else if (verb == Verb::Get || verb == Verb::Post) && str_eq(path, "/api/scan") {
        Route::Scan
    } else if (verb == Verb::Get || verb == Verb::Post) && str_eq(path, "/api/init-config") {
        Route::InitConfig
    } else if verb == Verb::Post && str_eq(path, "/api/config/reset") {
        Route::ConfigReset
    } else if verb == Verb::Post && str_eq(path, "/api/notify/test") {
        Route::NotifyTest
    } else if verb == Verb::Post && str_eq(path, "/api/connect") {
        Route::Connect
    } else if verb == Verb::Get && str_eq(path, "/api/logs") {
        Route::Logs
    } else if (verb == Verb::Post || verb == Verb::Get) && str_eq(path, "/api/logs/clear") {
        Route::LogsClear
    } else if verb == Verb::Get && (str_eq(path, "/") || str_eq(path, "/index.html")) {
        Route::Index
    } else if verb == Verb::Options {
        Route::Preflight
    } else if starts_with(path, "/api/") {
        Route::NotFound
    } else {
        Route::Fallback
    }
}

/// The path of an address: what stands before the query.
pub fn path_of(url: &str) -> (r: String)
    ensures
        r@ == url@.take(prefix_len(url@, Class::Is('?'))),
{
    let v = to_chars(url);
    assert(v@.skip(0) == v@);
    let n = find_class(&v, Class::Is('?'), 0);
    let r = from_chars(&v, 0, n);
    assert(r@ == v@.take(n as int));
    r
}

/// The number that a pair of a query gives for a key.
pub open spec fn pair_number(pair: Seq<char>, key: Seq<char>, max: nat) -> Option<nat> {
    let kv = splitn_at_class(pair, Class::Is('='), 2);
    if kv.len() == 2 && kv[0] == key {
        unsigned_value(kv[1], max)
    } else {
        None
    }
}

/// The number that the first of the pairs gives that gives one.
pub open spec fn first_number(pairs: Seq<Seq<char>>, key: Seq<char>, max: nat) -> Option<nat>
    decreases pairs.len(),
{
    if pairs.len() == 0 {
        None
    } else if pair_number(pairs[0], key, max) is Some {
        pair_number(pairs[0], key, max)
    } else {
        first_number(pairs.skip(1), key, max)
    }
}

/// The number that an address's query gives for a key.
pub open spec fn query_value(url: Seq<char>, key: Seq<char>, max: nat) -> Option<nat> {
    let parts = split_at_class(url, Class::Is('?'));
    if parts.len() > 1 {
        first_number(split_at_class(parts[1], Class::Is('&')), key, max)
    } else {
        None
    }
}

fn read_pair(pair: &str, key: &str, max: u64) -> (r: Option<u64>)
    ensures
        r is Some <==> pair_number(pair@, key@, max as nat) is Some,
        r matches Some(n) ==> pair_number(pair@, key@, max as nat) == Some(n as nat),
{
    let kv = splitn_class(pair, Class::Is('='), 2);
    let ghost t = texts(kv@);
    if kv.len() == 2 {
        assert(t[0] == kv@[0]@ && t[1] == kv@[1]@);
        if str_eq(kv[0].as_str(), key) {
            return parse_unsigned(kv[1].as_str(), max);
        }
    }
    assert(t.len() == kv@.len());
    None
}

/// The number that an address's query gives for a key.
pub fn query_number(url: &str, key: &str, max: u64) -> (r: Option<u64>)
    ensures
        r is Some <==> query_value(url@, key@, max as nat) is Some,
        r matches Some(n) ==> query_value(url@, key@, max as nat) == Some(n as nat),
{
    let parts = split_class(url, Class::Is('?'));
    let ghost t = texts(parts@);
    assert(t.len() == parts@.len());
    if parts.len() < 2 {
        return None;
    }
    assert(t[1] == parts@[1]@);
    let pairs = split_class(parts[1].as_str(), Class::Is('&'));
    let ghost p = texts(pairs@);
    let mut i: usize = 0;
    assert(p.skip(0) == p);
    while i < pairs.len()
        invariant
            p == texts(pairs@),
            query_value(url@, key@, max as nat) == first_number(p, key@, max as nat),
            i <= pairs@.len(),
            first_number(p.skip(i as int), key@, max as nat) == first_number(p, key@, max as nat),
        decreases pairs@.len() - i,
    {
        assert(p.skip(i as int)[0] == pairs@[i as int]@);
        assert(p.skip(i as int).skip(1) == p.skip(i + 1));
        let n = read_pair(pairs[i].as_str(), key, max);
        if n.is_some() {
            return n;
        }
        i = i + 1;
    }
    None
}

/// A number that may be given, held between two limits.
pub open spec fn limited(n: Option<nat>, default: nat, lo: nat, hi: nat) -> nat {
    let v = match n {
        Some(v) => v,
        None => default,
    };
    if v < lo {
        lo
    } else if v > hi {
        hi
    } else {
        v
    }
}

fn limit(n: Option<u64>, default: u64, lo: u64, hi: u64) -> (r: u64)
    requires
        lo <= hi,
    ensures
        n is Some ==> r == limited(Some(n->0 as nat), default as nat, lo as nat, hi as nat),
        n is None ==> r == limited(None, default as nat, lo as nat, hi as nat),
        lo <= r <= hi,
{
    let v: u64 = match n {
        Some(v) => v,
        None => default,
    };
    if v < lo {
        lo
    } else if v > hi {
        hi
    } else {
        v
    }
}

/// How many minutes without switching are asked for: 20 where nothing is said, from 1 to 180.
pub fn soft_pause_mins(url: &str) -> (r: u64)
    ensures
        r == limited(query_value(url@, "mins"@, u64::MAX as nat), 20, 1, 180),
        1 <= r <= 180,
{
    limit(query_number(url, "mins", u64::MAX), 20, 1, 180)
}

/// How many lines of the log are asked for: 200 where nothing is said, from 20 to 2000.
pub fn log_lines(url: &str) -> (r: u64)
    ensures
        r == limited(query_value(url@, "lines"@, usize::MAX as nat), 200, 20, 2000),
        20 <= r <= 2000,
{
    limit(query_number(url, "lines", usize::MAX as u64), 200, 20, 2000)
}

/// What a JSON object in a text holds as a string under a key, as `serde_json` reads it.
pub uninterp spec fn json_text_member(body: Seq<char>, key: Seq<char>) -> Option<Seq<char>>;

/// `serde_json::from_str` into a `serde_json::Value`, then `Value::get` and `Value::as_str`: the
/// string that the object in the text holds under the key. None where the text is no JSON, holds
/// no object, or the object has no string there. The text and the key alone decide.
#[verifier::external_body]
fn read_json_member(body: &str, key: &str) -> (r: Option<String>)
    ensures
        opt_text(r) == json_text_member(body@, key@),
{
    match serde_json::from_str::<serde_json::Value>(body) {
        Ok(v) => v.get(key).and_then(|m| m.as_str()).map(|s| s.to_owned()),
        Err(_) => None,
    }
}

/// A network that the user wants to connect to.
#[derive(Debug)]
pub struct ConnectRequest {
    pub ssid: String,
    /// Empty where any access point will do.
    pub bssid: String,
}

/// The text, or an empty one.
pub open spec fn or_empty(o: Option<Seq<char>>) -> Seq<char> {
    match o {
        Some(s) => s,
        None => seq![],
    }
}

/// What a request to connect asks for, given what its body holds; an error where it names no
/// network.
pub fn checked_connect(ssid: Option<String>, bssid: Option<String>) -> (r: Result<
    ConnectRequest,
    String,
>)
    ensures
        r is Ok <==> or_empty(opt_text(ssid)).len() > 0,
        r matches Ok(q) ==> q.ssid@ == or_empty(opt_text(ssid)) && q.bssid@ == or_empty(
            opt_text(bssid),
        ),
        r matches Err(e) ==> e@ == error_json("ssid is required"@),
{
    let s = match ssid {
        Some(t) => t,
        None => String::new(),
    };
    let b = match bssid {
        Some(t) => t,
        None => String::new(),
    };
    if s.as_str().is_empty() {
        return Err(error_reply("ssid is required"));
    }
    Ok(ConnectRequest { ssid: s, bssid: b })
}

/// What the body of a request to connect asks for; an error where it names no network.
pub fn connect_request(body: &str) -> (r: Result<ConnectRequest, String>)
    ensures
        r is Ok <==> or_empty(json_text_member(body@, "ssid"@)).len() > 0,
        r matches Ok(q) ==> q.ssid@ == or_empty(json_text_member(body@, "ssid"@)) && q.bssid@
            == or_empty(json_text_member(body@, "bssid"@)),
        r matches Err(e) ==> e@ == error_json("ssid is required"@),
{
    checked_connect(read_json_member(body, "ssid"), read_json_member(body, "bssid"))
}

impl ConnectRequest {
    /// The access point that is asked for, where one is.
    pub fn bssid_arg(&self) -> (r: Option<&str>)
        ensures
            r is Some <==> self.bssid@.len() > 0,
            r matches Some(b) ==> b@ == self.bssid@,
    {
        if self.bssid.as_str().is_empty() {
            None
        } else {
            Some(self.bssid.as_str())
        }
    }

    /// What is answered when the connection is made.
    pub fn reply(&self) -> (r: String)
        ensures
            r@ == "{\"ok\":true,\"ssid\":\""@ + self.ssid@ + "\",\"bssid\":\""@ + self.bssid@
                + "\"}"@,
    {
        let mut out = "{\"ok\":true,\"ssid\":\"".to_owned();
        out.append(self.ssid.as_str());
        out.append("\",\"bssid\":\"");
        out.append(self.bssid.as_str());
        out.append("\"}");
        out
    }
}

/// The time without switching that follows a connection made by the user, where one is set.
pub fn hold_after_connect(hold_secs: u64, now: u128) -> (r: Option<HoldState>)
    requires
        is_clock(now),
    ensures
        r is Some <==> hold_secs > 0,
        r matches Some(h) ==> h.kind == HoldKind::Manual && h.until == now + hold_secs
            * 1_000_000_000,
{
    if hold_secs > 0 {
        Some(hold_for(HoldKind::Manual, hold_secs, now))
    } else {
        None
    }
}

/// What is answered when something has gone wrong.
pub open spec fn error_json(e: Seq<char>) -> Seq<char> {
    "{\"ok\":false,\"error\":\""@ + e + "\"}"@
}

/// What is answered when something has gone wrong.
pub fn error_reply(e: &str) -> (r: String)
    ensures
        r@ == error_json(e@),
{
    cat(cat("{\"ok\":false,\"error\":\"".to_owned(), e), "\"}")
}

/// What is answered to a request for the history.
pub fn history_reply(events: &[SwitchEvent]) -> (r: String)
    ensures
        r@ == "{\"ok\":true,\"events\":"@ + events_json(event_models(events@)) + "}"@,
{
    cat(
        cat("{\"ok\":true,\"events\":".to_owned(), events_to_json(events).as_str()),
        "}",
    )
}

/// What is answered to a change of the mode.
pub fn mode_reply(mode: RunMode) -> (r: String)
    ensures
        r@ == "{\"ok\":true,\"mode\":\""@ + mode.name() + "\"}"@,
{
    cat(cat("{\"ok\":true,\"mode\":\"".to_owned(), mode.as_str()), "\"}")
}

/// What is answered to a request for a time without switching.
pub fn soft_pause_reply(mins: u64) -> (r: String)
    requires
        mins <= 180,
    ensures
        r@ == "{\"ok\":true,\"mins\":"@ + dec(mins as nat) + ",\"hold_remaining_secs\":"@ + dec(
            (mins * 60) as nat,
        ) + ",\"hold_kind\":\"soft_pause\"}"@,
{
    let mut out = "{\"ok\":true,\"mins\":".to_owned();
    out.append(u64_text(mins).as_str());
    out.append(",\"hold_remaining_secs\":");
    out.append(u64_text(mins * 60).as_str());
    out.append(",\"hold_kind\":\"soft_pause\"}");
    out
}

/// The steps of the readiness check.
pub open spec fn ready_steps(persisted: bool, home_n: nat, saved: Seq<Seq<char>>) -> Seq<StepModel> {
    seq![
        StepModel {
            id: "persist"@,
            ok: persisted,
            title: "保存配置"@,
            hint: if persisted {
                "config.toml 已存在"@
            } else {
                "点下方「初始化」写入默认并落盘"@
            },
        },
        StepModel {
            id: "system_dual"@,
            ok: pair_report(distinct_names(saved)).0,
            title: "系统已保存双频网络"@,
            hint: pair_report(distinct_names(saved)).1,
        },
        StepModel {
            id: "home"@,
            ok: home_n > 0,
            title: "勾选家网 AP（建议）"@,
            hint: if home_n > 0 {
                "已选 "@ + dec(home_n) + " 个"@
            } else {
                "可选；多路由强烈建议。空=不限制"@
            },
        },
    ]
}

/// The readiness check: whether the settings are saved, whether two bands are, and whether there
/// is a home group.
pub fn readiness(persisted: bool, home_n: usize, saved: Vec<String>, block_reason: &str) -> (r:
    Readiness)
    ensures
        r@ == (ReadinessModel {
            persisted,
            home_configured: home_n > 0,
            home_ap_count: home_n,
            saved_ssids: texts(saved@),
            steps: ready_steps(persisted, home_n as nat, texts(saved@)),
            block_reason: block_reason@,
        }),
{
    let (dual_ok, dual_hint) = dual_band_pair_saved(&saved);
    let steps = vec![
        ReadyStep {
            id: "persist".to_owned(),
            ok: persisted,
            title: "保存配置".to_owned(),
            hint: if persisted {
                "config.toml 已存在".to_owned()
            } else {
                "点下方「初始化」写入默认并落盘".to_owned()
            },
        },
        ReadyStep {
            id: "system_dual".to_owned(),
            ok: dual_ok,
            title: "系统已保存双频网络".to_owned(),
            hint: dual_hint,
        },
        ReadyStep {
            id: "home".to_owned(),
            ok: home_n > 0,
            title: "勾选家网 AP（建议）".to_owned(),
            hint: if home_n > 0 {
                cat(cat("已选 ".to_owned(), usize_text(home_n).as_str()), " 个")
            } else {
                "可选；多路由强烈建议。空=不限制".to_owned()
            },
        },
    ];
    assert(step_models(steps@) == ready_steps(persisted, home_n as nat, texts(saved@)));
    Readiness {
        persisted,
        home_configured: home_n > 0,
        home_ap_count: home_n,
        saved_ssids: saved,
        steps,
        block_reason: block_reason.to_owned(),
    }
}

/// The thresholds of settings.
pub open spec fn thresholds_in(c: ConfigModel) -> ThresholdsModel {
    ThresholdsModel {
        score_detect_threshold: c.score_detect_threshold,
        score_switch_threshold: c.score_switch_threshold,
        upswitch_rssi_min_dbm: c.upswitch_rssi_min_dbm,
        mode: c.mode,
    }
}

impl StatusSnapshot {
    /// The settings have been changed and saved.
    pub fn on_config_saved(&mut self, c: &Config)
        ensures
            final(self)@ == (StatusModel {
                power_state: if c@.mode == "pause"@ {
                    "PAUSE"@
                } else if old(self)@.power_state == "PAUSE"@ {
                    "ON"@
                } else {
                    old(self)@.power_state
                },
                thresholds: thresholds_in(c@),
                last_error: seq![],
                ..old(self)@
            }),
    {
        if str_eq(c.mode.as_str(), "pause") {
            self.power_state = "PAUSE".to_owned();
        } else if str_eq(self.power_state.as_str(), "PAUSE") {
            self.power_state = "ON".to_owned();
        }
        self.thresholds = thresholds_of(c);
        self.last_error = String::new();
    }

    /// The thresholds have been changed.
    pub fn on_thresholds(&mut self, c: &Config)
        ensures
            final(self)@ == (StatusModel { thresholds: thresholds_in(c@), ..old(self)@ }),
    {
        self.thresholds = thresholds_of(c);
    }

    /// The settings have been taken over as a whole.
    pub fn on_settings(&mut self, c: &Config)
        ensures
            final(self)@ == (StatusModel {
                thresholds: thresholds_in(c@),
                user_hold_secs: c@.user_hold_secs,
                ..old(self)@
            }),
    {
        self.thresholds = thresholds_of(c);
        self.user_hold_secs = c.user_hold_secs;
    }

    /// The daemon starts with these settings.
    pub fn on_start(&mut self, c: &Config)
        ensures
            final(self)@ == (StatusModel {
                power_state: if c@.mode == "pause"@ {
                    "PAUSE"@
                } else {
                    old(self)@.power_state
                },
                thresholds: thresholds_in(c@),
                user_hold_secs: c@.user_hold_secs,
                ..old(self)@
            }),
    {
        if str_eq(c.mode.as_str(), "pause") {
            self.power_state = "PAUSE".to_owned();
        }
        self.on_settings(c);
    }

    /// The mode has been changed.
    pub fn on_mode(&mut self, mode: RunMode)
        ensures
            final(self)@ == (StatusModel {
                power_state: if mode == RunMode::Pause {
                    "PAUSE"@
                } else {
                    "ON"@
                },
                thresholds: ThresholdsModel { mode: mode.name(), ..old(self)@.thresholds },
                ..old(self)@
            }),
    {
        self.power_state = if mode == RunMode::Pause {
            "PAUSE".to_owned()
        } else {
            "ON".to_owned()
        };
        self.thresholds.mode = mode.as_str().to_owned();
    }

    /// A time without switching has been ended. The line for the status file.
    pub fn on_hold_cleared(&mut self) -> (r: String)
        ensures
            final(self)@ == (StatusModel {
                hold_remaining_secs: 0,
                hold_kind: seq![],
                block_reason: seq![],
                summary: seq![],
                power_state: if has_prefix(old(self)@.power_state, "USER_HOLD"@) || has_prefix(
                    old(self)@.power_state,
                    "SOFT_PAUSE"@,
                ) || has_sub(old(self)@.power_state, "HOLD"@) {
                    "ON"@
                } else {
                    old(self)@.power_state
                },
                ..old(self)@
            }),
            r@ == status_line(
                final(self)@.thresholds.mode,
                final(self)@.ssid,
                final(self)@.band,
                final(self)@.score,
                final(self)@.power_state,
                ""@,
            ),
    {
        self.hold_remaining_secs = 0;
        self.hold_kind = String::new();
        self.block_reason = String::new();
        self.summary = String::new();
        if starts_with(self.power_state.as_str(), "USER_HOLD") || starts_with(
            self.power_state.as_str(),
            "SOFT_PAUSE",
        ) || contains(self.power_state.as_str(), "HOLD") {
            self.power_state = "ON".to_owned();
        }
        status_line_zh(
            self.thresholds.mode.as_str(),
            self.ssid.as_str(),
            self.band.as_str(),
            &self.score,
            self.power_state.as_str(),
            "",
        )
    }

    /// A time without switching has been asked for. The line for the status file.
    pub fn on_soft_pause(&mut self, mins: u64) -> (r: String)
        requires
            mins <= 180,
        ensures
            final(self)@ == (StatusModel {
                hold_remaining_secs: (mins * 60) as u64,
                hold_kind: HoldKind::SoftPause.name(),
                power_state: HoldKind::SoftPause.power_text((mins * 60) as nat),
                block_reason: HoldKind::SoftPause.block_text((mins * 60) as nat),
                summary: HoldKind::SoftPause.summary_text((mins * 60) as nat),
                ..old(self)@
            }),
            r@ == status_line(
                final(self)@.thresholds.mode,
                final(self)@.ssid,
                final(self)@.band,
                final(self)@.score,
                final(self)@.power_state,
                final(self)@.block_reason,
            ),
    {
        let rem: u64 = mins * 60;
        self.hold_remaining_secs = rem;
        self.hold_kind = HoldKind::SoftPause.as_str().to_owned();
        self.power_state = HoldKind::SoftPause.power_state(rem);
        self.block_reason = HoldKind::SoftPause.block_zh(rem);
        self.summary = HoldKind::SoftPause.summary_zh(rem);
        status_line_zh(
            self.thresholds.mode.as_str(),
            self.ssid.as_str(),
            self.band.as_str(),
            &self.score,
            self.power_state.as_str(),
            self.block_reason.as_str(),
        )
    }
}

/// A path under `/api/` is answered as an interface, never with the panel itself.
pub proof fn law_api_paths_never_get_the_panel(verb: Verb, path: Seq<char>)
    requires
        has_prefix(path, "/api/"@),
    ensures
        route_of(verb, path) != Route::Fallback,
        route_of(verb, path) != Route::Index,
{
    reveal_strlit("/api/");
    reveal_strlit("/");
    reveal_strlit("/index.html");
    assert(path.take(5)[1] == 'a');
    assert(path[1] == 'a');
}

/// Whether what a path is for is asked for with that method: what only shows something is asked for
/// with `GET`, what takes a body or undoes much with `POST`, and what an address alone can ask for
/// with either.
pub open spec fn asked_with(verb: Verb, route: Route) -> bool {
    match route {
        Route::Status | Route::History | Route::Readiness | Route::ConfigGet | Route::Logs
        | Route::Index => verb == Verb::Get,
        Route::ConfigSet => verb == Verb::Post || verb == Verb::Put,
        Route::ConfigReset | Route::NotifyTest | Route::Connect => verb == Verb::Post,
        Route::Preflight => verb == Verb::Options,
        Route::NotFound | Route::Fallback => verb != Verb::Options,
        _ => verb == Verb::Get || verb == Verb::Post,
    }
}

/// What can be done under a path: nothing else is, and with any other method it is as if there were
/// nothing there.
pub open spec fn leads_to(verb: Verb, path: Seq<char>, route: Route) -> bool {
    route_of(verb, path) == (if asked_with(verb, route) {
        route
    } else if verb == Verb::Options {
        Route::Preflight
    } else {
        Route::NotFound
    })
}

proof fn lemma_paths_differ()
    ensures
        "/api/status"@.len() == 11,
        "/api/history"@.len() == 12,
        "/api/history/clear"@.len() == 18,
        "/api/readiness"@.len() == 14,
        "/api/config/preset/daily"@.len() == 24,
        "/api/config/preset/stable"@.len() == 25,
        "/api/config/preset/sensitive"@.len() == 28,
        "/api/mode/pause"@.len() == 15,
        "/api/mode/daily"@.len() == 15,
        "/api/mode/eco"@.len() == 13,
        "/api/hold/clear"@.len() == 15,
        "/api/soft-pause"@.len() == 15,
        "/api/scan"@.len() == 9,
        "/api/init-config"@.len() == 16,
        "/api/config/reset"@.len() == 17,
        "/api/notify/test"@.len() == 16,
        "/api/connect"@.len() == 12,
        "/api/logs"@.len() == 9,
        "/api/logs/clear"@.len() == 15,
        "/api/config"@.len() == 11,
        "/"@.len() == 1,
        "/index.html"@.len() == 11,
        "/api/status"@ != "/api/config"@,
        "/api/status"@ != "/index.html"@,
        "/api/config"@ != "/index.html"@,
        "/api/history"@ != "/api/connect"@,
        "/api/mode/pause"@ != "/api/mode/daily"@,
        "/api/mode/pause"@ != "/api/hold/clear"@,
        "/api/mode/pause"@ != "/api/soft-pause"@,
        "/api/mode/pause"@ != "/api/logs/clear"@,
        "/api/mode/daily"@ != "/api/hold/clear"@,
        "/api/mode/daily"@ != "/api/soft-pause"@,
        "/api/mode/daily"@ != "/api/logs/clear"@,
        "/api/hold/clear"@ != "/api/soft-pause"@,
        "/api/hold/clear"@ != "/api/logs/clear"@,
        "/api/soft-pause"@ != "/api/logs/clear"@,
        "/api/scan"@ != "/api/logs"@,
        "/api/init-config"@ != "/api/notify/test"@,
        has_prefix("/api/status"@, "/api/"@),
        has_prefix("/api/history"@, "/api/"@),
        has_prefix("/api/history/clear"@, "/api/"@),
        has_prefix("/api/readiness"@, "/api/"@),
        has_prefix("/api/config/preset/daily"@, "/api/"@),
        has_prefix("/api/config/preset/stable"@, "/api/"@),
        has_prefix("/api/config/preset/sensitive"@, "/api/"@),
        has_prefix("/api/mode/pause"@, "/api/"@),
        has_prefix("/api/mode/daily"@, "/api/"@),
        has_prefix("/api/mode/eco"@, "/api/"@),
        has_prefix("/api/hold/clear"@, "/api/"@),
        has_prefix("/api/soft-pause"@, "/api/"@),
        has_prefix("/api/scan"@, "/api/"@),
        has_prefix("/api/init-config"@, "/api/"@),
        has_prefix("/api/config/reset"@, "/api/"@),
        has_prefix("/api/notify/test"@, "/api/"@),
        has_prefix("/api/connect"@, "/api/"@),
        has_prefix("/api/logs"@, "/api/"@),
        has_prefix("/api/logs/clear"@, "/api/"@),
        has_prefix("/api/config"@, "/api/"@),
{
    reveal_strlit("/api/");
    reveal_strlit("/api/status");
    reveal_strlit("/api/history");
    reveal_strlit("/api/history/clear");
    reveal_strlit("/api/readiness");
    reveal_strlit("/api/config/preset/daily");
    reveal_strlit("/api/config/preset/stable");
    reveal_strlit("/api/config/preset/sensitive");
    reveal_strlit("/api/mode/pause");
    reveal_strlit("/api/mode/daily");
    reveal_strlit("/api/mode/eco");
    reveal_strlit("/api/hold/clear");
    reveal_strlit("/api/soft-pause");
    reveal_strlit("/api/scan");
    reveal_strlit("/api/init-config");
    reveal_strlit("/api/config/reset");
    reveal_strlit("/api/notify/test");
    reveal_strlit("/api/connect");
    reveal_strlit("/api/logs");
    reveal_strlit("/api/logs/clear");
    reveal_strlit("/api/config");
    reveal_strlit("/");
    reveal_strlit("/index.html");
    assert("/api/status"@[5] != "/api/config"@[5]);
    assert("/api/status"@[1] != "/index.html"@[1]);
    assert("/api/config"@[1] != "/index.html"@[1]);
    assert("/api/history"@[5] != "/api/connect"@[5]);
    assert("/api/mode/pause"@[10] != "/api/mode/daily"@[10]);
    assert("/api/mode/pause"@[5] != "/api/hold/clear"@[5]);
    assert("/api/mode/pause"@[5] != "/api/soft-pause"@[5]);
    assert("/api/mode/pause"@[5] != "/api/logs/clear"@[5]);
    assert("/api/mode/daily"@[5] != "/api/hold/clear"@[5]);
    assert("/api/mode/daily"@[5] != "/api/soft-pause"@[5]);
    assert("/api/mode/daily"@[5] != "/api/logs/clear"@[5]);
    assert("/api/hold/clear"@[5] != "/api/soft-pause"@[5]);
    assert("/api/hold/clear"@[5] != "/api/logs/clear"@[5]);
    assert("/api/soft-pause"@[5] != "/api/logs/clear"@[5]);
    assert("/api/scan"@[5] != "/api/logs"@[5]);
    assert("/api/init-config"@[5] != "/api/notify/test"@[5]);
    assert("/api/status"@.take(5) =~= "/api/"@);
    assert("/api/history"@.take(5) =~= "/api/"@);
    assert("/api/history/clear"@.take(5) =~= "/api/"@);
    assert("/api/readiness"@.take(5) =~= "/api/"@);
    assert("/api/config/preset/daily"@.take(5) =~= "/api/"@);
    assert("/api/config/preset/stable"@.take(5) =~= "/api/"@);
    assert("/api/config/preset/sensitive"@.take(5) =~= "/api/"@);
    assert("/api/mode/pause"@.take(5) =~= "/api/"@);
    assert("/api/mode/daily"@.take(5) =~= "/api/"@);
    assert("/api/mode/eco"@.take(5) =~= "/api/"@);
    assert("/api/hold/clear"@.take(5) =~= "/api/"@);
    assert("/api/soft-pause"@.take(5) =~= "/api/"@);
    assert("/api/scan"@.take(5) =~= "/api/"@);
    assert("/api/init-config"@.take(5) =~= "/api/"@);
    assert("/api/config/reset"@.take(5) =~= "/api/"@);
    assert("/api/notify/test"@.take(5) =~= "/api/"@);
    assert("/api/connect"@.take(5) =~= "/api/"@);
    assert("/api/logs"@.take(5) =~= "/api/"@);
    assert("/api/logs/clear"@.take(5) =~= "/api/"@);
    assert("/api/config"@.take(5) =~= "/api/"@);
}

/// Each path of the panel's interface leads to what it is named after, and with no other method than
/// those that it is asked for with.
pub proof fn law_paths_lead_where_they_say(verb: Verb)
    ensures
        leads_to(verb, "/api/status"@, Route::Status),
        leads_to(verb, "/api/history"@, Route::History),
        leads_to(verb, "/api/history/clear"@, Route::HistoryClear),
        leads_to(verb, "/api/readiness"@, Route::Readiness),
        leads_to(verb, "/api/config/preset/daily"@, Route::Preset(Preset::Daily)),
        leads_to(verb, "/api/config/preset/stable"@, Route::Preset(Preset::Stable)),
        leads_to(verb, "/api/config/preset/sensitive"@, Route::Preset(Preset::Sensitive)),
        leads_to(verb, "/api/mode/pause"@, Route::Mode(RunMode::Pause)),
        leads_to(verb, "/api/mode/daily"@, Route::Mode(RunMode::Daily)),
        leads_to(verb, "/api/mode/eco"@, Route::Mode(RunMode::Eco)),
        leads_to(verb, "/api/hold/clear"@, Route::HoldClear),
        leads_to(verb, "/api/soft-pause"@, Route::SoftPause),
        leads_to(verb, "/api/scan"@, Route::Scan),
        leads_to(verb, "/api/init-config"@, Route::InitConfig),
        leads_to(verb, "/api/config/reset"@, Route::ConfigReset),
        leads_to(verb, "/api/notify/test"@, Route::NotifyTest),
        leads_to(verb, "/api/connect"@, Route::Connect),
        leads_to(verb, "/api/logs"@, Route::Logs),
        leads_to(verb, "/api/logs/clear"@, Route::LogsClear),
        verb == Verb::Get ==> route_of(verb, "/api/config"@) == Route::ConfigGet,
        verb != Verb::Get ==> leads_to(verb, "/api/config"@, Route::ConfigSet),
        verb == Verb::Get ==> route_of(verb, "/"@) == Route::Index,
        verb == Verb::Get ==> route_of(verb, "/index.html"@) == Route::Index,
{
    lemma_paths_differ();
}

/// Whatever a request is found to be for, it is asked for with a method that is meant for it.
pub proof fn law_methods_are_kept_to(verb: Verb, path: Seq<char>)
    ensures
        asked_with(verb, route_of(verb, path)),
        verb == Verb::Options ==> route_of(verb, path) == Route::Preflight,
        verb == Verb::Other ==> route_of(verb, path) == (if has_prefix(path, "/api/"@) {
            Route::NotFound
        } else {
            Route::Fallback
        }),
{
}

/// A number behind its key in a query is what the query gives for that key, wherever in the query
/// it stands behind pairs for other keys; what stands behind it has no say.
pub proof fn law_query_gives_the_number(
    path: Seq<char>,
    front: Seq<Seq<char>>,
    key: Seq<char>,
    n: nat,
    rest: Seq<char>,
    max: nat,
)
    requires
        !path.contains('?') && !key.contains('?') && !rest.contains('?'),
        !key.contains('=') && !key.contains('&'),
        n <= max,
    ensures
        query_value(path + seq!['?'] + (key + seq!['='] + dec(n)), key, max) == Some(n),
        query_value(path + seq!['?'] + (key + seq!['='] + dec(n) + seq!['&'] + rest), key, max) == Some(
            n,
        ),
        first_number(front + seq![key + seq!['='] + dec(n)], key, max) is Some,
        (forall|i: int| 0 <= i < front.len() ==> pair_number(#[trigger] front[i], key, max) is None)
            ==> first_number(front + seq![key + seq!['='] + dec(n)], key, max) == Some(n),
        query_value(path, key, max) is None,
{
    let pair = key + seq!['='] + dec(n);
    lemma_pair_is_read(key, n, max);
    lemma_dec_is_plain(n);
    assert forall|i: int| 0 <= i < path.len() implies !in_class(Class::Is('?'), #[trigger] path[i]) by {
        assert(path.contains(path[i]));
    }
    assert forall|i: int| 0 <= i < pair.len() implies !in_class(Class::Is('?'), #[trigger] pair[i])
        && !in_class(Class::Is('&'), pair[i]) by {
        lemma_char_of_pair(key, dec(n), i);
    }
    let more = pair + seq!['&'] + rest;
    assert forall|i: int| 0 <= i < more.len() implies !in_class(Class::Is('?'), #[trigger] more[i]) by {
        if i < pair.len() {
            assert(more[i] == pair[i]);
        } else if i > pair.len() {
            assert(more[i] == rest[i - pair.len() - 1]);
            assert(rest.contains(more[i]));
        }
    }
    law_cutting(path, '?', pair, Class::Is('?'), 1);
    law_cutting(path, '?', more, Class::Is('?'), 1);
    law_cutting(pair, '?', seq![], Class::Is('?'), 1);
    law_cutting(more, '?', seq![], Class::Is('?'), 1);
    law_cutting(pair, '&', rest, Class::Is('&'), 1);
    lemma_first_number(seq![], pair, key, max);
    lemma_first_number(front, pair, key, max);
    assert(Seq::<Seq<char>>::empty() + seq![pair] == seq![pair]);
    let q = seq![pair] + split_at_class(rest, Class::Is('&'));
    assert(q[0] == pair);
}

proof fn lemma_dec_is_plain(n: nat)
    ensures
        forall|i: int| 0 <= i < dec(n).len() ==> is_digit(#[trigger] dec(n)[i]),
{
    lemma_dec(n);
}

proof fn lemma_char_of_pair(key: Seq<char>, d: Seq<char>, i: int)
    requires
        !key.contains('?') && !key.contains('&'),
        forall|i: int| 0 <= i < d.len() ==> is_digit(#[trigger] d[i]),
        0 <= i < (key + seq!['='] + d).len(),
    ensures
        (key + seq!['='] + d)[i] != '?',
        (key + seq!['='] + d)[i] != '&',
{
    let pair = key + seq!['='] + d;
    if i < key.len() {
        assert(pair[i] == key[i]);
        assert(key.contains(key[i]));
    } else if i > key.len() {
        assert(pair[i] == d[i - key.len() - 1]);
        assert(is_digit(d[i - key.len() - 1]));
    }
}

proof fn lemma_pair_is_read(key: Seq<char>, n: nat, max: nat)
    requires
        !key.contains('='),
        n <= max,
    ensures
        pair_number(key + seq!['='] + dec(n), key, max) == Some(n),
{
    assert forall|i: int| 0 <= i < key.len() implies !in_class(Class::Is('='), #[trigger] key[i]) by {
        assert(key.contains(key[i]));
    }
    law_cutting(key, '=', dec(n), Class::Is('='), 2);
    law_decimal_read_back(n, max);
}

proof fn lemma_first_number(front: Seq<Seq<char>>, pair: Seq<char>, key: Seq<char>, max: nat)
    requires
        pair_number(pair, key, max) is Some,
    ensures
        first_number(front + seq![pair], key, max) is Some,
        (forall|i: int| 0 <= i < front.len() ==> pair_number(#[trigger] front[i], key, max) is None)
            ==> first_number(front + seq![pair], key, max) == pair_number(pair, key, max),
    decreases front.len(),
{
    let l = front + seq![pair];
    if front.len() > 0 {
        assert(l[0] == front[0]);
        assert(l.skip(1) == front.skip(1) + seq![pair]);
        lemma_first_number(front.skip(1), pair, key, max);
        if forall|i: int| 0 <= i < front.len() ==> pair_number(#[trigger] front[i], key, max) is None {
            assert forall|i: int| 0 <= i < front.skip(1).len() implies pair_number(
                #[trigger] front.skip(1)[i],
                key,
                max,
            ) is None by {
                assert(front.skip(1)[i] == front[i + 1]);
            }
        }
    }
}

/// A pair for another key, or one that is no pair, gives nothing.
pub proof fn law_other_pairs_give_nothing(other: Seq<char>, value: Seq<char>, key: Seq<char>, max: nat)
    requires
        !other.contains('='),
    ensures
        pair_number(other, key, max) is None,
        other != key ==> pair_number(other + seq!['='] + value, key, max) is None,
{
    assert forall|i: int| 0 <= i < other.len() implies !in_class(Class::Is('='), #[trigger] other[i]) by {
        assert(other.contains(other[i]));
    }
    law_cutting(other, '=', value, Class::Is('='), 2);
}

/// What is asked for is taken as it is where it is between the limits, and else the nearest of them;
/// where nothing is asked for, the default is.
pub proof fn law_held_to_the_limits(n: nat, default: nat, lo: nat, hi: nat)
    requires
        lo <= default <= hi,
    ensures
        lo <= limited(Some(n), default, lo, hi) <= hi,
        lo <= n <= hi ==> limited(Some(n), default, lo, hi) == n,
        n < lo ==> limited(Some(n), default, lo, hi) == lo,
        n > hi ==> limited(Some(n), default, lo, hi) == hi,
        limited(None, default, lo, hi) == default,
{
}

/// The check is passed step by step: the settings are saved, two bands are saved in the system, and
/// there is a home group, whose size is told.
pub proof fn law_ready_step_by_step(persisted: bool, home_n: nat, saved: Seq<Seq<char>>)
    ensures
        ready_steps(persisted, home_n, saved).len() == 3,
        ready_steps(persisted, home_n, saved)[0].ok == persisted,
        ready_steps(persisted, home_n, saved)[1].ok == pair_report(distinct_names(saved)).0,
        ready_steps(persisted, home_n, saved)[1].hint == pair_report(distinct_names(saved)).1,
        ready_steps(persisted, home_n, saved)[2].ok <==> home_n > 0,
        home_n > 0 ==> has_sub(ready_steps(persisted, home_n, saved)[2].hint, dec(home_n)),
{
    law_standing_in("已选 "@, dec(home_n), " 个"@);
}

/// The thresholds that the panel shows are those of the settings, and so is the mode.
pub proof fn law_thresholds_are_those_set(c: ConfigModel)
    ensures
        thresholds_in(c).score_detect_threshold == c.score_detect_threshold,
        thresholds_in(c).score_switch_threshold == c.score_switch_threshold,
        thresholds_in(c).upswitch_rssi_min_dbm == c.upswitch_rssi_min_dbm,
        thresholds_in(c).mode == c.mode,
{
}

/// What is told of an error is the error, between what says that it is one and the end.
pub proof fn law_error_is_told(e: Seq<char>)
    ensures
        has_sub(error_json(e), e),
        has_prefix(error_json(e), "{\"ok\":false,\"error\":\""@),
        error_json(e).len() == "{\"ok\":false,\"error\":\""@.len() + e.len() + 2,
{
    let a = "{\"ok\":false,\"error\":\""@;
    reveal_strlit("\"}");
    law_standing_in(a, e, "\"}"@);
    assert(error_json(e).take(a.len() as int) == a);
}

} // verus!
