//! What the panel shows: the status, the readiness check, and their JSON.

use crate::config::{default_config, Config};
use crate::json::{
    bool_name, bool_text, escaped, raw_member, raw_member_text, text_member, text_member_text,
};
use crate::numbers::{dec, dec_int, i32_text, u64_text, usize_text};
use crate::score::{score_of_whole, whole_score, Score, ScoreModel};
use crate::text::{has_sub, sub_at, texts};
use vstd::prelude::*;
use vstd::string::*;

pub use crate::events::{events_from_json, events_to_json, try_events_from_json, SwitchEvent};
pub use crate::json::json_esc;

verus! {

/// The thresholds in force.
#[derive(Debug)]
pub struct ThresholdsView {
    pub score_detect_threshold: Score,
    pub score_switch_threshold: Score,
    pub upswitch_rssi_min_dbm: i32,
    pub mode: String,
}

/// What a `ThresholdsView` holds.
#[verifier::ext_equal]
pub struct ThresholdsModel {
    pub score_detect_threshold: ScoreModel,
    pub score_switch_threshold: ScoreModel,
    pub upswitch_rssi_min_dbm: i32,
    pub mode: Seq<char>,
}

impl View for ThresholdsView {
    type V = ThresholdsModel;

    open spec fn view(&self) -> ThresholdsModel {
        ThresholdsModel {
            score_detect_threshold: self.score_detect_threshold@,
            score_switch_threshold: self.score_switch_threshold@,
            upswitch_rssi_min_dbm: self.upswitch_rssi_min_dbm,
            mode: self.mode@,
        }
    }
}

impl Clone for ThresholdsView {
    fn clone(&self) -> (r: Self)
        ensures
            r@ == self@,
    {
        ThresholdsView {
            score_detect_threshold: self.score_detect_threshold.clone(),
            score_switch_threshold: self.score_switch_threshold.clone(),
            upswitch_rssi_min_dbm: self.upswitch_rssi_min_dbm,
            mode: self.mode.clone(),
        }
    }
}

/// The thresholds of the settings.
pub fn thresholds_of(c: &Config) -> (r: ThresholdsView)
    ensures
        r@ == (ThresholdsModel {
            score_detect_threshold: c@.score_detect_threshold,
            score_switch_threshold: c@.score_switch_threshold,
            upswitch_rssi_min_dbm: c@.upswitch_rssi_min_dbm,
            mode: c@.mode,
        }),
{
    ThresholdsView {
        score_detect_threshold: c.score_detect_threshold.clone(),
        score_switch_threshold: c.score_switch_threshold.clone(),
        upswitch_rssi_min_dbm: c.upswitch_rssi_min_dbm,
        mode: c.mode.clone(),
    }
}

/// The thresholds as a JSON object.
pub open spec fn thresholds_json(t: ThresholdsModel) -> Seq<char> {
    "{"@ + raw_member("score_detect_threshold"@, t.score_detect_threshold.plain) + ","@
        + raw_member("score_switch_threshold"@, t.score_switch_threshold.plain) + ","@ + raw_member(
        "upswitch_rssi_min_dbm"@,
        dec_int(t.upswitch_rssi_min_dbm as int),
    ) + ","@ + text_member("mode"@, t.mode) + "}"@
}

impl ThresholdsView {
    /// The thresholds as a JSON object.
    pub fn to_json(&self) -> (r: String)
        ensures
            r@ == thresholds_json(self@),
    {
        let mut out = "{".to_owned();
        out.append(
            raw_member_text(
                "score_detect_threshold",
                self.score_detect_threshold.plain.as_str(),
            ).as_str(),
        );
        out.append(",");
        out.append(
            raw_member_text(
                "score_switch_threshold",
                self.score_switch_threshold.plain.as_str(),
            ).as_str(),
        );
        out.append(",");
        out.append(
            raw_member_text(
                "upswitch_rssi_min_dbm",
                i32_text(self.upswitch_rssi_min_dbm).as_str(),
            ).as_str(),
        );
        out.append(",");
        out.append(text_member_text("mode", self.mode.as_str()).as_str());
        out.append("}");
        out
    }
}

/// The state of the link and of the daemon, as the panel shows it.
#[derive(Debug)]
pub struct StatusSnapshot {
    pub rssi: i32,
    pub score: Score,
    pub band: String,
    pub state: String,
    pub ssid: String,
    /// State of the link or of the machine.
    pub power_state: String,
    /// The last error of a switch or of the settings; empty where there is none.
    pub last_error: String,
    /// The thresholds in force.
    pub thresholds: ThresholdsView,
    /// Seconds that are left of a protection.
    pub hold_remaining_secs: u64,
    /// Empty, `manual` or `soft_pause`.
    pub hold_kind: String,
    /// How long a protection after a manual switch is set to last.
    pub user_hold_secs: u64,
    /// `ok`, `reconnect` or `fail`.
    pub link_ctrl: String,
    /// Members of the home group.
    pub home_ap_count: usize,
    /// Whether the link is in the home group, or there is none.
    pub in_home: bool,
    /// Why there is no switch just now.
    pub block_reason: String,
    /// Seconds that are left of a pause after a failure.
    pub penalty_remaining_secs: u64,
    /// `ON` or `OFF`.
    pub screen: String,
    /// The last probe of the Internet: `ok`, `fail`, `skip` or empty.
    pub l3_last: String,
    pub bssid: String,
    /// The values against the thresholds, in words.
    pub threshold_hint: String,
    /// The strongest signal of the preferred band at the last scan.
    pub best_5g_rssi: Option<i32>,
    /// The state in a sentence.
    pub summary: String,
    /// Seconds for which the access point is kept after a switch.
    pub bssid_lock_remaining_secs: u64,
    pub version: String,
}

/// What a `StatusSnapshot` holds.
#[verifier::ext_equal]
pub struct StatusModel {
    pub rssi: i32,
    pub score: ScoreModel,
    pub band: Seq<char>,
    pub state: Seq<char>,
    pub ssid: Seq<char>,
    pub power_state: Seq<char>,
    pub last_error: Seq<char>,
    pub thresholds: ThresholdsModel,
    pub hold_remaining_secs: u64,
    pub hold_kind: Seq<char>,
    pub user_hold_secs: u64,
    pub link_ctrl: Seq<char>,
    pub home_ap_count: usize,
    pub in_home: bool,
    pub block_reason: Seq<char>,
    pub penalty_remaining_secs: u64,
    pub screen: Seq<char>,
    pub l3_last: Seq<char>,
    pub bssid: Seq<char>,
    pub threshold_hint: Seq<char>,
    pub best_5g_rssi: Option<i32>,
    pub summary: Seq<char>,
    pub bssid_lock_remaining_secs: u64,
    pub version: Seq<char>,
}

impl View for StatusSnapshot {
    type V = StatusModel;

    open spec fn view(&self) -> StatusModel {
        StatusModel {
            rssi: self.rssi,
            score: self.score@,
            band: self.band@,
            state: self.state@,
            ssid: self.ssid@,
            power_state: self.power_state@,
            last_error: self.last_error@,
            thresholds: self.thresholds@,
            hold_remaining_secs: self.hold_remaining_secs,
            hold_kind: self.hold_kind@,
            user_hold_secs: self.user_hold_secs,
            link_ctrl: self.link_ctrl@,
            home_ap_count: self.home_ap_count,
            in_home: self.in_home,
            block_reason: self.block_reason@,
            penalty_remaining_secs: self.penalty_remaining_secs,
            screen: self.screen@,
            l3_last: self.l3_last@,
            bssid: self.bssid@,
            threshold_hint: self.threshold_hint@,
            best_5g_rssi: self.best_5g_rssi,
            summary: self.summary@,
            bssid_lock_remaining_secs: self.bssid_lock_remaining_secs,
            version: self.version@,
        }
    }
}

impl Clone for StatusSnapshot {
    fn clone(&self) -> (r: Self)
        ensures
            r@ == self@,
    {
        StatusSnapshot {
            rssi: self.rssi,
            score: self.score.clone(),
            band: self.band.clone(),
            state: self.state.clone(),
            ssid: self.ssid.clone(),
            power_state: self.power_state.clone(),
            last_error: self.last_error.clone(),
            thresholds: self.thresholds.clone(),
            hold_remaining_secs: self.hold_remaining_secs,
            hold_kind: self.hold_kind.clone(),
            user_hold_secs: self.user_hold_secs,
            link_ctrl: self.link_ctrl.clone(),
            home_ap_count: self.home_ap_count,
            in_home: self.in_home,
            block_reason: self.block_reason.clone(),
            penalty_remaining_secs: self.penalty_remaining_secs,
            screen: self.screen.clone(),
            l3_last: self.l3_last.clone(),
            bssid: self.bssid.clone(),
            threshold_hint: self.threshold_hint.clone(),
            best_5g_rssi: self.best_5g_rssi,
            summary: self.summary.clone(),
            bssid_lock_remaining_secs: self.bssid_lock_remaining_secs,
            version: self.version.clone(),
        }
    }
}

/// A signal as JSON: a number, or `null`.
pub open spec fn opt_signal_json(o: Option<i32>) -> Seq<char> {
    match o {
        Some(v) => dec_int(v as int),
        None => "null"@,
    }
}

/// A signal as JSON: a number, or `null`.
pub fn opt_signal_text(o: Option<i32>) -> (r: String)
    ensures
        r@ == opt_signal_json(o),
{
    match o {
        Some(v) => i32_text(v),
        None => "null".to_owned(),
    }
}

/// The status to start from.
pub open spec fn first_status(version: Seq<char>) -> StatusModel {
    StatusModel {
        rssi: (-65) as i32,
        score: whole_score(50),
        band: "2.4"@,
        state: "DISCONNECTED"@,
        ssid: seq![],
        power_state: "ON"@,
        last_error: seq![],
        thresholds: ThresholdsModel {
            score_detect_threshold: whole_score(70),
            score_switch_threshold: whole_score(30),
            upswitch_rssi_min_dbm: (-65) as i32,
            mode: "daily"@,
        },
        hold_remaining_secs: 0,
        hold_kind: seq![],
        user_hold_secs: 60,
        link_ctrl: "ok"@,
        home_ap_count: 0,
        in_home: true,
        block_reason: seq![],
        penalty_remaining_secs: 0,
        screen: "ON"@,
        l3_last: seq![],
        bssid: seq![],
        threshold_hint: seq![],
        best_5g_rssi: None,
        summary: seq![],
        bssid_lock_remaining_secs: 0,
        version,
    }
}

/// The status as a JSON object.
pub open spec fn status_json(s: StatusModel) -> Seq<char> {
    "{"@ + raw_member("rssi"@, dec_int(s.rssi as int)) + ","@
        + raw_member("score"@, s.score.plain) + ","@
        + text_member("band"@, s.band) + ","@
        + text_member("state"@, s.state) + ","@
        + text_member("ssid"@, s.ssid) + ","@
        + text_member("power_state"@, s.power_state) + ","@
        + text_member("last_error"@, s.last_error) + ","@
        + raw_member("thresholds"@, thresholds_json(s.thresholds)) + ","@
        + raw_member("hold_remaining_secs"@, dec(s.hold_remaining_secs as nat)) + ","@
        + text_member("hold_kind"@, s.hold_kind) + ","@
        + raw_member("user_hold_secs"@, dec(s.user_hold_secs as nat)) + ","@
        + text_member("link_ctrl"@, s.link_ctrl) + ","@
        + raw_member("home_ap_count"@, dec(s.home_ap_count as nat)) + ","@
        + raw_member("in_home"@, bool_name(s.in_home)) + ","@
        + text_member("block_reason"@, s.block_reason) + ","@
        + raw_member("penalty_remaining_secs"@, dec(s.penalty_remaining_secs as nat)) + ","@
        + text_member("screen"@, s.screen) + ","@
        + text_member("l3_last"@, s.l3_last) + ","@
        + text_member("bssid"@, s.bssid) + ","@
        + text_member("threshold_hint"@, s.threshold_hint) + ","@
        + raw_member("best_5g_rssi"@, opt_signal_json(s.best_5g_rssi)) + ","@
        + text_member("summary"@, s.summary) + ","@
        + raw_member("bssid_lock_remaining_secs"@, dec(s.bssid_lock_remaining_secs as nat)) + ","@
        + text_member("version"@, s.version) + "}"@
}

impl StatusSnapshot {
    /// The status to start from.
    pub fn new(version: &str) -> (r: Self)
        ensures
            r@ == first_status(version@),
    {
        let d = Config::default();
        StatusSnapshot {
            rssi: -65,
            score: score_of_whole(50),
            band: "2.4".to_owned(),
            state: "DISCONNECTED".to_owned(),
            ssid: String::new(),
            power_state: "ON".to_owned(),
            last_error: String::new(),
            thresholds: thresholds_of(&d),
            hold_remaining_secs: 0,
            hold_kind: String::new(),
            user_hold_secs: d.user_hold_secs,
            link_ctrl: "ok".to_owned(),
            home_ap_count: 0,
            in_home: true,
            block_reason: String::new(),
            penalty_remaining_secs: 0,
            screen: "ON".to_owned(),
            l3_last: String::new(),
            bssid: String::new(),
            threshold_hint: String::new(),
            best_5g_rssi: None,
            summary: String::new(),
            bssid_lock_remaining_secs: 0,
            version: version.to_owned(),
        }
    }

    /// The status as a JSON object.
    pub fn to_json(&self) -> (r: String)
        ensures
            r@ == status_json(self@),
    {
        let mut out = "{".to_owned();
        out.append(raw_member_text("rssi", i32_text(self.rssi).as_str()).as_str());
        out.append(",");
        out.append(raw_member_text("score", self.score.plain.as_str()).as_str());
        out.append(",");
        out.append(text_member_text("band", self.band.as_str()).as_str());
        out.append(",");
        out.append(text_member_text("state", self.state.as_str()).as_str());
        out.append(",");
        out.append(text_member_text("ssid", self.ssid.as_str()).as_str());
        out.append(",");
        out.append(text_member_text("power_state", self.power_state.as_str()).as_str());
        out.append(",");
        out.append(text_member_text("last_error", self.last_error.as_str()).as_str());
        out.append(",");
        out.append(raw_member_text("thresholds", self.thresholds.to_json().as_str()).as_str());
        out.append(",");
        out.append(raw_member_text("hold_remaining_secs", u64_text(self.hold_remaining_secs).as_str()).as_str());
        out.append(",");
        out.append(text_member_text("hold_kind", self.hold_kind.as_str()).as_str());
        out.append(",");
        out.append(raw_member_text("user_hold_secs", u64_text(self.user_hold_secs).as_str()).as_str());
        out.append(",");
        out.append(text_member_text("link_ctrl", self.link_ctrl.as_str()).as_str());
        out.append(",");
        out.append(raw_member_text("home_ap_count", usize_text(self.home_ap_count).as_str()).as_str());
        out.append(",");
        out.append(raw_member_text("in_home", bool_text(self.in_home).as_str()).as_str());
        out.append(",");
        out.append(text_member_text("block_reason", self.block_reason.as_str()).as_str());
        out.append(",");
        out.append(raw_member_text("penalty_remaining_secs", u64_text(self.penalty_remaining_secs).as_str()).as_str());
        out.append(",");
        out.append(text_member_text("screen", self.screen.as_str()).as_str());
        out.append(",");
        out.append(text_member_text("l3_last", self.l3_last.as_str()).as_str());
        out.append(",");
        out.append(text_member_text("bssid", self.bssid.as_str()).as_str());
        out.append(",");
        out.append(text_member_text("threshold_hint", self.threshold_hint.as_str()).as_str());
        out.append(",");
        out.append(raw_member_text("best_5g_rssi", opt_signal_text(self.best_5g_rssi).as_str()).as_str());
        out.append(",");
        out.append(text_member_text("summary", self.summary.as_str()).as_str());
        out.append(",");
        out.append(raw_member_text("bssid_lock_remaining_secs", u64_text(self.bssid_lock_remaining_secs).as_str()).as_str());
        out.append(",");
        out.append(text_member_text("version", self.version.as_str()).as_str());
        out.append("}");
        out
    }
}

/// A step of the readiness check.
#[derive(Debug)]
pub struct ReadyStep {
    pub id: String,
    pub ok: bool,
    pub title: String,
    pub hint: String,
}

/// What a `ReadyStep` holds.
#[verifier::ext_equal]
pub struct StepModel {
    pub id: Seq<char>,
    pub ok: bool,
    pub title: Seq<char>,
    pub hint: Seq<char>,
}

impl View for ReadyStep {
    type V = StepModel;

    open spec fn view(&self) -> StepModel {
        StepModel { id: self.id@, ok: self.ok, title: self.title@, hint: self.hint@ }
    }
}

impl Clone for ReadyStep {
    fn clone(&self) -> (r: Self)
        ensures
            r@ == self@,
    {
        ReadyStep {
            id: self.id.clone(),
            ok: self.ok,
            title: self.title.clone(),
            hint: self.hint.clone(),
        }
    }
}

/// The contents of a list of steps.
pub open spec fn step_models(v: Seq<ReadyStep>) -> Seq<StepModel> {
    v.map_values(|s: ReadyStep| s@)
}

/// A step as a JSON object.
pub open spec fn step_json(s: StepModel) -> Seq<char> {
    "{"@ + text_member("id"@, s.id) + ","@ + raw_member("ok"@, bool_name(s.ok)) + ","@
        + text_member("title"@, s.title) + ","@ + text_member("hint"@, s.hint) + "}"@
}

impl ReadyStep {
    /// The step as a JSON object.
    pub fn to_json(&self) -> (r: String)
        ensures
            r@ == step_json(self@),
    {
        let mut out = "{".to_owned();
        out.append(text_member_text("id", self.id.as_str()).as_str());
        out.append(",");
        out.append(raw_member_text("ok", bool_text(self.ok).as_str()).as_str());
        out.append(",");
        out.append(text_member_text("title", self.title.as_str()).as_str());
        out.append(",");
        out.append(text_member_text("hint", self.hint.as_str()).as_str());
        out.append("}");
        out
    }
}

/// Whether the daemon can do its work, step by step.
#[derive(Debug)]
pub struct Readiness {
    pub persisted: bool,
    pub home_configured: bool,
    pub home_ap_count: usize,
    pub saved_ssids: Vec<String>,
    pub steps: Vec<ReadyStep>,
    pub block_reason: String,
}

/// What a `Readiness` holds.
#[verifier::ext_equal]
pub struct ReadinessModel {
    pub persisted: bool,
    pub home_configured: bool,
    pub home_ap_count: usize,
    pub saved_ssids: Seq<Seq<char>>,
    pub steps: Seq<StepModel>,
    pub block_reason: Seq<char>,
}

impl View for Readiness {
    type V = ReadinessModel;

    open spec fn view(&self) -> ReadinessModel {
        ReadinessModel {
            persisted: self.persisted,
            home_configured: self.home_configured,
            home_ap_count: self.home_ap_count,
            saved_ssids: texts(self.saved_ssids@),
            steps: step_models(self.steps@),
            block_reason: self.block_reason@,
        }
    }
}

/// JSON values one after another, with commas between them.
pub open spec fn json_list(l: Seq<Seq<char>>) -> Seq<char>
    decreases l.len(),
{
    if l.len() == 0 {
        seq![]
    } else if l.len() == 1 {
        l[0]
    } else {
        json_list(l.drop_last()) + seq![','] + l.last()
    }
}

/// JSON values as an array.
pub open spec fn json_array(l: Seq<Seq<char>>) -> Seq<char> {
    seq!['['] + json_list(l) + seq![']']
}

/// A text as a JSON string.
pub open spec fn json_string(s: Seq<char>) -> Seq<char> {
    seq!['"'] + escaped(s) + seq!['"']
}

fn array_text(items: &Vec<String>) -> (r: String)
    ensures
        r@ == json_array(texts(items@)),
{
    let ghost l = texts(items@);
    let mut out = String::new();
    out.push('[');
    let mut i: usize = 0;
    assert(l.take(0) == Seq::<Seq<char>>::empty());
    assert(out@ == seq!['['] + json_list(l.take(0)));
    while i < items.len()
        invariant
            l == texts(items@),
            i <= items@.len(),
            out@ == seq!['['] + json_list(l.take(i as int)),
        decreases items@.len() - i,
    {
        if i > 0 {
            out.push(',');
        }
        out.append(items[i].as_str());
        proof {
            let q = l.take(i + 1);
            assert(q.drop_last() == l.take(i as int));
            assert(q.last() == items@[i as int]@);
            if i > 0 {
                assert(out@ == seq!['['] + (json_list(l.take(i as int)) + seq![',']
                    + items@[i as int]@));
            } else {
                assert(q[0] == q.last());
                assert(out@ == seq!['['] + items@[i as int]@);
            }
        }
        i = i + 1;
    }
    assert(l.take(i as int) == l);
    out.push(']');
    out
}

/// The readiness check as a JSON object.
pub open spec fn readiness_json(r: ReadinessModel) -> Seq<char> {
    "{"@ + raw_member("persisted"@, bool_name(r.persisted)) + ","@ + raw_member(
        "home_configured"@,
        bool_name(r.home_configured),
    ) + ","@ + raw_member("home_ap_count"@, dec(r.home_ap_count as nat)) + ","@ + raw_member(
        "saved_ssids"@,
        json_array(r.saved_ssids.map_values(|s: Seq<char>| json_string(s))),
    ) + ","@ + raw_member(
        "steps"@,
        json_array(r.steps.map_values(|s: StepModel| step_json(s))),
    ) + ","@ + text_member("block_reason"@, r.block_reason) + "}"@
}

impl Readiness {
    /// The readiness check as a JSON object.
    pub fn to_json(&self) -> (r: String)
        ensures
            r@ == readiness_json(self@),
    {
        let mut steps: Vec<String> = Vec::new();
        let mut i: usize = 0;
        while i < self.steps.len()
            invariant
                i <= self.steps@.len(),
                steps@.len() == i,
                forall|x: int| 0 <= x < i ==> (#[trigger] steps@[x])@ == step_json(self.steps@[x]@),
            decreases self.steps@.len() - i,
        {
            steps.push(self.steps[i].to_json());
            i = i + 1;
        }
        assert(texts(steps@) == self@.steps.map_values(|s: StepModel| step_json(s)));
        let mut names: Vec<String> = Vec::new();
        let mut j: usize = 0;
        while j < self.saved_ssids.len()
            invariant
                j <= self.saved_ssids@.len(),
                names@.len() == j,
                forall|x: int|
                    0 <= x < j ==> (#[trigger] names@[x])@ == json_string(self.saved_ssids@[x]@),
            decreases self.saved_ssids@.len() - j,
        {
            let mut name = String::new();
            name.push('"');
            name.append(json_esc(self.saved_ssids[j].as_str()).as_str());
            name.push('"');
            assert(name@ == json_string(self.saved_ssids@[j as int]@));
            names.push(name);
            j = j + 1;
        }
        assert(texts(names@) == self@.saved_ssids.map_values(|s: Seq<char>| json_string(s)));
        let mut out = "{".to_owned();
        out.append(raw_member_text("persisted", bool_text(self.persisted).as_str()).as_str());
        out.append(",");
        out.append(
            raw_member_text("home_configured", bool_text(self.home_configured).as_str()).as_str(),
        );
        out.append(",");
        out.append(
            raw_member_text("home_ap_count", usize_text(self.home_ap_count).as_str()).as_str(),
        );
        out.append(",");
        out.append(raw_member_text("saved_ssids", array_text(&names).as_str()).as_str());
        out.append(",");
        out.append(raw_member_text("steps", array_text(&steps).as_str()).as_str());
        out.append(",");
        out.append(text_member_text("block_reason", self.block_reason.as_str()).as_str());
        out.append("}");
        out
    }
}

proof fn lemma_kept(x: Seq<char>, y: Seq<char>)
    ensures
        forall|m: Seq<char>| has_sub(x, m) ==> #[trigger] has_sub(x + y, m),
        has_sub(x + y, y),
{
    assert forall|m: Seq<char>| has_sub(x, m) implies #[trigger] has_sub(x + y, m) by {
        let i = choose|i: int| sub_at(x, m, i);
        assert((x + y).subrange(i, i + m.len()) =~= x.subrange(i, i + m.len()));
        assert(sub_at(x + y, m, i));
    }
    assert((x + y).subrange(x.len() as int, (x.len() + y.len()) as int) =~= y);
    assert(sub_at(x + y, y, x.len() as int));
}

/// The status that the panel gets has each of its values under its own name.
pub proof fn law_status_shows_each_value(s: StatusModel)
    ensures
        has_sub(status_json(s), raw_member("rssi"@, dec_int(s.rssi as int))),
        has_sub(status_json(s), raw_member("score"@, s.score.plain)),
        has_sub(status_json(s), text_member("band"@, s.band)),
        has_sub(status_json(s), text_member("state"@, s.state)),
        has_sub(status_json(s), text_member("ssid"@, s.ssid)),
        has_sub(status_json(s), text_member("power_state"@, s.power_state)),
        has_sub(status_json(s), text_member("last_error"@, s.last_error)),
        has_sub(status_json(s), raw_member("thresholds"@, thresholds_json(s.thresholds))),
        has_sub(status_json(s), raw_member("hold_remaining_secs"@, dec(s.hold_remaining_secs as nat))),
        has_sub(status_json(s), text_member("hold_kind"@, s.hold_kind)),
        has_sub(status_json(s), raw_member("user_hold_secs"@, dec(s.user_hold_secs as nat))),
        has_sub(status_json(s), text_member("link_ctrl"@, s.link_ctrl)),
        has_sub(status_json(s), raw_member("home_ap_count"@, dec(s.home_ap_count as nat))),
        has_sub(status_json(s), raw_member("in_home"@, bool_name(s.in_home))),
        has_sub(status_json(s), text_member("block_reason"@, s.block_reason)),
        has_sub(status_json(s), raw_member("penalty_remaining_secs"@, dec(s.penalty_remaining_secs as nat))),
        has_sub(status_json(s), text_member("screen"@, s.screen)),
        has_sub(status_json(s), text_member("l3_last"@, s.l3_last)),
        has_sub(status_json(s), text_member("bssid"@, s.bssid)),
        has_sub(status_json(s), text_member("threshold_hint"@, s.threshold_hint)),
        has_sub(status_json(s), raw_member("best_5g_rssi"@, opt_signal_json(s.best_5g_rssi))),
        has_sub(status_json(s), text_member("summary"@, s.summary)),
        has_sub(status_json(s), raw_member("bssid_lock_remaining_secs"@, dec(s.bssid_lock_remaining_secs as nat))),
        has_sub(status_json(s), text_member("version"@, s.version)),
{
    let t0 = "{"@;
    let t1 = t0 + raw_member("rssi"@, dec_int(s.rssi as int));
    lemma_kept(t0, raw_member("rssi"@, dec_int(s.rssi as int)));
    let t2 = t1 + ","@;
    lemma_kept(t1, ","@);
    let t3 = t2 + raw_member("score"@, s.score.plain);
    lemma_kept(t2, raw_member("score"@, s.score.plain));
    let t4 = t3 + ","@;
    lemma_kept(t3, ","@);
    let t5 = t4 + text_member("band"@, s.band);
    lemma_kept(t4, text_member("band"@, s.band));
    let t6 = t5 + ","@;
    lemma_kept(t5, ","@);
    let t7 = t6 + text_member("state"@, s.state);
    lemma_kept(t6, text_member("state"@, s.state));
    let t8 = t7 + ","@;
    lemma_kept(t7, ","@);
    let t9 = t8 + text_member("ssid"@, s.ssid);
    lemma_kept(t8, text_member("ssid"@, s.ssid));
    let t10 = t9 + ","@;
    lemma_kept(t9, ","@);
    let t11 = t10 + text_member("power_state"@, s.power_state);
    lemma_kept(t10, text_member("power_state"@, s.power_state));
    let t12 = t11 + ","@;
    lemma_kept(t11, ","@);
    let t13 = t12 + text_member("last_error"@, s.last_error);
    lemma_kept(t12, text_member("last_error"@, s.last_error));
    let t14 = t13 + ","@;
    lemma_kept(t13, ","@);
    let t15 = t14 + raw_member("thresholds"@, thresholds_json(s.thresholds));
    lemma_kept(t14, raw_member("thresholds"@, thresholds_json(s.thresholds)));
    let t16 = t15 + ","@;
    lemma_kept(t15, ","@);
    let t17 = t16 + raw_member("hold_remaining_secs"@, dec(s.hold_remaining_secs as nat));
    lemma_kept(t16, raw_member("hold_remaining_secs"@, dec(s.hold_remaining_secs as nat)));
    let t18 = t17 + ","@;
    lemma_kept(t17, ","@);
    let t19 = t18 + text_member("hold_kind"@, s.hold_kind);
    lemma_kept(t18, text_member("hold_kind"@, s.hold_kind));
    let t20 = t19 + ","@;
    lemma_kept(t19, ","@);
    let t21 = t20 + raw_member("user_hold_secs"@, dec(s.user_hold_secs as nat));
    lemma_kept(t20, raw_member("user_hold_secs"@, dec(s.user_hold_secs as nat)));
    let t22 = t21 + ","@;
    lemma_kept(t21, ","@);
    let t23 = t22 + text_member("link_ctrl"@, s.link_ctrl);
    lemma_kept(t22, text_member("link_ctrl"@, s.link_ctrl));
    let t24 = t23 + ","@;
    lemma_kept(t23, ","@);
    let t25 = t24 + raw_member("home_ap_count"@, dec(s.home_ap_count as nat));
    lemma_kept(t24, raw_member("home_ap_count"@, dec(s.home_ap_count as nat)));
    let t26 = t25 + ","@;
    lemma_kept(t25, ","@);
    let t27 = t26 + raw_member("in_home"@, bool_name(s.in_home));
    lemma_kept(t26, raw_member("in_home"@, bool_name(s.in_home)));
    let t28 = t27 + ","@;
    lemma_kept(t27, ","@);
    let t29 = t28 + text_member("block_reason"@, s.block_reason);
    lemma_kept(t28, text_member("block_reason"@, s.block_reason));
    let t30 = t29 + ","@;
    lemma_kept(t29, ","@);
    let t31 = t30 + raw_member("penalty_remaining_secs"@, dec(s.penalty_remaining_secs as nat));
    lemma_kept(t30, raw_member("penalty_remaining_secs"@, dec(s.penalty_remaining_secs as nat)));
    let t32 = t31 + ","@;
    lemma_kept(t31, ","@);
    let t33 = t32 + text_member("screen"@, s.screen);
    lemma_kept(t32, text_member("screen"@, s.screen));
    let t34 = t33 + ","@;
    lemma_kept(t33, ","@);
    let t35 = t34 + text_member("l3_last"@, s.l3_last);
    lemma_kept(t34, text_member("l3_last"@, s.l3_last));
    let t36 = t35 + ","@;
    lemma_kept(t35, ","@);
    let t37 = t36 + text_member("bssid"@, s.bssid);
    lemma_kept(t36, text_member("bssid"@, s.bssid));
    let t38 = t37 + ","@;
    lemma_kept(t37, ","@);
    let t39 = t38 + text_member("threshold_hint"@, s.threshold_hint);
    lemma_kept(t38, text_member("threshold_hint"@, s.threshold_hint));
    let t40 = t39 + ","@;
    lemma_kept(t39, ","@);
    let t41 = t40 + raw_member("best_5g_rssi"@, opt_signal_json(s.best_5g_rssi));
    lemma_kept(t40, raw_member("best_5g_rssi"@, opt_signal_json(s.best_5g_rssi)));
    let t42 = t41 + ","@;
    lemma_kept(t41, ","@);
    let t43 = t42 + text_member("summary"@, s.summary);
    lemma_kept(t42, text_member("summary"@, s.summary));
    let t44 = t43 + ","@;
    lemma_kept(t43, ","@);
    let t45 = t44 + raw_member("bssid_lock_remaining_secs"@, dec(s.bssid_lock_remaining_secs as nat));
    lemma_kept(t44, raw_member("bssid_lock_remaining_secs"@, dec(s.bssid_lock_remaining_secs as nat)));
    let t46 = t45 + ","@;
    lemma_kept(t45, ","@);
    let t47 = t46 + text_member("version"@, s.version);
    lemma_kept(t46, text_member("version"@, s.version));
    let t48 = t47 + "}"@;
    lemma_kept(t47, "}"@);
}

/// The thresholds that the panel gets have each of their values under its own name.
pub proof fn law_thresholds_show_each_value(t: ThresholdsModel)
    ensures
        has_sub(thresholds_json(t), raw_member("score_detect_threshold"@, t.score_detect_threshold.plain)),
        has_sub(thresholds_json(t), raw_member("score_switch_threshold"@, t.score_switch_threshold.plain)),
        has_sub(thresholds_json(t), raw_member("upswitch_rssi_min_dbm"@, dec_int(t.upswitch_rssi_min_dbm as int))),
        has_sub(thresholds_json(t), text_member("mode"@, t.mode)),
{
    let t0 = "{"@;
    let t1 = t0 + raw_member("score_detect_threshold"@, t.score_detect_threshold.plain);
    lemma_kept(t0, raw_member("score_detect_threshold"@, t.score_detect_threshold.plain));
    let t2 = t1 + ","@;
    lemma_kept(t1, ","@);
    let t3 = t2 + raw_member("score_switch_threshold"@, t.score_switch_threshold.plain);
    lemma_kept(t2, raw_member("score_switch_threshold"@, t.score_switch_threshold.plain));
    let t4 = t3 + ","@;
    lemma_kept(t3, ","@);
    let t5 = t4 + raw_member("upswitch_rssi_min_dbm"@, dec_int(t.upswitch_rssi_min_dbm as int));
    lemma_kept(t4, raw_member("upswitch_rssi_min_dbm"@, dec_int(t.upswitch_rssi_min_dbm as int)));
    let t6 = t5 + ","@;
    lemma_kept(t5, ","@);
    let t7 = t6 + text_member("mode"@, t.mode);
    lemma_kept(t6, text_member("mode"@, t.mode));
    let t8 = t7 + "}"@;
    lemma_kept(t7, "}"@);
}

/// A step of the readiness check has each of its values under its own name.
pub proof fn law_step_shows_each_value(s: StepModel)
    ensures
        has_sub(step_json(s), text_member("id"@, s.id)),
        has_sub(step_json(s), raw_member("ok"@, bool_name(s.ok))),
        has_sub(step_json(s), text_member("title"@, s.title)),
        has_sub(step_json(s), text_member("hint"@, s.hint)),
{
    let t0 = "{"@;
    let t1 = t0 + text_member("id"@, s.id);
    lemma_kept(t0, text_member("id"@, s.id));
    let t2 = t1 + ","@;
    lemma_kept(t1, ","@);
    let t3 = t2 + raw_member("ok"@, bool_name(s.ok));
    lemma_kept(t2, raw_member("ok"@, bool_name(s.ok)));
    let t4 = t3 + ","@;
    lemma_kept(t3, ","@);
    let t5 = t4 + text_member("title"@, s.title);
    lemma_kept(t4, text_member("title"@, s.title));
    let t6 = t5 + ","@;
    lemma_kept(t5, ","@);
    let t7 = t6 + text_member("hint"@, s.hint);
    lemma_kept(t6, text_member("hint"@, s.hint));
    let t8 = t7 + "}"@;
    lemma_kept(t7, "}"@);
}

/// The readiness check that the panel gets has each of its values under its own name.
pub proof fn law_readiness_shows_each_value(r: ReadinessModel)
    ensures
        has_sub(readiness_json(r), raw_member("persisted"@, bool_name(r.persisted))),
        has_sub(readiness_json(r), raw_member("home_configured"@, bool_name(r.home_configured))),
        has_sub(readiness_json(r), raw_member("home_ap_count"@, dec(r.home_ap_count as nat))),
        has_sub(readiness_json(r), raw_member("saved_ssids"@, json_array(r.saved_ssids.map_values(|s: Seq<char>| json_string(s))))),
        has_sub(readiness_json(r), raw_member("steps"@, json_array(r.steps.map_values(|s: StepModel| step_json(s))))),
        has_sub(readiness_json(r), text_member("block_reason"@, r.block_reason)),
{
    let t0 = "{"@;
    let t1 = t0 + raw_member("persisted"@, bool_name(r.persisted));
    lemma_kept(t0, raw_member("persisted"@, bool_name(r.persisted)));
    let t2 = t1 + ","@;
    lemma_kept(t1, ","@);
    let t3 = t2 + raw_member("home_configured"@, bool_name(r.home_configured));
    lemma_kept(t2, raw_member("home_configured"@, bool_name(r.home_configured)));
    let t4 = t3 + ","@;
    lemma_kept(t3, ","@);
    let t5 = t4 + raw_member("home_ap_count"@, dec(r.home_ap_count as nat));
    lemma_kept(t4, raw_member("home_ap_count"@, dec(r.home_ap_count as nat)));
    let t6 = t5 + ","@;
    lemma_kept(t5, ","@);
    let t7 = t6 + raw_member("saved_ssids"@, json_array(r.saved_ssids.map_values(|s: Seq<char>| json_string(s))));
    lemma_kept(t6, raw_member("saved_ssids"@, json_array(r.saved_ssids.map_values(|s: Seq<char>| json_string(s)))));
    let t8 = t7 + ","@;
    lemma_kept(t7, ","@);
    let t9 = t8 + raw_member("steps"@, json_array(r.steps.map_values(|s: StepModel| step_json(s))));
    lemma_kept(t8, raw_member("steps"@, json_array(r.steps.map_values(|s: StepModel| step_json(s)))));
    let t10 = t9 + ","@;
    lemma_kept(t9, ","@);
    let t11 = t10 + text_member("block_reason"@, r.block_reason);
    lemma_kept(t10, text_member("block_reason"@, r.block_reason));
    let t12 = t11 + "}"@;
    lemma_kept(t11, "}"@);
}

/// Values in a list stand one behind another with commas between them, between brackets; a text among
/// them stands between quotes.
pub proof fn law_lists(l: Seq<Seq<char>>, v: Seq<char>, s: Seq<char>)
    ensures
        json_array(seq![]) == seq!['[', ']'],
        json_array(seq![v]) == seq!['['] + v + seq![']'],
        l.len() > 0 ==> json_array(l.push(v)) == json_array(l).drop_last() + seq![','] + v + seq![']'],
        json_string(s) == seq!['"'] + escaped(s) + seq!['"'],
{
    assert(l.push(v).drop_last() == l);
    assert(json_array(seq![]) =~= seq!['[', ']']);
    if l.len() > 0 {
        assert(json_array(l.push(v)) =~= json_array(l).drop_last() + seq![','] + v + seq![']']);
    }
}

/// A signal that is not known is `null`, and one that is known its number.
pub proof fn law_signal_or_null(v: i32)
    ensures
        opt_signal_json(None) == "null"@,
        opt_signal_json(Some(v)) == dec_int(v as int),
{
}

/// Before the first look there is no link, nothing is wrong and nothing holds switching off; the
/// thresholds are those of the defaults.
pub proof fn law_status_before_the_first_look(version: Seq<char>)
    ensures
        ({
            let s = first_status(version);
            &&& s.version == version
            &&& s.ssid.len() == 0 && s.last_error.len() == 0 && s.block_reason.len() == 0
            &&& s.hold_remaining_secs == 0 && s.hold_kind.len() == 0
            &&& s.penalty_remaining_secs == 0 && s.bssid_lock_remaining_secs == 0
            &&& s.state == "DISCONNECTED"@
            &&& s.power_state == "ON"@
            &&& s.best_5g_rssi is None
            &&& s.in_home && s.home_ap_count == 0
            &&& s.thresholds.score_detect_threshold == default_config().score_detect_threshold
            &&& s.thresholds.score_switch_threshold == default_config().score_switch_threshold
            &&& s.thresholds.upswitch_rssi_min_dbm == default_config().upswitch_rssi_min_dbm
            &&& s.thresholds.mode == default_config().mode
            &&& s.user_hold_secs == default_config().user_hold_secs
        }),
{
}

} // verus!
