//! The state of the daemon in words: for the panel, the status file and the module list.

use crate::numbers::{dec, dec_int, i32_text, u64_text};
use crate::score::{rank_of_whole, whole_rank, Rank, Score, ScoreModel};
use crate::text::{
    cat, has_prefix, has_sub, has_suffix, is_white, law_standing_in, lemma_tidy_is_trimmed,
    starts_with, str_eq, trim, trimmed,
};
use vstd::prelude::*;
use vstd::string::*;

verus! {

pub open spec fn mode_name(mode: Seq<char>) -> Seq<char> {
    if mode == "eco"@ {
        "省电"@
    } else if mode == "pause"@ {
        "暂停"@
    } else {
        "日用"@
    }
}

/// The mode in words.
pub fn mode_zh(mode: &str) -> (r: &'static str)
    ensures
        r@ == mode_name(mode@),
{
    if str_eq(mode, "eco") {
        "省电"
    } else if str_eq(mode, "pause") {
        "暂停"
    } else {
        "日用"
    }
}

pub open spec fn power_name(ps: Seq<char>) -> Seq<char> {
    let p = trimmed(ps);
    if has_prefix(p, "USER_HOLD"@) {
        "手切保护中"@
    } else if has_prefix(p, "SOFT_PAUSE"@) {
        "观影保护中"@
    } else if p == "Idle"@ || p == "idle"@ {
        "守护中"@
    } else if p == "GradientDetect"@ {
        "观察中"@
    } else if p == "Switching"@ {
        "切换中"@
    } else if p == "Penalty"@ {
        "冷却中"@
    } else if p == "Frozen"@ {
        "冻结"@
    } else if p == "PAUSE"@ || p == "Pause"@ {
        "已暂停"@
    } else if p == "OUT_OF_HOME"@ {
        "非家网"@
    } else if p == "WEAK_OFF"@ {
        "弱信号已断"@
    } else if p == "SCREEN_OFF"@ {
        "息屏降频"@
    } else if p.len() == 0 {
        "—"@
    } else {
        p
    }
}

/// The state in words; one that is not known stands for itself.
pub fn power_zh(ps: &str) -> (r: String)
    ensures
        r@ == power_name(ps@),
{
    let t = trim(ps);
    let p = t.as_str();
    if starts_with(p, "USER_HOLD") {
        "手切保护中".to_owned()
    } else if starts_with(p, "SOFT_PAUSE") {
        "观影保护中".to_owned()
    } else if str_eq(p, "Idle") || str_eq(p, "idle") {
        "守护中".to_owned()
    } else if str_eq(p, "GradientDetect") {
        "观察中".to_owned()
    } else if str_eq(p, "Switching") {
        "切换中".to_owned()
    } else if str_eq(p, "Penalty") {
        "冷却中".to_owned()
    } else if str_eq(p, "Frozen") {
        "冻结".to_owned()
    } else if str_eq(p, "PAUSE") || str_eq(p, "Pause") {
        "已暂停".to_owned()
    } else if str_eq(p, "OUT_OF_HOME") {
        "非家网".to_owned()
    } else if str_eq(p, "WEAK_OFF") {
        "弱信号已断".to_owned()
    } else if str_eq(p, "SCREEN_OFF") {
        "息屏降频".to_owned()
    } else if p.is_empty() {
        "—".to_owned()
    } else {
        p.to_owned()
    }
}

/// Why automatic switching is held off: the user has switched by hand, or has asked for it.
#[derive(Clone, Copy, Debug, PartialEq, Eq, Structural)]
pub enum HoldKind {
    Manual,
    SoftPause,
}

impl HoldKind {
    pub open spec fn name(self) -> Seq<char> {
        match self {
            HoldKind::Manual => "manual"@,
            HoldKind::SoftPause => "soft_pause"@,
        }
    }

    pub open spec fn block_text(self, rem: nat) -> Seq<char> {
        match self {
            HoldKind::Manual => "手切保护中（剩 "@ + dec(rem) + "s，不自动切网）"@,
            HoldKind::SoftPause => "观影保护中（剩 "@ + dec(rem) + "s，不自动切网）"@,
        }
    }

    pub open spec fn summary_text(self, rem: nat) -> Seq<char> {
        match self {
            HoldKind::Manual => "手切保护 · "@ + dec(rem) + "s（可点结束保护）"@,
            HoldKind::SoftPause => "观影保护 · "@ + dec(rem) + "s（可点结束保护）"@,
        }
    }

    pub open spec fn power_text(self, rem: nat) -> Seq<char> {
        match self {
            HoldKind::Manual => "USER_HOLD("@ + dec(rem) + "s)"@,
            HoldKind::SoftPause => "SOFT_PAUSE("@ + dec(rem) + "s)"@,
        }
    }

    /// The kind as the panel knows it.
    pub fn as_str(self) -> (r: &'static str)
        ensures
            r@ == self.name(),
    {
        match self {
            HoldKind::Manual => "manual",
            HoldKind::SoftPause => "soft_pause",
        }
    }

    /// Why there is no switch.
    pub fn block_zh(self, rem: u64) -> (r: String)
        ensures
            r@ == self.block_text(rem as nat),
    {
        let head = match self {
            HoldKind::Manual => "手切保护中（剩 ",
            HoldKind::SoftPause => "观影保护中（剩 ",
        };
        cat(cat(head.to_owned(), u64_text(rem).as_str()), "s，不自动切网）")
    }

    /// The state in a sentence.
    pub fn summary_zh(self, rem: u64) -> (r: String)
        ensures
            r@ == self.summary_text(rem as nat),
    {
        let head = match self {
            HoldKind::Manual => "手切保护 · ",
            HoldKind::SoftPause => "观影保护 · ",
        };
        cat(cat(head.to_owned(), u64_text(rem).as_str()), "s（可点结束保护）")
    }

    /// The state of the machine as the panel knows it.
    pub fn power_state(self, rem: u64) -> (r: String)
        ensures
            r@ == self.power_text(rem as nat),
    {
        let head = match self {
            HoldKind::Manual => "USER_HOLD(",
            HoldKind::SoftPause => "SOFT_PAUSE(",
        };
        cat(cat(head.to_owned(), u64_text(rem).as_str()), "s)")
    }
}

pub open spec fn band_title(band: Seq<char>) -> Seq<char> {
    if band == "5"@ {
        "5G"@
    } else if band == "2.4"@ {
        "2.4G"@
    } else {
        "未知频段"@
    }
}

/// The band in words.
pub fn band_zh(band: &str) -> (r: &'static str)
    ensures
        r@ == band_title(band@),
{
    if str_eq(band, "5") {
        "5G"
    } else if str_eq(band, "2.4") {
        "2.4G"
    } else {
        "未知频段"
    }
}

/// The values against the thresholds: on the preferred band the score against both of its
/// thresholds, off it the signal of the preferred band against the one to go back at.
pub open spec fn threshold_hint(
    on_preferred: bool,
    score: ScoreModel,
    rssi: i32,
    switch_th: ScoreModel,
    detect_th: ScoreModel,
    up_rssi: i32,
    best_pref: Option<i32>,
) -> Seq<char> {
    if on_preferred {
        if score.rank.lt(switch_th.rank) {
            "偏好下切带：分 "@ + score.whole + " < 下切线 "@ + switch_th.whole + "（"@ + dec_int(
                rssi as int,
            ) + " dBm）→ 防抖后切后备频段"@
        } else if score.rank.lt(detect_th.rank) {
            "偏好观察带：下切线 "@ + switch_th.whole + " ≤ 分 "@ + score.whole + " < 观察线 "@
                + detect_th.whole + " → 加勤扫描"@
        } else {
            "偏好稳定带：分 "@ + score.whole + " ≥ 观察线 "@ + detect_th.whole + "（"@ + dec_int(
                rssi as int,
            ) + " dBm）→ 守护中"@
        }
    } else {
        match best_pref {
            Some(b) => if b >= up_rssi {
                "后备频段·上切就绪：偏好侧最强 "@ + dec_int(b as int) + " dBm ≥ 上切线 "@ + dec_int(
                    up_rssi as int,
                ) + " → 防抖后回偏好"@
            } else {
                "后备频段·等待：偏好侧最强 "@ + dec_int(b as int) + " dBm < 上切线 "@ + dec_int(
                    up_rssi as int,
                )
            },
            None => "后备频段·寻找偏好 AP（需 ≥ "@ + dec_int(up_rssi as int) + " dBm）"@,
        }
    }
}

/// The values against the thresholds, in words.
pub fn threshold_hint_zh(
    on_preferred: bool,
    score: &Score,
    rssi: i32,
    switch_th: &Score,
    detect_th: &Score,
    up_rssi: i32,
    best_pref: Option<i32>,
) -> (r: String)
    ensures
        r@ == threshold_hint(
            on_preferred,
            score@,
            rssi,
            switch_th@,
            detect_th@,
            up_rssi,
            best_pref,
        ),
{
    if on_preferred {
        if score.rank.below(switch_th.rank) {
            let mut out = "偏好下切带：分 ".to_owned();
            out.append(score.whole.as_str());
            out.append(" < 下切线 ");
            out.append(switch_th.whole.as_str());
            out.append("（");
            out.append(i32_text(rssi).as_str());
            out.append(" dBm）→ 防抖后切后备频段");
            out
        } else if score.rank.below(detect_th.rank) {
            let mut out = "偏好观察带：下切线 ".to_owned();
            out.append(switch_th.whole.as_str());
            out.append(" ≤ 分 ");
            out.append(score.whole.as_str());
            out.append(" < 观察线 ");
            out.append(detect_th.whole.as_str());
            out.append(" → 加勤扫描");
            out
        } else {
            let mut out = "偏好稳定带：分 ".to_owned();
            out.append(score.whole.as_str());
            out.append(" ≥ 观察线 ");
            out.append(detect_th.whole.as_str());
            out.append("（");
            out.append(i32_text(rssi).as_str());
            out.append(" dBm）→ 守护中");
            out
        }
    } else {
        match best_pref {
            Some(b) => {
                if b >= up_rssi {
                    let mut out = "后备频段·上切就绪：偏好侧最强 ".to_owned();
                    out.append(i32_text(b).as_str());
                    out.append(" dBm ≥ 上切线 ");
                    out.append(i32_text(up_rssi).as_str());
                    out.append(" → 防抖后回偏好");
                    out
                } else {
                    let mut out = "后备频段·等待：偏好侧最强 ".to_owned();
                    out.append(i32_text(b).as_str());
                    out.append(" dBm < 上切线 ");
                    out.append(i32_text(up_rssi).as_str());
                    out
                }
            },
            None => {
                let mut out = "后备频段·寻找偏好 AP（需 ≥ ".to_owned();
                out.append(i32_text(up_rssi).as_str());
                out.append(" dBm）");
                out
            },
        }
    }
}

/// The line for the status file and the module list.
pub open spec fn status_line(
    mode: Seq<char>,
    ssid: Seq<char>,
    band: Seq<char>,
    score: ScoreModel,
    power_state: Seq<char>,
    block_reason: Seq<char>,
) -> Seq<char> {
    let shown = if ssid.len() == 0 {
        "未连接"@
    } else {
        ssid
    };
    let st = if block_reason.len() > 0 {
        block_reason
    } else {
        power_name(power_state)
    };
    "AmberGuard · "@ + mode_name(mode) + " · "@ + shown + " · "@ + band_title(band) + " · 分"@
        + score.whole + " · "@ + st
}

/// The line for the status file and the module list.
pub fn status_line_zh(
    mode: &str,
    ssid: &str,
    band: &str,
    score: &Score,
    power_state: &str,
    block_reason: &str,
) -> (r: String)
    ensures
        r@ == status_line(mode@, ssid@, band@, score@, power_state@, block_reason@),
{
    let mut out = "AmberGuard · ".to_owned();
    out.append(mode_zh(mode));
    out.append(" · ");
    if ssid.is_empty() {
        out.append("未连接");
    } else {
        out.append(ssid);
    }
    out.append(" · ");
    out.append(band_zh(band));
    out.append(" · 分");
    out.append(score.whole.as_str());
    out.append(" · ");
    if !block_reason.is_empty() {
        out.append(block_reason);
    } else {
        out.append(power_zh(power_state).as_str());
    }
    out
}

/// What the summary is made of.
#[derive(Clone, Copy, Debug)]
pub struct SummaryFacts {
    pub hold_rem: u64,
    pub pen_rem: u64,
    pub in_home: bool,
    pub home_n: usize,
    pub screen_off: bool,
    pub paused: bool,
    pub on_preferred: bool,
    pub lock_rem: u64,
    pub prefer_5: bool,
}

/// The state in a sentence. What keeps the link from being switched comes first.
pub open spec fn status_summary(
    band: Seq<char>,
    score: ScoreModel,
    mode: Seq<char>,
    f: SummaryFacts,
) -> Seq<char> {
    if f.paused {
        "已暂停 · 仅观测"@
    } else if f.hold_rem > 0 {
        "保护中 · "@ + dec(f.hold_rem as nat) + "s（可点结束保护）"@
    } else if f.screen_off {
        "息屏降频 · 不主动切"@
    } else if f.pen_rem > 0 {
        "切换冷却中 · "@ + dec(f.pen_rem as nat) + "s"@
    } else if f.lock_rem > 0 {
        "短时锁 AP · "@ + dec(f.lock_rem as nat) + "s（防踢回）"@
    } else if f.home_n > 0 && !f.in_home {
        "非家网 · 仅观测"@
    } else if f.on_preferred {
        if score.rank.ge(Rank::At(whole_rank(70) as i32)) {
            band_title(band) + " 良好 · "@ + (if mode == "eco"@ {
                "省电"@
            } else {
                "日用"@
            }) + "守护中"@
        } else if score.rank.ge(Rank::At(whole_rank(30) as i32)) {
            band_title(band) + " 观察中 · 分 "@ + score.whole
        } else {
            band_title(band) + " 偏弱 · 可能下切"@
        }
    } else {
        band_title(band) + " 后备 · 等"@ + (if f.prefer_5 {
            "5G"@
        } else {
            "2.4G"@
        }) + "回暖"@
    }
}

/// The state in a sentence.
pub fn status_summary_zh(band: &str, score: &Score, mode: &str, f: SummaryFacts) -> (r: String)
    ensures
        r@ == status_summary(band@, score@, mode@, f),
{
    if f.paused {
        return "已暂停 · 仅观测".to_owned();
    }
    if f.hold_rem > 0 {
        return cat(
            cat("保护中 · ".to_owned(), u64_text(f.hold_rem).as_str()),
            "s（可点结束保护）",
        );
    }
    if f.screen_off {
        return "息屏降频 · 不主动切".to_owned();
    }
    if f.pen_rem > 0 {
        return cat(cat("切换冷却中 · ".to_owned(), u64_text(f.pen_rem).as_str()), "s");
    }
    if f.lock_rem > 0 {
        return cat(
            cat("短时锁 AP · ".to_owned(), u64_text(f.lock_rem).as_str()),
            "s（防踢回）",
        );
    }
    if f.home_n > 0 && !f.in_home {
        return "非家网 · 仅观测".to_owned();
    }
    let mut out = band_zh(band).to_owned();
    if f.on_preferred {
        if score.rank.at_least(rank_of_whole(70)) {
            out.append(" 良好 · ");
            if str_eq(mode, "eco") {
                out.append("省电");
            } else {
                out.append("日用");
            }
            out.append("守护中");
        } else if score.rank.at_least(rank_of_whole(30)) {
            out.append(" 观察中 · 分 ");
            out.append(score.whole.as_str());
        } else {
            out.append(" 偏弱 · 可能下切");
        }
    } else {
        out.append(" 后备 · 等");
        if f.prefer_5 {
            out.append("5G");
        } else {
            out.append("2.4G");
        }
        out.append("回暖");
    }
    out
}

/// When the status file is written: at once where the line has changed, else every fifteen
/// seconds. Times are seconds of the Unix epoch.
#[derive(Debug)]
pub struct StatusFile {
    last_ts: u64,
    last_line: String,
}

/// What a `StatusFile` holds.
#[verifier::ext_equal]
pub struct StatusFileModel {
    pub last_ts: u64,
    pub last_line: Seq<char>,
}

impl View for StatusFile {
    type V = StatusFileModel;

    closed spec fn view(&self) -> StatusFileModel {
        StatusFileModel { last_ts: self.last_ts, last_line: self.last_line@ }
    }
}

/// Whether a line is to be written.
pub open spec fn line_is_due(m: StatusFileModel, line: Seq<char>, now: u64) -> bool {
    m.last_line != line || now - m.last_ts >= 15
}

impl StatusFile {
    pub fn new() -> (r: Self)
        ensures
            r@ == (StatusFileModel { last_ts: 0, last_line: seq![] }),
    {
        StatusFile { last_ts: 0, last_line: String::new() }
    }

    /// The content of the file, where it is to be written.
    pub fn write(&mut self, line: &str, now: u64) -> (r: Option<String>)
        ensures
            r is Some <==> line_is_due(old(self)@, line@, now),
            r matches Some(t) ==> t@ == line@ + "\n"@,
            final(self)@ == (if line_is_due(old(self)@, line@, now) {
                StatusFileModel { last_ts: now, last_line: line@ }
            } else {
                old(self)@
            }),
    {
        let changed = !str_eq(self.last_line.as_str(), line);
        let age: u64 = if now >= self.last_ts {
            now - self.last_ts
        } else {
            0
        };
        if !changed && age < 15 {
            return None;
        }
        self.last_line = line.to_owned();
        self.last_ts = now;
        Some(cat(line.to_owned(), "\n"))
    }
}

/// A line that has changed is written at once; one that has not, not again before fifteen
/// seconds have passed.
pub proof fn law_status_file_follows_changes(
    m: StatusFileModel,
    line: Seq<char>,
    other: Seq<char>,
    now: u64,
    later: u64,
)
    requires
        line_is_due(m, line, now),
        other != line,
    ensures
        ({
            let n = StatusFileModel { last_ts: now, last_line: line };
            &&& line_is_due(n, other, later)
            &&& line_is_due(n, line, later) <==> later - now >= 15
        }),
{
}

/// The words for the mode: each mode has its own, and any other name counts as the daily one.
pub proof fn law_words_for_the_mode(mode: Seq<char>)
    ensures
        mode_name("eco"@) == "省电"@,
        mode_name("pause"@) == "暂停"@,
        mode != "eco"@ && mode != "pause"@ ==> mode_name(mode) == "日用"@,
{
    reveal_strlit("eco");
    reveal_strlit("pause");
    assert("eco"@.len() == 3 && "pause"@.len() == 5);
}

/// The words for the band: only the two bands have a name of their own.
pub proof fn law_words_for_the_band(band: Seq<char>)
    ensures
        band_title("5"@) == "5G"@,
        band_title("2.4"@) == "2.4G"@,
        band != "5"@ && band != "2.4"@ ==> band_title(band) == "未知频段"@,
{
    reveal_strlit("5");
    reveal_strlit("2.4");
    assert("5"@.len() == 1 && "2.4"@.len() == 3);
}

proof fn lemma_starts_otherwise(p: Seq<char>, q: Seq<char>, i: int)
    requires
        0 <= i < p.len(),
        i < q.len(),
        p[i] != q[i],
    ensures
        !has_prefix(p, q),
        p != q,
{
    if has_prefix(p, q) {
        assert(p.take(q.len() as int)[i] == p[i]);
    }
}

/// The words for a state are found whatever space stands around it: each state that is known has its
/// own, and one that is not known stands for itself.
pub proof fn law_words_for_the_state(ps: Seq<char>)
    ensures
        trimmed(ps) == "Idle"@ || trimmed(ps) == "idle"@ ==> power_name(ps) == "守护中"@,
        trimmed(ps) == "GradientDetect"@ ==> power_name(ps) == "观察中"@,
        trimmed(ps) == "Switching"@ ==> power_name(ps) == "切换中"@,
        trimmed(ps) == "Penalty"@ ==> power_name(ps) == "冷却中"@,
        trimmed(ps) == "Frozen"@ ==> power_name(ps) == "冻结"@,
        trimmed(ps) == "PAUSE"@ || trimmed(ps) == "Pause"@ ==> power_name(ps) == "已暂停"@,
        trimmed(ps) == "OUT_OF_HOME"@ ==> power_name(ps) == "非家网"@,
        trimmed(ps) == "WEAK_OFF"@ ==> power_name(ps) == "弱信号已断"@,
        trimmed(ps) == "SCREEN_OFF"@ ==> power_name(ps) == "息屏降频"@,
        trimmed(ps).len() == 0 ==> power_name(ps) == "—"@,
        trimmed(ps).len() > 14 && !has_prefix(trimmed(ps), "USER_HOLD"@) && !has_prefix(
            trimmed(ps),
            "SOFT_PAUSE"@,
        ) ==> power_name(ps) == trimmed(ps),
{
    reveal_strlit("USER_HOLD");
    reveal_strlit("SOFT_PAUSE");
    reveal_strlit("Idle");
    reveal_strlit("idle");
    reveal_strlit("GradientDetect");
    reveal_strlit("Switching");
    reveal_strlit("Penalty");
    reveal_strlit("Frozen");
    reveal_strlit("PAUSE");
    reveal_strlit("Pause");
    reveal_strlit("OUT_OF_HOME");
    reveal_strlit("WEAK_OFF");
    reveal_strlit("SCREEN_OFF");
    let p = trimmed(ps);
    let u = "USER_HOLD"@;
    let s = "SOFT_PAUSE"@;
    if p.len() > 1 {
        if p[0] != u[0] {
            lemma_starts_otherwise(p, u, 0);
        }
        if p[1] != s[1] {
            lemma_starts_otherwise(p, s, 1);
        }
    }
    if p == "OUT_OF_HOME"@ || p == "GradientDetect"@ {
        lemma_starts_otherwise(p, s, 0);
    }
}

/// A time without switching is shown as the protection that it is, with what is left of it: in the
/// state, in the reason and in the summary alike.
pub proof fn law_hold_is_shown(k: HoldKind, rem: nat)
    ensures
        power_name(k.power_text(rem)) == (if k == HoldKind::Manual {
            "手切保护中"@
        } else {
            "观影保护中"@
        }),
        has_prefix(k.block_text(rem), power_name(k.power_text(rem))),
        has_sub(k.power_text(rem), dec(rem)),
        has_sub(k.block_text(rem), dec(rem)),
        has_sub(k.summary_text(rem), dec(rem)),
        HoldKind::Manual.name() == "manual"@,
        HoldKind::SoftPause.name() == "soft_pause"@,
{
    reveal_strlit("USER_HOLD");
    reveal_strlit("SOFT_PAUSE");
    reveal_strlit("USER_HOLD(");
    reveal_strlit("SOFT_PAUSE(");
    reveal_strlit("s)");
    reveal_strlit("手切保护中");
    reveal_strlit("观影保护中");
    reveal_strlit("手切保护中（剩 ");
    reveal_strlit("观影保护中（剩 ");
    let d = dec(rem);
    let p = k.power_text(rem);
    law_standing_in("USER_HOLD("@, d, "s)"@);
    law_standing_in("SOFT_PAUSE("@, d, "s)"@);
    law_standing_in("手切保护中（剩 "@, d, "s，不自动切网）"@);
    law_standing_in("观影保护中（剩 "@, d, "s，不自动切网）"@);
    law_standing_in("手切保护 · "@, d, "s（可点结束保护）"@);
    law_standing_in("观影保护 · "@, d, "s（可点结束保护）"@);
    assert(!is_white('U') && !is_white('S') && !is_white(')'));
    assert(p[0] == 'U' || p[0] == 'S');
    assert(p.last() == ')');
    lemma_tidy_is_trimmed(p);
    match k {
        HoldKind::Manual => {
            assert(p.take(9) =~= "USER_HOLD"@);
            assert(k.block_text(rem).take(5) =~= "手切保护中"@);
        },
        HoldKind::SoftPause => {
            assert(p.take(10) =~= "SOFT_PAUSE"@);
            lemma_starts_otherwise(p, "USER_HOLD"@, 0);
            assert(k.block_text(rem).take(5) =~= "观影保护中"@);
        },
    }
}

/// On the preferred band the hint says where the score stands: below the line to leave at, between
/// that and the line to watch from, or above both; and it shows the score and the line.
pub proof fn law_hint_on_the_preferred_band(
    score: ScoreModel,
    rssi: i32,
    switch_th: ScoreModel,
    detect_th: ScoreModel,
    up_rssi: i32,
    best: Option<i32>,
)
    requires
        score.rank is At && switch_th.rank is At && detect_th.rank is At,
        switch_th.rank.lt(detect_th.rank),
    ensures
        ({
            let h = threshold_hint(true, score, rssi, switch_th, detect_th, up_rssi, best);
            &&& score.rank->0 < switch_th.rank->0 ==> has_prefix(h, "偏好下切带"@)
            &&& switch_th.rank->0 <= score.rank->0 < detect_th.rank->0 ==> has_prefix(
                h,
                "偏好观察带"@,
            )
            &&& score.rank->0 >= detect_th.rank->0 ==> has_prefix(h, "偏好稳定带"@)
            &&& has_sub(h, score.whole)
            &&& score.rank->0 < detect_th.rank->0 ==> has_sub(h, switch_th.whole)
            &&& score.rank->0 >= switch_th.rank->0 ==> has_sub(h, detect_th.whole)
            &&& !(switch_th.rank->0 <= score.rank->0 < detect_th.rank->0) ==> has_sub(
                h,
                dec_int(rssi as int),
            )
        }),
{
    let h = threshold_hint(true, score, rssi, switch_th, detect_th, up_rssi, best);
    let r = dec_int(rssi as int);
    if score.rank->0 < switch_th.rank->0 {
        let a = "偏好下切带：分 "@;
        let z = " dBm）→ 防抖后切后备频段"@;
        reveal_strlit("偏好下切带：分 ");
        reveal_strlit("偏好下切带");
        assert(h.take(5) =~= "偏好下切带"@);
        lemma_stands_behind(a, score.whole, " < 下切线 "@ + switch_th.whole + "（"@ + r + z, h);
        lemma_stands_behind(a + score.whole + " < 下切线 "@, switch_th.whole, "（"@ + r + z, h);
        lemma_stands_behind(a + score.whole + " < 下切线 "@ + switch_th.whole + "（"@, r, z, h);
    } else if score.rank->0 < detect_th.rank->0 {
        let a = "偏好观察带：下切线 "@;
        let z = " → 加勤扫描"@;
        reveal_strlit("偏好观察带：下切线 ");
        reveal_strlit("偏好观察带");
        assert(h.take(5) =~= "偏好观察带"@);
        lemma_stands_behind(
            a,
            switch_th.whole,
            " ≤ 分 "@ + score.whole + " < 观察线 "@ + detect_th.whole + z,
            h,
        );
        lemma_stands_behind(
            a + switch_th.whole + " ≤ 分 "@,
            score.whole,
            " < 观察线 "@ + detect_th.whole + z,
            h,
        );
        lemma_stands_behind(
            a + switch_th.whole + " ≤ 分 "@ + score.whole + " < 观察线 "@,
            detect_th.whole,
            z,
            h,
        );
    } else {
        let a = "偏好稳定带：分 "@;
        let z = " dBm）→ 守护中"@;
        reveal_strlit("偏好稳定带：分 ");
        reveal_strlit("偏好稳定带");
        assert(h.take(5) =~= "偏好稳定带"@);
        lemma_stands_behind(a, score.whole, " ≥ 观察线 "@ + detect_th.whole + "（"@ + r + z, h);
        lemma_stands_behind(a + score.whole + " ≥ 观察线 "@, detect_th.whole, "（"@ + r + z, h);
        lemma_stands_behind(a + score.whole + " ≥ 观察线 "@ + detect_th.whole + "（"@, r, z, h);
    }
}

proof fn lemma_stands_behind(a: Seq<char>, p: Seq<char>, b: Seq<char>, h: Seq<char>)
    requires
        h =~= a + p + b,
    ensures
        has_sub(h, p),
{
    law_standing_in(a, p, b);
}

/// Off the preferred band the hint says whether its strongest access point is strong enough to go
/// back to, and shows its signal and the line.
pub proof fn law_hint_off_the_preferred_band(
    score: ScoreModel,
    rssi: i32,
    switch_th: ScoreModel,
    detect_th: ScoreModel,
    up_rssi: i32,
    best: Option<i32>,
)
    ensures
        ({
            let h = threshold_hint(false, score, rssi, switch_th, detect_th, up_rssi, best);
            &&& best is Some && best->0 >= up_rssi ==> has_prefix(h, "后备频段·上切就绪"@)
            &&& best is Some && best->0 < up_rssi ==> has_prefix(h, "后备频段·等待"@)
            &&& best is None ==> has_prefix(h, "后备频段·寻找"@)
            &&& best is Some ==> has_sub(h, dec_int(best->0 as int))
            &&& has_sub(h, dec_int(up_rssi as int))
        }),
{
    let h = threshold_hint(false, score, rssi, switch_th, detect_th, up_rssi, best);
    let u = dec_int(up_rssi as int);
    match best {
        Some(b) => {
            let d = dec_int(b as int);
            if b >= up_rssi {
                let a = "后备频段·上切就绪：偏好侧最强 "@;
                let z = " → 防抖后回偏好"@;
                reveal_strlit("后备频段·上切就绪：偏好侧最强 ");
                reveal_strlit("后备频段·上切就绪");
                assert(h.take(9) =~= "后备频段·上切就绪"@);
                lemma_stands_behind(a, d, " dBm ≥ 上切线 "@ + u + z, h);
                lemma_stands_behind(a + d + " dBm ≥ 上切线 "@, u, z, h);
            } else {
                let a = "后备频段·等待：偏好侧最强 "@;
                reveal_strlit("后备频段·等待：偏好侧最强 ");
                reveal_strlit("后备频段·等待");
                assert(h.take(7) =~= "后备频段·等待"@);
                lemma_stands_behind(a, d, " dBm < 上切线 "@ + u, h);
                lemma_stands_behind(a + d + " dBm < 上切线 "@, u, seq![], h);
            }
        },
        None => {
            let a = "后备频段·寻找偏好 AP（需 ≥ "@;
            reveal_strlit("后备频段·寻找偏好 AP（需 ≥ ");
            reveal_strlit("后备频段·寻找");
            assert(h.take(7) =~= "后备频段·寻找"@);
            lemma_stands_behind(a, u, " dBm）"@, h);
        },
    }
}

/// The line shows the mode, the network or that there is none, the band, the score, and last of all
/// why nothing is switched, or the state where there is no reason.
pub proof fn law_line_shows_everything(
    mode: Seq<char>,
    ssid: Seq<char>,
    band: Seq<char>,
    score: ScoreModel,
    power: Seq<char>,
    reason: Seq<char>,
)
    ensures
        ({
            let l = status_line(mode, ssid, band, score, power, reason);
            &&& has_prefix(l, "AmberGuard · "@ + mode_name(mode) + " · "@)
            &&& has_sub(l, ssid)
            &&& ssid.len() == 0 ==> has_sub(l, " · 未连接 · "@)
            &&& has_sub(l, " · "@ + band_title(band) + " · 分"@ + score.whole + " · "@)
            &&& reason.len() > 0 ==> has_suffix(l, " · "@ + reason)
            &&& reason.len() == 0 ==> has_suffix(l, " · "@ + power_name(power))
        }),
{
    let l = status_line(mode, ssid, band, score, power, reason);
    let shown = if ssid.len() == 0 {
        "未连接"@
    } else {
        ssid
    };
    let st = if reason.len() > 0 {
        reason
    } else {
        power_name(power)
    };
    let a = "AmberGuard · "@ + mode_name(mode);
    let m = " · "@ + band_title(band) + " · 分"@ + score.whole + " · "@;
    assert(l =~= a + " · "@ + shown + m + st);
    assert(l.take((a + " · "@).len() as int) =~= a + " · "@);
    if ssid.len() == 0 {
        lemma_stands_behind(seq![], ssid, l, l);
        reveal_strlit(" · ");
        reveal_strlit("未连接");
        reveal_strlit(" · 未连接 · ");
        lemma_stands_behind(
            a,
            " · 未连接 · "@,
            band_title(band) + " · 分"@ + score.whole + " · "@ + st,
            l,
        );
    } else {
        lemma_stands_behind(a + " · "@, ssid, m + st, l);
    }
    lemma_stands_behind(a + " · "@ + shown, m, st, l);
    let tail = " · "@ + st;
    let front = a + " · "@ + shown + (" · "@ + band_title(band) + " · 分"@ + score.whole);
    assert(l =~= front + tail);
    assert(l.skip(l.len() - tail.len()) =~= tail);
}

/// What keeps the link from being switched is what the summary says, with the seconds that are left:
/// the pause of the user first, then a protection, the dark screen, the pause after a switch, the
/// lock on an access point, and being away from home.
pub proof fn law_summary_says_what_holds_it_off(
    band: Seq<char>,
    score: ScoreModel,
    mode: Seq<char>,
    f: SummaryFacts,
)
    ensures
        ({
            let s = status_summary(band, score, mode, f);
            &&& f.paused ==> s == "已暂停 · 仅观测"@
            &&& !f.paused && f.hold_rem > 0 ==> has_prefix(s, "保护中 · "@) && has_sub(
                s,
                dec(f.hold_rem as nat),
            )
            &&& !f.paused && f.hold_rem == 0 && f.screen_off ==> s == "息屏降频 · 不主动切"@
            &&& !f.paused && f.hold_rem == 0 && !f.screen_off && f.pen_rem > 0 ==> has_prefix(
                s,
                "切换冷却中 · "@,
            ) && has_sub(s, dec(f.pen_rem as nat))
            &&& !f.paused && f.hold_rem == 0 && !f.screen_off && f.pen_rem == 0 && f.lock_rem > 0
                ==> has_prefix(s, "短时锁 AP · "@) && has_sub(s, dec(f.lock_rem as nat))
            &&& !f.paused && f.hold_rem == 0 && !f.screen_off && f.pen_rem == 0 && f.lock_rem == 0
                && f.home_n > 0 && !f.in_home ==> s == "非家网 · 仅观测"@
        }),
{
    let h = dec(f.hold_rem as nat);
    let p = dec(f.pen_rem as nat);
    let k = dec(f.lock_rem as nat);
    law_standing_in("保护中 · "@, h, "s（可点结束保护）"@);
    law_standing_in("切换冷却中 · "@, p, "s"@);
    law_standing_in("短时锁 AP · "@, k, "s（防踢回）"@);
    assert(("保护中 · "@ + h + "s（可点结束保护）"@).take("保护中 · "@.len() as int)
        =~= "保护中 · "@);
    assert(("切换冷却中 · "@ + p + "s"@).take("切换冷却中 · "@.len() as int)
        =~= "切换冷却中 · "@);
    assert(("短时锁 AP · "@ + k + "s（防踢回）"@).take("短时锁 AP · "@.len() as int)
        =~= "短时锁 AP · "@);
}

/// Where nothing holds it off, the summary names the band, and says how good the link is on the
/// preferred one, by the score alone, and off it which band is waited for.
pub proof fn law_summary_of_a_free_link(
    band: Seq<char>,
    score: ScoreModel,
    mode: Seq<char>,
    f: SummaryFacts,
)
    requires
        !f.paused && f.hold_rem == 0 && !f.screen_off && f.pen_rem == 0 && f.lock_rem == 0,
        f.home_n == 0 || f.in_home,
        score.rank is At,
    ensures
        ({
            let s = status_summary(band, score, mode, f);
            &&& f.on_preferred && score.rank->0 >= 0x428c_0000 ==> has_prefix(
                s,
                band_title(band) + " 良好 · "@,
            )
            &&& f.on_preferred && 0x41f0_0000 <= score.rank->0 < 0x428c_0000 ==> s == band_title(band)
                + " 观察中 · 分 "@ + score.whole
            &&& f.on_preferred && score.rank->0 < 0x41f0_0000 ==> s == band_title(band)
                + " 偏弱 · 可能下切"@
            &&& !f.on_preferred ==> s == band_title(band) + " 后备 · 等"@ + (if f.prefer_5 {
                band_title("5"@)
            } else {
                band_title("2.4"@)
            }) + "回暖"@
        }),
        f.on_preferred && score.rank->0 >= 0x428c_0000 && mode != "pause"@ ==> status_summary(
            band,
            score,
            mode,
            f,
        ) == band_title(band) + " 良好 · "@ + mode_name(mode) + "守护中"@,
{
    law_words_for_the_band(band);
    let b = band_title(band) + " 良好 · "@;
    assert(status_summary(band, score, mode, f).take(b.len() as int) =~= b || !f.on_preferred
        || score.rank->0 < 0x428c_0000);
}

} // verus!
