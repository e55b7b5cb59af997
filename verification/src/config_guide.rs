//! What the panel tells about the settings: the fields with their limits, the presets, tips.

use crate::config::{
    config_fault, default_config, kept_homes, lowered_homes, normalize_home_aps, refused, Config,
    ConfigError, ConfigModel, ANDROID_CONFIG_PATH, DEV_CONFIG_PATH,
};
use crate::score::{score_of_whole, whole_score, Score, ScoreModel};
use crate::text::{ascii_lower, cat, str_eq};
use vstd::prelude::*;
use vstd::string::*;

verus! {

/// A number among the settings, explained.
#[derive(Clone, Copy, Debug)]
pub struct FieldMeta {
    pub key: &'static str,
    pub label: &'static str,
    pub unit: &'static str,
    pub default: i64,
    pub min: i64,
    pub max: i64,
    pub step: i64,
    /// What it is, in a sentence.
    pub meaning: &'static str,
    /// What a higher or lower value does, and what is usual.
    pub guide: &'static str,
}

/// What a `FieldMeta` holds.
#[verifier::ext_equal]
pub struct FieldMetaModel {
    pub key: Seq<char>,
    pub label: Seq<char>,
    pub unit: Seq<char>,
    pub default: int,
    pub min: int,
    pub max: int,
    pub step: int,
    pub meaning: Seq<char>,
    pub guide: Seq<char>,
}

impl View for FieldMeta {
    type V = FieldMetaModel;

    open spec fn view(&self) -> FieldMetaModel {
        FieldMetaModel {
            key: self.key@,
            label: self.label@,
            unit: self.unit@,
            default: self.default as int,
            min: self.min as int,
            max: self.max as int,
            step: self.step as int,
            meaning: self.meaning@,
            guide: self.guide@,
        }
    }
}

/// The contents of a list of explained fields.
pub open spec fn field_models(v: Seq<FieldMeta>) -> Seq<FieldMetaModel> {
    v.map_values(|f: FieldMeta| f@)
}

/// Three thresholds to be set together.
#[derive(Debug)]
pub struct PresetMeta {
    pub id: &'static str,
    pub label: &'static str,
    pub desc: &'static str,
    pub score_detect_threshold: Score,
    pub score_switch_threshold: Score,
    pub upswitch_rssi_min_dbm: i32,
}

/// What a `PresetMeta` holds.
#[verifier::ext_equal]
pub struct PresetMetaModel {
    pub id: Seq<char>,
    pub label: Seq<char>,
    pub desc: Seq<char>,
    pub score_detect_threshold: ScoreModel,
    pub score_switch_threshold: ScoreModel,
    pub upswitch_rssi_min_dbm: int,
}

impl View for PresetMeta {
    type V = PresetMetaModel;

    open spec fn view(&self) -> PresetMetaModel {
        PresetMetaModel {
            id: self.id@,
            label: self.label@,
            desc: self.desc@,
            score_detect_threshold: self.score_detect_threshold@,
            score_switch_threshold: self.score_switch_threshold@,
            upswitch_rssi_min_dbm: self.upswitch_rssi_min_dbm as int,
        }
    }
}

/// The contents of a list of presets.
pub open spec fn preset_models(v: Seq<PresetMeta>) -> Seq<PresetMetaModel> {
    v.map_values(|p: PresetMeta| p@)
}

/// The contents of a list of fixed texts.
pub open spec fn strs(v: Seq<&'static str>) -> Seq<Seq<char>> {
    v.map_values(|s: &'static str| s@)
}

/// The settings with what is told about them.
#[derive(Debug)]
pub struct ConfigApiResponse {
    pub config: Config,
    pub defaults: Config,
    pub fields: Vec<FieldMeta>,
    pub presets: Vec<PresetMeta>,
    pub tips: Vec<&'static str>,
    /// Whether the settings have been saved before; if not, a new user is to be guided.
    pub persisted: bool,
}

/// The explained fields: first the score at which the link leaves the preferred band, then the
/// signal at which it goes back, then the score at which it is watched, then the rest.
pub open spec fn field_table() -> Seq<FieldMetaModel> {
    seq![
        FieldMetaModel {
            key: "score_switch_threshold"@,
            label: "① 下切线（健康分）"@,
            unit: "健康分 0–100"@,
            default: 30,
            min: 10,
            max: 80,
            step: 1,
            meaning: "【离开偏好频段】当前健康分持续低于此值 → 防抖后切到后备频段。健康分≈半信号+半重传。与「优先 5G/2.4」联动。"@,
            guide: "调高=更早离开偏好；调低=更扛。必须小于观察线。默认 30。看状态页阈值对照。"@,
        },
        FieldMetaModel {
            key: "upswitch_rssi_min_dbm"@,
            label: "② 上切线（偏好侧最低 RSSI）"@,
            unit: "dBm"@,
            default: -65,
            min: -85,
            max: -40,
            step: 1,
            meaning: "【回到偏好频段】在后备频段时，偏好侧家网 AP 的 RSSI 须 ≥ 此值才允许上切。只看对端场强。"@,
            guide: "调高=偏好要更强才回去；调低=更积极回偏好。状态页「偏好侧最强」对照此线。默认 -65。"@,
        },
        FieldMetaModel {
            key: "score_detect_threshold"@,
            label: "③ 观察线（健康分）"@,
            unit: "健康分 0–100"@,
            default: 70,
            min: 40,
            max: 95,
            step: 1,
            meaning: "【不直接切网】在偏好上：下切线≤分<观察线→观察/加扫；分≥观察线→稳定。在后备上：分≥观察线时上切防抖加长（约25s），减少误拉回。"@,
            guide: "调高=更早观察、后备上更久才拉回偏好。默认 70。"@,
        },
        FieldMetaModel {
            key: "user_hold_secs"@,
            label: "手动切网保护"@,
            unit: "秒"@,
            default: 60,
            min: 0,
            max: 300,
            step: 5,
            meaning: "检测到你在系统里手动换了 WiFi/AP 后，自动暂停切换这么久，避免守护立刻抢回。"@,
            guide: "0=关闭保护；60 适合日常；想多调一会儿再自动可 120–180。"@,
        },
        FieldMetaModel {
            key: "rssi_disconnect_dbm"@,
            label: "弱信号断开 RSSI"@,
            unit: "dBm（负数）"@,
            default: -90,
            min: -95,
            max: -70,
            step: 1,
            meaning: "仅在开启「弱信号断开」时生效：持续低于此值后，先尝试家网/启发式换更好 AP 或下切 2.4，仍不行才断 WiFi。"@,
            guide: "默认 -90。更接近 0（如 -80）= 更容易进入救援/断开；更低更难断。默认建议功能保持关闭。"@,
        },
        FieldMetaModel {
            key: "weak_hold_secs"@,
            label: "弱信号持续秒数"@,
            unit: "秒"@,
            default: 15,
            min: 5,
            max: 60,
            step: 1,
            meaning: "连续低于断开 RSSI 多少秒后进入「先切换再断开」流程。"@,
            guide: "15 秒给自动下切留时间；调高更不易误断。手切外网/暂停时不生效。"@,
        },
    ]
}

/// The presets.
pub open spec fn preset_table() -> Seq<PresetMetaModel> {
    seq![
        PresetMetaModel {
            id: "daily"@,
            label: "均衡（推荐）"@,
            desc: "下切30 / 观察70 / 回偏好≥-65。与运行模式无关。"@,
            score_detect_threshold: whole_score(70),
            score_switch_threshold: whole_score(30),
            upswitch_rssi_min_dbm: -65,
        },
        PresetMetaModel {
            id: "stable"@,
            label: "更稳（少切）"@,
            desc: "下切更低、回偏好要求更强 → 少折腾。"@,
            score_detect_threshold: whole_score(60),
            score_switch_threshold: whole_score(22),
            upswitch_rssi_min_dbm: -58,
        },
        PresetMetaModel {
            id: "sensitive"@,
            label: "更敏（早切）"@,
            desc: "下切更高、回偏好更松 → 更早离开偏好、更爱回偏好。"@,
            score_detect_threshold: whole_score(78),
            score_switch_threshold: whole_score(42),
            upswitch_rssi_min_dbm: -70,
        },
    ]
}

/// The tips.
pub open spec fn tip_table() -> Seq<Seq<char>> {
    seq![
        "健康度：综合 RSSI 与重传率的 0–100 分，越高越好。不是单纯信号格。"@,
        "下切=离开偏好频段；上切=回到偏好（默认偏好 5G，可在设置改）。上切看对端 RSSI 门槛。"@,
        "异名双频须在系统分别连接并保存；模块用框架代连时需能读到已存密码（家用 WPA2/3）。"@,
        "改阈值后立即生效并写入 /data/adb/amberguard/config.toml；可用「恢复默认」一键还原。"@,
        "日用防抖约下切 4s / 上切 7s；省电(eco)更长，少切网少扫描。"@,
        "手切优先：系统里换网后自动暂停调度（默认60s）；模块只做自动调度，不与你抢。清保护后才会按偏好慢慢拉回。"@,
        "家网：在设置里扫描并勾选属于你的 AP（按 BSSID）。配置后只在家网内双频切换，避免公共 WiFi / 错 AP。"@,
        "切后会做一次 L3 探测；失败只标注（门户/超时），不撤销成功、不进冷却。可关 l3_probe_enable。"@,
        "同频追优：偏好频段上且分<观察线时，家网内另一 AP 比当前强≥12dB 并持续约6s → 只换同频（默认开，roam_enable）。"@,
    ]
}

/// The preset of that id.
pub open spec fn preset_of(id: Seq<char>) -> Option<PresetMetaModel> {
    if id == preset_table()[0].id {
        Some(preset_table()[0])
    } else if id == preset_table()[1].id {
        Some(preset_table()[1])
    } else if id == preset_table()[2].id {
        Some(preset_table()[2])
    } else {
        None
    }
}

/// The settings with the thresholds of a preset.
pub open spec fn with_preset(c: ConfigModel, p: PresetMetaModel) -> ConfigModel {
    ConfigModel {
        score_detect_threshold: p.score_detect_threshold,
        score_switch_threshold: p.score_switch_threshold,
        upswitch_rssi_min_dbm: p.upswitch_rssi_min_dbm as i32,
        ..c
    }
}

/// The settings of a file as they are taken over: a band other than 2.4 GHz counts as 5 GHz.
pub open spec fn adopted(file: ConfigModel) -> ConfigModel {
    ConfigModel {
        preferred_band: if file.preferred_band == "2.4"@ {
            "2.4"@
        } else {
            "5"@
        },
        ..file
    }
}

impl Config {
    /// The explained fields.
    pub fn field_meta() -> (r: Vec<FieldMeta>)
        ensures
            field_models(r@) == field_table(),
    {
        let v = vec![
            FieldMeta {
                key: "score_switch_threshold",
                label: "① 下切线（健康分）",
                unit: "健康分 0–100",
                default: 30,
                min: 10,
                max: 80,
                step: 1,
                meaning: "【离开偏好频段】当前健康分持续低于此值 → 防抖后切到后备频段。健康分≈半信号+半重传。与「优先 5G/2.4」联动。",
                guide: "调高=更早离开偏好；调低=更扛。必须小于观察线。默认 30。看状态页阈值对照。",
            },
            FieldMeta {
                key: "upswitch_rssi_min_dbm",
                label: "② 上切线（偏好侧最低 RSSI）",
                unit: "dBm",
                default: -65,
                min: -85,
                max: -40,
                step: 1,
                meaning: "【回到偏好频段】在后备频段时，偏好侧家网 AP 的 RSSI 须 ≥ 此值才允许上切。只看对端场强。",
                guide: "调高=偏好要更强才回去；调低=更积极回偏好。状态页「偏好侧最强」对照此线。默认 -65。",
            },
            FieldMeta {
                key: "score_detect_threshold",
                label: "③ 观察线（健康分）",
                unit: "健康分 0–100",
                default: 70,
                min: 40,
                max: 95,
                step: 1,
                meaning: "【不直接切网】在偏好上：下切线≤分<观察线→观察/加扫；分≥观察线→稳定。在后备上：分≥观察线时上切防抖加长（约25s），减少误拉回。",
                guide: "调高=更早观察、后备上更久才拉回偏好。默认 70。",
            },
            FieldMeta {
                key: "user_hold_secs",
                label: "手动切网保护",
                unit: "秒",
                default: 60,
                min: 0,
                max: 300,
                step: 5,
                meaning: "检测到你在系统里手动换了 WiFi/AP 后，自动暂停切换这么久，避免守护立刻抢回。",
                guide: "0=关闭保护；60 适合日常；想多调一会儿再自动可 120–180。",
            },
            FieldMeta {
                key: "rssi_disconnect_dbm",
                label: "弱信号断开 RSSI",
                unit: "dBm（负数）",
                default: -90,
                min: -95,
                max: -70,
                step: 1,
                meaning: "仅在开启「弱信号断开」时生效：持续低于此值后，先尝试家网/启发式换更好 AP 或下切 2.4，仍不行才断 WiFi。",
                guide: "默认 -90。更接近 0（如 -80）= 更容易进入救援/断开；更低更难断。默认建议功能保持关闭。",
            },
            FieldMeta {
                key: "weak_hold_secs",
                label: "弱信号持续秒数",
                unit: "秒",
                default: 15,
                min: 5,
                max: 60,
                step: 1,
                meaning: "连续低于断开 RSSI 多少秒后进入「先切换再断开」流程。",
                guide: "15 秒给自动下切留时间；调高更不易误断。手切外网/暂停时不生效。",
            },
        ];
        assert(field_models(v@) == field_table());
        v
    }

    /// The presets. They set nothing but three thresholds, whatever the mode is.
    pub fn presets() -> (r: Vec<PresetMeta>)
        ensures
            preset_models(r@) == preset_table(),
    {
        let v = vec![
            PresetMeta {
                id: "daily",
                label: "均衡（推荐）",
                desc: "下切30 / 观察70 / 回偏好≥-65。与运行模式无关。",
                score_detect_threshold: score_of_whole(70),
                score_switch_threshold: score_of_whole(30),
                upswitch_rssi_min_dbm: -65,
            },
            PresetMeta {
                id: "stable",
                label: "更稳（少切）",
                desc: "下切更低、回偏好要求更强 → 少折腾。",
                score_detect_threshold: score_of_whole(60),
                score_switch_threshold: score_of_whole(22),
                upswitch_rssi_min_dbm: -58,
            },
            PresetMeta {
                id: "sensitive",
                label: "更敏（早切）",
                desc: "下切更高、回偏好更松 → 更早离开偏好、更爱回偏好。",
                score_detect_threshold: score_of_whole(78),
                score_switch_threshold: score_of_whole(42),
                upswitch_rssi_min_dbm: -70,
            },
        ];
        assert(preset_models(v@) == preset_table());
        v
    }

    /// The tips.
    pub fn tips() -> (r: Vec<&'static str>)
        ensures
            strs(r@) == tip_table(),
    {
        let v = vec![
            "健康度：综合 RSSI 与重传率的 0–100 分，越高越好。不是单纯信号格。",
            "下切=离开偏好频段；上切=回到偏好（默认偏好 5G，可在设置改）。上切看对端 RSSI 门槛。",
            "异名双频须在系统分别连接并保存；模块用框架代连时需能读到已存密码（家用 WPA2/3）。",
            "改阈值后立即生效并写入 /data/adb/amberguard/config.toml；可用「恢复默认」一键还原。",
            "日用防抖约下切 4s / 上切 7s；省电(eco)更长，少切网少扫描。",
            "手切优先：系统里换网后自动暂停调度（默认60s）；模块只做自动调度，不与你抢。清保护后才会按偏好慢慢拉回。",
            "家网：在设置里扫描并勾选属于你的 AP（按 BSSID）。配置后只在家网内双频切换，避免公共 WiFi / 错 AP。",
            "切后会做一次 L3 探测；失败只标注（门户/超时），不撤销成功、不进冷却。可关 l3_probe_enable。",
            "同频追优：偏好频段上且分<观察线时，家网内另一 AP 比当前强≥12dB 并持续约6s → 只换同频（默认开，roam_enable）。",
        ];
        assert(strs(v@) == tip_table());
        v
    }

    /// Sets the thresholds of a preset. An unknown one changes nothing. Where the settings do
    /// not hold together afterwards, the thresholds stay set and the fault is reported.
    pub fn apply_preset(&mut self, id: &str) -> (r: Result<(), ConfigError>)
        ensures
            match preset_of(id@) {
                Some(p) => {
                    &&& final(self)@ == with_preset(old(self)@, p)
                    &&& match config_fault(with_preset(old(self)@, p)) {
                        Some(e) => refused(r, e),
                        None => r is Ok,
                    }
                },
                None => refused(r, "未知预设: "@ + id@) && final(self)@ == old(self)@,
            },
    {
        let list = Config::presets();
        let ghost t = preset_table();
        assert(preset_models(list@).len() == 3);
        assert(list@[0]@ == preset_models(list@)[0]);
        assert(list@[1]@ == preset_models(list@)[1]);
        assert(list@[2]@ == preset_models(list@)[2]);
        let k: usize = if str_eq(id, list[0].id) {
            0
        } else if str_eq(id, list[1].id) {
            1
        } else if str_eq(id, list[2].id) {
            2
        } else {
            return Err(ConfigError::Validate(cat("未知预设: ".to_owned(), id)));
        };
        let ghost before = self@;
        self.score_detect_threshold = list[k].score_detect_threshold.clone();
        self.score_switch_threshold = list[k].score_switch_threshold.clone();
        self.upswitch_rssi_min_dbm = list[k].upswitch_rssi_min_dbm;
        assert(self@ == with_preset(before, t[k as int]));
        self.validate()
    }

    /// The settings with what is told about them.
    pub fn api_response(cfg: &Config, persisted: bool) -> (r: ConfigApiResponse)
        ensures
            r.config@ == cfg@,
            r.defaults@ == default_config(),
            field_models(r.fields@) == field_table(),
            preset_models(r.presets@) == preset_table(),
            strs(r.tips@) == tip_table(),
            r.persisted == persisted,
    {
        ConfigApiResponse {
            config: cfg.clone(),
            defaults: Config::default(),
            fields: Config::field_meta(),
            presets: Config::presets(),
            tips: Config::tips(),
            persisted,
        }
    }

    /// Where the settings are kept, given whether the directory for them on a phone exists and
    /// whether they are there.
    pub fn resolve_path(android_dir: bool, android_file: bool) -> (r: &'static str)
        ensures
            r@ == (if android_dir || android_file {
                ANDROID_CONFIG_PATH@
            } else {
                DEV_CONFIG_PATH@
            }),
    {
        if android_dir || android_file {
            ANDROID_CONFIG_PATH
        } else {
            DEV_CONFIG_PATH
        }
    }

    /// Takes over the settings of a file whose home group is in order.
    pub fn adopt(&mut self, file: Config)
        ensures
            final(self)@ == adopted(file@),
    {
        let band = if str_eq(file.preferred_band.as_str(), "2.4") {
            "2.4".to_owned()
        } else {
            "5".to_owned()
        };
        *self = Config { preferred_band: band, ..file };
    }

    /// The settings to start with: those of the file, or the defaults where there is none. Settings
    /// that do not fit together are run with all the same.
    pub fn load(file: Option<Config>) -> (r: Config)
        ensures
            r@ == (match file {
                Some(f) => f@,
                None => default_config(),
            }),
    {
        match file {
            Some(f) => f,
            None => Config::default(),
        }
    }

    /// Takes over the settings of a file, where there is one; its home group is put in order.
    pub fn reload(&mut self, file: Option<Config>)
        ensures
            match file {
                Some(f) => final(self)@ == adopted(
                    ConfigModel { home_aps: kept_homes(lowered_homes(f@.home_aps)), ..f@ },
                ),
                None => final(self)@ == old(self)@,
            },
    {
        if let Some(f) = file {
            let mut f = f;
            let ghost before = f@;
            f.home_aps = normalize_home_aps(f.home_aps);
            assert(f@ == ConfigModel { home_aps: kept_homes(lowered_homes(before.home_aps)), ..before });
            self.adopt(f);
        }
    }
}

/// A preset on settings that hold together gives settings that hold together.
pub proof fn law_presets_are_valid(c: ConfigModel, id: Seq<char>)
    requires
        config_fault(c) is None,
        preset_of(id) is Some,
    ensures
        config_fault(with_preset(c, preset_of(id)->0)) is None,
{
}

/// Every explained field has its default between its limits.
pub proof fn law_field_defaults_are_in_range(i: int)
    requires
        0 <= i < field_table().len(),
    ensures
        field_table()[i].min <= field_table()[i].default <= field_table()[i].max,
{
}

/// The settings to start from hold together, and are those of the first preset.
pub proof fn law_defaults_are_valid()
    ensures
        config_fault(default_config()) is None,
        with_preset(default_config(), preset_table()[0]) == default_config(),
{
    assert(with_preset(default_config(), preset_table()[0]) =~= default_config());
    reveal_strlit("off");
    assert(ascii_lower("off"@) =~= "off"@);
}

/// Each preset is found under its id and nothing under any other; the steadier one leaves later and
/// goes back only to a stronger signal than the balanced one, the keener one the other way round.
pub proof fn law_presets_by_id(id: Seq<char>)
    ensures
        preset_of(id) is Some <==> id == "daily"@ || id == "stable"@ || id == "sensitive"@,
        preset_of(id) matches Some(p) ==> p.id == id,
        ({
            let d = preset_of("daily"@)->0;
            let t = preset_of("stable"@)->0;
            let e = preset_of("sensitive"@)->0;
            &&& d.score_switch_threshold == whole_score(30)
            &&& d.score_detect_threshold == whole_score(70)
            &&& d.upswitch_rssi_min_dbm == -65
            &&& t.score_switch_threshold.rank.lt(d.score_switch_threshold.rank)
            &&& d.score_switch_threshold.rank.lt(e.score_switch_threshold.rank)
            &&& t.score_detect_threshold.rank.lt(d.score_detect_threshold.rank)
            &&& d.score_detect_threshold.rank.lt(e.score_detect_threshold.rank)
            &&& e.upswitch_rssi_min_dbm < d.upswitch_rssi_min_dbm < t.upswitch_rssi_min_dbm
            &&& t.score_switch_threshold == whole_score(22)
            &&& t.score_detect_threshold == whole_score(60)
            &&& t.upswitch_rssi_min_dbm == -58
            &&& e.score_switch_threshold == whole_score(42)
            &&& e.score_detect_threshold == whole_score(78)
            &&& e.upswitch_rssi_min_dbm == -70
        }),
{
    reveal_strlit("daily");
    reveal_strlit("stable");
    reveal_strlit("sensitive");
    assert("daily"@.len() == 5 && "stable"@.len() == 6 && "sensitive"@.len() == 9);
}

/// A preset changes the three thresholds to its own and nothing else, and of two presets one after
/// the other only the last counts.
pub proof fn law_preset_changes_three_thresholds(
    c: ConfigModel,
    p: PresetMetaModel,
    q: PresetMetaModel,
)
    requires
        preset_table().contains(p),
    ensures
        with_preset(c, p).score_detect_threshold == p.score_detect_threshold,
        with_preset(c, p).score_switch_threshold == p.score_switch_threshold,
        with_preset(c, p).upswitch_rssi_min_dbm == p.upswitch_rssi_min_dbm,
        (ConfigModel {
            score_detect_threshold: c.score_detect_threshold,
            score_switch_threshold: c.score_switch_threshold,
            upswitch_rssi_min_dbm: c.upswitch_rssi_min_dbm,
            ..with_preset(c, p)
        }) == c,
        with_preset(with_preset(c, q), p) == with_preset(c, p),
{
}

/// Settings are taken over as they are but for the band: 2.4 GHz only where it is written so, and
/// 5 GHz in any other case.
pub proof fn law_settings_are_taken_over(file: ConfigModel)
    ensures
        (ConfigModel { preferred_band: file.preferred_band, ..adopted(file) }) == file,
        adopted(file).preferred_band == "2.4"@ <==> file.preferred_band == "2.4"@,
        adopted(file).preferred_band == "5"@ <==> file.preferred_band != "2.4"@,
        adopted(adopted(file)) == adopted(file),
{
    reveal_strlit("5");
    reveal_strlit("2.4");
    assert("5"@.len() == 1 && "2.4"@.len() == 3);
}

/// What the panel explains as a field's default is what the settings start with, for each field that
/// it explains.
pub proof fn law_explained_defaults_are_the_defaults(i: int)
    requires
        0 <= i < field_table().len(),
    ensures
        field_table()[i].key == "score_switch_threshold"@ ==> whole_score(
            field_table()[i].default as int,
        ) == default_config().score_switch_threshold,
        field_table()[i].key == "score_detect_threshold"@ ==> whole_score(
            field_table()[i].default as int,
        ) == default_config().score_detect_threshold,
        field_table()[i].key == "upswitch_rssi_min_dbm"@ ==> field_table()[i].default
            == default_config().upswitch_rssi_min_dbm,
        field_table()[i].key == "user_hold_secs"@ ==> field_table()[i].default
            == default_config().user_hold_secs,
        field_table()[i].key == "rssi_disconnect_dbm"@ ==> field_table()[i].default
            == default_config().rssi_disconnect_dbm,
        field_table()[i].key == "weak_hold_secs"@ ==> field_table()[i].default
            == default_config().weak_hold_secs,
{
    reveal_strlit("score_switch_threshold");
    reveal_strlit("score_detect_threshold");
    reveal_strlit("upswitch_rssi_min_dbm");
    reveal_strlit("user_hold_secs");
    reveal_strlit("rssi_disconnect_dbm");
    reveal_strlit("weak_hold_secs");
    assert("score_switch_threshold"@.len() == 22 && "score_detect_threshold"@.len() == 22
        && "upswitch_rssi_min_dbm"@.len() == 21 && "user_hold_secs"@.len() == 14
        && "rssi_disconnect_dbm"@.len() == 19 && "weak_hold_secs"@.len() == 14);
    assert("score_switch_threshold"@[6] == 's' && "score_detect_threshold"@[6] == 'd');
    assert("user_hold_secs"@[0] == 'u' && "weak_hold_secs"@[0] == 'w');
    assert(field_table().len() == 6);
}

/// Settings that are not set have the values that the guide gives for them.
pub proof fn law_what_is_set_at_first()
    ensures
        ({
            let c = default_config();
            &&& c.preferred_band == "5"@ && c.mode == "daily"@ && c.weak_action == "off"@
            &&& c.home_aps.len() == 0 && c.wpa_ctrl_path is None && !c.allow_weak_off_home
            &&& c.auto_reconnect && c.l3_probe_enable && c.roam_enable && c.bssid_memory_enable
            &&& c.notify_enable && c.notify_switch && !c.notify_weak && c.notify_ongoing_secs == 0
            &&& c.bssid_lock_secs == 45 && c.roam_margin_db == 12 && c.roam_hold_secs == 6
            &&& c.soft_auto_enable && c.soft_auto_on_kb == 400 && c.soft_auto_off_kb == 80
            &&& c.soft_auto_trigger_secs == 12 && c.soft_auto_release_secs == 45
            &&& c.soft_auto_max_mins == 240 && c.bssid_demote_secs == 1800
            &&& c.interface == "wlan0"@ && c.listen == "127.0.0.1:8080"@ && c.log_level == "info"@
        }),
{
}

} // verus!
