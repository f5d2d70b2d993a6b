//! The settings file, the interface themes and the push-to-talk hotkey.

use vstd::prelude::*;
use vstd::string::*;

use crate::single::Single;
use crate::text::{
    below, is_white, join, joined_with, joining_two_lists, opt_view, path_below, pieces_of,
    same_text, split, split_is_nonempty, split_with_one_separator, split_without_separator,
    splitting_two_texts, trim, trimmed, views,
};

verus! {

// ── Settings file ────────────────────────────────────────────────────────────

/// Values loaded from `config.toml`. Every field is optional: only the fields that are set
/// override the built-in defaults.
#[derive(Clone, Debug)]
pub struct ConfigFile {
    /// The file this value was loaded from. Runtime metadata, never written to the file.
    pub source_path: Option<String>,
    /// True once the file was read back from disk, so this is not a fresh install.
    pub loaded_from_disk: bool,
    /// Set by the first-run wizard. Until it is true the wizard takes over the window.
    pub setup_done: Option<bool>,
    /// The wish to have the overlay at the text caret; it stands mid-screen either way.
    pub overlay_follow_caret: Option<bool>,
    /// Show the transcript building up on the overlay while the hotkey is still held.
    pub overlay_live_preview: Option<bool>,
    /// Key of the interface theme.
    pub ui_theme: Option<String>,
    /// Font families of the interface, the most preferred first.
    pub ui_font_families: Option<Vec<String>>,
    /// Name of the microphone; the system default where it is not set.
    pub input_device: Option<String>,
    /// Recogniser: `sense-voice` (the default) or `funasr-nano`.
    pub asr_backend: Option<String>,
    pub model: Option<String>,
    pub tokens: Option<String>,
    pub funasr_encoder_adaptor: Option<String>,
    pub funasr_llm: Option<String>,
    pub funasr_embedding: Option<String>,
    pub funasr_tokenizer: Option<String>,
    /// Inverse text normalisation of FunASR-nano, on by default.
    pub funasr_itn: Option<bool>,
    pub speaker_segmentation_model: Option<String>,
    pub speaker_embedding_model: Option<String>,
    pub speaker_num_clusters: Option<i32>,
    pub speaker_threshold: Option<Single>,
    pub speaker_min_duration_on: Option<Single>,
    pub speaker_min_duration_off: Option<Single>,
    pub lm_url: Option<String>,
    pub lang: Option<String>,
    pub lm_model: Option<String>,
    pub no_llm: Option<bool>,
    /// Start LM Studio, its server and the model along with the application.
    pub lmstudio_auto_start: Option<bool>,
    /// Local model key of LM Studio; follows `lm_model` where it is not set.
    pub lmstudio_model: Option<String>,
    /// Context length for loading the model; LM Studio's own default where it is not set.
    pub lmstudio_context_length: Option<u32>,
    pub energy_threshold: Option<Single>,
    pub vad_silence_ms: Option<u64>,
    /// Push-to-talk key or combination, joined with `+`.
    pub ptt_key: Option<String>,
    /// Pronunciation lexicon of the homophone replacer.
    pub hr_lexicon: Option<String>,
    /// Rule file of the homophone replacer.
    pub hr_rule_fsts: Option<String>,
}

impl ConfigFile {
    /// Whether no setting is made.
    pub open spec fn unset(self) -> bool {
        &&& self.setup_done is None
        &&& self.overlay_follow_caret is None
        &&& self.overlay_live_preview is None
        &&& self.ui_theme is None
        &&& self.ui_font_families is None
        &&& self.input_device is None
        &&& self.asr_backend is None
        &&& self.model is None
        &&& self.tokens is None
        &&& self.funasr_encoder_adaptor is None
        &&& self.funasr_llm is None
        &&& self.funasr_embedding is None
        &&& self.funasr_tokenizer is None
        &&& self.funasr_itn is None
        &&& self.speaker_segmentation_model is None
        &&& self.speaker_embedding_model is None
        &&& self.speaker_num_clusters is None
        &&& self.speaker_threshold is None
        &&& self.speaker_min_duration_on is None
        &&& self.speaker_min_duration_off is None
        &&& self.lm_url is None
        &&& self.lang is None
        &&& self.lm_model is None
        &&& self.no_llm is None
        &&& self.lmstudio_auto_start is None
        &&& self.lmstudio_model is None
        &&& self.lmstudio_context_length is None
        &&& self.energy_threshold is None
        &&& self.vad_silence_ms is None
        &&& self.ptt_key is None
        &&& self.hr_lexicon is None
        &&& self.hr_rule_fsts is None
    }

    /// The first file that could be loaded, in the order in which they were tried.
    pub open spec fn first_loaded(attempts: Seq<Option<ConfigFile>>) -> Option<ConfigFile>
        decreases attempts.len(),
    {
        if attempts.len() == 0 {
            None
        } else if attempts[0] is Some {
            attempts[0]
        } else {
            Self::first_loaded(attempts.drop_first())
        }
    }

    /// Whether the first-run wizard is behind this configuration.
    pub open spec fn configured(self) -> bool {
        ||| self.setup_done == Some(true)
        ||| self.loaded_from_disk && (self.ptt_key is Some || self.model is Some || self.asr_backend is Some)
    }

    /// Picks the settings to start with: the first of the files tried that could be loaded, or
    /// the defaults, to be saved at the platform's own place.
    pub fn load(attempts: Vec<Option<ConfigFile>>, platform_path: String) -> (r: ConfigFile)
        ensures
            match Self::first_loaded(attempts@) {
                Some(file) => r == file,
                None => r.unset() && !r.loaded_from_disk && r.source_path == Some(platform_path),
            },
    {
        let ghost all = attempts@;
        let mut rest = attempts;
        proof {
            assert(all.skip(0) == all);
        }
        let ghost mut tried: int = 0;
        while rest.len() > 0
            invariant
                all == attempts@,
                0 <= tried <= all.len(),
                rest@ == all.skip(tried),
                Self::first_loaded(all) == Self::first_loaded(rest@),
            decreases rest@.len(),
        {
            proof {
                assert(Self::first_loaded(rest@) == if rest@[0] is Some {
                    rest@[0]
                } else {
                    Self::first_loaded(rest@.drop_first())
                });
                assert(rest@.remove(0) == all.skip(tried + 1));
                assert(rest@.drop_first() == all.skip(tried + 1));
                tried = tried + 1;
            }
            if let Some(file) = rest.remove(0) {
                return file;
            }
        }
        let mut file = ConfigFile::default();
        file.source_path = Some(platform_path);
        file
    }

    /// Marks settings as read from the file at `path`.
    pub fn read_from(self, path: String) -> (r: ConfigFile)
        ensures
            r == (ConfigFile { source_path: Some(path), loaded_from_disk: true, ..self }),
    {
        let mut file = self;
        file.source_path = Some(path);
        file.loaded_from_disk = true;
        file
    }

    /// A configuration that has been through the first-run wizard. Files written before the
    /// wizard existed count too, so an upgrade is not sent back to step one.
    pub fn is_configured(&self) -> (r: bool)
        ensures
            r == self.configured(),
    {
        self.setup_done.unwrap_or(false) || (self.loaded_from_disk && (self.ptt_key.is_some()
            || self.model.is_some() || self.asr_backend.is_some()))
    }

    /// The path the settings are saved at; `platform_path` where they came from no file.
    pub fn display_path(&self, platform_path: &str) -> (r: String)
        ensures
            r@ == match self.source_path {
                Some(path) => path@,
                None => platform_path@,
            },
    {
        match &self.source_path {
            Some(path) => path.clone(),
            None => platform_path.to_owned(),
        }
    }

    /// Leaves the first-run wizard: marks the setup as done and settles the hotkey.
    pub fn finish_setup(&mut self)
        ensures
            final(self).configured(),
            final(self).setup_done == Some(true),
            match old(self).ptt_key {
                Some(_) => *final(self) == (ConfigFile { setup_done: Some(true), ..*old(self) }),
                None => {
                    &&& opt_view(final(self).ptt_key) == Some("CapsLock"@)
                    &&& *final(self) == (ConfigFile {
                        setup_done: Some(true),
                        ptt_key: final(self).ptt_key,
                        ..*old(self)
                    })
                },
            },
    {
        self.setup_done = Some(true);
        if self.ptt_key.is_none() {
            self.ptt_key = Some("CapsLock".to_owned());
        }
    }

    /// The selected theme; the dark default where the key is missing or unknown.
    pub fn ui_theme(&self) -> (r: UiTheme)
        ensures
            r == match self.ui_theme {
                Some(key) => UiTheme::of_key(key@),
                None => UiTheme::DeepSeaAurora,
            },
    {
        match &self.ui_theme {
            Some(key) => UiTheme::from_key(key.as_str()),
            None => UiTheme::DeepSeaAurora,
        }
    }
}

impl Default for ConfigFile {
    fn default() -> (r: ConfigFile)
        ensures
            r.unset(),
            r.source_path is None,
            !r.loaded_from_disk,
    {
        ConfigFile {
            source_path: None,
            loaded_from_disk: false,
            setup_done: None,
            overlay_follow_caret: None,
            overlay_live_preview: None,
            ui_theme: None,
            ui_font_families: None,
            input_device: None,
            asr_backend: None,
            model: None,
            tokens: None,
            funasr_encoder_adaptor: None,
            funasr_llm: None,
            funasr_embedding: None,
            funasr_tokenizer: None,
            funasr_itn: None,
            speaker_segmentation_model: None,
            speaker_embedding_model: None,
            speaker_num_clusters: None,
            speaker_threshold: None,
            speaker_min_duration_on: None,
            speaker_min_duration_off: None,
            lm_url: None,
            lang: None,
            lm_model: None,
            no_llm: None,
            lmstudio_auto_start: None,
            lmstudio_model: None,
            lmstudio_context_length: None,
            energy_threshold: None,
            vad_silence_ms: None,
            ptt_key: None,
            hr_lexicon: None,
            hr_rule_fsts: None,
        }
    }
}

// ── Places ───────────────────────────────────────────────────────────────────

/// The directory users keep their settings in: where the system names one, that, else the one in
/// their home.
pub open spec fn user_directory(
    appdata: Option<String>,
    home: Option<String>,
    separator: char,
) -> Option<Seq<char>> {
    match (appdata, home) {
        (Some(d), _) => Some(d@),
        (None, Some(h)) => Some(below(h@, ".config"@, separator)),
        (None, None) => None,
    }
}

/// Where settings are looked for, in this order: the working directory, the user's directory where
/// there is one, and the platform's own place.
pub open spec fn places(
    appdata: Option<String>,
    home: Option<String>,
    platform: Seq<char>,
    separator: char,
) -> Seq<Seq<char>> {
    match user_directory(appdata, home, separator) {
        Some(d) => seq![
            "config.toml"@,
            below(below(d, "auto-voice"@, separator), "config.toml"@, separator),
            platform,
        ],
        None => seq!["config.toml"@, platform],
    }
}

/// Where settings are looked for. `separator` stands between the parts of a path.
pub fn config_places(
    appdata: Option<String>,
    home: Option<String>,
    platform: String,
    separator: char,
) -> (r: Vec<String>)
    ensures
        views(r@) == places(appdata, home, platform@, separator),
{
    let mut list: Vec<String> = Vec::new();
    list.push("config.toml".to_owned());
    let ghost expected = places(appdata, home, platform@, separator);
    let user = match appdata {
        Some(d) => Some(d),
        None => match home {
            Some(h) => Some(path_below(h, ".config", separator)),
            None => None,
        },
    };
    if let Some(d) = user {
        let own = path_below(d, "auto-voice", separator);
        list.push(path_below(own, "config.toml", separator));
    }
    list.push(platform);
    proof {
        assert(views(list@) =~= expected);
    }
    list
}

// ── Themes ───────────────────────────────────────────────────────────────────

/// The interface themes, shared by the settings window and the overlay.
#[derive(Clone, Copy, Debug, PartialEq, Eq, Structural)]
pub enum UiTheme {
    DeepSeaAurora,
    MorningPorcelain,
    GraphiteFocus,
}

impl UiTheme {
    /// All themes, in the order in which they are offered.
    pub fn all() -> (r: Vec<UiTheme>)
        ensures
            r@ == seq![UiTheme::DeepSeaAurora, UiTheme::MorningPorcelain, UiTheme::GraphiteFocus],
    {
        let r: Vec<UiTheme> = vec![
            UiTheme::DeepSeaAurora,
            UiTheme::MorningPorcelain,
            UiTheme::GraphiteFocus,
        ];
        proof {
            assert(r@ =~= seq![
                UiTheme::DeepSeaAurora,
                UiTheme::MorningPorcelain,
                UiTheme::GraphiteFocus,
            ]);
        }
        r
    }

    /// The theme that a key in the settings file names.
    pub open spec fn of_key(key: Seq<char>) -> UiTheme {
        if key == "morning-porcelain"@ {
            UiTheme::MorningPorcelain
        } else if key == "graphite-focus"@ {
            UiTheme::GraphiteFocus
        } else {
            UiTheme::DeepSeaAurora
        }
    }

    /// The theme that a key in the settings file names.
    pub fn from_key(key: &str) -> (r: UiTheme)
        ensures
            r == Self::of_key(key@),
    {
        if same_text(key, "morning-porcelain") {
            UiTheme::MorningPorcelain
        } else if same_text(key, "graphite-focus") {
            UiTheme::GraphiteFocus
        } else {
            UiTheme::DeepSeaAurora
        }
    }

    /// The key that names the theme in the settings file.
    pub fn key(self) -> (r: &'static str)
        ensures
            r@ == match self {
                UiTheme::DeepSeaAurora => "deep-sea-aurora"@,
                UiTheme::MorningPorcelain => "morning-porcelain"@,
                UiTheme::GraphiteFocus => "graphite-focus"@,
            },
            Self::of_key(r@) == self,
    {
        proof {
            reveal_strlit("deep-sea-aurora");
            reveal_strlit("morning-porcelain");
            reveal_strlit("graphite-focus");
            assert("deep-sea-aurora"@.len() == 15);
            assert("morning-porcelain"@.len() == 17);
            assert("graphite-focus"@.len() == 14);
        }
        match self {
            UiTheme::DeepSeaAurora => "deep-sea-aurora",
            UiTheme::MorningPorcelain => "morning-porcelain",
            UiTheme::GraphiteFocus => "graphite-focus",
        }
    }

    /// The name shown to the user.
    pub fn label(self) -> (r: &'static str)
        ensures
            r@ == match self {
                UiTheme::DeepSeaAurora => "深海极光"@,
                UiTheme::MorningPorcelain => "晨雾白瓷"@,
                UiTheme::GraphiteFocus => "石墨专注"@,
            },
    {
        match self {
            UiTheme::DeepSeaAurora => "深海极光",
            UiTheme::MorningPorcelain => "晨雾白瓷",
            UiTheme::GraphiteFocus => "石墨专注",
        }
    }

    /// One line about the theme.
    pub fn description(self) -> (r: &'static str)
        ensures
            r@ == match self {
                UiTheme::DeepSeaAurora => "深色默认 · 沉浸、专注、高对比"@,
                UiTheme::MorningPorcelain => "浅色模式 · 明亮、通透、日间友好"@,
                UiTheme::GraphiteFocus => "中性灰 · 低调、专业、减少干扰"@,
            },
    {
        match self {
            UiTheme::DeepSeaAurora => "深色默认 · 沉浸、专注、高对比",
            UiTheme::MorningPorcelain => "浅色模式 · 明亮、通透、日间友好",
            UiTheme::GraphiteFocus => "中性灰 · 低调、专业、减少干扰",
        }
    }
}

// ── Hotkey ───────────────────────────────────────────────────────────────────

/// A key of the keyboard.
#[derive(Clone, Copy, Debug, PartialEq, Eq, Structural)]
pub enum PttKey {
    CapsLock,
    LeftCtrl,
    RightCtrl,
    LeftAlt,
    RightAlt,
    LeftShift,
    RightShift,
    LeftWin,
    RightWin,
    ScrollLock,
    Insert,
    Pause,
    /// Any key that cannot be a hotkey, by its platform code.
    Other(u32),
}

/// The key that a hotkey token names.
pub open spec fn key_named(token: Seq<char>) -> Option<PttKey> {
    if token == "CapsLock"@ {
        Some(PttKey::CapsLock)
    } else if token == "LeftCtrl"@ {
        Some(PttKey::LeftCtrl)
    } else if token == "RightCtrl"@ {
        Some(PttKey::RightCtrl)
    } else if token == "LeftAlt"@ {
        Some(PttKey::LeftAlt)
    } else if token == "RightAlt"@ {
        Some(PttKey::RightAlt)
    } else if token == "LeftShift"@ {
        Some(PttKey::LeftShift)
    } else if token == "RightShift"@ {
        Some(PttKey::RightShift)
    } else if token == "LeftWin"@ {
        Some(PttKey::LeftWin)
    } else if token == "RightWin"@ {
        Some(PttKey::RightWin)
    } else if token == "ScrollLock"@ {
        Some(PttKey::ScrollLock)
    } else if token == "Insert"@ {
        Some(PttKey::Insert)
    } else if token == "Pause"@ {
        Some(PttKey::Pause)
    } else {
        None
    }
}

/// The key that a hotkey token names.
pub fn str_to_key(token: &str) -> (r: Option<PttKey>)
    ensures
        r == key_named(token@),
{
    if same_text(token, "CapsLock") {
        Some(PttKey::CapsLock)
    } else if same_text(token, "LeftCtrl") {
        Some(PttKey::LeftCtrl)
    } else if same_text(token, "RightCtrl") {
        Some(PttKey::RightCtrl)
    } else if same_text(token, "LeftAlt") {
        Some(PttKey::LeftAlt)
    } else if same_text(token, "RightAlt") {
        Some(PttKey::RightAlt)
    } else if same_text(token, "LeftShift") {
        Some(PttKey::LeftShift)
    } else if same_text(token, "RightShift") {
        Some(PttKey::RightShift)
    } else if same_text(token, "LeftWin") {
        Some(PttKey::LeftWin)
    } else if same_text(token, "RightWin") {
        Some(PttKey::RightWin)
    } else if same_text(token, "ScrollLock") {
        Some(PttKey::ScrollLock)
    } else if same_text(token, "Insert") {
        Some(PttKey::Insert)
    } else if same_text(token, "Pause") {
        Some(PttKey::Pause)
    } else {
        None
    }
}

/// Whether every token of a hotkey names a key.
pub open spec fn all_named(tokens: Seq<Seq<char>>) -> bool {
    forall|i: int| 0 <= i < tokens.len() ==> key_named(trim(#[trigger] tokens[i])) is Some
}

/// The keys that the tokens of a hotkey name, or none if one of them is unknown.
pub open spec fn keys_named(tokens: Seq<Seq<char>>) -> Option<Seq<PttKey>> {
    if all_named(tokens) {
        Some(tokens.map_values(|t: Seq<char>| key_named(trim(t))->0))
    } else {
        None
    }
}

/// Parses a hotkey such as `LeftCtrl+LeftAlt` into its keys; none if a token is unknown.
pub fn parse_ptt_keys(spec: &str) -> (r: Option<Vec<PttKey>>)
    ensures
        (match r {
            Some(keys) => Some(keys@),
            None => None,
        }) == keys_named(split(spec@, '+')),
{
    let tokens = pieces_of(spec, '+');
    let ghost all = split(spec@, '+');
    let mut keys: Vec<PttKey> = Vec::new();
    let mut i: usize = 0;
    while i < tokens.len()
        invariant
            all == split(spec@, '+'),
            views(tokens@) == all,
            i <= tokens@.len(),
            all_named(all.take(i as int)),
            Some(keys@) == keys_named(all.take(i as int)),
        decreases tokens.len() - i,
    {
        proof {
            assert(all[i as int] == tokens@[i as int]@);
        }
        match str_to_key(trimmed(tokens[i].as_str()).as_str()) {
            Some(key) => {
                keys.push(key);
                proof {
                    assert forall|k: int| 0 <= k < i + 1 implies key_named(
                        trim(#[trigger] all.take(i + 1)[k]),
                    ) is Some by {
                        if k < i {
                            assert(all.take(i as int)[k] == all.take(i + 1)[k]);
                        }
                    }
                    assert(keys@ == all.take(i + 1).map_values(
                        |t: Seq<char>| key_named(trim(t))->0,
                    ));
                }
            },
            None => {
                proof {
                    assert(!(key_named(trim(all[i as int])) is Some));
                }
                return None;
            },
        }
        i += 1;
    }
    proof {
        assert(all.take(tokens@.len() as int) == all);
    }
    Some(keys)
}

/// A hotkey that parses has at least one key, so an empty list of keys only ever means that the
/// hotkey could not be parsed.
pub proof fn parsed_hotkeys_are_never_empty(spec: Seq<char>)
    ensures
        keys_named(split(spec, '+')) matches Some(keys) ==> keys.len() == split(spec, '+').len()
            && keys.len() > 0,
{
    split_is_nonempty(spec, '+');
}

/// A hotkey offered by the settings window.
#[derive(Clone, Copy, Debug)]
pub struct PttPreset {
    pub spec: &'static str,
    pub label: &'static str,
    /// Why someone would pick it.
    pub reason: &'static str,
}

/// The label of the preset with this hotkey, if there is one.
pub open spec fn preset_label(spec: Seq<char>) -> Option<Seq<char>> {
    if spec == "CapsLock"@ {
        Some("Caps Lock"@)
    } else if spec == "RightCtrl"@ {
        Some("右 Ctrl"@)
    } else if spec == "RightAlt"@ {
        Some("右 Alt"@)
    } else if spec == "LeftCtrl+LeftAlt"@ {
        Some("左 Ctrl + 左 Alt"@)
    } else if spec == "ScrollLock"@ {
        Some("Scroll Lock"@)
    } else {
        None
    }
}

/// The hotkeys offered by the settings window, in the order in which they are shown.
pub fn ptt_presets() -> (r: Vec<PttPreset>)
    ensures
        r@.len() == 5,
        r@[0].spec@ == "CapsLock"@,
        r@[1].spec@ == "RightCtrl"@,
        r@[2].spec@ == "RightAlt"@,
        r@[3].spec@ == "LeftCtrl+LeftAlt"@,
        r@[4].spec@ == "ScrollLock"@,
        forall|i: int|
            0 <= i < 5 ==> preset_label(#[trigger] r@[i].spec@) == Some(r@[i].label@),
        r@[0].reason@ == "单手可及，最省力"@,
        r@[1].reason@ == "不影响 Caps Lock 切换大小写"@,
        r@[2].reason@ == "笔记本键盘常用"@,
        r@[3].reason@ == "组合键，几乎不会误触"@,
        r@[4].reason@ == "全键盘专用，零冲突"@,
{
    proof {
        reveal_strlit("CapsLock");
        reveal_strlit("RightCtrl");
        reveal_strlit("RightAlt");
        reveal_strlit("LeftCtrl+LeftAlt");
        reveal_strlit("ScrollLock");
        assert("CapsLock"@.len() == 8 && "RightAlt"@.len() == 8 && "RightCtrl"@.len() == 9);
        assert("LeftCtrl+LeftAlt"@.len() == 16 && "ScrollLock"@.len() == 10);
        assert("CapsLock"@[0] == 'C' && "RightAlt"@[0] == 'R');
    }
    let mut list: Vec<PttPreset> = Vec::new();
    list.push(PttPreset { spec: "CapsLock", label: "Caps Lock", reason: "单手可及，最省力" });
    list.push(
        PttPreset { spec: "RightCtrl", label: "右 Ctrl", reason: "不影响 Caps Lock 切换大小写" },
    );
    list.push(PttPreset { spec: "RightAlt", label: "右 Alt", reason: "笔记本键盘常用" });
    list.push(
        PttPreset {
            spec: "LeftCtrl+LeftAlt",
            label: "左 Ctrl + 左 Alt",
            reason: "组合键，几乎不会误触",
        },
    );
    list.push(
        PttPreset { spec: "ScrollLock", label: "Scroll Lock", reason: "全键盘专用，零冲突" },
    );
    list
}

/// The name shown for one token of a hotkey; an unknown token as it is.
pub open spec fn token_label(token: Seq<char>) -> Seq<char> {
    if token == "CapsLock"@ {
        "Caps Lock"@
    } else if token == "LeftCtrl"@ {
        "左 Ctrl"@
    } else if token == "RightCtrl"@ {
        "右 Ctrl"@
    } else if token == "LeftAlt"@ {
        "左 Alt"@
    } else if token == "RightAlt"@ {
        "右 Alt"@
    } else if token == "LeftShift"@ {
        "左 Shift"@
    } else if token == "RightShift"@ {
        "右 Shift"@
    } else if token == "LeftWin"@ {
        "左 Win"@
    } else if token == "RightWin"@ {
        "右 Win"@
    } else if token == "ScrollLock"@ {
        "Scroll Lock"@
    } else {
        token
    }
}

fn label_of_token(token: String) -> (r: String)
    ensures
        r@ == token_label(token@),
{
    let t = token.as_str();
    if same_text(t, "CapsLock") {
        "Caps Lock".to_owned()
    } else if same_text(t, "LeftCtrl") {
        "左 Ctrl".to_owned()
    } else if same_text(t, "RightCtrl") {
        "右 Ctrl".to_owned()
    } else if same_text(t, "LeftAlt") {
        "左 Alt".to_owned()
    } else if same_text(t, "RightAlt") {
        "右 Alt".to_owned()
    } else if same_text(t, "LeftShift") {
        "左 Shift".to_owned()
    } else if same_text(t, "RightShift") {
        "右 Shift".to_owned()
    } else if same_text(t, "LeftWin") {
        "左 Win".to_owned()
    } else if same_text(t, "RightWin") {
        "右 Win".to_owned()
    } else if same_text(t, "ScrollLock") {
        "Scroll Lock".to_owned()
    } else {
        token
    }
}

/// The names of the tokens of a hotkey, with ` + ` between them.
pub open spec fn spelled_out(spec: Seq<char>) -> Seq<char> {
    join(split(spec, '+').map_values(|t: Seq<char>| token_label(trim(t))), " + "@)
}

/// The human readable form of a hotkey: the label of its preset, or its tokens spelled out.
pub open spec fn described(spec: Seq<char>) -> Seq<char> {
    match preset_label(spec) {
        Some(label) => label,
        None => spelled_out(spec),
    }
}

/// The human readable form of a hotkey.
pub fn describe_ptt_key(spec: &str) -> (r: String)
    ensures
        r@ == described(spec@),
{
    let presets = ptt_presets();
    let mut p: usize = 0;
    while p < presets.len()
        invariant
            p <= presets@.len(),
            presets@.len() == 5,
            presets@[0].spec@ == "CapsLock"@,
            presets@[1].spec@ == "RightCtrl"@,
            presets@[2].spec@ == "RightAlt"@,
            presets@[3].spec@ == "LeftCtrl+LeftAlt"@,
            presets@[4].spec@ == "ScrollLock"@,
            forall|i: int|
                0 <= i < 5 ==> preset_label(#[trigger] presets@[i].spec@) == Some(
                    presets@[i].label@,
                ),
            forall|i: int| 0 <= i < p ==> #[trigger] presets@[i].spec@ != spec@,
        decreases presets.len() - p,
    {
        if same_text(presets[p].spec, spec) {
            return presets[p].label.to_owned();
        }
        p += 1;
    }
    proof {
        assert(presets@[0].spec@ != spec@);
        assert(presets@[1].spec@ != spec@);
        assert(presets@[2].spec@ != spec@);
        assert(presets@[3].spec@ != spec@);
        assert(presets@[4].spec@ != spec@);
    }
    let tokens = pieces_of(spec, '+');
    let ghost all = split(spec@, '+');
    let mut labels: Vec<String> = Vec::new();
    let mut i: usize = 0;
    while i < tokens.len()
        invariant
            views(tokens@) == all,
            i <= tokens@.len(),
            views(labels@) == all.take(i as int).map_values(
                |t: Seq<char>| token_label(trim(t)),
            ),
        decreases tokens.len() - i,
    {
        proof {
            assert(all[i as int] == tokens@[i as int]@);
        }
        let label = label_of_token(trimmed(tokens[i].as_str()));
        let ghost before = labels@;
        labels.push(label);
        proof {
            assert(views(before.push(label)) == views(before).push(label@));
            assert(views(labels@) == all.take(i + 1).map_values(
                |t: Seq<char>| token_label(trim(t)),
            ));
        }
        i += 1;
    }
    proof {
        assert(all.take(tokens@.len() as int) == all);
    }
    joined_with(&labels, " + ")
}

proof fn single_token_spelled_out(spec: Seq<char>)
    requires
        spec.len() > 0,
        forall|i: int| 0 <= i < spec.len() ==> spec[i] != '+',
        !is_white(spec[0]),
        !is_white(spec.last()),
    ensures
        spelled_out(spec) == token_label(spec),
{
    split_without_separator(spec, '+');
    assert(trim(spec) == spec);
    let labels = split(spec, '+').map_values(|t: Seq<char>| token_label(trim(t)));
    assert(labels == seq![token_label(spec)]);
}

/// The label of every preset is what spelling its keys out gives, so one hotkey never goes by
/// two names.
pub proof fn preset_labels_spell_out_their_keys(spec: Seq<char>)
    requires
        preset_label(spec) is Some,
    ensures
        preset_label(spec) == Some(spelled_out(spec)),
{
    reveal_strlit("CapsLock");
    reveal_strlit("LeftCtrl");
    reveal_strlit("RightCtrl");
    reveal_strlit("LeftAlt");
    reveal_strlit("RightAlt");
    reveal_strlit("LeftShift");
    reveal_strlit("RightShift");
    reveal_strlit("LeftWin");
    reveal_strlit("RightWin");
    reveal_strlit("ScrollLock");
    reveal_strlit("LeftCtrl+LeftAlt");
    assert("CapsLock"@.len() == 8 && "CapsLock"@[0] == 'C');
    assert("LeftCtrl"@.len() == 8 && "LeftCtrl"@[0] == 'L');
    assert("RightCtrl"@.len() == 9 && "RightCtrl"@[0] == 'R' && "RightCtrl"@[5] == 'C');
    assert("LeftAlt"@.len() == 7 && "LeftAlt"@[4] == 'A');
    assert("RightAlt"@.len() == 8 && "RightAlt"@[0] == 'R' && "RightAlt"@[5] == 'A');
    assert("LeftShift"@.len() == 9 && "LeftShift"@[0] == 'L');
    assert("RightShift"@.len() == 10 && "RightShift"@[0] == 'R');
    assert("LeftWin"@.len() == 7 && "LeftWin"@[4] == 'W');
    assert("RightWin"@.len() == 8 && "RightWin"@[5] == 'W');
    assert("ScrollLock"@.len() == 10 && "ScrollLock"@[0] == 'S');
    assert("LeftCtrl+LeftAlt"@.len() == 16);
    if spec == "LeftCtrl+LeftAlt"@ {
        let a = "LeftCtrl"@;
        let b = "LeftAlt"@;
        assert(spec =~= a.push('+') + b);
        split_with_one_separator(a, b, '+');
        assert(trim(a) == a);
        assert(trim(b) == b);
        let labels = split(spec, '+').map_values(|t: Seq<char>| token_label(trim(t)));
        assert(labels == seq![token_label(a), token_label(b)]);
        assert(labels.drop_last() == seq![token_label(a)]);
        assert(token_label(a) == "左 Ctrl"@);
        assert(token_label(b) == "左 Alt"@);
        assert(join(labels.drop_last(), " + "@) == token_label(a));
        assert(spelled_out(spec) == token_label(a) + " + "@ + token_label(b));
        reveal_strlit(" + ");
        reveal_strlit("左 Ctrl");
        reveal_strlit("左 Alt");
        reveal_strlit("左 Ctrl + 左 Alt");
        assert("左 Ctrl"@ + " + "@ + "左 Alt"@ =~= "左 Ctrl + 左 Alt"@);
    } else {
        single_token_spelled_out(spec);
    }
}

/// A hotkey is described key by key: with a `+` between two hotkeys, the description is that of the
/// one and that of the other, joined.
pub proof fn hotkeys_are_described_key_by_key(a: Seq<char>, b: Seq<char>)
    ensures
        described(a.push('+') + b) == described(a) + " + "@ + described(b),
{
    let all = a.push('+') + b;
    if preset_label(a) is Some {
        preset_labels_spell_out_their_keys(a);
    }
    if preset_label(b) is Some {
        preset_labels_spell_out_their_keys(b);
    }
    if preset_label(all) is Some {
        preset_labels_spell_out_their_keys(all);
    }
    let label = |t: Seq<char>| token_label(trim(t));
    let x = split(a, '+').map_values(label);
    let y = split(b, '+').map_values(label);
    splitting_two_texts(a, b, '+');
    split_is_nonempty(a, '+');
    split_is_nonempty(b, '+');
    assert(split(all, '+').map_values(label) =~= x + y);
    joining_two_lists(x, y, " + "@);
}

/// The name by which a key is written in a hotkey, if it can be in one.
pub open spec fn name_of_key(key: PttKey) -> Option<Seq<char>> {
    match key {
        PttKey::CapsLock => Some("CapsLock"@),
        PttKey::LeftCtrl => Some("LeftCtrl"@),
        PttKey::RightCtrl => Some("RightCtrl"@),
        PttKey::LeftAlt => Some("LeftAlt"@),
        PttKey::RightAlt => Some("RightAlt"@),
        PttKey::LeftShift => Some("LeftShift"@),
        PttKey::RightShift => Some("RightShift"@),
        PttKey::LeftWin => Some("LeftWin"@),
        PttKey::RightWin => Some("RightWin"@),
        PttKey::ScrollLock => Some("ScrollLock"@),
        PttKey::Insert => Some("Insert"@),
        PttKey::Pause => Some("Pause"@),
        PttKey::Other(_) => None,
    }
}

proof fn key_names_differ()
    ensures
        key_named("CapsLock"@) == Some(PttKey::CapsLock),
        key_named("LeftCtrl"@) == Some(PttKey::LeftCtrl),
        key_named("RightCtrl"@) == Some(PttKey::RightCtrl),
        key_named("LeftAlt"@) == Some(PttKey::LeftAlt),
        key_named("RightAlt"@) == Some(PttKey::RightAlt),
        key_named("LeftShift"@) == Some(PttKey::LeftShift),
        key_named("RightShift"@) == Some(PttKey::RightShift),
        key_named("LeftWin"@) == Some(PttKey::LeftWin),
        key_named("RightWin"@) == Some(PttKey::RightWin),
        key_named("ScrollLock"@) == Some(PttKey::ScrollLock),
        key_named("Insert"@) == Some(PttKey::Insert),
        key_named("Pause"@) == Some(PttKey::Pause),
{
    reveal_strlit("CapsLock");
    reveal_strlit("LeftCtrl");
    reveal_strlit("RightCtrl");
    reveal_strlit("LeftAlt");
    reveal_strlit("RightAlt");
    reveal_strlit("LeftShift");
    reveal_strlit("RightShift");
    reveal_strlit("LeftWin");
    reveal_strlit("RightWin");
    reveal_strlit("ScrollLock");
    reveal_strlit("Insert");
    reveal_strlit("Pause");
    assert("CapsLock"@.len() == 8 && "CapsLock"@[0] == 'C');
    assert("LeftCtrl"@.len() == 8 && "LeftCtrl"@[0] == 'L');
    assert("RightCtrl"@.len() == 9 && "RightCtrl"@[0] == 'R');
    assert("LeftAlt"@.len() == 7 && "LeftAlt"@[4] == 'A');
    assert("RightAlt"@.len() == 8 && "RightAlt"@[0] == 'R' && "RightAlt"@[5] == 'A');
    assert("LeftShift"@.len() == 9 && "LeftShift"@[0] == 'L');
    assert("RightShift"@.len() == 10 && "RightShift"@[0] == 'R');
    assert("LeftWin"@.len() == 7 && "LeftWin"@[4] == 'W');
    assert("RightWin"@.len() == 8 && "RightWin"@[0] == 'R' && "RightWin"@[5] == 'W');
    assert("ScrollLock"@.len() == 10 && "ScrollLock"@[0] == 'S');
    assert("Insert"@.len() == 6);
    assert("Pause"@.len() == 5);
}

/// A key is named by its own name and by no other text: reading the name gives the key back, and a
/// text that is no key's name names none.
pub proof fn keys_go_by_their_names(key: PttKey, token: Seq<char>)
    ensures
        name_of_key(key) matches Some(name) ==> key_named(name) == Some(key),
        key_named(token) == Some(key) <==> name_of_key(key) == Some(token),
{
    key_names_differ();
}

/// A hotkey is parsed key by key: with a `+` between two hotkeys the keys are those of the one and
/// then those of the other, and it parses only where both do.
pub proof fn hotkeys_are_parsed_key_by_key(a: Seq<char>, b: Seq<char>)
    ensures
        match (keys_named(split(a, '+')), keys_named(split(b, '+'))) {
            (Some(x), Some(y)) => keys_named(split(a.push('+') + b, '+')) == Some(x + y),
            _ => keys_named(split(a.push('+') + b, '+')) is None,
        },
{
    splitting_two_texts(a, b, '+');
    let s = split(a, '+');
    let t = split(b, '+');
    let all = s + t;
    if all_named(all) {
        assert forall|i: int| 0 <= i < s.len() implies key_named(
            trim(#[trigger] s[i]),
        ) is Some by {
            assert(all[i] == s[i]);
        }
        assert forall|i: int| 0 <= i < t.len() implies key_named(
            trim(#[trigger] t[i]),
        ) is Some by {
            assert(all[s.len() + i] == t[i]);
        }
    }
    if all_named(s) && all_named(t) {
        assert forall|i: int| 0 <= i < all.len() implies key_named(
            trim(#[trigger] all[i]),
        ) is Some by {
            if i < s.len() {
                assert(all[i] == s[i]);
            } else {
                assert(all[i] == t[i - s.len()]);
            }
        }
        let key = |t: Seq<char>| key_named(trim(t))->0;
        assert(all.map_values(key) =~= s.map_values(key) + t.map_values(key));
    }
}

/// A hotkey of one key is that key, whatever white space stands around its name.
pub proof fn a_single_key_is_a_hotkey(key: PttKey, spec: Seq<char>)
    requires
        name_of_key(key) == Some(trim(spec)),
        forall|i: int| 0 <= i < spec.len() ==> spec[i] != '+',
    ensures
        keys_named(split(spec, '+')) == Some(seq![key]),
{
    keys_go_by_their_names(key, trim(spec));
    split_without_separator(spec, '+');
    let tokens = split(spec, '+');
    assert(tokens =~= seq![spec]);
    assert(all_named(tokens));
    assert(tokens.map_values(|t: Seq<char>| key_named(trim(t))->0) =~= seq![key]);
}

/// The names shown for keys tell the left one from the right one, and say the rest as the token does.
pub proof fn labels_tell_left_from_right(token: Seq<char>)
    ensures
        token == "LeftCtrl"@ ==> token_label(token) == "左 Ctrl"@,
        token == "LeftAlt"@ ==> token_label(token) == "左 Alt"@,
        token == "LeftShift"@ ==> token_label(token) == "左 Shift"@,
        token == "LeftWin"@ ==> token_label(token) == "左 Win"@,
        token == "RightCtrl"@ ==> token_label(token) == "右 Ctrl"@,
        token == "RightAlt"@ ==> token_label(token) == "右 Alt"@,
        token == "RightShift"@ ==> token_label(token) == "右 Shift"@,
        token == "RightWin"@ ==> token_label(token) == "右 Win"@,
        token == "CapsLock"@ ==> token_label(token) == "Caps Lock"@,
        token == "ScrollLock"@ ==> token_label(token) == "Scroll Lock"@,
        key_named(token) is None ==> token_label(token) == token,
{
    key_names_differ();
}

/// The settings to start with are those of the first file that could be loaded: no file tried before
/// it could be, and only where none could be are there none.
pub proof fn the_first_file_that_loads_counts(attempts: Seq<Option<ConfigFile>>)
    ensures
        match ConfigFile::first_loaded(attempts) {
            Some(file) => exists|i: int|
                0 <= i < attempts.len() && attempts[i] == Some(file) && forall|j: int|
                    0 <= j < i ==> (#[trigger] attempts[j]) is None,
            None => forall|j: int| 0 <= j < attempts.len() ==> (#[trigger] attempts[j]) is None,
        },
    decreases attempts.len(),
{
    if attempts.len() > 0 && attempts[0] is None {
        let rest = attempts.drop_first();
        the_first_file_that_loads_counts(rest);
        match ConfigFile::first_loaded(rest) {
            Some(file) => {
                let i = choose|i: int|
                    0 <= i < rest.len() && rest[i] == Some(file) && forall|j: int|
                        0 <= j < i ==> (#[trigger] rest[j]) is None;
                assert(attempts[i + 1] == Some(file));
                assert forall|j: int| 0 <= j < i + 1 implies (#[trigger] attempts[j]) is None by {
                    if j > 0 {
                        assert(rest[j - 1] is None);
                    }
                }
            },
            None => {
                assert forall|j: int| 0 <= j < attempts.len() implies (
                #[trigger] attempts[j]) is None by {
                    if j > 0 {
                        assert(rest[j - 1] is None);
                    }
                }
            },
        }
    } else if attempts.len() > 0 {
        assert(attempts[0] == ConfigFile::first_loaded(attempts));
    }
}

/// The wizard is behind a configuration that says so, and behind one read from a file that settles
/// the hotkey, the model or the backend; it is ahead of every other.
pub proof fn the_wizard_comes_once(file: ConfigFile)
    ensures
        file.setup_done == Some(true) ==> file.configured(),
        file.loaded_from_disk && !(file.ptt_key is None && file.model is None && file.asr_backend is None)
            ==> file.configured(),
        file.setup_done != Some(true) && !file.loaded_from_disk ==> !file.configured(),
        file.setup_done != Some(true) && file.ptt_key is None && file.model is None
            && file.asr_backend is None ==> !file.configured(),
{
}

/// Settings are looked for next to the program's work first and in the platform's place last; between
/// the two comes the user's own directory, where there is one, which the system's takes precedence of
/// the home.
pub proof fn places_are_looked_at_in_order(
    appdata: Option<String>,
    home: Option<String>,
    platform: Seq<char>,
    separator: char,
)
    ensures
        ({
            let list = places(appdata, home, platform, separator);
            &&& list.len() == if appdata is None && home is None {
                2int
            } else {
                3int
            }
            &&& list[0] == "config.toml"@
            &&& list.last() == platform
            &&& appdata matches Some(d) ==> list[1] == below(
                below(d@, "auto-voice"@, separator),
                "config.toml"@,
                separator,
            )
            &&& appdata is None && home is Some ==> list[1] == below(
                below(below(home->0@, ".config"@, separator), "auto-voice"@, separator),
                "config.toml"@,
                separator,
            )
        }),
{
}

/// Only the two keys of the lighter themes choose another theme than the dark one.
pub proof fn unknown_themes_are_dark(key: Seq<char>)
    ensures
        UiTheme::of_key(key) == UiTheme::MorningPorcelain <==> key == "morning-porcelain"@,
        UiTheme::of_key(key) == UiTheme::GraphiteFocus <==> key == "graphite-focus"@,
{
    reveal_strlit("morning-porcelain");
    reveal_strlit("graphite-focus");
    assert("morning-porcelain"@.len() == 17);
    assert("graphite-focus"@.len() == 14);
}

}
