//! What the settings window shows and does, apart from painting it.
//!
//! A fresh installation opens the wizard; one that was set up never shows a window on its own.
//! Nothing asks for a restart: every edit is saved shortly after the last one and takes effect.

use vstd::prelude::*;
use vstd::string::*;

use crate::app_config::{
    DEFAULT_BACKEND, DEFAULT_FUNASR_ENCODER_ADAPTOR, DEFAULT_LANG, DEFAULT_MODEL, DEFAULT_PTT_KEY,
    FUNASR_BACKEND,
};
use crate::config::{ConfigFile, UiTheme, described, describe_ptt_key, preset_label, ptt_presets};
use crate::fonts::SystemFont;
use crate::order::{lowercase, lowercased};
use crate::osd::since;
use crate::platform::Capability;
use crate::runtime::{EngineStatus, StatusView};
use crate::text::{
    ascii_lower_text, contains_text, decimal, decimal_of, decimals_read_back, has, lists, number_in,
    opt_view, or_text, same_but_for_case, same_text, text_or, trim, trimmed, views,
};

verus! {

/// How long after the last edit the settings are saved, in nanoseconds.
pub const AUTOSAVE_DELAY: u64 = 600_000_000;

/// How long a toast is shown, in nanoseconds.
pub const TOAST_VISIBLE_FOR: u64 = 2_600_000_000;

/// The last step of the wizard.
pub const LAST_STEP: usize = 2;

// ── Colours ──────────────────────────────────────────────────────────────────

/// Red, green and blue.
#[derive(Clone, Copy, Debug, PartialEq, Eq, Structural)]
pub struct Rgb(pub u8, pub u8, pub u8);

/// The colours of a theme, shared by everything that is painted.
#[derive(Clone, Copy, Debug, PartialEq, Eq, Structural)]
pub struct ThemeTokens {
    pub bg: Rgb,
    pub rail: Rgb,
    pub card: Rgb,
    pub card_hover: Rgb,
    pub line: Rgb,
    pub text: Rgb,
    pub muted: Rgb,
    pub accent: Rgb,
    pub ok: Rgb,
    pub warn: Rgb,
    pub bad: Rgb,
}

/// The colours of a theme.
pub open spec fn tokens_of(theme: UiTheme) -> ThemeTokens {
    match theme {
        UiTheme::MorningPorcelain => ThemeTokens {
            bg: Rgb(246, 247, 251),
            rail: Rgb(238, 241, 247),
            card: Rgb(255, 255, 255),
            card_hover: Rgb(239, 243, 252),
            line: Rgb(218, 224, 235),
            text: Rgb(25, 32, 45),
            muted: Rgb(101, 115, 138),
            accent: Rgb(102, 118, 232),
            ok: Rgb(22, 160, 133),
            warn: Rgb(190, 130, 46),
            bad: Rgb(214, 77, 97),
        },
        UiTheme::GraphiteFocus => ThemeTokens {
            bg: Rgb(24, 25, 28),
            rail: Rgb(28, 29, 33),
            card: Rgb(37, 39, 44),
            card_hover: Rgb(47, 49, 56),
            line: Rgb(61, 64, 72),
            text: Rgb(229, 231, 235),
            muted: Rgb(155, 161, 173),
            accent: Rgb(136, 184, 255),
            ok: Rgb(72, 201, 158),
            warn: Rgb(226, 169, 79),
            bad: Rgb(239, 101, 120),
        },
        UiTheme::DeepSeaAurora => ThemeTokens {
            bg: Rgb(13, 17, 24),
            rail: Rgb(16, 21, 30),
            card: Rgb(21, 27, 38),
            card_hover: Rgb(26, 33, 46),
            line: Rgb(38, 48, 65),
            text: Rgb(237, 241, 248),
            muted: Rgb(133, 147, 169),
            accent: Rgb(88, 132, 240),
            ok: Rgb(76, 211, 155),
            warn: Rgb(235, 176, 91),
            bad: Rgb(255, 104, 125),
        },
    }
}

impl ThemeTokens {
    /// The colours of a theme.
    pub fn for_theme(theme: UiTheme) -> (r: ThemeTokens)
        ensures
            r == tokens_of(theme),
    {
        match theme {
            UiTheme::MorningPorcelain => ThemeTokens {
                bg: Rgb(246, 247, 251),
                rail: Rgb(238, 241, 247),
                card: Rgb(255, 255, 255),
                card_hover: Rgb(239, 243, 252),
                line: Rgb(218, 224, 235),
                text: Rgb(25, 32, 45),
                muted: Rgb(101, 115, 138),
                accent: Rgb(102, 118, 232),
                ok: Rgb(22, 160, 133),
                warn: Rgb(190, 130, 46),
                bad: Rgb(214, 77, 97),
            },
            UiTheme::GraphiteFocus => ThemeTokens {
                bg: Rgb(24, 25, 28),
                rail: Rgb(28, 29, 33),
                card: Rgb(37, 39, 44),
                card_hover: Rgb(47, 49, 56),
                line: Rgb(61, 64, 72),
                text: Rgb(229, 231, 235),
                muted: Rgb(155, 161, 173),
                accent: Rgb(136, 184, 255),
                ok: Rgb(72, 201, 158),
                warn: Rgb(226, 169, 79),
                bad: Rgb(239, 101, 120),
            },
            UiTheme::DeepSeaAurora => ThemeTokens {
                bg: Rgb(13, 17, 24),
                rail: Rgb(16, 21, 30),
                card: Rgb(21, 27, 38),
                card_hover: Rgb(26, 33, 46),
                line: Rgb(38, 48, 65),
                text: Rgb(237, 241, 248),
                muted: Rgb(133, 147, 169),
                accent: Rgb(88, 132, 240),
                ok: Rgb(76, 211, 155),
                warn: Rgb(235, 176, 91),
                bad: Rgb(255, 104, 125),
            },
        }
    }
}

/// Whether a theme is a dark one.
pub fn is_dark(theme: UiTheme) -> (r: bool)
    ensures
        r == (theme != UiTheme::MorningPorcelain),
{
    theme != UiTheme::MorningPorcelain
}

/// How something stands: well, with reservations, or badly.
#[derive(Clone, Copy, Debug, PartialEq, Eq, Structural)]
pub enum Tone {
    Good,
    Warn,
    Bad,
}

impl Tone {
    /// The colour of a tone in a theme.
    pub fn color(self, tokens: &ThemeTokens) -> (r: Rgb)
        ensures
            r == (match self {
                Tone::Good => tokens.ok,
                Tone::Warn => tokens.warn,
                Tone::Bad => tokens.bad,
            }),
    {
        match self {
            Tone::Good => tokens.ok,
            Tone::Warn => tokens.warn,
            Tone::Bad => tokens.bad,
        }
    }
}

/// How a capability stands.
pub fn capability_tone(capability: Capability) -> (r: Tone)
    ensures
        r == (match capability {
            Capability::Available => Tone::Good,
            Capability::PermissionRequired => Tone::Warn,
            Capability::Degraded => Tone::Bad,
        }),
{
    match capability {
        Capability::Available => Tone::Good,
        Capability::PermissionRequired => Tone::Warn,
        Capability::Degraded => Tone::Bad,
    }
}

/// A line that tells how something stands.
pub struct StatusLine {
    pub tone: Tone,
    pub text: String,
}

// ── Sections ─────────────────────────────────────────────────────────────────

/// A page of the settings.
#[derive(Clone, Copy, Debug, PartialEq, Eq, Structural)]
pub enum Section {
    Overview,
    Input,
    Model,
    Polish,
    Appearance,
}

impl Section {
    /// All pages, in the order in which they are offered.
    pub fn all() -> (r: Vec<Section>)
        ensures
            r@ == seq![
                Section::Overview,
                Section::Input,
                Section::Model,
                Section::Polish,
                Section::Appearance,
            ],
    {
        let r: Vec<Section> = vec![
            Section::Overview,
            Section::Input,
            Section::Model,
            Section::Polish,
            Section::Appearance,
        ];
        proof {
            assert(r@ =~= seq![
                Section::Overview,
                Section::Input,
                Section::Model,
                Section::Polish,
                Section::Appearance,
            ]);
        }
        r
    }

    /// A page's name.
    pub fn label(self) -> (r: &'static str)
        ensures
            r@ == (match self {
                Section::Overview => "总览"@,
                Section::Input => "说话方式"@,
                Section::Model => "识别模型"@,
                Section::Polish => "文本优化"@,
                Section::Appearance => "外观"@,
            }),
    {
        match self {
            Section::Overview => "总览",
            Section::Input => "说话方式",
            Section::Model => "识别模型",
            Section::Polish => "文本优化",
            Section::Appearance => "外观",
        }
    }

    /// What a page is about.
    pub fn description(self) -> (r: &'static str)
        ensures
            r@ == (match self {
                Section::Overview => "运行状态与用法"@,
                Section::Input => "快捷键与浮层"@,
                Section::Model => "后端、语言与路径"@,
                Section::Polish => "LLM 纠错"@,
                Section::Appearance => "界面字体"@,
            }),
    {
        match self {
            Section::Overview => "运行状态与用法",
            Section::Input => "快捷键与浮层",
            Section::Model => "后端、语言与路径",
            Section::Polish => "LLM 纠错",
            Section::Appearance => "界面字体",
        }
    }
}

// ── The window's state ───────────────────────────────────────────────────────

/// A short message that goes away by itself.
pub struct Toast {
    pub message: String,
    pub error: bool,
    pub at: u64,
}

/// The state of the settings window.
#[verifier::ext_equal]
pub struct DesktopModel {
    /// The wizard's step while it is running.
    pub wizard_step: Option<usize>,
    pub section: Section,
    /// When the last edit was made that is not saved yet.
    pub dirty_since: Option<u64>,
    /// The toast: message, whether it tells of an error, and since when it is shown.
    pub toast: Option<(Seq<char>, bool, u64)>,
}

/// What to do about unsaved edits.
#[derive(Clone, Copy, Debug, PartialEq, Eq, Structural)]
pub enum Autosave {
    Nothing,
    /// Look again after this time, in nanoseconds.
    Wait(u64),
    Save,
}

/// What a click in the wizard means.
#[derive(Clone, Copy, Debug, PartialEq, Eq, Structural)]
pub enum WizardClick {
    Back,
    Forward,
    Skip,
}

impl DesktopModel {
    /// What to do about unsaved edits.
    pub open spec fn autosave(self, now: u64) -> Autosave {
        match self.dirty_since {
            Some(at) => if since(at, now) >= AUTOSAVE_DELAY {
                Autosave::Save
            } else {
                Autosave::Wait((AUTOSAVE_DELAY - since(at, now)) as u64)
            },
            None => Autosave::Nothing,
        }
    }

    /// The state after a click in the wizard, and whether the wizard is finished by it.
    pub open spec fn clicked(self, click: WizardClick) -> (DesktopModel, bool) {
        match self.wizard_step {
            Some(step) => match click {
                WizardClick::Back => if step > 0 {
                    (DesktopModel { wizard_step: Some((step - 1) as usize), ..self }, false)
                } else {
                    (self, false)
                },
                WizardClick::Forward => if step == LAST_STEP {
                    (DesktopModel { wizard_step: None, ..self }, true)
                } else {
                    (DesktopModel { wizard_step: Some((step + 1) as usize), ..self }, false)
                },
                WizardClick::Skip => if step == LAST_STEP {
                    (self, false)
                } else {
                    (DesktopModel { wizard_step: None, ..self }, true)
                },
            },
            None => (self, false),
        }
    }
}

/// What the toast says after saving. `fonts` holds how many fonts were loaded and how many were
/// not, where the fonts changed.
pub open spec fn saved_message(reloading: bool, fonts: Option<(usize, usize)>) -> Seq<char> {
    match fonts {
        Some((loaded, missing)) if missing > 0 => "已保存 · 已加载 "@ + decimal(loaded as nat)
            + " 个字体，"@ + decimal(missing as nat) + " 个字体不可用"@,
        _ => if reloading {
            "已保存 · 正在重新加载模型"@
        } else {
            "已保存 · 立即生效"@
        },
    }
}

/// The settings window, apart from its painting.
pub struct DesktopApp {
    wizard_step: Option<usize>,
    section: Section,
    dirty_since: Option<u64>,
    toast: Option<Toast>,
}

impl View for DesktopApp {
    type V = DesktopModel;

    closed spec fn view(&self) -> DesktopModel {
        DesktopModel {
            wizard_step: self.wizard_step,
            section: self.section,
            dirty_since: self.dirty_since,
            toast: match self.toast {
                Some(t) => Some((t.message@, t.error, t.at)),
                None => None,
            },
        }
    }
}

impl DesktopApp {
    /// The wizard has three steps.
    pub open spec fn wf(self) -> bool {
        self@.wizard_step matches Some(step) ==> step <= LAST_STEP
    }

    /// The window at the start: in the wizard, unless everything is set up.
    pub fn new(settings: &ConfigFile) -> (r: DesktopApp)
        ensures
            r.wf(),
            r@ == (DesktopModel {
                wizard_step: if settings.configured() {
                    None
                } else {
                    Some(0)
                },
                section: Section::Overview,
                dirty_since: None,
                toast: None,
            }),
    {
        DesktopApp {
            wizard_step: if settings.is_configured() {
                None
            } else {
                Some(0)
            },
            section: Section::Overview,
            dirty_since: None,
            toast: None,
        }
    }

    /// The wizard's step while it is running.
    pub fn wizard_step(&self) -> (r: Option<usize>)
        ensures
            r == self@.wizard_step,
    {
        self.wizard_step
    }

    /// The page that is open.
    pub fn section(&self) -> (r: Section)
        ensures
            r == self@.section,
    {
        self.section
    }

    /// Open a page.
    pub fn open(&mut self, section: Section)
        requires
            old(self).wf(),
        ensures
            final(self).wf(),
            final(self)@ == (DesktopModel { section, ..old(self)@ }),
    {
        self.section = section;
    }

    /// An edit was made. Saving waits for a pause, so that typing does not save every letter.
    pub fn touched(&mut self, now: u64)
        requires
            old(self).wf(),
        ensures
            final(self).wf(),
            final(self)@ == (DesktopModel { dirty_since: Some(now), ..old(self)@ }),
    {
        self.dirty_since = Some(now);
    }

    /// What to do about unsaved edits now.
    pub fn autosave(&self, now: u64) -> (r: Autosave)
        ensures
            r == self@.autosave(now),
    {
        match self.dirty_since {
            Some(at) => {
                let age: u64 = if now >= at {
                    now - at
                } else {
                    0
                };
                if age >= AUTOSAVE_DELAY {
                    Autosave::Save
                } else {
                    Autosave::Wait(AUTOSAVE_DELAY - age)
                }
            },
            None => Autosave::Nothing,
        }
    }

    /// Whether there is anything to save before the window goes away.
    pub fn has_unsaved(&self) -> (r: bool)
        ensures
            r == (self@.dirty_since is Some),
    {
        self.dirty_since.is_some()
    }

    /// The settings were saved and applied.
    pub fn committed(&mut self, reloading: bool, fonts: Option<(usize, usize)>, now: u64)
        requires
            old(self).wf(),
        ensures
            final(self).wf(),
            final(self)@ == (DesktopModel {
                dirty_since: None,
                toast: Some(
                    (
                        saved_message(reloading, fonts),
                        fonts matches Some(f) && f.1 > 0,
                        now,
                    ),
                ),
                ..old(self)@
            }),
    {
        let (message, error) = match fonts {
            Some((loaded, missing)) if missing > 0 => {
                let mut m = "已保存 · 已加载 ".to_owned();
                m.append(decimal_of(loaded as u64).as_str());
                m.append(" 个字体，");
                m.append(decimal_of(missing as u64).as_str());
                m.append(" 个字体不可用");
                (m, true)
            },
            _ => {
                if reloading {
                    ("已保存 · 正在重新加载模型".to_owned(), false)
                } else {
                    ("已保存 · 立即生效".to_owned(), false)
                }
            },
        };
        self.dirty_since = None;
        self.toast = Some(Toast { message, error, at: now });
    }

    /// The settings could not be saved.
    pub fn commit_failed(&mut self, error: &str, now: u64)
        requires
            old(self).wf(),
        ensures
            final(self).wf(),
            final(self)@ == (DesktopModel {
                dirty_since: None,
                toast: Some(("保存失败："@ + error@, true, now)),
                ..old(self)@
            }),
    {
        let mut message = "保存失败：".to_owned();
        message.append(error);
        self.dirty_since = None;
        self.toast = Some(Toast { message, error: true, at: now });
    }

    /// The toast to paint, with how long it will still be shown; one that was shown long enough
    /// is dropped.
    pub fn toast(&mut self, now: u64) -> (r: Option<(String, bool, u64)>)
        requires
            old(self).wf(),
        ensures
            final(self).wf(),
            match old(self)@.toast {
                Some((message, error, at)) => if since(at, now) >= TOAST_VISIBLE_FOR {
                    r is None && final(self)@ == (DesktopModel { toast: None, ..old(self)@ })
                } else {
                    r matches Some((m, e, left)) && m@ == message && e == error && left
                        == TOAST_VISIBLE_FOR - since(at, now) && final(self)@ == old(self)@
                },
                None => r is None && final(self)@ == old(self)@,
            },
            match old(self)@.toast {
                Some((_, _, at)) => at <= now ==> match r {
                    Some((_, _, left)) => now + left == at + 2_600_000_000 && left > 0,
                    None => now >= at + 2_600_000_000,
                },
                None => true,
            },
    {
        let (message, error, age): (String, bool, u64) = match &self.toast {
            Some(t) => (
                t.message.clone(),
                t.error,
                if now >= t.at {
                    now - t.at
                } else {
                    0
                },
            ),
            None => {
                return None;
            },
        };
        if age >= TOAST_VISIBLE_FOR {
            self.toast = None;
            return None;
        }
        Some((message, error, TOAST_VISIBLE_FOR - age))
    }

    /// A click in the wizard. True if the wizard is finished by it.
    pub fn wizard_clicked(&mut self, click: WizardClick) -> (r: bool)
        requires
            old(self).wf(),
        ensures
            final(self).wf(),
            (final(self)@, r) == old(self)@.clicked(click),
    {
        match self.wizard_step {
            Some(step) => match click {
                WizardClick::Back => {
                    if step > 0 {
                        self.wizard_step = Some(step - 1);
                    }
                    false
                },
                WizardClick::Forward => {
                    if step == LAST_STEP {
                        self.wizard_step = None;
                        true
                    } else {
                        self.wizard_step = Some(step + 1);
                        false
                    }
                },
                WizardClick::Skip => {
                    if step == LAST_STEP {
                        false
                    } else {
                        self.wizard_step = None;
                        true
                    }
                },
            },
            None => false,
        }
    }
}

/// An edit is saved once nothing was edited for a while, and not before; every further edit
/// begins the wait anew.
pub proof fn edits_are_saved_after_a_pause(m: DesktopModel, edited: u64, now: u64)
    requires
        edited <= now,
    ensures
        ({
            let after = DesktopModel { dirty_since: Some(edited), ..m };
            (after.autosave(now) == Autosave::Save) <==> now - edited >= AUTOSAVE_DELAY
        }),
        (DesktopModel { dirty_since: None, ..m }).autosave(now) == Autosave::Nothing,
{
}

/// Going forward through the wizard finishes it in three clicks, and skipping at once.
pub proof fn the_wizard_ends(m: DesktopModel)
    requires
        m.wizard_step == Some(0usize),
    ensures
        ({
            let one = m.clicked(WizardClick::Forward);
            let two = one.0.clicked(WizardClick::Forward);
            let three = two.0.clicked(WizardClick::Forward);
            &&& !one.1 && !two.1 && three.1
            &&& three.0.wizard_step is None
        }),
        m.clicked(WizardClick::Skip).1,
        m.clicked(WizardClick::Skip).0.wizard_step is None,
{
}

/// Going back in the wizard undoes going forward.
pub proof fn back_undoes_forward(m: DesktopModel)
    requires
        m.wizard_step matches Some(step) && step < LAST_STEP,
    ensures
        m.clicked(WizardClick::Forward).0.clicked(WizardClick::Back).0 == m,
{
    assert(m.clicked(WizardClick::Forward).0.clicked(WizardClick::Back).0 =~= m);
}

/// What becomes of the window when something asks for its end.
#[derive(Clone, Copy, Debug, PartialEq, Eq, Structural)]
pub enum CloseAction {
    Stay,
    /// Save what is unsaved and go to the tray.
    ToTray,
    /// Save what is unsaved and end the program.
    Exit,
}

/// What becomes of the window. Closing it sends it to the tray; only leaving through the tray menu
/// or a shutdown ends the program.
pub fn on_close(close_requested: bool, exit_requested: bool, shutdown_requested: bool) -> (r:
    CloseAction)
    ensures
        r == (if shutdown_requested || (close_requested && exit_requested) {
            CloseAction::Exit
        } else if close_requested {
            CloseAction::ToTray
        } else {
            CloseAction::Stay
        }),
{
    if shutdown_requested || (close_requested && exit_requested) {
        CloseAction::Exit
    } else if close_requested {
        CloseAction::ToTray
    } else {
        CloseAction::Stay
    }
}

/// The mark of a step in the wizard's progress bar: a tick once it is behind, else its number.
pub fn step_marker(index: usize, current: usize) -> (r: String)
    requires
        index <= LAST_STEP,
    ensures
        r@ == (if index < current {
            "✓"@
        } else {
            decimal((index + 1) as nat)
        }),
{
    if index < current {
        "✓".to_owned()
    } else {
        decimal_of(index as u64 + 1)
    }
}

/// What the user is told once the wizard is finished.
pub fn background_notice(ptt_key: &str) -> (r: String)
    ensures
        r@ == "已在后台运行 · 按住 "@ + described(ptt_key@) + " 说话"@,
{
    let mut m = "已在后台运行 · 按住 ".to_owned();
    m.append(describe_ptt_key(ptt_key).as_str());
    m.append(" 说话");
    m
}

// ── Status ───────────────────────────────────────────────────────────────────

/// How the recogniser stands, in the window's header.
pub fn engine_headline(status: &EngineStatus) -> (r: (Tone, &'static str))
    ensures
        match status@ {
            StatusView::Ready => r.0 == Tone::Good && r.1@ == "识别引擎就绪"@,
            StatusView::Loading => r.0 == Tone::Warn && r.1@ == "正在加载识别模型…"@,
            StatusView::Failed(_) => r.0 == Tone::Bad && r.1@ == "识别引擎未就绪"@,
        },
{
    match status {
        EngineStatus::Ready => (Tone::Good, "识别引擎就绪"),
        EngineStatus::Loading => (Tone::Warn, "正在加载识别模型…"),
        EngineStatus::Failed(_) => (Tone::Bad, "识别引擎未就绪"),
    }
}

/// How the recogniser stands, in words.
pub fn engine_status(status: &EngineStatus) -> (r: StatusLine)
    ensures
        match status@ {
            StatusView::Ready => r.tone == Tone::Good && r.text@
                == "识别引擎已就绪，可以直接开始说话"@,
            StatusView::Loading => r.tone == Tone::Warn && r.text@
                == "正在加载识别模型，第一次会慢一些…"@,
            StatusView::Failed(e) => r.tone == Tone::Bad && r.text@ == "加载失败："@ + e,
        },
{
    match status {
        EngineStatus::Ready => StatusLine {
            tone: Tone::Good,
            text: "识别引擎已就绪，可以直接开始说话".to_owned(),
        },
        EngineStatus::Loading => StatusLine {
            tone: Tone::Warn,
            text: "正在加载识别模型，第一次会慢一些…".to_owned(),
        },
        EngineStatus::Failed(e) => {
            let mut text = "加载失败：".to_owned();
            text.append(e.as_str());
            StatusLine { tone: Tone::Bad, text }
        },
    }
}

/// Whether the settings ask for the other backend than the default.
pub open spec fn wants_funasr(settings: ConfigFile) -> bool {
    or_text(settings.asr_backend, DEFAULT_BACKEND@) == FUNASR_BACKEND@
}

fn asks_for_funasr(settings: &ConfigFile) -> (r: bool)
    ensures
        r == wants_funasr(*settings),
{
    same_text(text_or(&settings.asr_backend, DEFAULT_BACKEND).as_str(), FUNASR_BACKEND)
}

/// The backend's name on the overview.
pub fn backend_name(settings: &ConfigFile) -> (r: &'static str)
    ensures
        r@ == (if wants_funasr(*settings) {
            "FunASR Nano"@
        } else {
            "SenseVoice"@
        }),
{
    if asks_for_funasr(settings) {
        "FunASR Nano"
    } else {
        "SenseVoice"
    }
}

/// The file the chosen recogniser cannot do without.
pub fn expected_model(settings: &ConfigFile) -> (r: String)
    ensures
        r@ == (if wants_funasr(*settings) {
            or_text(settings.funasr_encoder_adaptor, DEFAULT_FUNASR_ENCODER_ADAPTOR@)
        } else {
            or_text(settings.model, DEFAULT_MODEL@)
        }),
{
    if asks_for_funasr(settings) {
        text_or(&settings.funasr_encoder_adaptor, DEFAULT_FUNASR_ENCODER_ADAPTOR)
    } else {
        text_or(&settings.model, DEFAULT_MODEL)
    }
}

/// What is said of a model file that is not there.
pub fn missing_model(path: &str) -> (r: StatusLine)
    ensures
        r.tone == Tone::Warn,
        r.text@ == "找不到模型文件："@ + path@,
{
    let mut text = "找不到模型文件：".to_owned();
    text.append(path);
    StatusLine { tone: Tone::Warn, text }
}

/// How the hotkey is shown in the header.
pub fn hotkey_chip(ptt_key: &str) -> (r: String)
    ensures
        r@ == "按住 "@ + described(ptt_key@),
{
    let mut t = "按住 ".to_owned();
    t.append(describe_ptt_key(ptt_key).as_str());
    t
}

/// How the platform is shown in the header.
pub fn platform_chip(platform: &str, session: &str) -> (r: String)
    ensures
        r@ == platform@ + " · "@ + session@,
{
    let mut t = platform.to_owned();
    t.append(" · ");
    t.append(session);
    t
}

// ── Microphone ───────────────────────────────────────────────────────────────

/// The device that will be recorded from: the chosen one where it is there, else the default.
pub open spec fn effective_device(
    chosen: Option<Seq<char>>,
    devices: Seq<Seq<char>>,
    default: Option<Seq<char>>,
) -> Option<Seq<char>> {
    match chosen {
        Some(name) => if devices.contains(name) {
            Some(name)
        } else {
            default
        },
        None => default,
    }
}

/// The device that will be recorded from.
pub fn effective_input_device_name(
    chosen: &Option<String>,
    devices: &Vec<String>,
    default: &Option<String>,
) -> (r: Option<String>)
    ensures
        opt_view(r) == effective_device(opt_view(*chosen), views(devices@), opt_view(*default)),
{
    if let Some(name) = chosen {
        if lists(devices, name.as_str()) {
            return Some(name.clone());
        }
    }
    default.clone()
}

/// How the microphone is shown in the wizard.
pub fn microphone_line(device: &Option<String>) -> (r: StatusLine)
    ensures
        match *device {
            Some(name) => r.tone == Tone::Good && r.text@ == "麦克风："@ + name@,
            None => r.tone == Tone::Bad && r.text@ == "没有检测到可用麦克风"@,
        },
{
    match device {
        Some(name) => {
            let mut text = "麦克风：".to_owned();
            text.append(name.as_str());
            StatusLine { tone: Tone::Good, text }
        },
        None => StatusLine { tone: Tone::Bad, text: "没有检测到可用麦克风".to_owned() },
    }
}

/// How the system default is offered.
pub open spec fn default_label(default: Option<Seq<char>>) -> Seq<char> {
    match default {
        Some(name) => "系统默认 · "@ + name,
        None => "系统默认"@,
    }
}

/// How a device is offered.
pub open spec fn device_label(name: Seq<char>, default: Option<Seq<char>>) -> Seq<char> {
    if default == Some(name) {
        name + " · 系统默认"@
    } else {
        name
    }
}

/// The devices on offer, each with what choosing it stores and how it is called: the default,
/// then those that are there, then the chosen one where it is not.
pub open spec fn device_options(
    chosen: Option<Seq<char>>,
    devices: Seq<Seq<char>>,
    default: Option<Seq<char>>,
) -> Seq<(Option<Seq<char>>, Seq<char>)> {
    seq![(None::<Seq<char>>, default_label(default))] + devices.map_values(
        |name: Seq<char>| (Some(name), device_label(name, default)),
    ) + (match chosen {
        Some(name) => if devices.contains(name) {
            seq![]
        } else {
            seq![(Some(name), name + " · 当前不可用"@)]
        },
        None => seq![],
    })
}

/// A device on offer: what choosing it stores, and how it is called.
pub struct DeviceOption {
    pub value: Option<String>,
    pub label: String,
}

/// The contents of a list of offers.
pub open spec fn option_views(list: Seq<DeviceOption>) -> Seq<(Option<Seq<char>>, Seq<char>)> {
    list.map_values(|o: DeviceOption| (opt_view(o.value), o.label@))
}

/// The devices on offer.
pub fn input_device_options(
    chosen: &Option<String>,
    devices: &Vec<String>,
    default: &Option<String>,
) -> (r: Vec<DeviceOption>)
    ensures
        option_views(r@) == device_options(
            opt_view(*chosen),
            views(devices@),
            opt_view(*default),
        ),
{
    let ghost names = views(devices@);
    let ghost d = opt_view(*default);
    let ghost all = names.map_values(|name: Seq<char>| (Some(name), device_label(name, d)));
    let mut list: Vec<DeviceOption> = Vec::new();
    let label = match default {
        Some(name) => {
            let mut l = "系统默认 · ".to_owned();
            l.append(name.as_str());
            l
        },
        None => "系统默认".to_owned(),
    };
    list.push(DeviceOption { value: None, label });
    let ghost head = option_views(list@);
    proof {
        assert(head =~= seq![(None::<Seq<char>>, default_label(d))]);
        assert(head + all.take(0) =~= head);
    }
    let n: usize = devices.len();
    let mut i: usize = 0;
    while i < n
        invariant
            i <= n,
            n == devices@.len(),
            names == views(devices@),
            d == opt_view(*default),
            all == names.map_values(|name: Seq<char>| (Some(name), device_label(name, d))),
            option_views(list@) == head + all.take(i as int),
        decreases n - i,
    {
        let ghost had = option_views(list@);
        let name = &devices[i];
        let is_default = match default {
            Some(x) => same_text(x.as_str(), name.as_str()),
            None => false,
        };
        let mut label = name.clone();
        if is_default {
            label.append(" · 系统默认");
        }
        list.push(DeviceOption { value: Some(name.clone()), label });
        proof {
            assert(all[i as int] == (Some(names[i as int]), device_label(names[i as int], d)));
            assert(option_views(list@) =~= had.push(all[i as int]));
            assert(option_views(list@) =~= head + all.take(i + 1));
        }
        i = i + 1;
    }
    proof {
        assert(all.take(n as int) =~= all);
    }
    let ghost had = option_views(list@);
    match chosen {
        Some(name) if !lists(devices, name.as_str()) => {
            let mut label = name.clone();
            label.append(" · 当前不可用");
            list.push(DeviceOption { value: Some(name.clone()), label });
            proof {
                assert(option_views(list@) =~= had + seq![(Some(name@), name@ + " · 当前不可用"@)]);
            }
        },
        _ => {
            proof {
                assert(had + Seq::<(Option<Seq<char>>, Seq<char>)>::empty() =~= had);
            }
        },
    }
    list
}

/// What is said of the chosen device: a warning where it is not there, else when the choice takes
/// effect.
pub fn device_note(chosen: &Option<String>, devices: &Vec<String>) -> (r: (bool, String))
    ensures
        match *chosen {
            Some(name) if !views(devices@).contains(name@) => r.0 && r.1@ == name@
                + " 当前不可用，录音时会自动回退到系统默认麦克风"@,
            _ => !r.0 && r.1@
                == "切换将在下一次按住快捷键时生效，不会打断正在进行的录音。"@,
        },
{
    match chosen {
        Some(name) if !lists(devices, name.as_str()) => {
            let mut t = name.clone();
            t.append(" 当前不可用，录音时会自动回退到系统默认麦克风");
            (true, t)
        },
        _ => (
            false,
            "切换将在下一次按住快捷键时生效，不会打断正在进行的录音。".to_owned(),
        ),
    }
}

// ── Choices ──────────────────────────────────────────────────────────────────

/// The hotkey in force.
pub fn current_hotkey(settings: &ConfigFile) -> (r: String)
    ensures
        r@ == or_text(settings.ptt_key, DEFAULT_PTT_KEY@),
{
    text_or(&settings.ptt_key, DEFAULT_PTT_KEY)
}

/// What is said of a hotkey that is none of those on offer.
pub fn custom_hotkey_hint(current: &str) -> (r: Option<String>)
    ensures
        match r {
            Some(t) => preset_label(current@) is None && t@ == "当前使用自定义组合键："@ + current@,
            None => preset_label(current@) is Some,
        },
{
    let presets = ptt_presets();
    let mut i: usize = 0;
    while i < 5
        invariant
            i <= 5,
            presets@.len() == 5,
            presets@[0].spec@ == "CapsLock"@,
            presets@[1].spec@ == "RightCtrl"@,
            presets@[2].spec@ == "RightAlt"@,
            presets@[3].spec@ == "LeftCtrl+LeftAlt"@,
            presets@[4].spec@ == "ScrollLock"@,
            forall|j: int| 0 <= j < i ==> #[trigger] presets@[j].spec@ != current@,
        decreases 5 - i,
    {
        if same_text(presets[i].spec, current) {
            return None;
        }
        i = i + 1;
    }
    proof {
        assert(presets@[0].spec@ != current@);
        assert(presets@[1].spec@ != current@);
        assert(presets@[2].spec@ != current@);
        assert(presets@[3].spec@ != current@);
        assert(presets@[4].spec@ != current@);
    }
    let mut t = "当前使用自定义组合键：".to_owned();
    t.append(current);
    Some(t)
}

/// Something to choose: what is stored, how it is called, and why one would choose it.
#[derive(Clone, Copy, Debug)]
pub struct Choice {
    pub value: &'static str,
    pub label: &'static str,
    pub description: &'static str,
}

/// The contents of a choice.
pub open spec fn choice_view(c: Choice) -> (Seq<char>, Seq<char>, Seq<char>) {
    (c.value@, c.label@, c.description@)
}

/// The backends on offer.
pub fn backends() -> (r: Vec<Choice>)
    ensures
        r@.map_values(|c: Choice| choice_view(c)) == seq![
            ("sense-voice"@, "SenseVoice"@, "中英日韩粤，速度快，默认"@),
            ("funasr-nano"@, "FunASR Nano"@, "中文更稳，占用更高"@),
        ],
{
    let r: Vec<Choice> = vec![
        Choice {
            value: "sense-voice",
            label: "SenseVoice",
            description: "中英日韩粤，速度快，默认",
        },
        Choice { value: "funasr-nano", label: "FunASR Nano", description: "中文更稳，占用更高" },
    ];
    proof {
        assert(r@.map_values(|c: Choice| choice_view(c)) =~= seq![
            ("sense-voice"@, "SenseVoice"@, "中英日韩粤，速度快，默认"@),
            ("funasr-nano"@, "FunASR Nano"@, "中文更稳，占用更高"@),
        ]);
    }
    r
}

/// The backend in force.
pub fn current_backend(settings: &ConfigFile) -> (r: String)
    ensures
        r@ == or_text(settings.asr_backend, DEFAULT_BACKEND@),
{
    text_or(&settings.asr_backend, DEFAULT_BACKEND)
}

/// The languages on offer.
pub fn languages() -> (r: Vec<Choice>)
    ensures
        r@.map_values(|c: Choice| choice_view(c)) == seq![
            ("auto"@, "自动"@, ""@),
            ("zh"@, "中文"@, ""@),
            ("en"@, "English"@, ""@),
            ("ja"@, "日本語"@, ""@),
            ("ko"@, "한국어"@, ""@),
            ("yue"@, "粤语"@, ""@),
        ],
{
    let r: Vec<Choice> = vec![
        Choice { value: "auto", label: "自动", description: "" },
        Choice { value: "zh", label: "中文", description: "" },
        Choice { value: "en", label: "English", description: "" },
        Choice { value: "ja", label: "日本語", description: "" },
        Choice { value: "ko", label: "한국어", description: "" },
        Choice { value: "yue", label: "粤语", description: "" },
    ];
    proof {
        assert(r@.map_values(|c: Choice| choice_view(c)) =~= seq![
            ("auto"@, "自动"@, ""@),
            ("zh"@, "中文"@, ""@),
            ("en"@, "English"@, ""@),
            ("ja"@, "日本語"@, ""@),
            ("ko"@, "한국어"@, ""@),
            ("yue"@, "粤语"@, ""@),
        ]);
    }
    r
}

/// The language in force.
pub fn current_language(settings: &ConfigFile) -> (r: String)
    ensures
        r@ == or_text(settings.lang, DEFAULT_LANG@),
{
    text_or(&settings.lang, DEFAULT_LANG)
}

// ── Fonts ────────────────────────────────────────────────────────────────────

/// A change to the list of chosen fonts.
pub enum FontEdit {
    Remove(usize),
    /// Exchange two places.
    Swap(usize, usize),
    Add(String),
    /// Go back to the fonts the program comes with.
    Restore,
}

/// The chosen families; none for the fonts the program comes with.
pub open spec fn chosen_families(list: Option<Vec<String>>) -> Seq<Seq<char>> {
    match list {
        Some(v) => views(v@),
        None => seq![],
    }
}

/// Whether an edit speaks of places that exist.
pub open spec fn edit_fits(families: Seq<Seq<char>>, edit: FontEdit) -> bool {
    match edit {
        FontEdit::Remove(i) => i < families.len(),
        FontEdit::Swap(i, j) => i < families.len() && j < families.len(),
        FontEdit::Add(_) => true,
        FontEdit::Restore => true,
    }
}

/// The chosen families after an edit.
pub open spec fn edited(families: Seq<Seq<char>>, edit: FontEdit) -> Seq<Seq<char>> {
    match edit {
        FontEdit::Remove(i) => families.remove(i as int),
        FontEdit::Swap(i, j) => families.update(i as int, families[j as int]).update(
            j as int,
            families[i as int],
        ),
        FontEdit::Add(name) => families.push(name@),
        FontEdit::Restore => seq![],
    }
}

/// Changes the list of chosen fonts. An empty list is stored as none.
pub fn edit_fonts(list: Option<Vec<String>>, edit: FontEdit) -> (r: Option<Vec<String>>)
    requires
        edit_fits(chosen_families(list), edit),
    ensures
        chosen_families(r) == edited(chosen_families(list), edit),
        r matches Some(v) ==> v@.len() > 0,
{
    let ghost before = chosen_families(list);
    let mut families: Vec<String> = match list {
        Some(v) => v,
        None => Vec::new(),
    };
    proof {
        assert(views(families@) =~= before);
    }
    let ghost wanted = edited(before, edit);
    match edit {
        FontEdit::Remove(i) => {
            families.remove(i);
        },
        FontEdit::Swap(i, j) => {
            let a = families[i].clone();
            let b = families[j].clone();
            families.set(i, b);
            families.set(j, a);
        },
        FontEdit::Add(name) => {
            families.push(name);
        },
        FontEdit::Restore => {
            families = Vec::new();
        },
    }
    proof {
        assert(views(families@) =~= wanted);
    }
    if families.len() == 0 {
        proof {
            assert(wanted =~= Seq::<Seq<char>>::empty());
        }
        None
    } else {
        Some(families)
    }
}

/// Moving a font and moving it back changes nothing; nor does adding one and removing it.
pub proof fn font_edits_can_be_undone(families: Seq<Seq<char>>, i: usize, j: usize, name: String)
    requires
        i < families.len(),
        j < families.len(),
        families.len() < usize::MAX,
    ensures
        edited(edited(families, FontEdit::Swap(i, j)), FontEdit::Swap(j, i)) == families,
        edited(
            edited(families, FontEdit::Add(name)),
            FontEdit::Remove(families.len() as usize),
        ) == families,
{
    assert(edited(edited(families, FontEdit::Swap(i, j)), FontEdit::Swap(j, i)) =~= families);
    assert(edited(edited(families, FontEdit::Add(name)), FontEdit::Remove(families.len() as usize))
        =~= families);
}

/// Whether one of the fonts has this family name, in whatever ASCII case.
pub open spec fn is_installed(fonts: Seq<SystemFont>, family: Seq<char>) -> bool {
    exists|i: int|
        0 <= i < fonts.len() && ascii_lower_text((#[trigger] fonts[i]).family@) == ascii_lower_text(
            family,
        )
}

/// A row of the list of chosen fonts.
pub struct FontRow {
    pub number: String,
    pub label: String,
    pub installed: bool,
    pub can_rise: bool,
    pub can_sink: bool,
}

impl FontRow {
    /// Whether this is the row of a family at a place of the list.
    pub open spec fn shows(
        self,
        families: Seq<Seq<char>>,
        index: int,
        fonts: Seq<SystemFont>,
    ) -> bool {
        &&& self.number@ == decimal((index + 1) as nat)
        &&& self.installed == is_installed(fonts, families[index])
        &&& self.label@ == (if is_installed(fonts, families[index]) {
            families[index]
        } else {
            families[index] + "（未安装）"@
        })
        &&& self.can_rise == (index > 0)
        &&& self.can_sink == (index + 1 < families.len())
    }
}

fn installed(fonts: &Vec<SystemFont>, family: &str) -> (r: bool)
    ensures
        r == is_installed(fonts@, family@),
{
    let n: usize = fonts.len();
    let mut i: usize = 0;
    while i < n
        invariant
            i <= n,
            n == fonts@.len(),
            forall|j: int|
                0 <= j < i ==> ascii_lower_text((#[trigger] fonts@[j]).family@)
                    != ascii_lower_text(family@),
        decreases n - i,
    {
        if same_but_for_case(fonts[i].family.as_str(), family) {
            assert(ascii_lower_text(fonts@[i as int].family@) == ascii_lower_text(family@));
            return true;
        }
        i = i + 1;
    }
    false
}

/// A row of the list of chosen fonts.
pub fn font_row(families: &Vec<String>, index: usize, fonts: &Vec<SystemFont>) -> (r: FontRow)
    requires
        index < families@.len(),
    ensures
        r.shows(views(families@), index as int, fonts@),
{
    let count: usize = families.len();
    let there = installed(fonts, families[index].as_str());
    let mut label = families[index].clone();
    if !there {
        label.append("（未安装）");
    }
    FontRow {
        number: decimal_of(index as u64 + 1),
        label,
        installed: there,
        can_rise: index > 0,
        can_sink: index < count - 1,
    }
}

/// Whether a family matches what is searched for: everything does as long as nothing is.
pub open spec fn matches_search(family: Seq<char>, search: Seq<char>) -> bool {
    let query = lowercase(trim(search));
    query.len() == 0 || has(lowercase(family), query)
}

/// The places of the fonts that match a search.
pub open spec fn found(fonts: Seq<SystemFont>, search: Seq<char>) -> Seq<int>
    decreases fonts.len(),
{
    if fonts.len() == 0 {
        seq![]
    } else if matches_search(fonts.last().family@, search) {
        found(fonts.drop_last(), search).push(fonts.len() - 1)
    } else {
        found(fonts.drop_last(), search)
    }
}

/// The places of the fonts that match a search, in their order.
pub fn search_fonts(fonts: &Vec<SystemFont>, search: &str) -> (r: Vec<usize>)
    ensures
        r@.map_values(|i: usize| i as int) == found(fonts@, search@),
{
    let query = lowercased(trimmed(search).as_str());
    let everything = query.as_str().is_empty();
    let n: usize = fonts.len();
    let mut out: Vec<usize> = Vec::new();
    let mut i: usize = 0;
    proof {
        assert(out@.map_values(|i: usize| i as int) =~= found(fonts@.take(0), search@));
    }
    while i < n
        invariant
            i <= n,
            n == fonts@.len(),
            query@ == lowercase(trim(search@)),
            everything == (query@.len() == 0),
            out@.map_values(|i: usize| i as int) == found(fonts@.take(i as int), search@),
        decreases n - i,
    {
        let ghost had = out@.map_values(|i: usize| i as int);
        proof {
            let k = i as int;
            assert(fonts@.take(k + 1).drop_last() =~= fonts@.take(k));
            assert(fonts@.take(k + 1).last() == fonts@[k]);
        }
        if everything || contains_text(
            lowercased(fonts[i].family.as_str()).as_str(),
            query.as_str(),
        ) {
            out.push(i);
            proof {
                assert(out@.map_values(|i: usize| i as int) =~= had.push(i as int));
            }
        }
        i = i + 1;
    }
    proof {
        assert(fonts@.take(n as int) =~= fonts@);
    }
    out
}

/// Whether a family is among the chosen ones, in whatever ASCII case.
pub open spec fn is_chosen(families: Seq<Seq<char>>, family: Seq<char>) -> bool {
    exists|i: int|
        0 <= i < families.len() && ascii_lower_text(#[trigger] families[i]) == ascii_lower_text(
            family,
        )
}

/// How a font is offered: with a tick where it is chosen already. The flag tells whether it is.
pub fn font_offer(families: &Vec<String>, family: &str) -> (r: (bool, String))
    ensures
        r.0 == is_chosen(views(families@), family@),
        r.1@ == (if r.0 {
            "✓  "@ + family@
        } else {
            family@
        }),
{
    let ghost all = views(families@);
    let n: usize = families.len();
    let mut i: usize = 0;
    while i < n
        invariant
            i <= n,
            n == families@.len(),
            all == views(families@),
            forall|j: int|
                0 <= j < i ==> ascii_lower_text(#[trigger] all[j]) != ascii_lower_text(family@),
        decreases n - i,
    {
        if same_but_for_case(families[i].as_str(), family) {
            proof {
                assert(ascii_lower_text(all[i as int]) == ascii_lower_text(family@));
            }
            let mut t = "✓  ".to_owned();
            t.append(family);
            return (true, t);
        }
        i = i + 1;
    }
    (false, family.to_owned())
}

/// How many fonts there are, in words.
pub fn font_count(count: usize) -> (r: String)
    ensures
        r@ == "已检测到 "@ + decimal(count as nat) + " 种字体"@,
{
    let mut t = "已检测到 ".to_owned();
    t.append(decimal_of(count as u64).as_str());
    t.append(" 种字体");
    t
}

// ── What is promised of it all ───────────────────────────────────────────────

/// The themes have the colours they are known by.
pub proof fn themes_have_their_colours()
    ensures
        tokens_of(UiTheme::MorningPorcelain).bg == Rgb(246, 247, 251),
        tokens_of(UiTheme::MorningPorcelain).rail == Rgb(238, 241, 247),
        tokens_of(UiTheme::MorningPorcelain).card == Rgb(255, 255, 255),
        tokens_of(UiTheme::MorningPorcelain).card_hover == Rgb(239, 243, 252),
        tokens_of(UiTheme::MorningPorcelain).line == Rgb(218, 224, 235),
        tokens_of(UiTheme::MorningPorcelain).text == Rgb(25, 32, 45),
        tokens_of(UiTheme::MorningPorcelain).muted == Rgb(101, 115, 138),
        tokens_of(UiTheme::MorningPorcelain).accent == Rgb(102, 118, 232),
        tokens_of(UiTheme::MorningPorcelain).ok == Rgb(22, 160, 133),
        tokens_of(UiTheme::MorningPorcelain).warn == Rgb(190, 130, 46),
        tokens_of(UiTheme::MorningPorcelain).bad == Rgb(214, 77, 97),
        tokens_of(UiTheme::GraphiteFocus).bg == Rgb(24, 25, 28),
        tokens_of(UiTheme::GraphiteFocus).rail == Rgb(28, 29, 33),
        tokens_of(UiTheme::GraphiteFocus).card == Rgb(37, 39, 44),
        tokens_of(UiTheme::GraphiteFocus).card_hover == Rgb(47, 49, 56),
        tokens_of(UiTheme::GraphiteFocus).line == Rgb(61, 64, 72),
        tokens_of(UiTheme::GraphiteFocus).text == Rgb(229, 231, 235),
        tokens_of(UiTheme::GraphiteFocus).muted == Rgb(155, 161, 173),
        tokens_of(UiTheme::GraphiteFocus).accent == Rgb(136, 184, 255),
        tokens_of(UiTheme::GraphiteFocus).ok == Rgb(72, 201, 158),
        tokens_of(UiTheme::GraphiteFocus).warn == Rgb(226, 169, 79),
        tokens_of(UiTheme::GraphiteFocus).bad == Rgb(239, 101, 120),
        tokens_of(UiTheme::DeepSeaAurora).bg == Rgb(13, 17, 24),
        tokens_of(UiTheme::DeepSeaAurora).rail == Rgb(16, 21, 30),
        tokens_of(UiTheme::DeepSeaAurora).card == Rgb(21, 27, 38),
        tokens_of(UiTheme::DeepSeaAurora).card_hover == Rgb(26, 33, 46),
        tokens_of(UiTheme::DeepSeaAurora).line == Rgb(38, 48, 65),
        tokens_of(UiTheme::DeepSeaAurora).text == Rgb(237, 241, 248),
        tokens_of(UiTheme::DeepSeaAurora).muted == Rgb(133, 147, 169),
        tokens_of(UiTheme::DeepSeaAurora).accent == Rgb(88, 132, 240),
        tokens_of(UiTheme::DeepSeaAurora).ok == Rgb(76, 211, 155),
        tokens_of(UiTheme::DeepSeaAurora).warn == Rgb(235, 176, 91),
        tokens_of(UiTheme::DeepSeaAurora).bad == Rgb(255, 104, 125),
{
}

/// The brightness of a colour: red, green and blue together.
pub open spec fn brightness(c: Rgb) -> int {
    c.0 + c.1 + c.2
}

/// In the light theme what is written is darker than what it is written on, in the others brighter;
/// what went well, what to heed and what went wrong are told apart in every theme.
pub proof fn what_is_written_can_be_read(theme: UiTheme)
    ensures
        ({
            let t = tokens_of(theme);
            &&& theme == UiTheme::MorningPorcelain ==> brightness(t.text) < brightness(t.muted)
                < brightness(t.rail) && brightness(t.muted) < brightness(t.card) && brightness(
                t.muted,
            ) < brightness(t.bg)
            &&& theme != UiTheme::MorningPorcelain ==> brightness(t.text) > brightness(t.muted)
                && brightness(t.muted) > brightness(t.card_hover) && brightness(t.muted)
                > brightness(t.card) && brightness(t.muted) > brightness(t.bg)
            &&& t.ok != t.warn && t.warn != t.bad && t.ok != t.bad
        }),
{
}

/// Edits are saved six tenths of a second after the last of them: waiting for as long as is said is
/// waiting for that moment.
pub proof fn saving_waits_six_tenths_of_a_second(m: DesktopModel, now: u64)
    ensures
        m.dirty_since is None ==> m.autosave(now) == Autosave::Nothing,
        m.dirty_since matches Some(at) ==> (at <= now && now - at >= 600_000_000 ==> m.autosave(now)
            == Autosave::Save),
        m.dirty_since matches Some(at) ==> (at <= now && now - at < 600_000_000 ==> (m.autosave(
            now,
        ) matches Autosave::Wait(left) && now + left == at + 600_000_000)),
{
}

/// The wizard goes step by step: from each of its three steps one back or one forward, never before
/// the first, and past the last it is finished; it can be skipped before the last. No click changes
/// anything else, and none does anything once the wizard is over.
pub proof fn the_wizard_goes_step_by_step(m: DesktopModel, click: WizardClick)
    requires
        m.wizard_step matches Some(step) ==> step <= 2,
    ensures
        ({
            let (new, finished) = m.clicked(click);
            &&& new.section == m.section && new.dirty_since == m.dirty_since && new.toast == m.toast
            &&& m.wizard_step is None ==> new.wizard_step is None && !finished
            &&& finished ==> m.wizard_step is Some && new.wizard_step is None
            &&& m.wizard_step matches Some(step) ==> match click {
                WizardClick::Back => !finished && new.wizard_step == Some(
                    (if step == 0 {
                        0
                    } else {
                        step - 1
                    }) as usize,
                ),
                WizardClick::Forward => {
                    &&& finished <==> step == 2
                    &&& step < 2 ==> new.wizard_step == Some((step + 1) as usize)
                },
                WizardClick::Skip => {
                    &&& finished <==> step < 2
                    &&& step == 2 ==> new.wizard_step == Some(2usize)
                },
            }
        }),
{
}

/// The message after saving names the numbers of fonts where some are missing, and else says whether
/// the recogniser is loaded again.
pub proof fn the_message_after_saving_tells_what_matters(
    reloading: bool,
    fonts: Option<(usize, usize)>,
)
    ensures
        ({
            let missing = fonts matches Some(f) && f.1 > 0;
            let (x, y) = fonts->0;
            &&& !missing && reloading ==> saved_message(reloading, fonts)
                == "已保存 · 正在重新加载模型"@
            &&& !missing && !reloading ==> saved_message(reloading, fonts) == "已保存 · 立即生效"@
            &&& missing ==> exists|loaded: Seq<char>, left_out: Seq<char>|
                #![trigger number_in(loaded), number_in(left_out)]
                number_in(loaded) == x && number_in(left_out) == y
                    && saved_message(reloading, fonts) == "已保存 · 已加载 "@ + loaded
                    + " 个字体，"@ + left_out + " 个字体不可用"@
        }),
{
    if let Some(f) = fonts {
        decimals_read_back(f.0 as nat);
        decimals_read_back(f.1 as nat);
        let loaded = decimal(f.0 as nat);
        let left_out = decimal(f.1 as nat);
        assert(number_in(loaded) == f.0 && number_in(left_out) == f.1);
    }
}

/// Only a file that names the other backend asks for it.
pub proof fn the_other_backend_is_asked_for_by_name(settings: ConfigFile)
    ensures
        settings.asr_backend is None ==> !wants_funasr(settings),
        settings.asr_backend matches Some(name) ==> (wants_funasr(settings) <==> name@
            == "funasr-nano"@),
{
    reveal_strlit("sense-voice");
    reveal_strlit("funasr-nano");
    assert("sense-voice"@[0] == 's' && "funasr-nano"@[0] == 'f');
}

/// The chosen device is recorded from where it is there, and the default one else.
pub proof fn the_chosen_device_counts_where_it_is_there(
    chosen: Seq<char>,
    devices: Seq<Seq<char>>,
    default: Option<Seq<char>>,
)
    ensures
        devices.contains(chosen) ==> effective_device(Some(chosen), devices, default) == Some(chosen),
        !devices.contains(chosen) ==> effective_device(Some(chosen), devices, default) == default,
        effective_device(None, devices, default) == default,
{
}

/// Every device can be chosen: the default comes first and stores no name, the others follow in their
/// order and store their own, and a chosen one that is not there is kept on offer at the end.
pub proof fn every_device_can_be_chosen(
    chosen: Option<Seq<char>>,
    devices: Seq<Seq<char>>,
    default: Option<Seq<char>>,
    i: int,
)
    ensures
        ({
            let list = device_options(chosen, devices, default);
            let gone = chosen is Some && !devices.contains(chosen->0);
            let n = devices.len();
            &&& list.len() == n + 1 + if gone {
                1int
            } else {
                0int
            }
            &&& list[0].0 is None
            &&& default is None ==> list[0].1 == "系统默认"@
            &&& default matches Some(name) ==> list[0].1 == "系统默认 · "@ + name
            &&& 0 <= i < n ==> list[i + 1].0 == Some(devices[i])
            &&& 0 <= i < n && default == Some(devices[i]) ==> list[i + 1].1 == devices[i]
                + " · 系统默认"@
            &&& 0 <= i < n && default != Some(devices[i]) ==> list[i + 1].1 == devices[i]
            &&& gone ==> list.last() == (chosen, chosen->0 + " · 当前不可用"@)
        }),
{
}

/// An edit of the chosen fonts does what it says and nothing else.
pub proof fn font_edits_do_what_they_say(
    families: Seq<Seq<char>>,
    i: usize,
    j: usize,
    k: int,
    name: String,
)
    requires
        i < families.len(),
        j < families.len(),
        0 <= k < families.len(),
    ensures
        ({
            let after = edited(families, FontEdit::Swap(i, j));
            &&& after.len() == families.len()
            &&& after[i as int] == families[j as int] && after[j as int] == families[i as int]
            &&& k != i && k != j ==> after[k] == families[k]
        }),
        ({
            let after = edited(families, FontEdit::Remove(i));
            &&& after.len() == families.len() - 1
            &&& k < i ==> after[k] == families[k]
            &&& k > i ==> after[k - 1] == families[k]
        }),
        ({
            let after = edited(families, FontEdit::Add(name));
            &&& after.len() == families.len() + 1
            &&& after[k] == families[k]
            &&& after.last() == name@
        }),
        edited(families, FontEdit::Restore).len() == 0,
        edit_fits(families, FontEdit::Swap(i, j)) && edit_fits(families, FontEdit::Remove(i))
            && edit_fits(families, FontEdit::Add(name)) && edit_fits(families, FontEdit::Restore),
{
}

/// A family is installed, or chosen, where one of that name is, in whatever ASCII case.
pub proof fn families_go_by_name(
    fonts: Seq<SystemFont>,
    families: Seq<Seq<char>>,
    family: Seq<char>,
    i: int,
)
    ensures
        0 <= i < fonts.len() && ascii_lower_text(fonts[i].family@) == ascii_lower_text(family)
            ==> is_installed(fonts, family),
        is_installed(fonts, family) ==> exists|k: int|
            0 <= k < fonts.len() && ascii_lower_text((#[trigger] fonts[k]).family@)
                == ascii_lower_text(family),
        0 <= i < families.len() && ascii_lower_text(families[i]) == ascii_lower_text(family)
            ==> is_chosen(families, family),
        is_chosen(families, family) ==> exists|k: int|
            0 <= k < families.len() && ascii_lower_text(#[trigger] families[k]) == ascii_lower_text(
                family,
            ),
{
}

/// A row gives the place of its family, counted from one, marks one that is not installed, and can be
/// moved wherever there is another.
pub proof fn rows_show_their_family(
    row: FontRow,
    families: Seq<Seq<char>>,
    index: int,
    fonts: Seq<SystemFont>,
)
    requires
        0 <= index < families.len(),
        row.shows(families, index, fonts),
    ensures
        number_in(row.number@) == index + 1,
        row.installed <==> is_installed(fonts, families[index]),
        row.installed ==> row.label@ == families[index],
        !row.installed ==> row.label@ == families[index] + "（未安装）"@,
        row.can_rise <==> index != 0,
        row.can_sink <==> index != families.len() - 1,
{
    decimals_read_back((index + 1) as nat);
}

/// A search finds every font whose family holds what is sought, without regard to case, and no other,
/// in their order; a blank search finds all.
pub proof fn a_search_finds_what_matches(fonts: Seq<SystemFont>, search: Seq<char>)
    ensures
        ({
            let at = found(fonts, search);
            let query = lowercase(trim(search));
            &&& forall|i: int|
                0 <= i < at.len() ==> 0 <= #[trigger] at[i] < fonts.len() && (query.len() == 0
                    || has(lowercase(fonts[at[i]].family@), query))
            &&& forall|k: int|
                0 <= k < fonts.len() && (query.len() == 0 || has(
                    lowercase(fonts[k].family@),
                    query,
                )) ==> #[trigger] at.contains(k)
            &&& forall|i: int, j: int|
                0 <= i < j < at.len() ==> #[trigger] at[i] < #[trigger] at[j]
        }),
    decreases fonts.len(),
{
    if fonts.len() > 0 {
        let front = fonts.drop_last();
        a_search_finds_what_matches(front, search);
        let rest = found(front, search);
        let at = found(fonts, search);
        let query = lowercase(trim(search));
        assert forall|k: int|
            0 <= k < fonts.len() && (query.len() == 0 || has(
                lowercase(fonts[k].family@),
                query,
            )) implies #[trigger] at.contains(k) by {
            if k < front.len() {
                assert(front[k] == fonts[k]);
                assert(rest.contains(k));
                let i = choose|i: int| 0 <= i < rest.len() && rest[i] == k;
                assert(at[i] == k);
            } else {
                assert(at[rest.len() as int] == k);
            }
        }
        assert forall|i: int| 0 <= i < at.len() implies 0 <= #[trigger] at[i] < fonts.len() && (
        query.len() == 0 || has(lowercase(fonts[at[i]].family@), query)) by {
            if i < rest.len() {
                assert(at[i] == rest[i]);
                assert(front[rest[i]] == fonts[rest[i]]);
            }
        }
        assert forall|i: int, j: int| 0 <= i < j < at.len() implies #[trigger] at[i]
            < #[trigger] at[j] by {
            assert(at[i] == rest[i]);
            if j < rest.len() {
                assert(at[j] == rest[j]);
            }
        }
    }
}

/// Choices, offers and chosen families are read off as they are.
pub proof fn offers_are_read_off(
    c: Choice,
    list: Seq<DeviceOption>,
    chosen: Option<Vec<String>>,
    i: int,
)
    ensures
        choice_view(c) == (c.value@, c.label@, c.description@),
        option_views(list).len() == list.len(),
        0 <= i < list.len() ==> option_views(list)[i] == (opt_view(list[i].value), list[i].label@),
        chosen is None ==> chosen_families(chosen).len() == 0,
        chosen matches Some(v) ==> chosen_families(chosen) == views(v@),
{
}

}
