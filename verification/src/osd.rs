//! The push-to-talk overlay: a floating card that appears while the hotkey is held, follows the
//! voice with a waveform, streams the transcript in as it is recognised, and goes away once the
//! text has landed.
//!
//! Times are nanoseconds of a clock that never goes back.

use vstd::prelude::*;
use vstd::string::*;

use crate::config::UiTheme;
use crate::platform::OverlayCompositing;
use crate::single::Single;
use crate::text::{chars_of, same_text, trim, trimmed};
use crate::ui::{Rgb, ThemeTokens, tokens_of};
use crate::wave::{
    WAVE_STEP, a_flat_waveform_is_within_bounds, bars_stay_within_bounds, clamped, drawable, flat,
    flat_wave, raise, raised, zero,
};

verus! {

/// Bars of the waveform.
pub const WAVE_SLOTS: usize = 30;

/// How long the surface is kept to fade out.
pub const FADE_OUT: u64 = 180_000_000;

/// How long a result is shown at least.
pub const DONE_VISIBLE_FOR: u64 = 1_500_000_000;

/// How much longer a result is shown for each of its characters.
pub const DONE_PER_CHAR: u64 = 26_000_000;

/// How many characters lengthen the showing of a result.
pub const DONE_CHARS: u64 = 60;

/// How long a notice is shown.
pub const NOTICE_VISIBLE_FOR: u64 = 2_600_000_000;

/// Time between two frames of a moving overlay.
pub const FRAME_TIME: u64 = 33_000_000;

/// Lines of the transcript that stay on screen.
pub const BODY_MAX_ROWS: usize = 3;

/// The overlay's size, in points.
pub const CANVAS: (i32, i32) = (760, 260);

/// How far down the card stands in the overlay.
pub const CARD_TOP: i32 = 26;

/// The card's width while listening.
pub const CARD_WIDTH_LIVE: i32 = 470;

/// The window title the overlay is found by.
pub const OVERLAY_TITLE: &'static str = "auto-voice status";

/// Where the card's corner stands in the overlay while listening.
pub fn card_inset() -> (r: (i32, i32))
    ensures
        2 * r.0 == CANVAS.0 - CARD_WIDTH_LIVE,
        r.1 == CARD_TOP,
        r == (145i32, 26i32),
{
    (145, CARD_TOP)
}

/// What the overlay is about.
#[derive(Clone, Copy, Debug, PartialEq, Eq, Structural)]
pub enum OsdPhase {
    Hidden,
    /// The hotkey is held and the microphone is open.
    Listening,
    /// The hotkey was released; recognition runs.
    Processing,
    /// The text was recognised; a language model polishes it.
    Optimizing,
    /// The text was inserted and is shown for a moment.
    Done,
    /// Nothing was inserted.
    Notice,
}

/// The time from one moment to another, nought if the other comes first.
pub open spec fn since(then: u64, now: u64) -> u64 {
    if now >= then {
        (now - then) as u64
    } else {
        0
    }
}

/// The time from one moment to another.
pub(crate) fn time_since(then: u64, now: u64) -> (r: u64)
    ensures
        r == since(then, now),
{
    if now >= then {
        now - then
    } else {
        0
    }
}

/// How long a result of some length is shown: longer ones longer, but never very long.
pub open spec fn showing_time(chars: nat) -> u64 {
    (DONE_VISIBLE_FOR + DONE_PER_CHAR * (if chars <= DONE_CHARS {
        chars as int
    } else {
        DONE_CHARS as int
    })) as u64
}

/// How long a result is shown.
pub fn visible_for(text: &str) -> (r: u64)
    ensures
        r == showing_time(text@.len()),
{
    let n: usize = chars_of(text).len();
    let counted: u64 = if n as u64 <= DONE_CHARS {
        n as u64
    } else {
        DONE_CHARS
    };
    DONE_VISIBLE_FOR + DONE_PER_CHAR * counted
}

/// Longer results stay longer, up to a bound.
pub proof fn longer_results_stay_longer(a: nat, b: nat)
    requires
        a <= b,
    ensures
        showing_time(a) <= showing_time(b),
        a < b && a < DONE_CHARS ==> showing_time(a) < showing_time(b),
        DONE_VISIBLE_FOR <= showing_time(a) <= 3_060_000_000,
{
}

/// The overlay's state.
#[verifier::ext_equal]
pub struct OsdModel {
    pub phase: OsdPhase,
    pub level: Single,
    pub levels: Seq<Single>,
    pub last_level_at: u64,
    pub recording_started: Option<u64>,
    pub elapsed: u64,
    pub changed_at: u64,
    /// Until when the hidden surface fades.
    pub fading_until: u64,
    pub text: Seq<char>,
    pub partial: Seq<char>,
    pub warn: bool,
    pub hotkey: Seq<char>,
    pub follow_caret: bool,
    pub theme: UiTheme,
}

impl OsdModel {
    /// The waveform has its full number of bars, and they and the level are clamped.
    pub open spec fn wf(self) -> bool {
        self.levels.len() == WAVE_SLOTS && clamped(self.levels) && self.level.unit() == self.level
    }

    /// Every bar of the waveform and the level are numbers between nought and one.
    pub open spec fn paintable(self) -> bool {
        drawable(self.levels) && drawable(seq![self.level])
    }

    /// How long the recording has been running, or ran.
    pub open spec fn recorded_for(self, now: u64) -> u64 {
        match self.recording_started {
            Some(started) => since(started, now),
            None => self.elapsed,
        }
    }

    /// A dictation begins.
    pub open spec fn recording(self, now: u64) -> OsdModel {
        OsdModel {
            phase: OsdPhase::Listening,
            level: zero(),
            levels: flat(WAVE_SLOTS as nat),
            recording_started: Some(now),
            elapsed: 0,
            changed_at: now,
            text: Seq::empty(),
            partial: Seq::empty(),
            warn: false,
            ..self
        }
    }

    /// Whether the transcript so far is shown.
    pub open spec fn streams(self) -> bool {
        self.phase == OsdPhase::Listening || self.phase == OsdPhase::Processing
    }

    /// The transcript so far has become this.
    pub open spec fn with_partial(self, text: Seq<char>) -> OsdModel {
        if self.streams() {
            OsdModel { partial: trim(text), ..self }
        } else {
            self
        }
    }

    /// The hotkey was released.
    pub open spec fn processing(self, now: u64) -> OsdModel {
        OsdModel {
            phase: OsdPhase::Processing,
            level: zero(),
            recording_started: None,
            elapsed: self.recorded_for(now),
            changed_at: now,
            ..self
        }
    }

    /// The text was recognised and is being polished.
    pub open spec fn optimizing(self, now: u64) -> OsdModel {
        OsdModel { phase: OsdPhase::Optimizing, ..self.processing(now) }
    }

    /// The text made it into the application in front.
    pub open spec fn done(self, text: Seq<char>, now: u64) -> OsdModel {
        OsdModel {
            phase: OsdPhase::Done,
            level: zero(),
            recording_started: None,
            elapsed: self.recorded_for(now),
            changed_at: now,
            text: trim(text),
            partial: Seq::empty(),
            warn: false,
            ..self
        }
    }

    /// Nothing was inserted, for this reason.
    pub open spec fn notice(self, message: Seq<char>, warn: bool, now: u64) -> OsdModel {
        OsdModel {
            phase: OsdPhase::Notice,
            level: zero(),
            recording_started: None,
            changed_at: now,
            text: message,
            partial: Seq::empty(),
            warn,
            ..self
        }
    }

    /// The overlay goes away.
    pub open spec fn hidden(self, now: u64) -> OsdModel {
        OsdModel {
            phase: OsdPhase::Hidden,
            level: zero(),
            recording_started: None,
            elapsed: 0,
            changed_at: now,
            fading_until: if now <= u64::MAX - FADE_OUT {
                (now + FADE_OUT) as u64
            } else {
                u64::MAX
            },
            text: Seq::empty(),
            partial: Seq::empty(),
            ..self
        }
    }

    /// The microphone's level has become this, and the waveform takes it in.
    pub open spec fn leveled(self, level: Single, now: u64) -> OsdModel {
        if self.phase != OsdPhase::Listening {
            self
        } else {
            let fresh = since(self.last_level_at, now) >= WAVE_STEP;
            OsdModel {
                level: level.unit(),
                last_level_at: if fresh {
                    now
                } else {
                    self.last_level_at
                },
                levels: raised(self.levels, level, fresh),
                ..self
            }
        }
    }

    /// How long a card that tells of an end is shown.
    pub open spec fn linger(self) -> Option<u64> {
        match self.phase {
            OsdPhase::Done => Some(showing_time(self.text.len())),
            OsdPhase::Notice => Some(NOTICE_VISIBLE_FOR),
            _ => None,
        }
    }

    /// A card that was shown long enough goes away.
    pub open spec fn ticked(self, now: u64) -> OsdModel {
        match self.linger() {
            Some(linger) => if since(self.changed_at, now) >= linger {
                self.hidden(now)
            } else {
                self
            },
            None => self,
        }
    }

    /// Whether the native surface is to be shown. Windows keeps it, since showing a window again
    /// would steal the focus there.
    pub open spec fn surface(self, windows: bool, now: u64) -> bool {
        windows || self.phase != OsdPhase::Hidden || now < self.fading_until
    }
}

/// What is painted of the overlay.
pub struct OsdSnapshot {
    pub phase: OsdPhase,
    pub level: Single,
    pub elapsed: u64,
    pub changed_at: u64,
    pub text: String,
    /// What has been recognised so far, still subject to change.
    pub partial: String,
    pub warn: bool,
    pub hotkey: String,
    pub levels: Vec<Single>,
    pub theme: UiTheme,
}

impl OsdSnapshot {
    /// Whether this is what is to be painted of a state.
    pub open spec fn shows(self, m: OsdModel, now: u64) -> bool {
        &&& self.phase == m.phase
        &&& self.level == m.level
        &&& self.elapsed == m.recorded_for(now)
        &&& self.changed_at == m.changed_at
        &&& self.text@ == m.text
        &&& self.partial@ == m.partial
        &&& self.warn == m.warn
        &&& self.hotkey@ == m.hotkey
        &&& self.levels@ == m.levels
        &&& self.theme == m.theme
    }
}

/// The overlay, as the speech pipeline talks to it.
pub struct OsdHandle {
    phase: OsdPhase,
    level: Single,
    levels: Vec<Single>,
    last_level_at: u64,
    recording_started: Option<u64>,
    elapsed: u64,
    changed_at: u64,
    fading_until: u64,
    text: String,
    partial: String,
    warn: bool,
    hotkey: String,
    follow_caret: bool,
    theme: UiTheme,
}

impl View for OsdHandle {
    type V = OsdModel;

    closed spec fn view(&self) -> OsdModel {
        OsdModel {
            phase: self.phase,
            level: self.level,
            levels: self.levels@,
            last_level_at: self.last_level_at,
            recording_started: self.recording_started,
            elapsed: self.elapsed,
            changed_at: self.changed_at,
            fading_until: self.fading_until,
            text: self.text@,
            partial: self.partial@,
            warn: self.warn,
            hotkey: self.hotkey@,
            follow_caret: self.follow_caret,
            theme: self.theme,
        }
    }
}

/// An empty text.
pub(crate) fn no_text() -> (r: String)
    ensures
        r@ == Seq::<char>::empty(),
{
    let r = String::new();
    proof {
        assert(r@ =~= Seq::<char>::empty());
    }
    r
}

impl OsdHandle {
    /// The waveform has its full number of bars, and they and the level are clamped.
    pub open spec fn wf(self) -> bool {
        self@.wf()
    }

    /// An overlay that is hidden.
    pub fn new(now: u64) -> (r: OsdHandle)
        ensures
            r.wf(),
            r@ == (OsdModel {
                phase: OsdPhase::Hidden,
                level: zero(),
                levels: flat(WAVE_SLOTS as nat),
                last_level_at: now,
                recording_started: None,
                elapsed: 0,
                changed_at: now,
                fading_until: now,
                text: Seq::empty(),
                partial: Seq::empty(),
                warn: false,
                hotkey: "Caps Lock"@,
                follow_caret: true,
                theme: UiTheme::DeepSeaAurora,
            }),
    {
        proof {
            a_flat_waveform_is_within_bounds(WAVE_SLOTS as nat);
        }
        OsdHandle {
            phase: OsdPhase::Hidden,
            level: Single { bits: 0 },
            levels: flat_wave(WAVE_SLOTS),
            last_level_at: now,
            recording_started: None,
            elapsed: 0,
            changed_at: now,
            fading_until: now,
            text: no_text(),
            partial: no_text(),
            warn: false,
            hotkey: "Caps Lock".to_owned(),
            follow_caret: true,
            theme: UiTheme::DeepSeaAurora,
        }
    }

    /// Name the hotkey as it is shown while listening.
    pub fn set_hotkey_label(&mut self, label: String)
        requires
            old(self).wf(),
        ensures
            final(self).wf(),
            final(self)@ == (OsdModel { hotkey: label@, ..old(self)@ }),
    {
        self.hotkey = label;
    }

    /// Keep the wish to have the overlay at the caret, as the settings have it. Where the overlay
    /// stands does not depend on it.
    pub fn set_follow_caret(&mut self, follow: bool)
        requires
            old(self).wf(),
        ensures
            final(self).wf(),
            final(self)@ == (OsdModel { follow_caret: follow, ..old(self)@ }),
    {
        self.follow_caret = follow;
    }

    /// Paint with the colours of a theme from now on.
    pub fn set_theme(&mut self, theme: UiTheme)
        requires
            old(self).wf(),
        ensures
            final(self).wf(),
            final(self)@ == (OsdModel { theme, ..old(self)@ }),
    {
        self.theme = theme;
    }

    /// The wish to have the overlay at the caret.
    pub fn follows_caret(&self) -> (r: bool)
        ensures
            r == self@.follow_caret,
    {
        self.follow_caret
    }

    /// A dictation begins.
    pub fn set_recording(&mut self, now: u64)
        ensures
            final(self).wf(),
            final(self)@ == old(self)@.recording(now),
    {
        self.phase = OsdPhase::Listening;
        self.level = Single { bits: 0 };
        proof {
            a_flat_waveform_is_within_bounds(WAVE_SLOTS as nat);
        }
        self.levels = flat_wave(WAVE_SLOTS);
        self.recording_started = Some(now);
        self.elapsed = 0;
        self.changed_at = now;
        self.text = no_text();
        self.partial = no_text();
        self.warn = false;
    }

    /// Everything recognised so far. It replaces what was shown, since the recogniser may revise
    /// words; outside a dictation it is ignored. True if there is something new to paint.
    pub fn set_partial(&mut self, text: &str) -> (r: bool)
        requires
            old(self).wf(),
        ensures
            final(self).wf(),
            final(self)@ == old(self)@.with_partial(text@),
            r == (final(self)@ != old(self)@),
    {
        if self.phase != OsdPhase::Listening && self.phase != OsdPhase::Processing {
            return false;
        }
        let shown = trimmed(text);
        if same_text(self.partial.as_str(), shown.as_str()) {
            proof {
                assert(self@ =~= old(self)@.with_partial(text@));
            }
            return false;
        }
        self.partial = shown;
        proof {
            assert(self@.partial != old(self)@.partial);
        }
        true
    }

    fn stop_clock(&mut self, now: u64)
        ensures
            final(self)@ == (OsdModel {
                recording_started: None,
                elapsed: old(self)@.recorded_for(now),
                ..old(self)@
            }),
    {
        if let Some(started) = self.recording_started {
            self.elapsed = time_since(started, now);
            self.recording_started = None;
        }
    }

    /// The hotkey was released.
    pub fn set_processing(&mut self, now: u64)
        requires
            old(self).wf(),
        ensures
            final(self).wf(),
            final(self)@ == old(self)@.processing(now),
    {
        self.stop_clock(now);
        self.phase = OsdPhase::Processing;
        self.level = Single { bits: 0 };
        self.changed_at = now;
    }

    /// The text was recognised and is being polished. The transcript so far stays on screen.
    pub fn set_optimizing(&mut self, now: u64)
        requires
            old(self).wf(),
        ensures
            final(self).wf(),
            final(self)@ == old(self)@.optimizing(now),
    {
        self.set_processing(now);
        self.phase = OsdPhase::Optimizing;
    }

    /// The text made it into the application in front.
    pub fn set_done(&mut self, text: &str, now: u64)
        requires
            old(self).wf(),
        ensures
            final(self).wf(),
            final(self)@ == old(self)@.done(text@, now),
    {
        self.stop_clock(now);
        self.phase = OsdPhase::Done;
        self.level = Single { bits: 0 };
        self.changed_at = now;
        self.text = trimmed(text);
        self.partial = no_text();
        self.warn = false;
    }

    /// Nothing was inserted. `warn` tells failures from speech that was not understood.
    pub fn set_notice(&mut self, message: String, warn: bool, now: u64)
        requires
            old(self).wf(),
        ensures
            final(self).wf(),
            final(self)@ == old(self)@.notice(message@, warn, now),
    {
        self.recording_started = None;
        self.phase = OsdPhase::Notice;
        self.level = Single { bits: 0 };
        self.changed_at = now;
        self.text = message;
        self.partial = no_text();
        self.warn = warn;
    }

    /// The overlay goes away.
    pub fn hide_overlay(&mut self, now: u64)
        requires
            old(self).wf(),
        ensures
            final(self).wf(),
            final(self)@ == old(self)@.hidden(now),
    {
        self.phase = OsdPhase::Hidden;
        self.level = Single { bits: 0 };
        self.recording_started = None;
        self.elapsed = 0;
        self.changed_at = now;
        self.fading_until = if now <= u64::MAX - FADE_OUT {
            now + FADE_OUT
        } else {
            u64::MAX
        };
        self.text = no_text();
        self.partial = no_text();
    }

    /// A new dictation has to wait until the last one's result was shown.
    pub fn can_recording_start(&self) -> (r: bool)
        ensures
            r == (self@.phase == OsdPhase::Hidden),
    {
        self.phase == OsdPhase::Hidden
    }

    /// The microphone's level. True if there is something new to paint.
    pub fn set_level(&mut self, level: Single, now: u64) -> (r: bool)
        requires
            old(self).wf(),
        ensures
            final(self).wf(),
            final(self)@ == old(self)@.leveled(level, now),
            r == (old(self)@.phase == OsdPhase::Listening),
    {
        if self.phase != OsdPhase::Listening {
            return false;
        }
        let fresh = time_since(self.last_level_at, now) >= WAVE_STEP;
        proof {
            bars_stay_within_bounds(self.levels@, level, fresh);
        }
        self.level = level.clamp_unit();
        if fresh {
            self.last_level_at = now;
        }
        raise(&mut self.levels, level, fresh);
        true
    }

    /// What is to be painted now.
    pub fn snapshot(&self, now: u64) -> (r: OsdSnapshot)
        ensures
            r.shows(self@, now),
    {
        OsdSnapshot {
            phase: self.phase,
            level: self.level,
            elapsed: match self.recording_started {
                Some(started) => time_since(started, now),
                None => self.elapsed,
            },
            changed_at: self.changed_at,
            text: self.text.clone(),
            partial: self.partial.clone(),
            warn: self.warn,
            hotkey: self.hotkey.clone(),
            levels: self.levels.clone(),
            theme: self.theme,
        }
    }

    /// Whether the native surface is to be shown.
    pub fn native_surface_visible(&self, windows: bool, now: u64) -> (r: bool)
        ensures
            r == self@.surface(windows, now),
    {
        windows || self.phase != OsdPhase::Hidden || now < self.fading_until
    }

    /// Retire a card that was shown long enough.
    pub fn tick(&mut self, now: u64)
        requires
            old(self).wf(),
        ensures
            final(self).wf(),
            final(self)@ == old(self)@.ticked(now),
    {
        let linger: u64 = match self.phase {
            OsdPhase::Done => visible_for(self.text.as_str()),
            OsdPhase::Notice => NOTICE_VISIBLE_FOR,
            _ => {
                return;
            },
        };
        if time_since(self.changed_at, now) >= linger {
            self.hide_overlay(now);
        }
    }
}

/// A dictation blocks the next one until the overlay is hidden again: of all that can happen to
/// it, only hiding frees it.
pub proof fn a_dictation_blocks_reentry(
    m: OsdModel,
    text: Seq<char>,
    warn: bool,
    level: Single,
    now: u64,
)
    ensures
        m.recording(now).phase != OsdPhase::Hidden,
        m.processing(now).phase != OsdPhase::Hidden,
        m.optimizing(now).phase != OsdPhase::Hidden,
        m.done(text, now).phase != OsdPhase::Hidden,
        m.notice(text, warn, now).phase != OsdPhase::Hidden,
        m.with_partial(text).phase == m.phase,
        m.leveled(level, now).phase == m.phase,
        m.hidden(now).phase == OsdPhase::Hidden,
{
}

/// A card that tells of a dictation under way is never retired by the clock, and one that tells
/// of an end is, once its time is over and not before.
pub proof fn only_results_are_retired(m: OsdModel, now: u64)
    ensures
        m.streams() || m.phase == OsdPhase::Optimizing ==> m.ticked(now) == m,
        m.linger() matches Some(linger) ==> (m.ticked(now).phase == OsdPhase::Hidden
            <==> since(m.changed_at, now) >= linger),
{
}

/// The transcript so far survives the release of the hotkey and the polishing, and is dropped with
/// the result; a late one overwrites neither.
pub proof fn the_partial_gives_way_to_the_result(
    m: OsdModel,
    result: Seq<char>,
    late: Seq<char>,
    now: u64,
)
    ensures
        m.processing(now).partial == m.partial,
        m.optimizing(now).partial == m.partial,
        m.optimizing(now).with_partial(late) == m.optimizing(now),
        m.done(result, now).partial.len() == 0,
        m.done(result, now).with_partial(late) == m.done(result, now),
        m.done(result, now).text == trim(result),
{
}

/// The waveform keeps its number of bars, whatever the level.
pub proof fn the_waveform_keeps_its_length(m: OsdModel, level: Single, now: u64)
    requires
        m.levels.len() == WAVE_SLOTS,
    ensures
        m.leveled(level, now).levels.len() == WAVE_SLOTS,
        m.phase == OsdPhase::Listening ==> m.leveled(level, now).level == level.unit(),
{
}

/// As long as levels are numbers, each bar of the waveform is one between nought and one, and so
/// is the level, whatever happens to the overlay.
pub proof fn the_waveform_stays_within_bounds(
    m: OsdModel,
    text: Seq<char>,
    warn: bool,
    level: Single,
    now: u64,
)
    requires
        m.wf(),
        m.paintable(),
        !level.nan(),
    ensures
        m.recording(now).paintable(),
        m.leveled(level, now).paintable(),
        m.with_partial(text).paintable(),
        m.processing(now).paintable(),
        m.optimizing(now).paintable(),
        m.done(text, now).paintable(),
        m.notice(text, warn, now).paintable(),
        m.hidden(now).paintable(),
        m.ticked(now).paintable(),
{
    a_flat_waveform_is_within_bounds(WAVE_SLOTS as nat);
    bars_stay_within_bounds(m.levels, level, since(m.last_level_at, now) >= WAVE_STEP);
}

/// The theme is the one that was set last: nothing else that happens to the overlay changes it.
pub proof fn the_theme_stays(m: OsdModel, text: Seq<char>, warn: bool, level: Single, now: u64)
    ensures
        m.recording(now).theme == m.theme,
        m.leveled(level, now).theme == m.theme,
        m.with_partial(text).theme == m.theme,
        m.processing(now).theme == m.theme,
        m.optimizing(now).theme == m.theme,
        m.done(text, now).theme == m.theme,
        m.notice(text, warn, now).theme == m.theme,
        m.hidden(now).theme == m.theme,
        m.ticked(now).theme == m.theme,
{
}

/// The surface outlives the card by the time it takes to fade, and no longer.
pub proof fn the_surface_fades(m: OsdModel, hidden_at: u64, now: u64)
    requires
        hidden_at <= u64::MAX - FADE_OUT,
    ensures
        m.hidden(hidden_at).surface(false, now) == (now < hidden_at + FADE_OUT),
{
}

// ── Painting ─────────────────────────────────────────────────────────────────

/// How long to wait before painting again: until the next frame of a moving overlay, or until a
/// card's time is over.
pub fn schedule_repaint(snapshot: &OsdSnapshot, now: u64) -> (r: u64)
    ensures
        r == (match snapshot.phase {
            OsdPhase::Done => left_of(
                showing_time(snapshot.text@.len()),
                since(snapshot.changed_at, now),
            ),
            OsdPhase::Notice => left_of(NOTICE_VISIBLE_FOR, since(snapshot.changed_at, now)),
            _ => FRAME_TIME,
        }),
        snapshot.phase != OsdPhase::Done && snapshot.phase != OsdPhase::Notice ==> r == 33_000_000,
        snapshot.phase == OsdPhase::Notice && snapshot.changed_at <= now ==> r == (if now
            - snapshot.changed_at <= 2_600_000_000 {
            2_600_000_000 - (now - snapshot.changed_at)
        } else {
            0
        }),
{
    let linger: u64 = match snapshot.phase {
        OsdPhase::Done => visible_for(snapshot.text.as_str()),
        OsdPhase::Notice => NOTICE_VISIBLE_FOR,
        _ => {
            return FRAME_TIME;
        },
    };
    let shown: u64 = time_since(snapshot.changed_at, now);
    if linger >= shown {
        linger - shown
    } else {
        0
    }
}

/// What is left of a time.
pub open spec fn left_of(total: u64, gone: u64) -> u64 {
    if total >= gone {
        (total - gone) as u64
    } else {
        0
    }
}

/// What the header shows beside the title.
#[derive(Clone, Copy, Debug, PartialEq, Eq, Structural)]
pub enum Meter {
    /// The waveform and the time.
    Wave,
    /// A shuttle, since recognition reports no progress.
    Sweep,
    /// Dots that swell one after the other while the text is polished.
    Pulse,
    /// The time alone.
    Elapsed,
    Nothing,
}

/// What the card says.
pub struct Content {
    pub title: &'static str,
    pub body: String,
    pub body_muted: bool,
    pub meter: Meter,
    /// Whether the card is as wide as its text; a text that is still growing has a fixed width.
    pub measured: bool,
}

impl Content {
    /// Whether this is what the card says for a snapshot.
    pub open spec fn tells(self, s: OsdSnapshot) -> bool {
        match s.phase {
            OsdPhase::Listening => {
                &&& self.title@ == "正在聆听"@
                &&& self.body@ == (if s.partial@.len() == 0 {
                    "松开 "@ + s.hotkey@ + " 插入文字"@
                } else {
                    s.partial@
                })
                &&& self.body_muted == (s.partial@.len() == 0)
                &&& self.meter == Meter::Wave
                &&& !self.measured
            },
            OsdPhase::Processing => {
                &&& self.title@ == "正在整理"@
                &&& self.body@ == (if s.partial@.len() == 0 {
                    "转写中…"@
                } else {
                    s.partial@
                })
                &&& self.body_muted == (s.partial@.len() == 0)
                &&& self.meter == Meter::Sweep
                &&& !self.measured
            },
            OsdPhase::Optimizing => {
                &&& self.title@ == "正在优化"@
                &&& self.body@ == (if s.partial@.len() == 0 {
                    "优化中…"@
                } else {
                    s.partial@
                })
                &&& self.body_muted == (s.partial@.len() == 0)
                &&& self.meter == Meter::Pulse
                &&& !self.measured
            },
            OsdPhase::Done => {
                &&& self.title@ == "已插入"@
                &&& self.body@ == s.text@
                &&& !self.body_muted
                &&& self.meter == Meter::Elapsed
                &&& self.measured
            },
            OsdPhase::Notice => {
                &&& self.title@ == "未插入"@
                &&& self.body@ == s.text@
                &&& !self.body_muted
                &&& self.meter == Meter::Nothing
                &&& self.measured
            },
            OsdPhase::Hidden => {
                &&& self.title@ == ""@
                &&& self.body@.len() == 0
                &&& self.body_muted
                &&& self.meter == Meter::Nothing
                &&& self.measured
            },
        }
    }

    /// What the card says for a snapshot.
    pub fn for_snapshot(snapshot: &OsdSnapshot) -> (r: Content)
        ensures
            r.tells(*snapshot),
    {
        let silent = snapshot.partial.as_str().is_empty();
        match snapshot.phase {
            OsdPhase::Listening => Content {
                title: "正在聆听",
                body: if silent {
                    let mut hint = "松开 ".to_owned();
                    hint.append(snapshot.hotkey.as_str());
                    hint.append(" 插入文字");
                    hint
                } else {
                    snapshot.partial.clone()
                },
                body_muted: silent,
                meter: Meter::Wave,
                measured: false,
            },
            OsdPhase::Processing => Content {
                title: "正在整理",
                body: if silent {
                    "转写中…".to_owned()
                } else {
                    snapshot.partial.clone()
                },
                body_muted: silent,
                meter: Meter::Sweep,
                measured: false,
            },
            OsdPhase::Optimizing => Content {
                title: "正在优化",
                body: if silent {
                    "优化中…".to_owned()
                } else {
                    snapshot.partial.clone()
                },
                body_muted: silent,
                meter: Meter::Pulse,
                measured: false,
            },
            OsdPhase::Done => Content {
                title: "已插入",
                body: snapshot.text.clone(),
                body_muted: false,
                meter: Meter::Elapsed,
                measured: true,
            },
            OsdPhase::Notice => Content {
                title: "未插入",
                body: snapshot.text.clone(),
                body_muted: false,
                meter: Meter::Nothing,
                measured: true,
            },
            OsdPhase::Hidden => Content {
                title: "",
                body: no_text(),
                body_muted: true,
                meter: Meter::Nothing,
                measured: true,
            },
        }
    }

    /// The body's colour.
    pub fn body_color(&self, palette: &Palette) -> (r: Ink)
        ensures
            r == (if self.body_muted {
                palette.muted
            } else {
                palette.text
            }),
    {
        if self.body_muted {
            palette.muted
        } else {
            palette.text
        }
    }
}

/// A colour.
#[derive(Clone, Copy, Debug, PartialEq, Eq, Structural)]
pub enum Ink {
    /// Red, green and blue.
    Opaque(u8, u8, u8),
    /// Red, green and blue, and how much of what is behind is covered.
    Translucent(u8, u8, u8, u8),
    /// White light of this strength.
    White(u8),
}

/// The card's colours. The border is the accent, thinned out.
#[derive(Clone, Copy, Debug, PartialEq, Eq, Structural)]
pub struct Palette {
    pub surface: Ink,
    pub rim: Ink,
    pub accent: Ink,
    pub title: Ink,
    pub text: Ink,
    pub muted: Ink,
}

/// A colour of a theme, without translucency.
pub open spec fn solid(c: Rgb) -> Ink {
    Ink::Opaque(c.0, c.1, c.2)
}

fn solid_ink(c: Rgb) -> (r: Ink)
    ensures
        r == solid(c),
{
    Ink::Opaque(c.0, c.1, c.2)
}

/// The colour that tells the phases apart: the default theme has shades of its own for the card,
/// the others take the colours of their settings window.
pub open spec fn accent(theme: UiTheme, phase: OsdPhase, warn: bool) -> Ink {
    let t = tokens_of(theme);
    if theme == UiTheme::DeepSeaAurora {
        match phase {
            OsdPhase::Hidden => Ink::Opaque(112, 126, 151),
            OsdPhase::Listening => Ink::Opaque(255, 92, 116),
            OsdPhase::Processing => Ink::Opaque(104, 156, 255),
            OsdPhase::Optimizing => solid(t.accent),
            OsdPhase::Done => Ink::Opaque(67, 211, 151),
            OsdPhase::Notice => if warn {
                Ink::Opaque(255, 122, 122)
            } else {
                Ink::Opaque(235, 176, 91)
            },
        }
    } else {
        match phase {
            OsdPhase::Hidden => solid(t.muted),
            OsdPhase::Listening => solid(t.bad),
            OsdPhase::Processing => solid(t.accent),
            OsdPhase::Optimizing => solid(t.accent),
            OsdPhase::Done => solid(t.ok),
            OsdPhase::Notice => if warn {
                solid(t.bad)
            } else {
                solid(t.warn)
            },
        }
    }
}

fn accent_ink(theme: UiTheme, phase: OsdPhase, warn: bool) -> (r: Ink)
    ensures
        r == accent(theme, phase, warn),
{
    let t = ThemeTokens::for_theme(theme);
    if theme == UiTheme::DeepSeaAurora {
        match phase {
            OsdPhase::Hidden => Ink::Opaque(112, 126, 151),
            OsdPhase::Listening => Ink::Opaque(255, 92, 116),
            OsdPhase::Processing => Ink::Opaque(104, 156, 255),
            OsdPhase::Optimizing => solid_ink(t.accent),
            OsdPhase::Done => Ink::Opaque(67, 211, 151),
            OsdPhase::Notice => if warn {
                Ink::Opaque(255, 122, 122)
            } else {
                Ink::Opaque(235, 176, 91)
            },
        }
    } else {
        match phase {
            OsdPhase::Hidden => solid_ink(t.muted),
            OsdPhase::Listening => solid_ink(t.bad),
            OsdPhase::Processing | OsdPhase::Optimizing => solid_ink(t.accent),
            OsdPhase::Done => solid_ink(t.ok),
            OsdPhase::Notice => if warn {
                solid_ink(t.bad)
            } else {
                solid_ink(t.warn)
            },
        }
    }
}

/// The card's colours in a theme. Without blending nothing is translucent.
pub open spec fn palette_of(theme: UiTheme, phase: OsdPhase, warn: bool, blends: bool) -> Palette {
    let t = tokens_of(theme);
    if theme == UiTheme::DeepSeaAurora {
        Palette {
            surface: if blends {
                Ink::Translucent(17, 21, 30, 224)
            } else {
                Ink::Opaque(19, 24, 34)
            },
            rim: if blends {
                Ink::White(26)
            } else {
                Ink::Opaque(48, 56, 72)
            },
            accent: accent(theme, phase, warn),
            title: Ink::Opaque(176, 186, 204),
            text: Ink::Opaque(245, 247, 250),
            muted: Ink::Opaque(139, 150, 170),
        }
    } else {
        Palette {
            surface: if blends {
                Ink::Translucent(t.card.0, t.card.1, t.card.2, 224)
            } else {
                solid(t.card)
            },
            rim: solid(t.line),
            accent: accent(theme, phase, warn),
            title: solid(t.text),
            text: solid(t.text),
            muted: solid(t.muted),
        }
    }
}

impl Palette {
    /// The card's colours for a snapshot, in its theme.
    pub fn for_snapshot(snapshot: &OsdSnapshot, compositing: OverlayCompositing) -> (r: Palette)
        ensures
            r == palette_of(
                snapshot.theme,
                snapshot.phase,
                snapshot.warn,
                compositing == OverlayCompositing::PerPixelAlpha,
            ),
    {
        let blends = compositing.blends();
        let accent = accent_ink(snapshot.theme, snapshot.phase, snapshot.warn);
        if snapshot.theme == UiTheme::DeepSeaAurora {
            return Palette {
                surface: if blends {
                    Ink::Translucent(17, 21, 30, 224)
                } else {
                    Ink::Opaque(19, 24, 34)
                },
                rim: if blends {
                    Ink::White(26)
                } else {
                    Ink::Opaque(48, 56, 72)
                },
                accent,
                title: Ink::Opaque(176, 186, 204),
                text: Ink::Opaque(245, 247, 250),
                muted: Ink::Opaque(139, 150, 170),
            };
        }
        let t = ThemeTokens::for_theme(snapshot.theme);
        Palette {
            surface: if blends {
                Ink::Translucent(t.card.0, t.card.1, t.card.2, 224)
            } else {
                solid_ink(t.card)
            },
            rim: solid_ink(t.line),
            accent,
            title: solid_ink(t.text),
            text: solid_ink(t.text),
            muted: solid_ink(t.muted),
        }
    }
}

/// A card shows its theme: no two themes paint the same card in the same colours.
pub proof fn themes_can_be_told_apart(
    a: UiTheme,
    b: UiTheme,
    phase: OsdPhase,
    warn: bool,
    blends: bool,
)
    ensures
        palette_of(a, phase, warn, blends) == palette_of(b, phase, warn, blends) ==> a == b,
{
}

/// What becomes of the surface once the card has faded.
#[derive(Clone, Copy, Debug, PartialEq, Eq, Structural)]
pub enum RestingSurface {
    /// Kept, but moved off the screen.
    Parked,
    Unmapped,
}

/// What becomes of the surface once the card has faded: nothing while the card is open.
pub fn resting_surface(phase: OsdPhase, windows: bool) -> (r: Option<RestingSurface>)
    ensures
        r == (if phase != OsdPhase::Hidden {
            None
        } else if windows {
            Some(RestingSurface::Parked)
        } else {
            Some(RestingSurface::Unmapped)
        }),
{
    if phase != OsdPhase::Hidden {
        None
    } else if windows {
        Some(RestingSurface::Parked)
    } else {
        Some(RestingSurface::Unmapped)
    }
}

/// The compositing mode, which is found out once the native window exists.
pub struct CompositingCache {
    mode: Option<OverlayCompositing>,
}

impl View for CompositingCache {
    type V = Option<OverlayCompositing>;

    closed spec fn view(&self) -> Option<OverlayCompositing> {
        self.mode
    }
}

impl CompositingCache {
    /// Nothing is known yet.
    pub fn new() -> (r: CompositingCache)
        ensures
            r@ is None,
    {
        CompositingCache { mode: None }
    }

    /// Whether the window still has to be prepared.
    pub fn needs_preparing(&self) -> (r: bool)
        ensures
            r == (self@ is None),
    {
        self.mode.is_none()
    }

    /// The mode to paint with, given what preparing the window came to. What is known stays; as
    /// long as nothing is known the good case is taken to hold.
    pub fn overlay_compositing(&mut self, prepared: Option<OverlayCompositing>) -> (r:
        OverlayCompositing)
        ensures
            final(self)@ == (match old(self)@ {
                Some(mode) => Some(mode),
                None => prepared,
            }),
            r == (match final(self)@ {
                Some(mode) => mode,
                None => OverlayCompositing::PerPixelAlpha,
            }),
    {
        if self.mode.is_none() {
            self.mode = prepared;
        }
        self.mode.unwrap_or(OverlayCompositing::PerPixelAlpha)
    }
}

/// How many characters to drop from the front of a transcript of `chars` characters that fills
/// `rows` lines, the first of them with `first_row` characters; `None` when it is to be shown as
/// it is.
pub open spec fn dropped(chars: int, rows: int, first_row: int) -> Option<int> {
    let n = if first_row >= 1 {
        first_row
    } else {
        1
    };
    if rows <= BODY_MAX_ROWS || n >= chars {
        None
    } else {
        Some(n)
    }
}

/// Scrolls a transcript by a line while it fills too many of them: the text to lay out next, or
/// `None` when this one is to be shown.
pub fn scroll_body(text: &str, rows: usize, first_row: usize) -> (r: Option<String>)
    ensures
        match dropped(text@.len() as int, rows as int, first_row as int) {
            Some(n) => r matches Some(rest) && rest@ == text@.skip(n),
            None => r is None,
        },
{
    let chars = chars_of(text);
    let len: usize = chars.len();
    let n: usize = if first_row >= 1 {
        first_row
    } else {
        1
    };
    if rows <= BODY_MAX_ROWS || n >= len {
        return None;
    }
    let rest = crate::text::string_of(&chars, n, len);
    proof {
        assert(rest@ =~= text@.skip(n as int));
    }
    Some(rest)
}

/// Scrolling comes to an end, and never scrolls the last character away.
pub proof fn scrolling_ends(chars: int, rows: int, first_row: int)
    requires
        chars >= 0,
    ensures
        dropped(chars, rows, first_row) matches Some(n) ==> 0 < n < chars,
{
}

// ── What the overlay does with time ──────────────────────────────────────────

/// Times add up: what has passed since a moment leads from it to now, and nothing has passed since a
/// moment still to come. What is left of a time and what is gone make it up.
pub proof fn times_add_up(a: u64, b: u64)
    ensures
        a <= b ==> a + since(a, b) == b,
        b <= a ==> since(a, b) == 0,
        b <= a ==> left_of(a, b) + b == a,
        a <= b ==> left_of(a, b) == 0,
{
}

/// A result is shown for a second and a half and for twenty-six thousandths of a second more for each
/// of its first sixty characters; a notice for two seconds and six tenths.
pub proof fn results_are_shown_for_their_length(m: OsdModel, chars: nat)
    ensures
        chars <= 60 ==> showing_time(chars) == 1_500_000_000 + 26_000_000 * chars,
        chars >= 60 ==> showing_time(chars) == 3_060_000_000,
        m.phase == OsdPhase::Done ==> m.linger() == Some(showing_time(m.text.len())),
        m.phase == OsdPhase::Notice ==> m.linger() == Some(2_600_000_000u64),
        m.linger() is Some <==> m.phase == OsdPhase::Done || m.phase == OsdPhase::Notice,
{
}

/// A card that tells of an end goes away at the moment its time is over: one nanosecond before it is
/// still as it was, and waiting for what is left of its time is waiting for that moment.
pub proof fn cards_go_when_their_time_is_over(m: OsdModel, now: u64)
    requires
        m.linger() is Some,
        m.changed_at <= now,
        m.changed_at + m.linger()->0 <= u64::MAX,
    ensures
        ({
            let over = m.changed_at + m.linger()->0;
            &&& now < over ==> m.ticked(now) == m
            &&& now >= over ==> m.ticked(now) == m.hidden(now)
            &&& now < over ==> now + left_of(m.linger()->0, since(m.changed_at, now)) == over
            &&& now >= over ==> left_of(m.linger()->0, since(m.changed_at, now)) == 0
        }),
{
}

/// The clock of a dictation runs from the press of the hotkey to its release, and shows that time
/// from then on, while the text is recognised, polished and shown.
pub proof fn the_clock_runs_while_the_key_is_held(
    m: OsdModel,
    text: Seq<char>,
    pressed: u64,
    released: u64,
    later: u64,
    last: u64,
)
    requires
        pressed <= released,
    ensures
        m.recording(pressed).recorded_for(released) == released - pressed,
        m.recording(pressed).processing(released).recorded_for(later) == released - pressed,
        m.recording(pressed).processing(released).optimizing(later).recorded_for(last) == released
            - pressed,
        m.recording(pressed).processing(released).optimizing(later).done(text, later).recorded_for(
            last,
        ) == released - pressed,
        m.recording(pressed).processing(released).done(text, later).recorded_for(last) == released
            - pressed,
        m.recording(pressed).done(text, released).recorded_for(last) == released - pressed,
        m.hidden(later).recorded_for(last) == 0,
{
}

/// Every step shows its phase from the moment it is taken. A dictation starts with nothing heard and
/// nothing read; a result is shown without white space around it, a notice in its own words, and a
/// warning only where the notice is one.
pub proof fn every_step_shows_its_phase(m: OsdModel, text: Seq<char>, warn: bool, now: u64)
    ensures
        ({
            let new = m.recording(now);
            &&& new.phase == OsdPhase::Listening && new.changed_at == now
            &&& new.recording_started == Some(now) && new.elapsed == 0
            &&& new.text.len() == 0 && new.partial.len() == 0 && !new.warn
            &&& new.level.bits == 0 && new.levels.len() == 30
            &&& forall|i: int| 0 <= i < 30 ==> (#[trigger] new.levels[i]).bits == 0
        }),
        ({
            let new = m.processing(now);
            &&& new.phase == OsdPhase::Processing && new.changed_at == now
            &&& new.recording_started is None && new.level.bits == 0
            &&& new.text == m.text && new.warn == m.warn && new.levels == m.levels
        }),
        ({
            let new = m.optimizing(now);
            &&& new.phase == OsdPhase::Optimizing && new.changed_at == now
            &&& new.recording_started is None && new.level.bits == 0
            &&& new.text == m.text && new.warn == m.warn && new.levels == m.levels
        }),
        ({
            let new = m.done(text, now);
            &&& new.phase == OsdPhase::Done && new.changed_at == now
            &&& new.recording_started is None && new.level.bits == 0
            &&& new.text == trim(text) && new.partial.len() == 0 && !new.warn
            &&& new.levels == m.levels
        }),
        ({
            let new = m.notice(text, warn, now);
            &&& new.phase == OsdPhase::Notice && new.changed_at == now
            &&& new.recording_started is None && new.level.bits == 0
            &&& new.text == text && new.partial.len() == 0 && new.warn == warn
            &&& new.levels == m.levels && new.elapsed == m.elapsed
        }),
        ({
            let new = m.hidden(now);
            &&& new.phase == OsdPhase::Hidden && new.changed_at == now
            &&& new.recording_started is None && new.level.bits == 0 && new.elapsed == 0
            &&& new.text.len() == 0 && new.partial.len() == 0
            &&& now <= u64::MAX - 180_000_000 ==> new.fading_until == now + 180_000_000
            &&& now > u64::MAX - 180_000_000 ==> new.fading_until == u64::MAX
        }),
        ({
            let new = m.with_partial(text);
            &&& m.phase == OsdPhase::Listening || m.phase == OsdPhase::Processing ==> new.partial
                == trim(text) && new.text == m.text && new.changed_at == m.changed_at
            &&& m.phase != OsdPhase::Listening && m.phase != OsdPhase::Processing ==> new == m
        }),
{
}

/// The hotkey's name and the wish to follow the caret outlive every step; so does the time of the
/// last bar but for new levels, and the fading but for hiding.
pub proof fn every_step_keeps_what_was_set(
    m: OsdModel,
    text: Seq<char>,
    warn: bool,
    level: Single,
    now: u64,
)
    ensures
        forall|new: OsdModel|
            new == m.recording(now) || new == m.processing(now) || new == m.optimizing(now) || new
                == m.done(text, now) || new == m.notice(text, warn, now) || new == m.with_partial(
                text,
            ) || new == m.leveled(level, now) || new == m.hidden(now) || new == m.ticked(now)
                ==> #[trigger] new.hotkey == m.hotkey && new.follow_caret == m.follow_caret,
        forall|new: OsdModel|
            new == m.recording(now) || new == m.processing(now) || new == m.optimizing(now) || new
                == m.done(text, now) || new == m.notice(text, warn, now) || new == m.with_partial(
                text,
            ) || new == m.hidden(now) || new == m.ticked(now) ==> #[trigger] new.last_level_at
                == m.last_level_at,
        forall|new: OsdModel|
            new == m.recording(now) || new == m.processing(now) || new == m.optimizing(now) || new
                == m.done(text, now) || new == m.notice(text, warn, now) || new == m.with_partial(
                text,
            ) || new == m.leveled(level, now) ==> #[trigger] new.fading_until == m.fading_until,
{
}

/// While the overlay listens a level is shown, and once a bar has stood for thirty-two thousandths of
/// a second the next level starts another; at other times levels change nothing.
pub proof fn a_bar_stands_for_its_time(m: OsdModel, level: Single, now: u64, i: int)
    requires
        m.levels.len() == 30,
        0 <= i < 29,
        m.last_level_at <= now,
    ensures
        ({
            let new = m.leveled(level, now);
            &&& m.phase != OsdPhase::Listening ==> new == m
            &&& m.phase == OsdPhase::Listening ==> new.level == level.unit()
            &&& m.phase == OsdPhase::Listening && now - m.last_level_at >= 32_000_000
                ==> new.last_level_at == now && new.levels[i] == m.levels[i + 1] && new.levels[29]
                == level.unit()
            &&& m.phase == OsdPhase::Listening && now - m.last_level_at < 32_000_000
                ==> new.last_level_at == m.last_level_at && new.levels[i] == m.levels[i]
            &&& new.text == m.text && new.partial == m.partial && new.changed_at == m.changed_at
                && new.recording_started == m.recording_started && new.elapsed == m.elapsed
                && new.warn == m.warn
        }),
{
}

/// The surface is there while there is a card, for the fading after it, and on Windows always.
pub proof fn the_surface_is_there_for_the_card(m: OsdModel, windows: bool, now: u64)
    ensures
        windows ==> m.surface(windows, now),
        m.phase != OsdPhase::Hidden ==> m.surface(windows, now),
        m.phase == OsdPhase::Hidden && !windows ==> (m.surface(windows, now) <==> now
            < m.fading_until),
{
}

/// What is painted is the state at that moment, in all that can be seen.
pub proof fn what_is_painted_is_the_state(s: OsdSnapshot, m: OsdModel, now: u64)
    requires
        s.shows(m, now),
    ensures
        s.phase == m.phase && s.warn == m.warn && s.theme == m.theme && s.level == m.level,
        s.text@ == m.text && s.partial@ == m.partial && s.hotkey@ == m.hotkey,
        s.levels@ == m.levels && s.changed_at == m.changed_at,
        m.recording_started is None ==> s.elapsed == m.elapsed,
        m.recording_started matches Some(started) ==> (started <= now ==> s.elapsed == now
            - started),
{
}

// ── What the card says and how it looks ──────────────────────────────────────

/// The card says what is known: what was read so far while a dictation is under way, and how it ended
/// afterwards. A hint stands only where nothing is read yet, and is muted then; each phase has a
/// title of its own.
pub proof fn the_card_says_what_is_known(c: Content, s: OsdSnapshot)
    requires
        c.tells(s),
    ensures
        ({
            let under_way = s.phase == OsdPhase::Listening || s.phase == OsdPhase::Processing
                || s.phase == OsdPhase::Optimizing;
            let ended = s.phase == OsdPhase::Done || s.phase == OsdPhase::Notice;
            &&& under_way && s.partial@.len() > 0 ==> c.body@ == s.partial@ && !c.body_muted
            &&& under_way && s.partial@.len() == 0 ==> c.body_muted
            &&& s.phase == OsdPhase::Listening && s.partial@.len() == 0 ==> c.body@ == "松开 "@
                + s.hotkey@ + " 插入文字"@
            &&& s.phase == OsdPhase::Processing && s.partial@.len() == 0 ==> c.body@ == "转写中…"@
            &&& s.phase == OsdPhase::Optimizing && s.partial@.len() == 0 ==> c.body@ == "优化中…"@
            &&& ended ==> c.body@ == s.text@ && !c.body_muted
            &&& s.phase == OsdPhase::Hidden ==> c.body@.len() == 0 && c.body_muted && c.meter
                == Meter::Nothing
            &&& s.phase == OsdPhase::Notice ==> c.meter == Meter::Nothing
            &&& c.measured <==> !under_way
            &&& c.meter == Meter::Wave <==> s.phase == OsdPhase::Listening
            &&& c.meter == Meter::Sweep <==> s.phase == OsdPhase::Processing
            &&& c.meter == Meter::Pulse <==> s.phase == OsdPhase::Optimizing
            &&& c.meter == Meter::Elapsed <==> s.phase == OsdPhase::Done
            &&& s.phase == OsdPhase::Listening ==> c.title@ == "正在聆听"@
            &&& s.phase == OsdPhase::Processing ==> c.title@ == "正在整理"@
            &&& s.phase == OsdPhase::Optimizing ==> c.title@ == "正在优化"@
            &&& s.phase == OsdPhase::Done ==> c.title@ == "已插入"@
            &&& s.phase == OsdPhase::Notice ==> c.title@ == "未插入"@
            &&& s.phase == OsdPhase::Hidden ==> c.title@ == ""@
        }),
{
}

/// The phases of a dictation are told apart by the colour of the card: listening, working, the result
/// and a notice have different ones in every theme, and in the default theme a warning has one that
/// no other phase has.
pub proof fn phases_are_told_apart_by_colour(theme: UiTheme, warn: bool)
    ensures
        accent(theme, OsdPhase::Listening, warn) != accent(theme, OsdPhase::Processing, warn),
        accent(theme, OsdPhase::Listening, warn) != accent(theme, OsdPhase::Optimizing, warn),
        accent(theme, OsdPhase::Listening, warn) != accent(theme, OsdPhase::Done, warn),
        accent(theme, OsdPhase::Processing, warn) != accent(theme, OsdPhase::Done, warn),
        accent(theme, OsdPhase::Optimizing, warn) != accent(theme, OsdPhase::Done, warn),
        accent(theme, OsdPhase::Done, warn) != accent(theme, OsdPhase::Notice, warn),
        accent(theme, OsdPhase::Notice, true) != accent(theme, OsdPhase::Notice, false),
        accent(theme, OsdPhase::Notice, false) != accent(theme, OsdPhase::Listening, warn),
        accent(UiTheme::DeepSeaAurora, OsdPhase::Notice, true) != accent(
            UiTheme::DeepSeaAurora,
            OsdPhase::Listening,
            warn,
        ),
{
}

/// Outside the default theme the card has the colours of the settings window: what went well in the
/// colour of success, what went wrong in that of failure, work in the accent.
pub proof fn the_card_matches_its_window(theme: UiTheme, warn: bool, phase: OsdPhase, blends: bool)
    requires
        theme != UiTheme::DeepSeaAurora,
    ensures
        ({
            let t = tokens_of(theme);
            let p = palette_of(theme, phase, warn, blends);
            &&& p.accent == match phase {
                OsdPhase::Hidden => Ink::Opaque(t.muted.0, t.muted.1, t.muted.2),
                OsdPhase::Listening => Ink::Opaque(t.bad.0, t.bad.1, t.bad.2),
                OsdPhase::Processing => Ink::Opaque(t.accent.0, t.accent.1, t.accent.2),
                OsdPhase::Optimizing => Ink::Opaque(t.accent.0, t.accent.1, t.accent.2),
                OsdPhase::Done => Ink::Opaque(t.ok.0, t.ok.1, t.ok.2),
                OsdPhase::Notice => if warn {
                    Ink::Opaque(t.bad.0, t.bad.1, t.bad.2)
                } else {
                    Ink::Opaque(t.warn.0, t.warn.1, t.warn.2)
                },
            }
            &&& p.title == p.text && p.text == Ink::Opaque(t.text.0, t.text.1, t.text.2)
            &&& p.muted == Ink::Opaque(t.muted.0, t.muted.1, t.muted.2)
            &&& p.rim == Ink::Opaque(t.line.0, t.line.1, t.line.2)
            &&& p.surface == if blends {
                Ink::Translucent(t.card.0, t.card.1, t.card.2, 224)
            } else {
                Ink::Opaque(t.card.0, t.card.1, t.card.2)
            }
        }),
{
}

/// The default theme has shades of its own for the card.
pub proof fn the_default_card_has_its_own_shades(warn: bool, phase: OsdPhase, blends: bool)
    ensures
        ({
            let p = palette_of(UiTheme::DeepSeaAurora, phase, warn, blends);
            let t = tokens_of(UiTheme::DeepSeaAurora);
            &&& phase == OsdPhase::Hidden ==> p.accent == Ink::Opaque(112, 126, 151)
            &&& phase == OsdPhase::Listening ==> p.accent == Ink::Opaque(255, 92, 116)
            &&& phase == OsdPhase::Processing ==> p.accent == Ink::Opaque(104, 156, 255)
            &&& phase == OsdPhase::Optimizing ==> p.accent == Ink::Opaque(
                t.accent.0,
                t.accent.1,
                t.accent.2,
            )
            &&& phase == OsdPhase::Done ==> p.accent == Ink::Opaque(67, 211, 151)
            &&& phase == OsdPhase::Notice && warn ==> p.accent == Ink::Opaque(255, 122, 122)
            &&& phase == OsdPhase::Notice && !warn ==> p.accent == Ink::Opaque(235, 176, 91)
            &&& p.title == Ink::Opaque(176, 186, 204)
            &&& p.text == Ink::Opaque(245, 247, 250)
            &&& p.muted == Ink::Opaque(139, 150, 170)
            &&& p.surface == if blends {
                Ink::Translucent(17, 21, 30, 224)
            } else {
                Ink::Opaque(19, 24, 34)
            }
            &&& p.rim == if blends {
                Ink::White(26)
            } else {
                Ink::Opaque(48, 56, 72)
            }
        }),
{
}

/// Where nothing blends, nothing is see-through.
pub proof fn without_blending_nothing_is_see_through(theme: UiTheme, phase: OsdPhase, warn: bool)
    ensures
        ({
            let p = palette_of(theme, phase, warn, false);
            p.surface is Opaque && p.rim is Opaque && p.accent is Opaque && p.title is Opaque
                && p.text is Opaque && p.muted is Opaque
        }),
        palette_of(theme, phase, warn, true).surface is Translucent,
{
}

/// Three lines stay: only a transcript that fills more is scrolled, by its first line, or by one
/// character where that line holds none.
pub proof fn three_lines_stay(chars: int, rows: int, first_row: int)
    ensures
        rows <= 3 ==> dropped(chars, rows, first_row) is None,
        rows > 3 && 1 <= first_row < chars ==> dropped(chars, rows, first_row) == Some(first_row),
        rows > 3 && first_row < 1 && chars > 1 ==> dropped(chars, rows, first_row) == Some(1int),
        chars <= 1 || first_row >= chars ==> dropped(chars, rows, first_row) is None,
{
}

}
