//! The overlay of a Wayland session: a process of its own that is told by datagrams what to show.

use vstd::prelude::*;
use vstd::string::*;

use crate::hotkey_ipc::{in_session_dir, session_file};
use crate::osd::{no_text, since, time_since};
use crate::single::Single;
use crate::text::{chars_of, same_text, string_of, trim, trimmed};
use crate::wave::{
    WAVE_STEP, a_flat_waveform_is_within_bounds, bars_stay_within_bounds, clamped, drawable, flat,
    flat_wave, raise, raised,
};

verus! {

/// The name of the socket in its directory.
pub const SOCKET_NAME: &'static str = "auto-voice-osd.sock";

/// Bars of the waveform.
pub const WAVE_SLOTS: usize = 26;

/// How long a card that tells of an end is shown, in nanoseconds.
pub const CLOSE_AFTER: u64 = 2_400_000_000;

/// How many frames to wait for the size of the screen.
pub const POSITION_ATTEMPTS: u8 = 60;

/// Where the socket is: in the session's runtime directory, or else among the temporary files.
pub fn socket_path(runtime_dir: Option<String>, temp_dir: String) -> (r: String)
    ensures
        r@ == session_file(runtime_dir, temp_dir, SOCKET_NAME@),
        r@ == session_file(runtime_dir, temp_dir, "auto-voice-osd.sock"@),
{
    in_session_dir(runtime_dir, temp_dir, SOCKET_NAME)
}

// ── Datagrams ────────────────────────────────────────────────────────────────

/// A message: its kind, a line break, and the rest.
pub open spec fn framed(kind: Seq<char>, body: Seq<char>) -> Seq<char> {
    kind.push('\n') + body
}

/// The place of the first line break.
pub open spec fn first_break(s: Seq<char>) -> Option<int>
    decreases s.len(),
{
    if s.len() == 0 {
        None
    } else if s[0] == '\n' {
        Some(0)
    } else {
        match first_break(s.drop_first()) {
            Some(i) => Some(i + 1),
            None => None,
        }
    }
}

/// The kind of a message: what stands before the first line break.
pub open spec fn kind_of(message: Seq<char>) -> Seq<char> {
    match first_break(message) {
        Some(i) => message.take(i),
        None => message,
    }
}

/// The body of a message: what follows the first line break.
pub open spec fn body_of(message: Seq<char>) -> Seq<char> {
    match first_break(message) {
        Some(i) => message.skip(i + 1),
        None => seq![],
    }
}

/// A message of some kind.
pub fn datagram(kind: &str, body: &str) -> (r: String)
    ensures
        r@ == framed(kind@, body@),
{
    let mut m = kind.to_owned();
    m.push('\n');
    m.append(body);
    m
}

/// The message that brings the transcript so far.
pub fn send_partial(text: &str) -> (r: String)
    ensures
        r@ == framed("partial"@, text@),
{
    datagram("partial", text)
}

/// The message that brings a microphone level, written out as a number.
pub fn send_level(level: &str) -> (r: String)
    ensures
        r@ == framed("level"@, level@),
{
    datagram("level", level)
}

proof fn first_break_is_first(s: Seq<char>)
    ensures
        match first_break(s) {
            Some(i) => 0 <= i < s.len() && s[i] == '\n' && forall|j: int|
                0 <= j < i ==> s[j] != '\n',
            None => forall|j: int| 0 <= j < s.len() ==> s[j] != '\n',
        },
    decreases s.len(),
{
    if s.len() > 0 && s[0] != '\n' {
        let rest = s.drop_first();
        first_break_is_first(rest);
        assert forall|j: int| 0 < j < s.len() implies s[j] == #[trigger] rest[j - 1] by {}
        match first_break(rest) {
            Some(i) => {
                assert(s[i + 1] == rest[i]);
                assert forall|j: int| 0 <= j < i + 1 implies s[j] != '\n' by {
                    if j > 0 {
                        assert(rest[j - 1] != '\n');
                    }
                }
            },
            None => {
                assert forall|j: int| 0 <= j < s.len() implies s[j] != '\n' by {
                    if j > 0 {
                        assert(rest[j - 1] != '\n');
                    }
                }
            },
        }
    }
}

/// A message taken apart: kind and body.
pub fn parse(message: &str) -> (r: (String, String))
    ensures
        r.0@ == kind_of(message@),
        r.1@ == body_of(message@),
{
    let chars = chars_of(message);
    let n: usize = chars.len();
    let mut i: usize = 0;
    proof {
        first_break_is_first(message@);
    }
    while i < n && chars[i] != '\n'
        invariant
            i <= n,
            n == chars@.len(),
            chars@ == message@,
            forall|j: int| 0 <= j < i ==> message@[j] != '\n',
        decreases n - i,
    {
        i = i + 1;
    }
    let kind = string_of(&chars, 0, i);
    if i < n {
        let body = string_of(&chars, i + 1, n);
        proof {
            assert(message@[i as int] == '\n');
            assert(first_break(message@) == Some(i as int));
            assert(kind@ =~= message@.take(i as int));
            assert(body@ =~= message@.skip(i + 1));
        }
        (kind, body)
    } else {
        proof {
            assert(first_break(message@) is None);
            assert(kind@ =~= message@);
        }
        let body = String::new();
        proof {
            assert(body@ =~= Seq::<char>::empty());
        }
        (kind, body)
    }
}

/// A message arrives as it was sent: kind and body are those it was made of, whatever the body
/// holds.
pub proof fn messages_survive_the_wire(kind: Seq<char>, body: Seq<char>)
    requires
        forall|i: int| 0 <= i < kind.len() ==> kind[i] != '\n',
    ensures
        kind_of(framed(kind, body)) == kind,
        body_of(framed(kind, body)) == body,
{
    let m = framed(kind, body);
    first_break_is_first(m);
    assert(m[kind.len() as int] == '\n');
    assert forall|j: int| 0 <= j < kind.len() implies m[j] != '\n' by {
        assert(m[j] == kind[j]);
    }
    assert(first_break(m) == Some(kind.len() as int));
    assert(m.take(kind.len() as int) =~= kind);
    assert(m.skip(kind.len() as int + 1) =~= body);
}

/// What to do once a message was sent.
#[derive(Clone, Copy, Debug, PartialEq, Eq, Structural)]
pub enum Delivery {
    /// Someone took it.
    Delivered,
    /// Nobody listens; start the process that does.
    Launch,
}

/// What is told where nobody listens.
pub const NOT_RUNNING: &'static str = "Wayland OSD is not running";

/// What to do once a message of some kind was sent and taken or not: only the beginning of a
/// dictation starts the overlay's process.
pub fn show(kind: &str, taken: bool) -> (r: Result<Delivery, &'static str>)
    ensures
        match r {
            Ok(Delivery::Delivered) => taken,
            Ok(Delivery::Launch) => !taken && kind@ == "listening"@,
            Err(m) => !taken && kind@ != "listening"@ && m@ == NOT_RUNNING@,
        },
{
    if taken {
        Ok(Delivery::Delivered)
    } else if same_text(kind, "listening") {
        Ok(Delivery::Launch)
    } else {
        Err(NOT_RUNNING)
    }
}

/// What the overlay's process does first.
#[derive(Clone, Copy, Debug, PartialEq, Eq, Structural)]
pub enum AgentStart {
    /// Another one is running; leave.
    Leave,
    /// Remove a stale socket, then bind.
    RemoveAndBind,
    Bind,
}

/// What the overlay's process does first, given whether the socket's file is there and whether a
/// ping on it was taken.
pub fn agent_start(exists: bool, answered: bool) -> (r: AgentStart)
    ensures
        r == (if !exists {
            AgentStart::Bind
        } else if answered {
            AgentStart::Leave
        } else {
            AgentStart::RemoveAndBind
        }),
{
    if !exists {
        AgentStart::Bind
    } else if answered {
        AgentStart::Leave
    } else {
        AgentStart::RemoveAndBind
    }
}

// ── The process's state ──────────────────────────────────────────────────────

/// What the card tells of, with the text that came with it.
pub enum AgentPhase {
    Listening(String),
    Processing(String),
    Done(String),
    /// Nothing in front could take the text; it was left on the clipboard.
    CopiedOnly(String),
    Failed(String),
}

/// The contents of an [`AgentPhase`].
#[verifier::ext_equal]
pub enum AgentPhaseView {
    Listening(Seq<char>),
    Processing(Seq<char>),
    Done(Seq<char>),
    CopiedOnly(Seq<char>),
    Failed(Seq<char>),
}

impl View for AgentPhase {
    type V = AgentPhaseView;

    open spec fn view(&self) -> AgentPhaseView {
        match self {
            AgentPhase::Listening(t) => AgentPhaseView::Listening(t@),
            AgentPhase::Processing(t) => AgentPhaseView::Processing(t@),
            AgentPhase::Done(t) => AgentPhaseView::Done(t@),
            AgentPhase::CopiedOnly(t) => AgentPhaseView::CopiedOnly(t@),
            AgentPhase::Failed(t) => AgentPhaseView::Failed(t@),
        }
    }
}

/// The phase a message announces, if any.
pub open spec fn announced(kind: Seq<char>, body: Seq<char>) -> Option<AgentPhaseView> {
    if kind == "listening"@ {
        Some(AgentPhaseView::Listening(body))
    } else if kind == "processing"@ {
        Some(AgentPhaseView::Processing(body))
    } else if kind == "done"@ {
        Some(AgentPhaseView::Done(body))
    } else if kind == "copied"@ {
        Some(AgentPhaseView::CopiedOnly(body))
    } else if kind == "failed"@ {
        Some(AgentPhaseView::Failed(body))
    } else {
        None
    }
}

/// The overlay's state.
#[verifier::ext_equal]
pub struct AgentModel {
    pub phase: AgentPhaseView,
    pub changed_at: u64,
    pub levels: Seq<Single>,
    pub last_level_at: u64,
    pub partial: Seq<char>,
}

impl AgentModel {
    /// The state with a new level, which the waveform takes in.
    pub open spec fn with_level(self, level: Single, now: u64) -> AgentModel {
        let fresh = since(self.last_level_at, now) >= WAVE_STEP;
        AgentModel {
            last_level_at: if fresh {
                now
            } else {
                self.last_level_at
            },
            levels: raised(self.levels, level, fresh),
            ..self
        }
    }

    /// The state after a message. `level` is the number in the body of a level message, where
    /// there is one.
    pub open spec fn after(
        self,
        kind: Seq<char>,
        body: Seq<char>,
        level: Option<Single>,
        now: u64,
    ) -> AgentModel {
        if kind == "level"@ {
            match level {
                Some(l) => self.with_level(l, now),
                None => self,
            }
        } else if kind == "partial"@ {
            AgentModel { partial: body, ..self }
        } else {
            match announced(kind, body) {
                Some(phase) => if kind == "listening"@ {
                    AgentModel {
                        phase,
                        changed_at: now,
                        levels: flat(WAVE_SLOTS as nat),
                        partial: Seq::empty(),
                        ..self
                    }
                } else {
                    AgentModel { phase, changed_at: now, ..self }
                },
                None => self,
            }
        }
    }

    /// Whether the card tells of an end.
    pub open spec fn over(self) -> bool {
        self.phase is Done || self.phase is CopiedOnly || self.phase is Failed
    }

    /// Whether the process may leave.
    pub open spec fn may_leave(self, now: u64) -> bool {
        self.over() && since(self.changed_at, now) >= CLOSE_AFTER
    }
}

/// Whether a kind of message is known.
pub open spec fn is_known(kind: Seq<char>) -> bool {
    kind == "level"@ || kind == "partial"@ || announced(kind, seq![]) is Some
}

/// The overlay's state.
pub struct Agent {
    phase: AgentPhase,
    changed_at: u64,
    levels: Vec<Single>,
    last_level_at: u64,
    partial: String,
}

impl View for Agent {
    type V = AgentModel;

    closed spec fn view(&self) -> AgentModel {
        AgentModel {
            phase: self.phase@,
            changed_at: self.changed_at,
            levels: self.levels@,
            last_level_at: self.last_level_at,
            partial: self.partial@,
        }
    }
}

/// What the card shows.
pub struct AgentCard {
    pub title: &'static str,
    pub body: String,
    /// Red, green and blue of the card's accent.
    pub accent: (u8, u8, u8),
    /// Whether the waveform is shown.
    pub listening: bool,
}

/// The text that came with a phase.
pub open spec fn hint_of(phase: AgentPhaseView) -> Seq<char> {
    match phase {
        AgentPhaseView::Listening(t) => t,
        AgentPhaseView::Processing(t) => t,
        AgentPhaseView::Done(t) => t,
        AgentPhaseView::CopiedOnly(t) => t,
        AgentPhaseView::Failed(t) => t,
    }
}

impl AgentCard {
    /// Whether this is the card of a state.
    pub open spec fn shows(self, m: AgentModel) -> bool {
        &&& self.title@ == (match m.phase {
            AgentPhaseView::Listening(_) => "正在聆听"@,
            AgentPhaseView::Processing(_) => "正在整理"@,
            AgentPhaseView::Done(_) => "已插入"@,
            AgentPhaseView::CopiedOnly(_) => "已复制"@,
            AgentPhaseView::Failed(_) => "未完成"@,
        })
        &&& self.accent == (match m.phase {
            AgentPhaseView::Listening(_) => (78u8, 203u8, 172u8),
            AgentPhaseView::Processing(_) => (91u8, 156u8, 255u8),
            AgentPhaseView::Done(_) => (78u8, 203u8, 172u8),
            AgentPhaseView::CopiedOnly(_) => (235u8, 176u8, 91u8),
            AgentPhaseView::Failed(_) => (245u8, 105u8, 105u8),
        })
        &&& self.listening == (m.phase is Listening)
        &&& self.body@ == (if !m.over() && m.partial.len() > 0 {
            m.partial
        } else {
            hint_of(m.phase)
        })
    }
}

impl Agent {
    /// The waveform has its full number of bars, each of them clamped.
    pub open spec fn wf(self) -> bool {
        self@.levels.len() == WAVE_SLOTS && clamped(self@.levels)
    }

    /// The state a fresh process begins with.
    pub fn new(now: u64) -> (r: Agent)
        ensures
            r.wf(),
            r@ == (AgentModel {
                phase: AgentPhaseView::Listening(Seq::empty()),
                changed_at: now,
                levels: flat(WAVE_SLOTS as nat),
                last_level_at: now,
                partial: Seq::empty(),
            }),
    {
        proof {
            a_flat_waveform_is_within_bounds(WAVE_SLOTS as nat);
        }
        Agent {
            phase: AgentPhase::Listening(no_text()),
            changed_at: now,
            levels: flat_wave(WAVE_SLOTS),
            last_level_at: now,
            partial: no_text(),
        }
    }

    fn push_level(&mut self, level: Single, now: u64)
        requires
            old(self).wf(),
        ensures
            final(self).wf(),
            final(self)@ == old(self)@.with_level(level, now),
    {
        let fresh = time_since(self.last_level_at, now) >= WAVE_STEP;
        proof {
            bars_stay_within_bounds(self.levels@, level, fresh);
        }
        if fresh {
            self.last_level_at = now;
        }
        raise(&mut self.levels, level, fresh);
    }

    /// Take a message. `level` is the number in the body of a level message, where there is one.
    /// True if there is something to paint again; messages of unknown kinds change nothing.
    pub fn receive(&mut self, message: &str, level: Option<Single>, now: u64) -> (r: bool)
        requires
            old(self).wf(),
        ensures
            final(self).wf(),
            final(self)@ == old(self)@.after(kind_of(message@), body_of(message@), level, now),
            r == is_known(kind_of(message@)),
    {
        let (kind, body) = parse(message);
        let k = kind.as_str();
        proof {
            reveal_strlit("level");
            reveal_strlit("partial");
            reveal_strlit("listening");
            reveal_strlit("processing");
            reveal_strlit("done");
            reveal_strlit("copied");
            reveal_strlit("failed");
        }
        if same_text(k, "level") {
            if let Some(l) = level {
                self.push_level(l, now);
            }
            return true;
        }
        if same_text(k, "partial") {
            self.partial = body;
            return true;
        }
        if same_text(k, "listening") {
            proof {
                a_flat_waveform_is_within_bounds(WAVE_SLOTS as nat);
            }
            self.levels = flat_wave(WAVE_SLOTS);
            self.partial = no_text();
            self.phase = AgentPhase::Listening(body);
        } else if same_text(k, "processing") {
            self.phase = AgentPhase::Processing(body);
        } else if same_text(k, "done") {
            self.phase = AgentPhase::Done(body);
        } else if same_text(k, "copied") {
            self.phase = AgentPhase::CopiedOnly(body);
        } else if same_text(k, "failed") {
            self.phase = AgentPhase::Failed(body);
        } else {
            return false;
        }
        self.changed_at = now;
        true
    }

    /// What the card shows.
    pub fn card(&self) -> (r: AgentCard)
        ensures
            r.shows(self@),
    {
        let (title, hint, accent, live, listening): (
            &'static str,
            &String,
            (u8, u8, u8),
            bool,
            bool,
        ) = match &self.phase {
            AgentPhase::Listening(t) => ("正在聆听", t, (78, 203, 172), true, true),
            AgentPhase::Processing(t) => ("正在整理", t, (91, 156, 255), true, false),
            AgentPhase::Done(t) => ("已插入", t, (78, 203, 172), false, false),
            AgentPhase::CopiedOnly(t) => ("已复制", t, (235, 176, 91), false, false),
            AgentPhase::Failed(t) => ("未完成", t, (245, 105, 105), false, false),
        };
        let body = if live && !self.partial.as_str().is_empty() {
            self.partial.clone()
        } else {
            hint.clone()
        };
        AgentCard { title, body, accent, listening }
    }

    /// The waveform, the newest bar last.
    pub fn levels(&self) -> (r: Vec<Single>)
        ensures
            r@ == self@.levels,
    {
        self.levels.clone()
    }

    /// Whether the process may leave: its card told of an end for long enough.
    pub fn may_leave(&self, now: u64) -> (r: bool)
        ensures
            r == self@.may_leave(now),
    {
        let over = match &self.phase {
            AgentPhase::Done(_) | AgentPhase::CopiedOnly(_) | AgentPhase::Failed(_) => true,
            _ => false,
        };
        over && time_since(self.changed_at, now) >= CLOSE_AFTER
    }
}

/// The number in a level message, as text; `None` for messages of other kinds.
pub fn level_text(message: &str) -> (r: Option<String>)
    ensures
        match r {
            Some(t) => kind_of(message@) == "level"@ && t@ == trim(body_of(message@)),
            None => kind_of(message@) != "level"@,
        },
{
    let (kind, body) = parse(message);
    if same_text(kind.as_str(), "level") {
        Some(trimmed(body.as_str()))
    } else {
        None
    }
}

/// A dictation under way keeps the process: it never leaves while listening or processing, and a
/// new dictation starts its card afresh.
pub proof fn a_dictation_keeps_the_process(m: AgentModel, hint: Seq<char>, now: u64, later: u64)
    ensures
        !m.after("listening"@, hint, None, now).may_leave(later),
        !m.after("processing"@, hint, None, now).may_leave(later),
        m.after("listening"@, hint, None, now).partial.len() == 0,
        m.after("listening"@, hint, None, now).levels == flat(WAVE_SLOTS as nat),
{
    reveal_strlit("level");
    reveal_strlit("partial");
    reveal_strlit("listening");
    reveal_strlit("processing");
    assert("listening"@.len() == 9 && "processing"@.len() == 10 && "partial"@.len() == 7
        && "level"@.len() == 5);
}

/// Levels and transcripts so far change neither what the card tells of nor how long it stays.
pub proof fn streaming_keeps_the_phase(
    m: AgentModel,
    body: Seq<char>,
    level: Option<Single>,
    now: u64,
)
    ensures
        m.after("level"@, body, level, now).phase == m.phase,
        m.after("level"@, body, level, now).changed_at == m.changed_at,
        m.after("partial"@, body, level, now).phase == m.phase,
        m.after("partial"@, body, level, now).changed_at == m.changed_at,
{
    reveal_strlit("level");
    reveal_strlit("partial");
    assert("partial"@.len() == 7 && "level"@.len() == 5);
}

/// Whatever arrives, the waveform keeps its number of bars, and as long as levels are numbers each
/// bar is one between nought and one.
pub proof fn the_waveform_stays_within_bounds(
    m: AgentModel,
    kind: Seq<char>,
    body: Seq<char>,
    level: Option<Single>,
    now: u64,
)
    requires
        m.levels.len() == WAVE_SLOTS,
        drawable(m.levels),
        level matches Some(l) ==> !l.nan(),
    ensures
        m.after(kind, body, level, now).levels.len() == WAVE_SLOTS,
        drawable(m.after(kind, body, level, now).levels),
{
    a_flat_waveform_is_within_bounds(WAVE_SLOTS as nat);
    if let Some(l) = level {
        bars_stay_within_bounds(m.levels, l, since(m.last_level_at, now) >= WAVE_STEP);
    }
}

/// Getting the window to its place, which takes until the size of the screen is known.
#[derive(Clone, Copy, Debug, PartialEq, Eq, Structural)]
pub struct Placement {
    pub positioned: bool,
    pub attempts: u8,
}

impl Placement {
    /// The window is where the compositor put it.
    pub fn new() -> (r: Placement)
        ensures
            !r.positioned && r.attempts == 0,
    {
        Placement { positioned: false, attempts: 0 }
    }

    /// Another frame: true if the window is to be placed now. A compositor that never tells the
    /// size of the screen is not asked forever.
    pub fn frame(&mut self, size_known: bool) -> (r: bool)
        ensures
            r == (!old(self).positioned && old(self).attempts < POSITION_ATTEMPTS && size_known),
            r == (!old(self).positioned && old(self).attempts < 60 && size_known),
            final(self).positioned == (old(self).positioned || r),
            final(self).attempts == (if !old(self).positioned && old(self).attempts
                < POSITION_ATTEMPTS {
                old(self).attempts + 1
            } else {
                old(self).attempts as int
            }),
    {
        if self.positioned || self.attempts >= POSITION_ATTEMPTS {
            return false;
        }
        self.attempts = self.attempts + 1;
        if size_known {
            self.positioned = true;
        }
        size_known
    }
}

/// The five kinds of message that announce a phase announce their own, with the text they bring; no
/// other kind announces any.
pub proof fn messages_announce_their_phase(kind: Seq<char>, body: Seq<char>)
    ensures
        announced("listening"@, body) == Some(AgentPhaseView::Listening(body)),
        announced("processing"@, body) == Some(AgentPhaseView::Processing(body)),
        announced("done"@, body) == Some(AgentPhaseView::Done(body)),
        announced("copied"@, body) == Some(AgentPhaseView::CopiedOnly(body)),
        announced("failed"@, body) == Some(AgentPhaseView::Failed(body)),
        announced(kind, body) is Some <==> kind == "listening"@ || kind == "processing"@ || kind
            == "done"@ || kind == "copied"@ || kind == "failed"@,
        is_known(kind) <==> kind == "level"@ || kind == "partial"@ || kind == "listening"@ || kind
            == "processing"@ || kind == "done"@ || kind == "copied"@ || kind == "failed"@,
{
    kinds_differ();
}

proof fn kinds_differ()
    ensures
        "level"@.len() == 5,
        "partial"@.len() == 7,
        "listening"@.len() == 9,
        "processing"@.len() == 10,
        "done"@.len() == 4,
        "copied"@.len() == 6,
        "failed"@.len() == 6,
        "copied"@ != "failed"@,
{
    reveal_strlit("level");
    reveal_strlit("partial");
    reveal_strlit("listening");
    reveal_strlit("processing");
    reveal_strlit("done");
    reveal_strlit("copied");
    reveal_strlit("failed");
    assert("copied"@[0] == 'c' && "failed"@[0] == 'f');
}

/// A message that announces a phase shows it from the moment it arrives; only a new dictation drops
/// the transcript so far and the waveform. A message of an unknown kind changes nothing.
pub proof fn announced_phases_are_shown(
    m: AgentModel,
    kind: Seq<char>,
    body: Seq<char>,
    level: Option<Single>,
    now: u64,
)
    ensures
        ({
            let new = m.after(kind, body, level, now);
            &&& announced(kind, body) matches Some(phase) ==> new.phase == phase && new.changed_at
                == now && new.last_level_at == m.last_level_at
            &&& announced(kind, body) is Some && kind != "listening"@ ==> new.levels == m.levels
                && new.partial == m.partial
            &&& kind == "listening"@ ==> new.partial.len() == 0 && new.levels.len() == 26
                && forall|i: int| 0 <= i < 26 ==> (#[trigger] new.levels[i]).bits == 0
            &&& kind == "partial"@ ==> new.partial == body && new.levels == m.levels
                && new.last_level_at == m.last_level_at
            &&& !is_known(kind) ==> new == m
        }),
{
    kinds_differ();
}

/// A level with a number raises the waveform, and once a bar has stood for thirty-two thousandths of
/// a second starts another; one without a number changes nothing.
pub proof fn a_bar_stands_for_its_time(m: AgentModel, body: Seq<char>, level: Single, now: u64, i: int)
    requires
        m.levels.len() == 26,
        0 <= i < 25,
        m.last_level_at <= now,
    ensures
        ({
            let new = m.after("level"@, body, Some(level), now);
            &&& now - m.last_level_at >= 32_000_000 ==> new.last_level_at == now && new.levels[i]
                == m.levels[i + 1] && new.levels[25] == level.unit()
            &&& now - m.last_level_at < 32_000_000 ==> new.last_level_at == m.last_level_at
                && new.levels[i] == m.levels[i]
            &&& new.partial == m.partial
        }),
        m.after("level"@, body, None, now) == m,
{
    kinds_differ();
}

/// The process leaves once its card has told of an end for two seconds and four tenths, and neither
/// earlier nor otherwise.
pub proof fn the_process_leaves_after_the_end(m: AgentModel, now: u64)
    requires
        m.changed_at <= now,
    ensures
        m.over() <==> !(m.phase is Listening) && !(m.phase is Processing),
        m.over() ==> (m.may_leave(now) <==> now - m.changed_at >= 2_400_000_000),
        !m.over() ==> !m.may_leave(now),
{
}

/// The card says what its phase is about: the transcript so far takes the place of the hint while a
/// dictation is under way, and never that of a result.
pub proof fn the_card_says_what_its_phase_is_about(c: AgentCard, m: AgentModel)
    requires
        c.shows(m),
    ensures
        match m.phase {
            AgentPhaseView::Listening(t) => c.title@ == "正在聆听"@ && c.listening && c.body@
                == if m.partial.len() > 0 {
                m.partial
            } else {
                t
            },
            AgentPhaseView::Processing(t) => c.title@ == "正在整理"@ && !c.listening && c.body@
                == if m.partial.len() > 0 {
                m.partial
            } else {
                t
            },
            AgentPhaseView::Done(t) => c.title@ == "已插入"@ && !c.listening && c.body@ == t,
            AgentPhaseView::CopiedOnly(t) => c.title@ == "已复制"@ && !c.listening && c.body@ == t,
            AgentPhaseView::Failed(t) => c.title@ == "未完成"@ && !c.listening && c.body@ == t,
        },
        m.phase is Listening || m.phase is Done ==> c.accent == (78u8, 203u8, 172u8),
        m.phase is Processing ==> c.accent == (91u8, 156u8, 255u8),
        m.phase is CopiedOnly ==> c.accent == (235u8, 176u8, 91u8),
        m.phase is Failed ==> c.accent == (245u8, 105u8, 105u8),
{
}

/// A phase is told from the others, and its text with it.
pub proof fn phases_are_told_apart(a: AgentPhase, b: AgentPhase)
    ensures
        a@ == b@ <==> match (a, b) {
            (AgentPhase::Listening(s), AgentPhase::Listening(t)) => s@ == t@,
            (AgentPhase::Processing(s), AgentPhase::Processing(t)) => s@ == t@,
            (AgentPhase::Done(s), AgentPhase::Done(t)) => s@ == t@,
            (AgentPhase::CopiedOnly(s), AgentPhase::CopiedOnly(t)) => s@ == t@,
            (AgentPhase::Failed(s), AgentPhase::Failed(t)) => s@ == t@,
            _ => false,
        },
{
}

/// A message is its kind, a line break and its body, and one without a line break is all kind.
pub proof fn messages_are_taken_apart_at_the_first_break(message: Seq<char>)
    ensures
        message.contains('\n') ==> message == kind_of(message) + seq!['\n'] + body_of(message),
        !message.contains('\n') ==> kind_of(message) == message && body_of(message).len() == 0,
        !kind_of(message).contains('\n'),
{
    first_break_is_first(message);
    match first_break(message) {
        Some(i) => {
            assert(message[i] == '\n');
            assert(message =~= message.take(i) + seq!['\n'] + message.skip(i + 1));
            assert forall|j: int| 0 <= j < i implies message.take(i)[j] != '\n' by {
                assert(message[j] != '\n');
            }
        },
        None => {
            assert forall|j: int| 0 <= j < message.len() implies message[j] != '\n' by {}
        },
    }
}

}
