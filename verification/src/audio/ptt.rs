//! Push-to-talk: hold the configured keys to speak, release them to have the text inserted.
//!
//! The microphone is open only while the keys are held. Changed settings take effect at once; a
//! changed recogniser is loaded while the microphone is closed.

use vstd::prelude::*;
use vstd::string::*;

use crate::audio::mic::{content_chars, is_meaningful_pub};
use crate::config::PttKey;
use crate::runtime::{EngineStatus, Runtime, RuntimeModel, StatusView};

verus! {

// ── Keys ─────────────────────────────────────────────────────────────────────

/// The keys that are down.
pub struct KeyTracker {
    pressed: Vec<PttKey>,
}

impl View for KeyTracker {
    type V = Set<PttKey>;

    closed spec fn view(&self) -> Set<PttKey> {
        self.pressed@.to_set()
    }
}

/// Whether a hotkey is held: it binds at least one key, and all of its keys are down.
pub open spec fn hotkey_held(keys: Seq<PttKey>, pressed: Set<PttKey>) -> bool {
    keys.len() > 0 && forall|i: int| 0 <= i < keys.len() ==> pressed.contains(#[trigger] keys[i])
}

impl KeyTracker {
    /// No key occurs twice.
    pub closed spec fn wf(self) -> bool {
        self.pressed@.no_duplicates()
    }

    /// Nothing is pressed yet.
    pub fn new() -> (r: KeyTracker)
        ensures
            r.wf(),
            r@ == Set::<PttKey>::empty(),
    {
        let r = KeyTracker { pressed: Vec::new() };
        proof {
            assert(r@ =~= Set::<PttKey>::empty());
        }
        r
    }

    fn position(&self, key: PttKey) -> (r: Option<usize>)
        ensures
            match r {
                Some(i) => i < self.pressed@.len() && self.pressed@[i as int] == key,
                None => !self.pressed@.contains(key),
            },
    {
        let n: usize = self.pressed.len();
        let mut i: usize = 0;
        while i < n
            invariant
                i <= n,
                n == self.pressed@.len(),
                forall|j: int| 0 <= j < i ==> self.pressed@[j] != key,
            decreases n - i,
        {
            if self.pressed[i] == key {
                return Some(i);
            }
            i = i + 1;
        }
        None
    }

    /// A key went down, or repeats.
    pub fn press(&mut self, key: PttKey)
        requires
            old(self).wf(),
        ensures
            final(self).wf(),
            final(self)@ == old(self)@.insert(key),
    {
        if self.position(key).is_none() {
            self.pressed.push(key);
        }
        proof {
            let before = old(self).pressed@;
            let after = self.pressed@;
            assert forall|k: PttKey| after.to_set().contains(k) <==> before.to_set().insert(
                key,
            ).contains(k) by {
                if before.contains(k) {
                    let i = choose|i: int| 0 <= i < before.len() && before[i] == k;
                    assert(after[i] == k);
                }
                if after.len() > before.len() {
                    assert(after[before.len() as int] == key);
                }
            }
            assert(self@ =~= old(self)@.insert(key));
        }
    }

    /// A key went up.
    pub fn release(&mut self, key: PttKey)
        requires
            old(self).wf(),
        ensures
            final(self).wf(),
            final(self)@ == old(self)@.remove(key),
    {
        if let Some(i) = self.position(key) {
            self.pressed.remove(i);
            proof {
                let before = old(self).pressed@;
                let after = self.pressed@;
                assert(after =~= before.remove(i as int));
                assert forall|k: PttKey| after.to_set().contains(k) <==> before.to_set().remove(
                    key,
                ).contains(k) by {
                    if before.contains(k) && k != key {
                        let j = choose|j: int| 0 <= j < before.len() && before[j] == k;
                        if j < i {
                            assert(after[j] == k);
                        } else {
                            assert(after[j - 1] == k);
                        }
                    }
                    if after.contains(k) {
                        let j = choose|j: int| 0 <= j < after.len() && after[j] == k;
                        if j < i {
                            assert(before[j] == k);
                        } else {
                            assert(before[j + 1] == k);
                        }
                    }
                }
            }
        }
        proof {
            assert(self@ =~= old(self)@.remove(key));
        }
    }

    /// Whether the hotkey is held.
    pub fn held(&self, keys: &Vec<PttKey>) -> (r: bool)
        ensures
            r == hotkey_held(keys@, self@),
    {
        let n: usize = keys.len();
        if n == 0 {
            return false;
        }
        let mut i: usize = 0;
        while i < n
            invariant
                i <= n,
                n == keys@.len(),
                forall|j: int| 0 <= j < i ==> self@.contains(#[trigger] keys@[j]),
            decreases n - i,
        {
            if self.position(keys[i]).is_none() {
                assert(!self@.contains(keys@[i as int]));
                return false;
            }
            i = i + 1;
        }
        true
    }
}

/// Releasing any key of a hotkey ends it, whatever else is down.
pub proof fn any_release_ends_the_hotkey(keys: Seq<PttKey>, pressed: Set<PttKey>, key: PttKey)
    requires
        keys.contains(key),
    ensures
        !hotkey_held(keys, pressed.remove(key)),
{
    let i = choose|i: int| 0 <= i < keys.len() && keys[i] == key;
    assert(!pressed.remove(key).contains(keys[i]));
}

/// A hotkey is held as soon as the last of its keys goes down, and other keys that are down do not
/// matter; a hotkey without keys is never held.
pub proof fn a_hotkey_is_held_with_all_its_keys(
    keys: Seq<PttKey>,
    pressed: Set<PttKey>,
    other: PttKey,
)
    ensures
        keys.len() > 0 && (forall|k: PttKey| keys.contains(k) ==> pressed.contains(k))
            ==> hotkey_held(keys, pressed),
        hotkey_held(keys, pressed) ==> hotkey_held(keys, pressed.insert(other)),
        !keys.contains(other) ==> hotkey_held(keys, pressed.remove(other)) == hotkey_held(
            keys,
            pressed,
        ),
        keys.len() == 0 ==> !hotkey_held(keys, pressed),
{
    if keys.len() > 0 && (forall|k: PttKey| keys.contains(k) ==> pressed.contains(k)) {
        assert forall|i: int| 0 <= i < keys.len() implies pressed.contains(#[trigger] keys[i]) by {
            assert(keys.contains(keys[i]));
        }
    }
    if !keys.contains(other) {
        assert forall|i: int| 0 <= i < keys.len() implies pressed.remove(other).contains(
            #[trigger] keys[i],
        ) == pressed.contains(keys[i]) by {
            assert(keys.contains(keys[i]));
        }
    }
}

// ── The dictation cycle ──────────────────────────────────────────────────────

/// What the worker has to do next.
#[derive(Clone, Copy, Debug, PartialEq, Eq, Structural)]
pub enum PttAction {
    /// Load the pending recogniser.
    LoadEngine,
    /// Throw away leftover audio and open the microphone.
    OpenMic,
    /// Wait for audio and keep it.
    Capture,
    /// Close the microphone and turn what was said into text.
    Finish,
    /// Wait for the keys.
    Idle,
}

/// How far a round has got.
#[derive(Clone, Copy, Debug, PartialEq, Eq, Structural)]
pub enum Stage {
    Load,
    Open,
    Rest,
}

/// What the worker remembers.
#[verifier::ext_equal]
pub struct PttModel<T> {
    pub stage: Stage,
    /// Whether the keys were held when the round began.
    pub held: bool,
    pub mic_open: bool,
    /// The microphone could not be opened; wait for the keys to be released.
    pub blocked: bool,
    pub speech: Seq<T>,
}

impl<T> PttModel<T> {
    /// Whether this round is to open the microphone.
    pub open spec fn may_open(self, can_start: bool) -> bool {
        self.held && !self.mic_open && !self.blocked && can_start
    }

    /// A new round, with the keys held or not.
    pub open spec fn round(self, held: bool) -> PttModel<T> {
        PttModel { stage: Stage::Load, held, blocked: self.blocked && held, ..self }
    }

    /// What is left once nothing is to load or open.
    pub open spec fn resting(self) -> PttAction {
        if self.mic_open && self.held {
            PttAction::Capture
        } else if self.mic_open {
            PttAction::Finish
        } else {
            PttAction::Idle
        }
    }

    /// The next thing to do in a round, with a recogniser to load or not, and with the overlay
    /// free for a new recording or not; and the stage reached.
    pub open spec fn next(self, pending: bool, can_start: bool) -> (PttAction, Stage) {
        if self.stage == Stage::Load && !self.mic_open && pending {
            (PttAction::LoadEngine, Stage::Open)
        } else if self.stage != Stage::Rest && self.may_open(can_start) {
            (PttAction::OpenMic, Stage::Rest)
        } else {
            (self.resting(), Stage::Rest)
        }
    }
}

/// The push-to-talk worker's state, over samples of type `T`.
pub struct PttMachine<T> {
    stage: Stage,
    held: bool,
    mic_open: bool,
    blocked: bool,
    speech: Vec<T>,
}

impl<T> View for PttMachine<T> {
    type V = PttModel<T>;

    closed spec fn view(&self) -> PttModel<T> {
        PttModel {
            stage: self.stage,
            held: self.held,
            mic_open: self.mic_open,
            blocked: self.blocked,
            speech: self.speech@,
        }
    }
}

impl<T> PttMachine<T> {
    /// The worker before its first round.
    pub fn new() -> (r: PttMachine<T>)
        ensures
            r@ == (PttModel {
                stage: Stage::Load,
                held: false,
                mic_open: false,
                blocked: false,
                speech: Seq::<T>::empty(),
            }),
    {
        PttMachine {
            stage: Stage::Load,
            held: false,
            mic_open: false,
            blocked: false,
            speech: Vec::new(),
        }
    }

    /// Begin a round.
    pub fn begin_round(&mut self, held: bool)
        ensures
            final(self)@ == old(self)@.round(held),
    {
        self.stage = Stage::Load;
        self.held = held;
        if !held {
            self.blocked = false;
        }
    }

    /// What to do next in this round. Capturing, finishing and idling end it.
    pub fn next(&mut self, pending: bool, can_start: bool) -> (r: PttAction)
        ensures
            (r, final(self)@.stage) == old(self)@.next(pending, can_start),
            final(self)@ == (PttModel { stage: final(self)@.stage, ..old(self)@ }),
    {
        if self.stage == Stage::Load && !self.mic_open && pending {
            self.stage = Stage::Open;
            return PttAction::LoadEngine;
        }
        let may_open = self.stage != Stage::Rest && self.held && !self.mic_open && !self.blocked
            && can_start;
        self.stage = Stage::Rest;
        if may_open {
            PttAction::OpenMic
        } else if self.mic_open && self.held {
            PttAction::Capture
        } else if self.mic_open {
            PttAction::Finish
        } else {
            PttAction::Idle
        }
    }

    /// The attempt to open the microphone came out like this. Either way the recording starts
    /// out empty.
    pub fn mic_opened(&mut self, success: bool)
        ensures
            final(self)@ == (PttModel {
                mic_open: if success {
                    true
                } else {
                    old(self)@.mic_open
                },
                blocked: if success {
                    old(self)@.blocked
                } else {
                    true
                },
                speech: Seq::<T>::empty(),
                ..old(self)@
            }),
    {
        self.speech = Vec::new();
        if success {
            self.mic_open = true;
        } else {
            self.blocked = true;
        }
    }

    /// Audio came in.
    pub fn captured(&mut self, chunk: Vec<T>)
        ensures
            final(self)@ == (PttModel { speech: old(self)@.speech + chunk@, ..old(self)@ }),
    {
        let mut chunk = chunk;
        self.speech.append(&mut chunk);
    }

    /// The microphone is closed: hand out everything that was recorded.
    pub fn take_recording(&mut self) -> (r: Vec<T>)
        ensures
            r@ == old(self)@.speech,
            final(self)@ == (PttModel {
                mic_open: false,
                speech: Seq::<T>::empty(),
                ..old(self)@
            }),
    {
        let mut out: Vec<T> = Vec::new();
        std::mem::swap(&mut self.speech, &mut out);
        self.mic_open = false;
        out
    }
}

/// The microphone is opened only while the keys are held, and never twice.
pub proof fn the_mic_opens_only_while_held<T>(m: PttModel<T>, pending: bool, can_start: bool)
    ensures
        m.next(pending, can_start).0 == PttAction::OpenMic ==> m.held && !m.mic_open && can_start,
{
}

/// What a round does, in this order: load a recogniser that is pending, unless the microphone is
/// open; open the microphone, where the keys are held, nothing failed since they went down and the
/// overlay is free; record while the keys are held; finish once they are not; and else nothing. The
/// round's state stays but for the stage.
pub proof fn a_round_takes_its_steps_in_order<T>(m: PttModel<T>, pending: bool, can_start: bool)
    ensures
        ({
            let action = m.next(pending, can_start).0;
            let load = m.stage == Stage::Load && !m.mic_open && pending;
            let open = m.stage != Stage::Rest && !m.mic_open && m.held && !m.blocked && can_start;
            &&& load <==> action == PttAction::LoadEngine
            &&& !load && open <==> action == PttAction::OpenMic
            &&& m.mic_open && m.held <==> action == PttAction::Capture
            &&& m.mic_open && !m.held <==> action == PttAction::Finish
            &&& !load && !open && !m.mic_open <==> action == PttAction::Idle
            &&& m.next(pending, can_start).1 == (if load {
                Stage::Open
            } else {
                Stage::Rest
            })
        }),
{
}

/// A new round starts from the first step with the keys as they are now, and leaves the microphone
/// and the recording as they were.
pub proof fn a_round_keeps_the_recording<T>(m: PttModel<T>, held: bool)
    ensures
        m.round(held).stage == Stage::Load,
        m.round(held).held == held,
        m.round(held).mic_open == m.mic_open,
        m.round(held).speech == m.speech,
        m.round(held).blocked <==> m.blocked && held,
{
}

/// A recogniser is never loaded while the microphone is open.
pub proof fn no_load_while_recording<T>(m: PttModel<T>, pending: bool, can_start: bool)
    ensures
        m.next(pending, can_start).0 == PttAction::LoadEngine ==> !m.mic_open && pending,
{
}

/// With the keys released an open microphone is closed in the very next round, before anything
/// else, and it is never left open while idling.
pub proof fn releasing_closes_the_mic<T>(m: PttModel<T>, pending: bool, can_start: bool)
    ensures
        m.mic_open ==> m.round(false).next(pending, can_start).0 == PttAction::Finish,
        m.next(pending, can_start).0 == PttAction::Idle ==> !m.mic_open,
{
}

/// After a failed attempt the microphone is not tried again while the keys stay held, and it is
/// tried again once they were released and pressed.
pub proof fn a_failed_mic_waits_for_release<T>(m: PttModel<T>, pending: bool, can_start: bool)
    requires
        m.blocked,
    ensures
        m.round(true).blocked,
        m.round(true).next(pending, can_start).0 != PttAction::OpenMic,
        !m.round(false).blocked,
        m.round(false).round(true).may_open(can_start) == (!m.mic_open && can_start),
{
}

/// Once the pending recogniser is loaded the same round goes on to open the microphone.
pub proof fn loading_delays_only<T>(m: PttModel<T>, can_start: bool)
    requires
        m.stage == Stage::Load,
        m.may_open(can_start),
    ensures
        m.next(true, can_start) == (PttAction::LoadEngine, Stage::Open),
        (PttModel { stage: Stage::Open, ..m }).next(true, can_start).0 == PttAction::OpenMic,
        (PttModel { stage: Stage::Open, ..m }).next(false, can_start).0 == PttAction::OpenMic,
{
}

/// The state after a series of chunks came in.
pub open spec fn after_chunks<T>(m: PttModel<T>, chunks: Seq<Seq<T>>) -> PttModel<T>
    decreases chunks.len(),
{
    if chunks.len() == 0 {
        m
    } else {
        let before = after_chunks(m, chunks.drop_last());
        PttModel { speech: before.speech + chunks.last(), ..before }
    }
}

/// Everything that came in is recorded, in the order it came in, and nothing else changes.
pub proof fn the_whole_recording_is_kept<T>(m: PttModel<T>, chunks: Seq<Seq<T>>)
    ensures
        after_chunks(m, chunks) == (PttModel { speech: m.speech + chunks.flatten(), ..m }),
    decreases chunks.len(),
{
    if chunks.len() == 0 {
        reveal_with_fuel(Seq::flatten, 1);
        assert(m.speech + chunks.flatten() =~= m.speech);
    } else {
        let front = chunks.drop_last();
        the_whole_recording_is_kept(m, front);
        chunks.lemma_flatten_and_flatten_alt_are_equivalent();
        front.lemma_flatten_and_flatten_alt_are_equivalent();
        assert(chunks.flatten() == front.flatten() + chunks.last());
        assert(m.speech + front.flatten() + chunks.last() =~= m.speech + chunks.flatten());
    }
}

/// A load is under way.
pub fn load_started(runtime: &mut Runtime)
    ensures
        final(runtime)@ == (RuntimeModel { status: StatusView::Loading, ..old(runtime)@ }),
{
    runtime.set_status(EngineStatus::Loading);
}

/// A load ended, with an error or without. Either way that generation is done with: a
/// recogniser that does not load is not tried again until the settings change.
pub fn load_finished(runtime: &mut Runtime, generation: u64, error: Option<String>)
    ensures
        final(runtime)@ == (RuntimeModel {
            applied: generation,
            status: match error {
                Some(e) => StatusView::Failed(e@),
                None => StatusView::Ready,
            },
            ..old(runtime)@
        }),
{
    match error {
        Some(e) => runtime.set_status(EngineStatus::Failed(e)),
        None => runtime.set_status(EngineStatus::Ready),
    }
    runtime.mark_asr_applied(generation);
}

// ── What came of it ──────────────────────────────────────────────────────────

/// What one dictation produced, so that the overlay can tell the truth about it.
pub enum Outcome {
    Inserted(String),
    NothingHeard,
    Failed(String),
}

/// The texts of an [`Outcome`].
#[verifier::ext_equal]
pub enum OutcomeView {
    Inserted(Seq<char>),
    NothingHeard,
    Failed(Seq<char>),
}

impl View for Outcome {
    type V = OutcomeView;

    open spec fn view(&self) -> OutcomeView {
        match self {
            Outcome::Inserted(t) => OutcomeView::Inserted(t@),
            Outcome::NothingHeard => OutcomeView::NothingHeard,
            Outcome::Failed(m) => OutcomeView::Failed(m@),
        }
    }
}

/// The outcome when the microphone cannot be opened.
pub fn mic_failure() -> (r: Outcome)
    ensures
        r@ == OutcomeView::Failed("麦克风打开失败，检查录音权限"@),
{
    Outcome::Failed("麦克风打开失败，检查录音权限".to_owned())
}

/// The outcome of a recording that is not transcribed, if it is not: nothing was recorded, or no
/// recogniser is at hand.
pub open spec fn without_transcript(silent: bool, loaded: bool, status: StatusView) -> Option<
    OutcomeView,
> {
    if silent {
        Some(OutcomeView::NothingHeard)
    } else if loaded {
        None
    } else {
        Some(
            OutcomeView::Failed(
                match status {
                    StatusView::Failed(e) => "识别模型未就绪："@ + e,
                    _ => "识别模型仍在加载，稍后再试"@,
                },
            ),
        )
    }
}

/// Settles a recording before it is transcribed, where that is possible.
pub fn before_transcript(silent: bool, loaded: bool, status: &EngineStatus) -> (r: Option<Outcome>)
    ensures
        (match r {
            Some(o) => Some(o@),
            None => None,
        }) == without_transcript(silent, loaded, status@),
{
    if silent {
        return Some(Outcome::NothingHeard);
    }
    if loaded {
        return None;
    }
    Some(
        Outcome::Failed(
            match status {
                EngineStatus::Failed(e) => {
                    let mut m = "识别模型未就绪：".to_owned();
                    m.append(e.as_str());
                    m
                },
                _ => "识别模型仍在加载，稍后再试".to_owned(),
            },
        ),
    )
}

/// How far a recording got on its way to text.
pub enum Heard {
    /// The audio could not be resampled.
    NotResampled,
    /// The recogniser failed.
    NotRecognised,
    /// The recogniser's text.
    Text(String),
}

/// The text worth inserting, or what to tell instead.
pub fn worth_inserting(heard: Heard) -> (r: Result<String, Outcome>)
    ensures
        match r {
            Ok(t) => heard matches Heard::Text(text) && t@ == text@ && content_chars(text@) >= 2,
            Err(o) => match heard {
                Heard::NotResampled => o@ == OutcomeView::Failed("音频重采样失败"@),
                Heard::NotRecognised => o@ == OutcomeView::Failed("识别失败，详见日志"@),
                Heard::Text(text) => o@ == OutcomeView::NothingHeard && content_chars(text@) < 2,
            },
        },
{
    match heard {
        Heard::NotResampled => Err(Outcome::Failed("音频重采样失败".to_owned())),
        Heard::NotRecognised => Err(Outcome::Failed("识别失败，详见日志".to_owned())),
        Heard::Text(text) => if is_meaningful_pub(text.as_str()) {
            Ok(text)
        } else {
            Err(Outcome::NothingHeard)
        },
    }
}

/// The text to insert: the polished one, or the raw one where polishing is off or failed.
pub fn final_text(raw: String, no_llm: bool, polished: Option<String>) -> (r: String)
    ensures
        r@ == (match polished {
            Some(p) => if no_llm {
                raw@
            } else {
                p@
            },
            None => raw@,
        }),
{
    if no_llm {
        return raw;
    }
    match polished {
        Some(p) => p,
        None => raw,
    }
}

/// How the user learns of an outcome.
pub enum Report {
    /// The overlay shows the inserted text.
    Done(String),
    /// The overlay shows a notice.
    Notice { message: String, failed: bool },
    /// The console gets this text.
    Console(String),
}

/// The texts of a [`Report`].
#[verifier::ext_equal]
pub enum ReportView {
    Done(Seq<char>),
    Notice { message: Seq<char>, failed: bool },
    Console(Seq<char>),
}

impl View for Report {
    type V = ReportView;

    open spec fn view(&self) -> ReportView {
        match self {
            Report::Done(t) => ReportView::Done(t@),
            Report::Notice { message, failed } => ReportView::Notice {
                message: message@,
                failed: *failed,
            },
            Report::Console(t) => ReportView::Console(t@),
        }
    }
}

/// How the user learns of an outcome, with an overlay or without.
pub open spec fn reported(outcome: OutcomeView, overlay: bool) -> ReportView {
    match (overlay, outcome) {
        (true, OutcomeView::Inserted(text)) => ReportView::Done(text),
        (true, OutcomeView::NothingHeard) => ReportView::Notice {
            message: "没有听清，再按住试一次"@,
            failed: false,
        },
        (true, OutcomeView::Failed(message)) => ReportView::Notice { message, failed: true },
        (false, OutcomeView::Inserted(_)) => ReportView::Console(
            "\r✅ 已粘贴                       \n"@,
        ),
        (false, OutcomeView::NothingHeard) => ReportView::Console(
            "\r🤷 没有识别到语音               \n"@,
        ),
        (false, OutcomeView::Failed(message)) => ReportView::Console("\r❌ "@ + message + "\n"@),
    }
}

/// How to tell the user of an outcome.
pub fn report(outcome: Outcome, overlay: bool) -> (r: Report)
    ensures
        r@ == reported(outcome@, overlay),
{
    if overlay {
        match outcome {
            Outcome::Inserted(text) => Report::Done(text),
            Outcome::NothingHeard => Report::Notice {
                message: "没有听清，再按住试一次".to_owned(),
                failed: false,
            },
            Outcome::Failed(message) => Report::Notice { message, failed: true },
        }
    } else {
        match outcome {
            Outcome::Inserted(_) => Report::Console(
                "\r✅ 已粘贴                       \n".to_owned(),
            ),
            Outcome::NothingHeard => Report::Console(
                "\r🤷 没有识别到语音               \n".to_owned(),
            ),
            Outcome::Failed(message) => {
                let mut line = "\r❌ ".to_owned();
                line.append(message.as_str());
                line.append("\n");
                Report::Console(line)
            },
        }
    }
}

/// The overlay tells the truth: it shows what was inserted as it was inserted, warns of a failure in
/// the words of the failure, and does not warn where nothing was heard. The console is told of a
/// failure in its words too.
pub proof fn outcomes_are_told_as_they_are(outcome: OutcomeView)
    ensures
        match outcome {
            OutcomeView::Inserted(text) => reported(outcome, true) == ReportView::Done(text),
            OutcomeView::NothingHeard => reported(outcome, true) matches ReportView::Notice {
                message,
                failed,
            } && !failed,
            OutcomeView::Failed(m) => reported(outcome, true) == (ReportView::Notice {
                message: m,
                failed: true,
            }),
        },
        match (outcome, reported(outcome, false)) {
            (OutcomeView::Failed(m), ReportView::Console(line)) => exists|a: Seq<char>, b: Seq<char>|
                line == #[trigger] (a + m + b),
            (_, ReportView::Console(_)) => true,
            _ => false,
        },
{
    if let OutcomeView::Failed(m) = outcome {
        let line = "\r❌ "@ + m + "\n"@;
        assert(line == "\r❌ "@ + m + "\n"@);
    }
}

/// A recording goes on to be transcribed exactly where something was recorded and a recogniser is
/// loaded; where it does not, silence is told as such and a recogniser that failed with its reason.
pub proof fn only_what_can_be_read_is_transcribed(silent: bool, loaded: bool, status: StatusView)
    ensures
        without_transcript(silent, loaded, status) is None <==> !silent && loaded,
        silent ==> without_transcript(silent, loaded, status) == Some(OutcomeView::NothingHeard),
        !silent && !loaded ==> (without_transcript(silent, loaded, status) matches Some(
            OutcomeView::Failed(m),
        ) && (status matches StatusView::Failed(e) ==> m.len() > e.len() && m.skip(
            m.len() - e.len(),
        ) == e)),
{
    if !silent && !loaded {
        if let StatusView::Failed(e) = status {
            reveal_strlit("识别模型未就绪：");
            let m = "识别模型未就绪："@ + e;
            assert(m.skip(m.len() - e.len()) =~= e);
        }
    }
}

/// Why push-to-talk cannot run in a Wayland session.
pub const NO_WAYLAND: &'static str = "Wayland global PTT requires the XDG GlobalShortcuts Portal backend; use X11 or open Settings to review platform capabilities";

/// Whether push-to-talk can run in this session.
pub fn check_session(wayland: bool) -> (r: Result<(), &'static str>)
    ensures
        match r {
            Ok(_) => !wayland,
            Err(m) => wayland && m@ == NO_WAYLAND@,
        },
{
    if wayland {
        Err(NO_WAYLAND)
    } else {
        Ok(())
    }
}

}
