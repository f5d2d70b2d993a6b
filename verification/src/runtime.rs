//! Settings shared live between the desktop window and the push-to-talk worker.
//!
//! Saving in the window calls [`Runtime::apply`]; the worker picks the new values up on its next
//! round. Only a change of recogniser costs anything, and that is a reload in the background.

use vstd::prelude::*;
use vstd::string::*;

use crate::app_config::{AppConfig, CliOverrides, DEFAULT_PTT_KEY, or_value};
use crate::asr::{AsrConfig, AsrView, HrConfig, HrView};
use crate::config::{ConfigFile, PttKey, keys_named, parse_ptt_keys};
use crate::single::Single;
use crate::text::{opt_view, or_text, split};

verus! {

/// Values the worker reads again on every push-to-talk round.
#[derive(Debug, PartialEq)]
pub struct LiveTunables {
    pub ptt_key: String,
    pub input_device: Option<String>,
    pub energy_threshold: Single,
    pub no_llm: bool,
    pub lm_url: String,
    pub lm_model: String,
    pub follow_caret: bool,
    pub live_preview: bool,
}

/// The contents of [`LiveTunables`].
#[verifier::ext_equal]
pub struct LiveView {
    pub ptt_key: Seq<char>,
    pub input_device: Option<Seq<char>>,
    pub energy_threshold: Single,
    pub no_llm: bool,
    pub lm_url: Seq<char>,
    pub lm_model: Seq<char>,
    pub follow_caret: bool,
    pub live_preview: bool,
}

impl View for LiveTunables {
    type V = LiveView;

    open spec fn view(&self) -> LiveView {
        LiveView {
            ptt_key: self.ptt_key@,
            input_device: opt_view(self.input_device),
            energy_threshold: self.energy_threshold,
            no_llm: self.no_llm,
            lm_url: self.lm_url@,
            lm_model: self.lm_model@,
            follow_caret: self.follow_caret,
            live_preview: self.live_preview,
        }
    }
}

impl Clone for LiveTunables {
    fn clone(&self) -> (r: LiveTunables)
        ensures
            r@ == self@,
    {
        LiveTunables {
            ptt_key: self.ptt_key.clone(),
            input_device: self.input_device.clone(),
            energy_threshold: self.energy_threshold,
            no_llm: self.no_llm,
            lm_url: self.lm_url.clone(),
            lm_model: self.lm_model.clone(),
            follow_caret: self.follow_caret,
            live_preview: self.live_preview,
        }
    }
}

/// What the recogniser is doing.
#[derive(Debug, PartialEq, Eq)]
pub enum EngineStatus {
    Loading,
    Ready,
    Failed(String),
}

/// The contents of an [`EngineStatus`].
#[verifier::ext_equal]
pub enum StatusView {
    Loading,
    Ready,
    Failed(Seq<char>),
}

impl View for EngineStatus {
    type V = StatusView;

    open spec fn view(&self) -> StatusView {
        match self {
            EngineStatus::Loading => StatusView::Loading,
            EngineStatus::Ready => StatusView::Ready,
            EngineStatus::Failed(m) => StatusView::Failed(m@),
        }
    }
}

impl Clone for EngineStatus {
    fn clone(&self) -> (r: EngineStatus)
        ensures
            r@ == self@,
    {
        match self {
            EngineStatus::Loading => EngineStatus::Loading,
            EngineStatus::Ready => EngineStatus::Ready,
            EngineStatus::Failed(m) => EngineStatus::Failed(m.clone()),
        }
    }
}

impl EngineStatus {
    /// Whether the recogniser can be used.
    pub fn is_ready(&self) -> (r: bool)
        ensures
            r == (self is Ready),
    {
        match self {
            EngineStatus::Ready => true,
            _ => false,
        }
    }
}

/// The state of a [`Runtime`].
#[verifier::ext_equal]
pub struct RuntimeModel {
    pub live: LiveView,
    pub keys: Seq<PttKey>,
    pub asr: AsrView,
    pub hr: HrView,
    /// Grows whenever the wanted recogniser changes; the worker reloads until it catches up.
    pub requested: u64,
    pub applied: u64,
    pub status: StatusView,
    pub shutdown: bool,
}

/// The keys a specification names, or the ones bound before where it makes no sense.
pub open spec fn bound_keys(spec: Seq<char>, before: Seq<PttKey>) -> Seq<PttKey> {
    match keys_named(split(spec, '+')) {
        Some(keys) => keys,
        None => before,
    }
}

/// The next generation number; after the largest it starts over.
pub open spec fn generation_after(n: u64) -> u64 {
    if n == u64::MAX {
        0
    } else {
        (n + 1) as u64
    }
}

/// The replacer of homophones that settings want.
pub open spec fn replacer(resolved: AppConfig) -> HrView {
    HrView {
        lexicon: opt_view(resolved.hr_lexicon),
        rule_fsts: opt_view(resolved.hr_rule_fsts),
    }
}

impl RuntimeModel {
    /// Whether the worker still has a recogniser to load.
    pub open spec fn behind(self) -> bool {
        self.requested != self.applied
    }

    /// The state after a file was saved whose settings resolve to `resolved`.
    pub open spec fn after_apply(self, resolved: AppConfig, file: ConfigFile) -> RuntimeModel {
        let live = LiveView {
            ptt_key: or_text(resolved.ptt_key, DEFAULT_PTT_KEY@),
            input_device: opt_view(resolved.input_device),
            energy_threshold: resolved.energy_threshold,
            no_llm: resolved.no_llm,
            lm_url: resolved.lm_url@,
            lm_model: resolved.lm_model@,
            follow_caret: or_value(file.overlay_follow_caret, true),
            live_preview: or_value(file.overlay_live_preview, true),
        };
        RuntimeModel {
            live,
            keys: bound_keys(live.ptt_key, self.keys),
            asr: resolved.asr(),
            hr: replacer(resolved),
            requested: if self.wants_reload(resolved) {
                generation_after(self.requested)
            } else {
                self.requested
            },
            ..self
        }
    }

    /// Whether settings want another recogniser, or another replacer of homophones.
    pub open spec fn wants_reload(self, resolved: AppConfig) -> bool {
        self.asr != resolved.asr() || self.hr != replacer(resolved)
    }

    /// The state after several files were saved, one after the other.
    pub open spec fn after_applies(self, saves: Seq<(AppConfig, ConfigFile)>) -> RuntimeModel
        decreases saves.len(),
    {
        if saves.len() == 0 {
            self
        } else {
            self.after_applies(saves.drop_last()).after_apply(saves.last().0, saves.last().1)
        }
    }

    /// How many of several saves, one after the other, want a reload.
    pub open spec fn changes(self, saves: Seq<(AppConfig, ConfigFile)>) -> int
        decreases saves.len(),
    {
        if saves.len() == 0 {
            0
        } else {
            self.changes(saves.drop_last()) + if self.after_applies(
                saves.drop_last(),
            ).wants_reload(saves.last().0) {
                1int
            } else {
                0int
            }
        }
    }
}

/// Settings shared live between the window and the worker.
pub struct Runtime {
    live: LiveTunables,
    ptt_keys: Vec<PttKey>,
    desired_asr: AsrConfig,
    desired_hr: HrConfig,
    requested: u64,
    applied: u64,
    status: EngineStatus,
    shutdown: bool,
}

impl View for Runtime {
    type V = RuntimeModel;

    closed spec fn view(&self) -> RuntimeModel {
        RuntimeModel {
            live: self.live@,
            keys: self.ptt_keys@,
            asr: self.desired_asr@,
            hr: self.desired_hr@,
            requested: self.requested,
            applied: self.applied,
            status: self.status@,
            shutdown: self.shutdown,
        }
    }
}

impl Runtime {
    /// A runtime whose recogniser is still to be loaded. An unparsable hotkey binds no key.
    pub fn new(live: LiveTunables, asr: AsrConfig, hr: HrConfig) -> (r: Runtime)
        ensures
            r@ == (RuntimeModel {
                live: live@,
                keys: bound_keys(live.ptt_key@, Seq::empty()),
                asr: asr@,
                hr: hr@,
                requested: 1,
                applied: 0,
                status: StatusView::Loading,
                shutdown: false,
            }),
    {
        let ptt_keys = match parse_ptt_keys(live.ptt_key.as_str()) {
            Some(keys) => keys,
            None => Vec::new(),
        };
        Runtime {
            live,
            ptt_keys,
            desired_asr: asr,
            desired_hr: hr,
            requested: 1,
            applied: 0,
            status: EngineStatus::Loading,
            shutdown: false,
        }
    }

    /// The values in force.
    pub fn live(&self) -> (r: LiveTunables)
        ensures
            r@ == self@.live,
    {
        self.live.clone()
    }

    /// The keys to listen for.
    pub fn ptt_keys(&self) -> (r: Vec<PttKey>)
        ensures
            r@ == self@.keys,
    {
        self.ptt_keys.clone()
    }

    /// What the recogniser is doing.
    pub fn status(&self) -> (r: EngineStatus)
        ensures
            r@ == self@.status,
    {
        self.status.clone()
    }

    /// Tell what the recogniser is doing.
    pub fn set_status(&mut self, status: EngineStatus)
        ensures
            final(self)@ == (RuntimeModel { status: status@, ..old(self)@ }),
    {
        self.status = status;
    }

    /// Ask the worker to stop.
    pub fn request_shutdown(&mut self)
        ensures
            final(self)@ == (RuntimeModel { shutdown: true, ..old(self)@ }),
    {
        self.shutdown = true;
    }

    /// Whether the worker was asked to stop.
    pub fn shutdown_requested(&self) -> (r: bool)
        ensures
            r == self@.shutdown,
    {
        self.shutdown
    }

    /// Fold a freshly saved file into the live values. True when the recogniser has to be
    /// rebuilt, which the caller may want to tell the user about.
    pub fn apply(&mut self, file: &ConfigFile) -> (r: bool)
        ensures
            exists|resolved: AppConfig|
                {
                    &&& #[trigger] resolved.follows(CliOverrides::silent(), *file)
                    &&& final(self)@ == old(self)@.after_apply(resolved, *file)
                },
            r == (final(self)@.asr != old(self)@.asr || final(self)@.hr != old(self)@.hr),
    {
        let resolved = AppConfig::from_file(file);
        let live = resolved.live_tunables(file);
        if let Some(keys) = parse_ptt_keys(live.ptt_key.as_str()) {
            self.ptt_keys = keys;
        }
        self.live = live;
        let asr = resolved.build_asr_config();
        let hr = resolved.build_hr_config();
        let changed = !(self.desired_asr.same_as(&asr) && self.desired_hr.same_as(&hr));
        if changed {
            self.desired_asr = asr;
            self.desired_hr = hr;
            self.requested = if self.requested == u64::MAX {
                0
            } else {
                self.requested + 1
            };
        }
        proof {
            assert(self@ =~= old(self)@.after_apply(resolved, *file));
        }
        changed
    }

    /// The recogniser the worker still has to load, if it is behind.
    pub fn pending_asr(&self) -> (r: Option<(u64, AsrConfig, HrConfig)>)
        ensures
            match r {
                Some((generation, asr, hr)) => self@.behind() && generation == self@.requested
                    && asr@ == self@.asr && hr@ == self@.hr,
                None => !self@.behind(),
            },
    {
        if self.requested == self.applied {
            return None;
        }
        Some((self.requested, self.desired_asr.clone(), self.desired_hr.clone()))
    }

    /// Tell that the recogniser of a generation is loaded.
    pub fn mark_asr_applied(&mut self, generation: u64)
        ensures
            final(self)@ == (RuntimeModel { applied: generation, ..old(self)@ }),
    {
        self.applied = generation;
    }
}

/// Two resolutions of one file agree in everything the runtime reads, so [`Runtime::apply`] has
/// one outcome.
pub proof fn applying_has_one_outcome(
    model: RuntimeModel,
    a: AppConfig,
    b: AppConfig,
    file: ConfigFile,
)
    requires
        a.follows(CliOverrides::silent(), file),
        b.follows(CliOverrides::silent(), file),
    ensures
        model.after_apply(a, file) == model.after_apply(b, file),
{
    assert(model.after_apply(a, file) =~= model.after_apply(b, file));
}

/// Saving settings that leave the recogniser as it is never makes the worker fall behind.
pub proof fn tuning_costs_no_reload(model: RuntimeModel, resolved: AppConfig, file: ConfigFile)
    requires
        resolved.asr() == model.asr,
        replacer(resolved) == model.hr,
    ensures
        model.after_apply(resolved, file).requested == model.requested,
        model.after_apply(resolved, file).behind() == model.behind(),
{
}

proof fn generations_count_changes(model: RuntimeModel, saves: Seq<(AppConfig, ConfigFile)>)
    ensures
        model.after_applies(saves).requested == (model.requested + model.changes(saves))
            % 0x1_0000_0000_0000_0000,
        model.after_applies(saves).applied == model.applied,
        saves.len() > 0 ==> model.after_applies(saves).asr == saves.last().0.asr()
            && model.after_applies(saves).hr == replacer(saves.last().0),
    decreases saves.len(),
{
    if saves.len() > 0 {
        generations_count_changes(model, saves.drop_last());
    }
}

/// However many files are saved one after the other: if any of them changes the recogniser or the
/// replacer of homophones, a worker that had caught up is exactly one load behind, and that load
/// is of what was saved last. Once it is marked as done, nothing is pending.
pub proof fn a_change_costs_one_reload(model: RuntimeModel, saves: Seq<(AppConfig, ConfigFile)>)
    requires
        0 < model.changes(saves) <= u64::MAX,
        !model.behind(),
    ensures
        model.after_applies(saves).behind(),
        model.after_applies(saves).asr == saves.last().0.asr(),
        model.after_applies(saves).hr == replacer(saves.last().0),
        !(RuntimeModel {
            applied: model.after_applies(saves).requested,
            ..model.after_applies(saves)
        }).behind(),
{
    generations_count_changes(model, saves);
}

/// Changes saved while a load is under way are not lost, however many files are saved: marking the
/// load that was begun before as done leaves the worker behind.
pub proof fn a_change_during_a_load_is_not_lost(
    model: RuntimeModel,
    saves: Seq<(AppConfig, ConfigFile)>,
)
    requires
        0 < model.changes(saves) <= u64::MAX,
    ensures
        (RuntimeModel { applied: model.requested, ..model.after_applies(saves) }).behind(),
{
    generations_count_changes(model, saves);
}

/// A single save counts as a change where it wants another recogniser or another replacer of
/// homophones, and only there.
pub proof fn either_change_counts(model: RuntimeModel, resolved: AppConfig, file: ConfigFile)
    ensures
        model.changes(seq![(resolved, file)]) == (if resolved.asr() != model.asr || replacer(
            resolved,
        ) != model.hr {
            1int
        } else {
            0int
        }),
        model.after_applies(seq![(resolved, file)]) == model.after_apply(resolved, file),
{
    let saves = seq![(resolved, file)];
    assert(saves.drop_last() =~= Seq::empty());
    reveal_with_fuel(RuntimeModel::after_applies, 2);
    reveal_with_fuel(RuntimeModel::changes, 2);
}

/// A hotkey that makes no sense leaves the previous keys bound.
pub proof fn an_unparsable_hotkey_keeps_the_keys(
    model: RuntimeModel,
    resolved: AppConfig,
    file: ConfigFile,
)
    requires
        keys_named(split(or_text(resolved.ptt_key, DEFAULT_PTT_KEY@), '+')) is None,
    ensures
        model.after_apply(resolved, file).keys == model.keys,
{
}

/// What is saved is in force from then on: each live value is that of the settings, the recogniser
/// and the replacer wanted are theirs, and what the worker reports is left alone.
pub proof fn saved_settings_are_in_force(
    model: RuntimeModel,
    resolved: AppConfig,
    file: ConfigFile,
)
    ensures
        ({
            let new = model.after_apply(resolved, file);
            let key = match resolved.ptt_key {
                Some(key) => key@,
                None => "CapsLock"@,
            };
            &&& new.live.ptt_key == key
            &&& new.live.input_device == opt_view(resolved.input_device)
            &&& new.live.energy_threshold == resolved.energy_threshold
            &&& new.live.no_llm == resolved.no_llm
            &&& new.live.lm_url == resolved.lm_url@
            &&& new.live.lm_model == resolved.lm_model@
            &&& new.live.follow_caret <==> file.overlay_follow_caret != Some(false)
            &&& new.live.live_preview <==> file.overlay_live_preview != Some(false)
            &&& keys_named(split(key, '+')) matches Some(keys) ==> new.keys == keys
            &&& keys_named(split(key, '+')) is None ==> new.keys == model.keys
            &&& new.asr == resolved.asr()
            &&& new.hr.lexicon == opt_view(resolved.hr_lexicon)
            &&& new.hr.rule_fsts == opt_view(resolved.hr_rule_fsts)
            &&& new.requested == model.requested <==> new.asr == model.asr && new.hr == model.hr
            &&& new.applied == model.applied
            &&& new.status == model.status
            &&& new.shutdown == model.shutdown
        }),
{
}

/// A worker is behind until what it loaded is what was last asked for, and a generation that is over
/// comes again only after all the others.
pub proof fn generations_come_in_turn(model: RuntimeModel, n: u64)
    ensures
        model.behind() <==> !(model.applied == model.requested),
        generation_after(n) == (n + 1) % 0x1_0000_0000_0000_0000,
{
}

/// Live values are alike only where each of them is.
pub proof fn live_values_differ_with_any_of_them(a: LiveTunables, b: LiveTunables)
    ensures
        a@ == b@ <==> a.ptt_key@ == b.ptt_key@ && opt_view(a.input_device) == opt_view(
            b.input_device,
        ) && a.energy_threshold == b.energy_threshold && a.no_llm == b.no_llm && a.lm_url@
            == b.lm_url@ && a.lm_model@ == b.lm_model@ && a.follow_caret == b.follow_caret
            && a.live_preview == b.live_preview,
{
    if a.ptt_key@ == b.ptt_key@ && opt_view(a.input_device) == opt_view(b.input_device) && a.lm_url@
        == b.lm_url@ && a.lm_model@ == b.lm_model@ && a.energy_threshold == b.energy_threshold
        && a.no_llm == b.no_llm && a.follow_caret == b.follow_caret && a.live_preview
        == b.live_preview {
        assert(a@ =~= b@);
    }
}

/// A recogniser that failed is told from one that is loading or ready, and its reason with it.
pub proof fn states_of_the_recogniser_are_told_apart(a: EngineStatus, b: EngineStatus)
    ensures
        a@ == b@ <==> match (a, b) {
            (EngineStatus::Loading, EngineStatus::Loading) => true,
            (EngineStatus::Ready, EngineStatus::Ready) => true,
            (EngineStatus::Failed(m), EngineStatus::Failed(n)) => m@ == n@,
            _ => false,
        },
{
}

}
