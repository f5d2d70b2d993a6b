//! The settings in force: command line over configuration file over built-in defaults.

use vstd::prelude::*;
use vstd::string::*;

use crate::asr::{AsrConfig, AsrView, HrConfig, HrView};
use crate::audio::mic::LiveConfig;
use crate::config::ConfigFile;
use crate::diarization::DiarizationConfig;
use crate::lmstudio::AutoStartConfig;
use crate::runtime::{LiveTunables, Runtime, RuntimeModel, StatusView, bound_keys};
use crate::single::Single;
use crate::text::{
    decimal, decimal_of, decimals_read_back, number_in, opt_view, or_text, same_text, text_or, views,
};

verus! {

pub const DEFAULT_MODEL: &'static str = "models/sense-voice/model.int8.onnx";

pub const DEFAULT_TOKENS: &'static str = "models/sense-voice/tokens.txt";

pub const DEFAULT_FUNASR_ENCODER_ADAPTOR: &'static str = "models/funasr-nano/encoder_adaptor.int8.onnx";

pub const DEFAULT_FUNASR_LLM: &'static str = "models/funasr-nano/llm.int8.onnx";

pub const DEFAULT_FUNASR_EMBEDDING: &'static str = "models/funasr-nano/embedding.int8.onnx";

pub const DEFAULT_FUNASR_TOKENIZER: &'static str = "models/funasr-nano";

pub const DEFAULT_SPEAKER_SEGMENTATION_MODEL: &'static str = "models/speaker-diarization/segmentation/model.int8.onnx";

pub const DEFAULT_SPEAKER_EMBEDDING_MODEL: &'static str = "models/speaker-diarization/embedding/model.int8.onnx";

pub const DEFAULT_LM_URL: &'static str = "http://localhost:1234";

pub const DEFAULT_LM_MODEL: &'static str = "local-model";

pub const DEFAULT_LANG: &'static str = "auto";

pub const DEFAULT_BACKEND: &'static str = "sense-voice";

pub const FUNASR_BACKEND: &'static str = "funasr-nano";

pub const DEFAULT_PTT_KEY: &'static str = "CapsLock";

/// 0.01 as a single-precision number.
pub const DEFAULT_ENERGY_THRESHOLD: u32 = 0x3C23_D70A;

/// 0.5 as a single-precision number.
pub const DEFAULT_SPEAKER_THRESHOLD: u32 = 0x3F00_0000;

/// 0.2 as a single-precision number.
pub const DEFAULT_MIN_DURATION_ON: u32 = 0x3E4C_CCCD;

/// 0.5 as a single-precision number.
pub const DEFAULT_MIN_DURATION_OFF: u32 = 0x3F00_0000;

pub const DEFAULT_VAD_SILENCE_MS: u64 = 800;

/// What the command line may override.
pub struct CliOverrides {
    pub lm_url: Option<String>,
    pub lm_model: Option<String>,
    pub no_llm: bool,
    pub asr_backend: Option<String>,
    pub model: Option<String>,
    pub tokens: Option<String>,
    pub funasr_encoder_adaptor: Option<String>,
    pub funasr_llm: Option<String>,
    pub funasr_embedding: Option<String>,
    pub funasr_tokenizer: Option<String>,
    pub lang: Option<String>,
}

impl CliOverrides {
    /// A command line without any option.
    pub open spec fn silent() -> CliOverrides {
        CliOverrides {
            lm_url: None,
            lm_model: None,
            no_llm: false,
            asr_backend: None,
            model: None,
            tokens: None,
            funasr_encoder_adaptor: None,
            funasr_llm: None,
            funasr_embedding: None,
            funasr_tokenizer: None,
            lang: None,
        }
    }
}

/// The text that wins: the command line's, else the file's, else the default.
pub open spec fn winner(cli: Option<String>, file: Option<String>, default: Seq<char>) -> Seq<
    char,
> {
    or_text(cli, or_text(file, default))
}

/// The value of an option, or a default.
pub open spec fn or_value<T>(o: Option<T>, default: T) -> T {
    match o {
        Some(v) => v,
        None => default,
    }
}

/// The resolved settings.
pub struct AppConfig {
    pub lm_url: String,
    pub lm_model: String,
    pub no_llm: bool,
    pub lmstudio_auto_start: bool,
    pub lmstudio_model: String,
    pub lmstudio_context_length: Option<u32>,
    pub asr_backend: String,
    pub model: String,
    pub tokens: String,
    pub funasr_encoder_adaptor: String,
    pub funasr_llm: String,
    pub funasr_embedding: String,
    pub funasr_tokenizer: String,
    pub funasr_itn: bool,
    pub speaker_segmentation_model: String,
    pub speaker_embedding_model: String,
    pub speaker_num_clusters: Option<i32>,
    pub speaker_threshold: Single,
    pub speaker_min_duration_on: Single,
    pub speaker_min_duration_off: Single,
    pub lang: String,
    pub energy_threshold: Single,
    pub vad_silence_ms: u64,
    pub ptt_key: Option<String>,
    pub input_device: Option<String>,
    pub hr_lexicon: Option<String>,
    pub hr_rule_fsts: Option<String>,
}

impl AppConfig {
    /// Whether these are the settings that follow from a command line and a file.
    pub open spec fn follows(self, cli: CliOverrides, file: ConfigFile) -> bool {
        let lm_model = winner(cli.lm_model, file.lm_model, DEFAULT_LM_MODEL@);
        &&& self.lm_url@ == winner(cli.lm_url, file.lm_url, DEFAULT_LM_URL@)
        &&& self.lm_model@ == lm_model
        &&& self.no_llm == (cli.no_llm || or_value(file.no_llm, false))
        &&& self.lmstudio_auto_start == or_value(file.lmstudio_auto_start, false)
        &&& self.lmstudio_model@ == or_text(file.lmstudio_model, lm_model)
        &&& self.lmstudio_context_length == file.lmstudio_context_length
        &&& self.asr_backend@ == winner(cli.asr_backend, file.asr_backend, DEFAULT_BACKEND@)
        &&& self.model@ == winner(cli.model, file.model, DEFAULT_MODEL@)
        &&& self.tokens@ == winner(cli.tokens, file.tokens, DEFAULT_TOKENS@)
        &&& self.funasr_encoder_adaptor@ == winner(
            cli.funasr_encoder_adaptor,
            file.funasr_encoder_adaptor,
            DEFAULT_FUNASR_ENCODER_ADAPTOR@,
        )
        &&& self.funasr_llm@ == winner(cli.funasr_llm, file.funasr_llm, DEFAULT_FUNASR_LLM@)
        &&& self.funasr_embedding@ == winner(
            cli.funasr_embedding,
            file.funasr_embedding,
            DEFAULT_FUNASR_EMBEDDING@,
        )
        &&& self.funasr_tokenizer@ == winner(
            cli.funasr_tokenizer,
            file.funasr_tokenizer,
            DEFAULT_FUNASR_TOKENIZER@,
        )
        &&& self.funasr_itn == or_value(file.funasr_itn, true)
        &&& self.speaker_segmentation_model@ == or_text(
            file.speaker_segmentation_model,
            DEFAULT_SPEAKER_SEGMENTATION_MODEL@,
        )
        &&& self.speaker_embedding_model@ == or_text(
            file.speaker_embedding_model,
            DEFAULT_SPEAKER_EMBEDDING_MODEL@,
        )
        &&& self.speaker_num_clusters == file.speaker_num_clusters
        &&& self.speaker_threshold == or_value(
            file.speaker_threshold,
            Single { bits: DEFAULT_SPEAKER_THRESHOLD },
        )
        &&& self.speaker_min_duration_on == or_value(
            file.speaker_min_duration_on,
            Single { bits: DEFAULT_MIN_DURATION_ON },
        )
        &&& self.speaker_min_duration_off == or_value(
            file.speaker_min_duration_off,
            Single { bits: DEFAULT_MIN_DURATION_OFF },
        )
        &&& self.lang@ == winner(cli.lang, file.lang, DEFAULT_LANG@)
        &&& self.energy_threshold == or_value(
            file.energy_threshold,
            Single { bits: DEFAULT_ENERGY_THRESHOLD },
        )
        &&& self.vad_silence_ms == or_value(file.vad_silence_ms, DEFAULT_VAD_SILENCE_MS)
        &&& opt_view(self.ptt_key) == opt_view(file.ptt_key)
        &&& opt_view(self.input_device) == opt_view(file.input_device)
        &&& opt_view(self.hr_lexicon) == opt_view(file.hr_lexicon)
        &&& opt_view(self.hr_rule_fsts) == opt_view(file.hr_rule_fsts)
    }

    /// Resolve configuration-file values against the built-in defaults. Saving in the settings
    /// takes this path at run time, so it does not depend on the command line.
    pub fn from_file(file: &ConfigFile) -> (r: AppConfig)
        ensures
            r.follows(CliOverrides::silent(), *file),
    {
        let lm_model = text_or(&file.lm_model, DEFAULT_LM_MODEL);
        let lmstudio_model = text_or(&file.lmstudio_model, lm_model.as_str());
        AppConfig {
            lm_url: text_or(&file.lm_url, DEFAULT_LM_URL),
            lm_model,
            no_llm: file.no_llm.unwrap_or(false),
            lmstudio_auto_start: file.lmstudio_auto_start.unwrap_or(false),
            lmstudio_model,
            lmstudio_context_length: file.lmstudio_context_length,
            asr_backend: text_or(&file.asr_backend, DEFAULT_BACKEND),
            model: text_or(&file.model, DEFAULT_MODEL),
            tokens: text_or(&file.tokens, DEFAULT_TOKENS),
            funasr_encoder_adaptor: text_or(
                &file.funasr_encoder_adaptor,
                DEFAULT_FUNASR_ENCODER_ADAPTOR,
            ),
            funasr_llm: text_or(&file.funasr_llm, DEFAULT_FUNASR_LLM),
            funasr_embedding: text_or(&file.funasr_embedding, DEFAULT_FUNASR_EMBEDDING),
            funasr_tokenizer: text_or(&file.funasr_tokenizer, DEFAULT_FUNASR_TOKENIZER),
            funasr_itn: file.funasr_itn.unwrap_or(true),
            speaker_segmentation_model: text_or(
                &file.speaker_segmentation_model,
                DEFAULT_SPEAKER_SEGMENTATION_MODEL,
            ),
            speaker_embedding_model: text_or(
                &file.speaker_embedding_model,
                DEFAULT_SPEAKER_EMBEDDING_MODEL,
            ),
            speaker_num_clusters: file.speaker_num_clusters,
            speaker_threshold: file.speaker_threshold.unwrap_or(
                Single { bits: DEFAULT_SPEAKER_THRESHOLD },
            ),
            speaker_min_duration_on: file.speaker_min_duration_on.unwrap_or(
                Single { bits: DEFAULT_MIN_DURATION_ON },
            ),
            speaker_min_duration_off: file.speaker_min_duration_off.unwrap_or(
                Single { bits: DEFAULT_MIN_DURATION_OFF },
            ),
            lang: text_or(&file.lang, DEFAULT_LANG),
            energy_threshold: file.energy_threshold.unwrap_or(
                Single { bits: DEFAULT_ENERGY_THRESHOLD },
            ),
            vad_silence_ms: file.vad_silence_ms.unwrap_or(DEFAULT_VAD_SILENCE_MS),
            ptt_key: file.ptt_key.clone(),
            input_device: file.input_device.clone(),
            hr_lexicon: file.hr_lexicon.clone(),
            hr_rule_fsts: file.hr_rule_fsts.clone(),
        }
    }

    /// The settings in force, with the command line over the file.
    pub fn resolve(cli: &CliOverrides, file: &ConfigFile) -> (r: AppConfig)
        ensures
            r.follows(*cli, *file),
    {
        let mut app = AppConfig::from_file(file);
        app.lm_url = text_or(&cli.lm_url, app.lm_url.as_str());
        if let Some(value) = &cli.lm_model {
            if file.lmstudio_model.is_none() {
                app.lmstudio_model = value.clone();
            }
            app.lm_model = value.clone();
        }
        app.no_llm = app.no_llm || cli.no_llm;
        app.asr_backend = text_or(&cli.asr_backend, app.asr_backend.as_str());
        app.model = text_or(&cli.model, app.model.as_str());
        app.tokens = text_or(&cli.tokens, app.tokens.as_str());
        app.funasr_encoder_adaptor = text_or(
            &cli.funasr_encoder_adaptor,
            app.funasr_encoder_adaptor.as_str(),
        );
        app.funasr_llm = text_or(&cli.funasr_llm, app.funasr_llm.as_str());
        app.funasr_embedding = text_or(&cli.funasr_embedding, app.funasr_embedding.as_str());
        app.funasr_tokenizer = text_or(&cli.funasr_tokenizer, app.funasr_tokenizer.as_str());
        app.lang = text_or(&cli.lang, app.lang.as_str());
        app
    }

    /// The homophone replacement these settings ask for.
    pub fn build_hr_config(&self) -> (r: HrConfig)
        ensures
            r@.lexicon == opt_view(self.hr_lexicon),
            r@.rule_fsts == opt_view(self.hr_rule_fsts),
    {
        HrConfig { lexicon: self.hr_lexicon.clone(), rule_fsts: self.hr_rule_fsts.clone() }
    }

    /// The recogniser these settings ask for. Every backend name but one means SenseVoice.
    pub open spec fn asr(self) -> AsrView {
        if self.asr_backend@ == FUNASR_BACKEND@ {
            AsrView::FunAsrNano {
                encoder_adaptor: self.funasr_encoder_adaptor@,
                llm: self.funasr_llm@,
                embedding: self.funasr_embedding@,
                tokenizer: self.funasr_tokenizer@,
                language: self.lang@,
                itn: self.funasr_itn,
            }
        } else {
            AsrView::SenseVoice {
                model: self.model@,
                tokens: self.tokens@,
                language: self.lang@,
            }
        }
    }

    /// The recogniser these settings ask for.
    pub fn build_asr_config(&self) -> (r: AsrConfig)
        ensures
            r@ == self.asr(),
    {
        if same_text(self.asr_backend.as_str(), FUNASR_BACKEND) {
            AsrConfig::FunAsrNano {
                encoder_adaptor: self.funasr_encoder_adaptor.clone(),
                llm: self.funasr_llm.clone(),
                embedding: self.funasr_embedding.clone(),
                tokenizer: self.funasr_tokenizer.clone(),
                language: self.lang.clone(),
                itn: self.funasr_itn,
            }
        } else {
            AsrConfig::SenseVoice {
                model: self.model.clone(),
                tokens: self.tokens.clone(),
                language: self.lang.clone(),
            }
        }
    }

    /// Whether `live` holds what the push-to-talk worker is to read of these settings.
    pub open spec fn live_values(self, file: ConfigFile, live: LiveTunables) -> bool {
        &&& live.ptt_key@ == or_text(self.ptt_key, DEFAULT_PTT_KEY@)
        &&& opt_view(live.input_device) == opt_view(self.input_device)
        &&& live.energy_threshold == self.energy_threshold
        &&& live.no_llm == self.no_llm
        &&& live.lm_url@ == self.lm_url@
        &&& live.lm_model@ == self.lm_model@
        &&& live.follow_caret == or_value(file.overlay_follow_caret, true)
        &&& live.live_preview == or_value(file.overlay_live_preview, true)
    }

    /// What the push-to-talk worker is to read of these settings.
    pub fn live_tunables(&self, file: &ConfigFile) -> (r: LiveTunables)
        ensures
            self.live_values(*file, r),
    {
        LiveTunables {
            ptt_key: text_or(&self.ptt_key, DEFAULT_PTT_KEY),
            input_device: self.input_device.clone(),
            energy_threshold: self.energy_threshold,
            no_llm: self.no_llm,
            lm_url: self.lm_url.clone(),
            lm_model: self.lm_model.clone(),
            follow_caret: file.overlay_follow_caret.unwrap_or(true),
            live_preview: file.overlay_live_preview.unwrap_or(true),
        }
    }

    /// The hot-reloadable view of these settings, shared with the push-to-talk worker.
    pub fn build_runtime(&self, file: &ConfigFile) -> (r: Runtime)
        ensures
            exists|live: LiveTunables|
                {
                    &&& #[trigger] self.live_values(*file, live)
                    &&& r@ == (RuntimeModel {
                        live: live@,
                        keys: bound_keys(live.ptt_key@, Seq::empty()),
                        asr: self.asr(),
                        hr: HrView {
                            lexicon: opt_view(self.hr_lexicon),
                            rule_fsts: opt_view(self.hr_rule_fsts),
                        },
                        requested: 1,
                        applied: 0,
                        status: StatusView::Loading,
                        shutdown: false,
                    })
                },
    {
        let live = self.live_tunables(file);
        let ghost values = live;
        let r = Runtime::new(live, self.build_asr_config(), self.build_hr_config());
        proof {
            assert(self.live_values(*file, values));
            assert(r@.hr =~= HrView {
                lexicon: opt_view(self.hr_lexicon),
                rule_fsts: opt_view(self.hr_rule_fsts),
            });
        }
        r
    }

    /// What to start before polishing, unless polishing or auto-start is off.
    pub fn build_lmstudio_config(&self) -> (r: Option<AutoStartConfig>)
        ensures
            match r {
                Some(cfg) => {
                    &&& !self.no_llm && self.lmstudio_auto_start
                    &&& cfg.base_url@ == self.lm_url@
                    &&& cfg.api_model@ == self.lm_model@
                    &&& cfg.local_model@ == self.lmstudio_model@
                    &&& cfg.context_length == self.lmstudio_context_length
                },
                None => self.no_llm || !self.lmstudio_auto_start,
            },
    {
        if self.no_llm || !self.lmstudio_auto_start {
            return None;
        }
        Some(
            AutoStartConfig {
                base_url: self.lm_url.clone(),
                api_model: self.lm_model.clone(),
                local_model: self.lmstudio_model.clone(),
                context_length: self.lmstudio_context_length,
            },
        )
    }

    /// The diarization asked for: what the command line names, else these settings.
    pub fn diarization_config(
        &self,
        speakers: Option<i32>,
        threshold: Option<Single>,
        min_duration_on: Option<Single>,
        min_duration_off: Option<Single>,
    ) -> (r: DiarizationConfig)
        ensures
            r.segmentation_model@ == self.speaker_segmentation_model@,
            r.embedding_model@ == self.speaker_embedding_model@,
            r.num_clusters == (match speakers {
                Some(n) => Some(n),
                None => self.speaker_num_clusters,
            }),
            r.threshold == or_value(threshold, self.speaker_threshold),
            r.min_duration_on == or_value(min_duration_on, self.speaker_min_duration_on),
            r.min_duration_off == or_value(min_duration_off, self.speaker_min_duration_off),
    {
        DiarizationConfig {
            segmentation_model: self.speaker_segmentation_model.clone(),
            embedding_model: self.speaker_embedding_model.clone(),
            num_clusters: match speakers {
                Some(n) => Some(n),
                None => self.speaker_num_clusters,
            },
            threshold: threshold.unwrap_or(self.speaker_threshold),
            min_duration_on: min_duration_on.unwrap_or(self.speaker_min_duration_on),
            min_duration_off: min_duration_off.unwrap_or(self.speaker_min_duration_off),
        }
    }

    /// What hands-free listening works with: what the command line names, else these settings.
    pub fn live_config(
        &self,
        vad_silence_ms: Option<u64>,
        energy_threshold: Option<Single>,
        output_path: Option<String>,
    ) -> (r: LiveConfig)
        ensures
            r.vad_silence_ms == or_value(vad_silence_ms, self.vad_silence_ms),
            r.energy_threshold == or_value(energy_threshold, self.energy_threshold),
            opt_view(r.input_device) == opt_view(self.input_device),
            opt_view(r.output_path) == opt_view(output_path),
            r.lm_url@ == self.lm_url@,
            r.lm_model@ == self.lm_model@,
            r.no_llm == self.no_llm,
    {
        LiveConfig {
            vad_silence_ms: vad_silence_ms.unwrap_or(self.vad_silence_ms),
            energy_threshold: energy_threshold.unwrap_or(self.energy_threshold),
            input_device: self.input_device.clone(),
            output_path,
            lm_url: self.lm_url.clone(),
            lm_model: self.lm_model.clone(),
            no_llm: self.no_llm,
        }
    }

    /// The settings as they are reported: the recogniser's files, then the rest.
    pub open spec fn reported(self) -> Seq<Seq<char>> {
        seq!["Resolved config:"@, "  asr_backend: "@ + self.asr_backend@] + (if self.asr_backend@
            == FUNASR_BACKEND@ {
            seq![
                "  funasr_encoder_adaptor: "@ + self.funasr_encoder_adaptor@,
                "  funasr_llm:             "@ + self.funasr_llm@,
                "  funasr_embedding:       "@ + self.funasr_embedding@,
                "  funasr_tokenizer:       "@ + self.funasr_tokenizer@,
                "  funasr_itn:             "@ + truth(self.funasr_itn),
            ]
        } else {
            seq!["  model:  "@ + self.model@, "  tokens: "@ + self.tokens@]
        }) + seq![
            "  lm_url:   "@ + self.lm_url@,
            "  lm_model: "@ + self.lm_model@,
            "  no_llm:   "@ + truth(self.no_llm),
            "  lmstudio_auto_start: "@ + truth(self.lmstudio_auto_start),
            "  lmstudio_model:      "@ + self.lmstudio_model@,
            "  lmstudio_context_length: "@ + (match self.lmstudio_context_length {
                Some(n) => decimal(n as nat),
                None => "default"@,
            }),
            "  lang:   "@ + self.lang@,
        ]
    }

    /// The settings as they are reported, line by line.
    pub fn info_lines(&self) -> (r: Vec<String>)
        ensures
            views(r@) == self.reported(),
    {
        let mut lines: Vec<String> = Vec::new();
        lines.push("Resolved config:".to_owned());
        lines.push(line("  asr_backend: ", self.asr_backend.as_str()));
        if same_text(self.asr_backend.as_str(), FUNASR_BACKEND) {
            lines.push(line("  funasr_encoder_adaptor: ", self.funasr_encoder_adaptor.as_str()));
            lines.push(line("  funasr_llm:             ", self.funasr_llm.as_str()));
            lines.push(line("  funasr_embedding:       ", self.funasr_embedding.as_str()));
            lines.push(line("  funasr_tokenizer:       ", self.funasr_tokenizer.as_str()));
            lines.push(line("  funasr_itn:             ", truth_text(self.funasr_itn)));
        } else {
            lines.push(line("  model:  ", self.model.as_str()));
            lines.push(line("  tokens: ", self.tokens.as_str()));
        }
        lines.push(line("  lm_url:   ", self.lm_url.as_str()));
        lines.push(line("  lm_model: ", self.lm_model.as_str()));
        lines.push(line("  no_llm:   ", truth_text(self.no_llm)));
        lines.push(line("  lmstudio_auto_start: ", truth_text(self.lmstudio_auto_start)));
        lines.push(line("  lmstudio_model:      ", self.lmstudio_model.as_str()));
        match self.lmstudio_context_length {
            Some(n) => {
                lines.push(line("  lmstudio_context_length: ", decimal_of(n as u64).as_str()));
            },
            None => {
                lines.push(line("  lmstudio_context_length: ", "default"));
            },
        }
        lines.push(line("  lang:   ", self.lang.as_str()));
        proof {
            assert(views(lines@) =~= self.reported());
        }
        lines
    }
}

/// The command line has the last word: what it names is in force, whatever the file says, and it
/// can only turn polishing off.
pub proof fn the_command_line_wins(app: AppConfig, cli: CliOverrides, file: ConfigFile)
    requires
        app.follows(cli, file),
    ensures
        cli.lm_url matches Some(v) ==> app.lm_url@ == v@,
        cli.lm_model matches Some(v) ==> app.lm_model@ == v@,
        cli.asr_backend matches Some(v) ==> app.asr_backend@ == v@,
        cli.model matches Some(v) ==> app.model@ == v@,
        cli.tokens matches Some(v) ==> app.tokens@ == v@,
        cli.funasr_encoder_adaptor matches Some(v) ==> app.funasr_encoder_adaptor@ == v@,
        cli.funasr_llm matches Some(v) ==> app.funasr_llm@ == v@,
        cli.funasr_embedding matches Some(v) ==> app.funasr_embedding@ == v@,
        cli.funasr_tokenizer matches Some(v) ==> app.funasr_tokenizer@ == v@,
        cli.lang matches Some(v) ==> app.lang@ == v@,
        cli.no_llm ==> app.no_llm,
        !cli.no_llm ==> (app.no_llm <==> file.no_llm == Some(true)),
{
}

/// What the command line leaves open the file decides. The model to start is the one the file names
/// for it, else the one to polish with.
pub proof fn the_file_decides_what_is_left_open(
    app: AppConfig,
    cli: CliOverrides,
    file: ConfigFile,
)
    requires
        app.follows(cli, file),
    ensures
        cli.lm_url is None ==> (file.lm_url matches Some(v) ==> app.lm_url@ == v@),
        cli.lm_model is None ==> (file.lm_model matches Some(v) ==> app.lm_model@ == v@),
        cli.asr_backend is None ==> (file.asr_backend matches Some(v) ==> app.asr_backend@ == v@),
        cli.model is None ==> (file.model matches Some(v) ==> app.model@ == v@),
        cli.tokens is None ==> (file.tokens matches Some(v) ==> app.tokens@ == v@),
        cli.funasr_encoder_adaptor is None ==> (file.funasr_encoder_adaptor matches Some(v) ==> app.funasr_encoder_adaptor@ == v@),
        cli.funasr_llm is None ==> (file.funasr_llm matches Some(v) ==> app.funasr_llm@ == v@),
        cli.funasr_embedding is None ==> (file.funasr_embedding matches Some(v) ==> app.funasr_embedding@ == v@),
        cli.funasr_tokenizer is None ==> (file.funasr_tokenizer matches Some(v) ==> app.funasr_tokenizer@ == v@),
        cli.lang is None ==> (file.lang matches Some(v) ==> app.lang@ == v@),
        file.lmstudio_model matches Some(v) ==> app.lmstudio_model@ == v@,
        file.lmstudio_model is None ==> app.lmstudio_model@ == app.lm_model@,
        file.speaker_segmentation_model matches Some(v) ==> app.speaker_segmentation_model@ == v@,
        file.speaker_embedding_model matches Some(v) ==> app.speaker_embedding_model@ == v@,
        file.funasr_itn matches Some(v) ==> app.funasr_itn == v,
        file.lmstudio_auto_start matches Some(v) ==> app.lmstudio_auto_start == v,
        file.speaker_threshold matches Some(v) ==> app.speaker_threshold == v,
        file.speaker_min_duration_on matches Some(v) ==> app.speaker_min_duration_on == v,
        file.speaker_min_duration_off matches Some(v) ==> app.speaker_min_duration_off == v,
        file.energy_threshold matches Some(v) ==> app.energy_threshold == v,
        file.vad_silence_ms matches Some(v) ==> app.vad_silence_ms == v,
        app.lmstudio_context_length == file.lmstudio_context_length,
        app.speaker_num_clusters == file.speaker_num_clusters,
        (app.ptt_key is None <==> file.ptt_key is None) && (app.ptt_key is Some
            ==> app.ptt_key->0@ == file.ptt_key->0@),
        (app.input_device is None <==> file.input_device is None) && (app.input_device is Some
            ==> app.input_device->0@ == file.input_device->0@),
        (app.hr_lexicon is None <==> file.hr_lexicon is None) && (app.hr_lexicon is Some
            ==> app.hr_lexicon->0@ == file.hr_lexicon->0@),
        (app.hr_rule_fsts is None <==> file.hr_rule_fsts is None) && (app.hr_rule_fsts is Some
            ==> app.hr_rule_fsts->0@ == file.hr_rule_fsts->0@),
{
}

/// What neither names is as it comes out of the box.
pub proof fn what_nobody_names_is_built_in(app: AppConfig, cli: CliOverrides, file: ConfigFile)
    requires
        app.follows(cli, file),
    ensures
        cli.lm_url is None && file.lm_url is None ==> app.lm_url@ == "http://localhost:1234"@,
        cli.lm_model is None && file.lm_model is None ==> app.lm_model@ == "local-model"@,
        cli.asr_backend is None && file.asr_backend is None ==> app.asr_backend@ == "sense-voice"@,
        cli.model is None && file.model is None ==> app.model@ == "models/sense-voice/model.int8.onnx"@,
        cli.tokens is None && file.tokens is None ==> app.tokens@ == "models/sense-voice/tokens.txt"@,
        cli.funasr_encoder_adaptor is None && file.funasr_encoder_adaptor is None ==> app.funasr_encoder_adaptor@ == "models/funasr-nano/encoder_adaptor.int8.onnx"@,
        cli.funasr_llm is None && file.funasr_llm is None ==> app.funasr_llm@ == "models/funasr-nano/llm.int8.onnx"@,
        cli.funasr_embedding is None && file.funasr_embedding is None ==> app.funasr_embedding@ == "models/funasr-nano/embedding.int8.onnx"@,
        cli.funasr_tokenizer is None && file.funasr_tokenizer is None ==> app.funasr_tokenizer@ == "models/funasr-nano"@,
        cli.lang is None && file.lang is None ==> app.lang@ == "auto"@,
        file.speaker_segmentation_model is None ==> app.speaker_segmentation_model@
            == "models/speaker-diarization/segmentation/model.int8.onnx"@,
        file.speaker_embedding_model is None ==> app.speaker_embedding_model@
            == "models/speaker-diarization/embedding/model.int8.onnx"@,
        file.funasr_itn is None ==> app.funasr_itn,
        file.lmstudio_auto_start is None ==> !app.lmstudio_auto_start,
        file.speaker_threshold is None ==> app.speaker_threshold.bits == 0x3F00_0000,
        file.speaker_min_duration_on is None ==> app.speaker_min_duration_on.bits == 0x3E4C_CCCD,
        file.speaker_min_duration_off is None ==> app.speaker_min_duration_off.bits
            == 0x3F00_0000,
        file.energy_threshold is None ==> app.energy_threshold.bits == 0x3C23_D70A,
        file.vad_silence_ms is None ==> app.vad_silence_ms == 800,
{
}

/// The recogniser works with the files of its own backend and in the language of the settings.
pub proof fn a_backend_works_with_its_own_files(app: AppConfig)
    ensures
        app.asr() is FunAsrNano <==> app.asr_backend@ == "funasr-nano"@,
        app.asr() matches AsrView::FunAsrNano {
            encoder_adaptor,
            llm,
            embedding,
            tokenizer,
            language,
            itn,
        } ==> encoder_adaptor == app.funasr_encoder_adaptor@ && llm == app.funasr_llm@ && embedding
            == app.funasr_embedding@ && tokenizer == app.funasr_tokenizer@ && language == app.lang@
            && itn == app.funasr_itn,
        app.asr() matches AsrView::SenseVoice { model, tokens, language } ==> model == app.model@
            && tokens == app.tokens@ && language == app.lang@,
{
}

/// The push-to-talk worker reads the settings that are in force; Caps Lock is its key where none is
/// chosen, and the overlay follows the caret and previews unless the file says otherwise.
pub proof fn the_worker_reads_the_settings_in_force(
    app: AppConfig,
    file: ConfigFile,
    live: LiveTunables,
)
    requires
        app.live_values(file, live),
    ensures
        app.ptt_key matches Some(key) ==> live.ptt_key@ == key@,
        app.ptt_key is None ==> live.ptt_key@ == "CapsLock"@,
        live.input_device is None <==> app.input_device is None,
        live.input_device is Some ==> live.input_device->0@ == app.input_device->0@,
        live.energy_threshold == app.energy_threshold,
        live.no_llm == app.no_llm,
        live.lm_url@ == app.lm_url@,
        live.lm_model@ == app.lm_model@,
        live.follow_caret <==> file.overlay_follow_caret != Some(false),
        live.live_preview <==> file.overlay_live_preview != Some(false),
{
}

/// Every line of the report gives the setting that its label names: what stands behind the label is
/// the value in force.
pub proof fn the_report_gives_the_settings(app: AppConfig)
    ensures
        ({
            let lines = app.reported();
            let n = lines.len();
            let files = app.asr_backend@ == "funasr-nano"@;
            &&& n == if files {
                14int
            } else {
                11int
            }
            &&& lines[1].skip(15) == app.asr_backend@
            &&& files ==> lines[2].skip(26) == app.funasr_encoder_adaptor@ && lines[3].skip(26)
                == app.funasr_llm@ && lines[4].skip(26) == app.funasr_embedding@ && lines[5].skip(
                26,
            ) == app.funasr_tokenizer@ && lines[6].skip(26) == (if app.funasr_itn {
                "true"@
            } else {
                "false"@
            })
            &&& !files ==> lines[2].skip(10) == app.model@ && lines[3].skip(10) == app.tokens@
            &&& lines[n - 7].skip(12) == app.lm_url@
            &&& lines[n - 6].skip(12) == app.lm_model@
            &&& lines[n - 5].skip(12) == (if app.no_llm {
                "true"@
            } else {
                "false"@
            })
            &&& lines[n - 4].skip(23) == (if app.lmstudio_auto_start {
                "true"@
            } else {
                "false"@
            })
            &&& lines[n - 3].skip(23) == app.lmstudio_model@
            &&& match app.lmstudio_context_length {
                Some(c) => number_in(lines[n - 2].skip(27)) == c,
                None => lines[n - 2].skip(27) == "default"@,
            }
            &&& lines[n - 1].skip(10) == app.lang@
        }),
{
    reveal_strlit("  asr_backend: ");
    reveal_strlit("  funasr_encoder_adaptor: ");
    reveal_strlit("  funasr_llm:             ");
    reveal_strlit("  funasr_embedding:       ");
    reveal_strlit("  funasr_tokenizer:       ");
    reveal_strlit("  funasr_itn:             ");
    reveal_strlit("  model:  ");
    reveal_strlit("  tokens: ");
    reveal_strlit("  lm_url:   ");
    reveal_strlit("  lm_model: ");
    reveal_strlit("  no_llm:   ");
    reveal_strlit("  lmstudio_auto_start: ");
    reveal_strlit("  lmstudio_model:      ");
    reveal_strlit("  lmstudio_context_length: ");
    reveal_strlit("  lang:   ");
    let lines = app.reported();
    let n = lines.len();
    assert(lines[1].skip(15) =~= app.asr_backend@);
    if app.asr_backend@ == "funasr-nano"@ {
        assert(lines[2].skip(26) =~= app.funasr_encoder_adaptor@);
        assert(lines[3].skip(26) =~= app.funasr_llm@);
        assert(lines[4].skip(26) =~= app.funasr_embedding@);
        assert(lines[5].skip(26) =~= app.funasr_tokenizer@);
        assert(lines[6].skip(26) =~= truth(app.funasr_itn));
    } else {
        assert(lines[2].skip(10) =~= app.model@);
        assert(lines[3].skip(10) =~= app.tokens@);
    }
    assert(lines[n - 7].skip(12) =~= app.lm_url@);
    assert(lines[n - 6].skip(12) =~= app.lm_model@);
    assert(lines[n - 5].skip(12) =~= truth(app.no_llm));
    assert(lines[n - 4].skip(23) =~= truth(app.lmstudio_auto_start));
    assert(lines[n - 3].skip(23) =~= app.lmstudio_model@);
    if let Some(c) = app.lmstudio_context_length {
        assert(lines[n - 2].skip(27) =~= decimal(c as nat));
        decimals_read_back(c as nat);
    } else {
        assert(lines[n - 2].skip(27) =~= "default"@);
    }
    assert(lines[n - 1].skip(10) =~= app.lang@);
}

/// How a truth value is written.
pub open spec fn truth(b: bool) -> Seq<char> {
    if b {
        "true"@
    } else {
        "false"@
    }
}

fn truth_text(b: bool) -> (r: &'static str)
    ensures
        r@ == truth(b),
{
    if b {
        "true"
    } else {
        "false"
    }
}

fn line(label: &str, value: &str) -> (r: String)
    ensures
        r@ == label@ + value@,
{
    let mut l = label.to_owned();
    l.append(value);
    l
}

}
