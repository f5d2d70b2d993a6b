//! Which recogniser to load, and how.

use vstd::prelude::*;
use vstd::string::*;

use crate::text::{opt_view, same_option, same_text};

verus! {

/// A recogniser with the model files it needs.
#[derive(Debug, PartialEq, Eq)]
pub enum AsrConfig {
    SenseVoice { model: String, tokens: String, language: String },
    FunAsrNano {
        encoder_adaptor: String,
        llm: String,
        embedding: String,
        tokenizer: String,
        language: String,
        itn: bool,
    },
}

/// The texts of an [`AsrConfig`].
#[verifier::ext_equal]
pub enum AsrView {
    SenseVoice { model: Seq<char>, tokens: Seq<char>, language: Seq<char> },
    FunAsrNano {
        encoder_adaptor: Seq<char>,
        llm: Seq<char>,
        embedding: Seq<char>,
        tokenizer: Seq<char>,
        language: Seq<char>,
        itn: bool,
    },
}

impl View for AsrConfig {
    type V = AsrView;

    open spec fn view(&self) -> AsrView {
        match self {
            AsrConfig::SenseVoice { model, tokens, language } => AsrView::SenseVoice {
                model: model@,
                tokens: tokens@,
                language: language@,
            },
            AsrConfig::FunAsrNano { encoder_adaptor, llm, embedding, tokenizer, language, itn } =>
                AsrView::FunAsrNano {
                encoder_adaptor: encoder_adaptor@,
                llm: llm@,
                embedding: embedding@,
                tokenizer: tokenizer@,
                language: language@,
                itn: *itn,
            },
        }
    }
}

impl Clone for AsrConfig {
    fn clone(&self) -> (r: AsrConfig)
        ensures
            r@ == self@,
    {
        match self {
            AsrConfig::SenseVoice { model, tokens, language } => AsrConfig::SenseVoice {
                model: model.clone(),
                tokens: tokens.clone(),
                language: language.clone(),
            },
            AsrConfig::FunAsrNano { encoder_adaptor, llm, embedding, tokenizer, language, itn } =>
                AsrConfig::FunAsrNano {
                encoder_adaptor: encoder_adaptor.clone(),
                llm: llm.clone(),
                embedding: embedding.clone(),
                tokenizer: tokenizer.clone(),
                language: language.clone(),
                itn: *itn,
            },
        }
    }
}

impl AsrConfig {
    /// Whether two configurations load the same recogniser.
    pub fn same_as(&self, other: &AsrConfig) -> (r: bool)
        ensures
            r == (self@ == other@),
    {
        match (self, other) {
            (
                AsrConfig::SenseVoice { model: a, tokens: b, language: c },
                AsrConfig::SenseVoice { model: x, tokens: y, language: z },
            ) => same_text(a.as_str(), x.as_str()) && same_text(b.as_str(), y.as_str()) && same_text(
                c.as_str(),
                z.as_str(),
            ),
            (
                AsrConfig::FunAsrNano {
                    encoder_adaptor: a,
                    llm: b,
                    embedding: c,
                    tokenizer: d,
                    language: e,
                    itn: f,
                },
                AsrConfig::FunAsrNano {
                    encoder_adaptor: u,
                    llm: v,
                    embedding: w,
                    tokenizer: x,
                    language: y,
                    itn: z,
                },
            ) => same_text(a.as_str(), u.as_str()) && same_text(b.as_str(), v.as_str()) && same_text(
                c.as_str(),
                w.as_str(),
            ) && same_text(d.as_str(), x.as_str()) && same_text(e.as_str(), y.as_str()) && *f == *z,
            _ => false,
        }
    }
}

/// Optional homophone replacement: a pronunciation lexicon and a rule file.
#[derive(Debug, PartialEq, Eq)]
pub struct HrConfig {
    pub lexicon: Option<String>,
    pub rule_fsts: Option<String>,
}

/// The texts of an [`HrConfig`].
#[verifier::ext_equal]
pub struct HrView {
    pub lexicon: Option<Seq<char>>,
    pub rule_fsts: Option<Seq<char>>,
}

impl View for HrConfig {
    type V = HrView;

    open spec fn view(&self) -> HrView {
        HrView { lexicon: opt_view(self.lexicon), rule_fsts: opt_view(self.rule_fsts) }
    }
}

impl Clone for HrConfig {
    fn clone(&self) -> (r: HrConfig)
        ensures
            r@ == self@,
    {
        HrConfig { lexicon: self.lexicon.clone(), rule_fsts: self.rule_fsts.clone() }
    }
}

impl Default for HrConfig {
    fn default() -> (r: HrConfig)
        ensures
            r.lexicon is None,
            r.rule_fsts is None,
    {
        HrConfig { lexicon: None, rule_fsts: None }
    }
}

impl HrConfig {
    /// Whether there is anything to replace with.
    pub open spec fn enabled(self) -> bool {
        self.lexicon is Some || self.rule_fsts is Some
    }

    /// Whether there is anything to replace with.
    pub fn is_enabled(&self) -> (r: bool)
        ensures
            r == self.enabled(),
    {
        self.lexicon.is_some() || self.rule_fsts.is_some()
    }

    /// Whether two configurations replace alike.
    pub fn same_as(&self, other: &HrConfig) -> (r: bool)
        ensures
            r == (self@ == other@),
    {
        same_option(&self.lexicon, &other.lexicon) && same_option(&self.rule_fsts, &other.rule_fsts)
    }
}

/// Threads a recogniser may use.
pub const NUM_THREADS: i32 = 4;

/// The settings a recogniser is created with. Of the two model families the one that is not in
/// use has none of its files set.
pub struct RecognizerSettings {
    pub sense_voice_model: Option<String>,
    pub sense_voice_language: Option<String>,
    pub sense_voice_itn: bool,
    pub funasr_encoder_adaptor: Option<String>,
    pub funasr_llm: Option<String>,
    pub funasr_embedding: Option<String>,
    pub funasr_tokenizer: Option<String>,
    pub funasr_language: Option<String>,
    pub funasr_itn: i32,
    pub tokens: Option<String>,
    pub num_threads: i32,
    pub debug: bool,
    pub provider: &'static str,
    pub hr_lexicon: Option<String>,
    pub hr_rule_fsts: Option<String>,
}

impl RecognizerSettings {
    /// Whether these are the settings for `config`, with the replacements of `hr`.
    pub open spec fn stands_for(self, config: AsrView, hr: HrView) -> bool {
        &&& self.num_threads == NUM_THREADS
        &&& !self.debug
        &&& self.provider@ == "cpu"@
        &&& opt_view(self.hr_lexicon) == hr.lexicon
        &&& opt_view(self.hr_rule_fsts) == hr.rule_fsts
        &&& match config {
            AsrView::SenseVoice { model, tokens, language } => {
                &&& opt_view(self.sense_voice_model) == Some(model)
                &&& opt_view(self.sense_voice_language) == Some(language)
                &&& self.sense_voice_itn
                &&& opt_view(self.tokens) == Some(tokens)
                &&& self.funasr_encoder_adaptor is None
                &&& self.funasr_llm is None
                &&& self.funasr_embedding is None
                &&& self.funasr_tokenizer is None
                &&& self.funasr_language is None
                &&& self.funasr_itn == 0
            },
            AsrView::FunAsrNano { encoder_adaptor, llm, embedding, tokenizer, language, itn } => {
                &&& opt_view(self.funasr_encoder_adaptor) == Some(encoder_adaptor)
                &&& opt_view(self.funasr_llm) == Some(llm)
                &&& opt_view(self.funasr_embedding) == Some(embedding)
                &&& opt_view(self.funasr_tokenizer) == Some(tokenizer)
                &&& opt_view(self.funasr_language) == Some(language)
                &&& self.funasr_itn == (if itn {
                    1i32
                } else {
                    0i32
                })
                &&& self.sense_voice_model is None
                &&& self.sense_voice_language is None
                &&& !self.sense_voice_itn
                &&& self.tokens is None
            },
        }
    }
}

/// The settings to create the recogniser with. A homophone replacer without any file is left out.
pub fn recognizer_settings(config: &AsrConfig, hr: Option<&HrConfig>) -> (r: RecognizerSettings)
    ensures
        r.stands_for(
            config@,
            match hr {
                Some(h) => h@,
                None => HrView { lexicon: None, rule_fsts: None },
            },
        ),
{
    let mut settings = RecognizerSettings {
        sense_voice_model: None,
        sense_voice_language: None,
        sense_voice_itn: false,
        funasr_encoder_adaptor: None,
        funasr_llm: None,
        funasr_embedding: None,
        funasr_tokenizer: None,
        funasr_language: None,
        funasr_itn: 0,
        tokens: None,
        num_threads: NUM_THREADS,
        debug: false,
        provider: "cpu",
        hr_lexicon: None,
        hr_rule_fsts: None,
    };
    if let Some(h) = hr {
        if h.is_enabled() {
            settings.hr_lexicon = h.lexicon.clone();
            settings.hr_rule_fsts = h.rule_fsts.clone();
        }
    }
    match config {
        AsrConfig::SenseVoice { model, tokens, language } => {
            settings.sense_voice_model = Some(model.clone());
            settings.sense_voice_language = Some(language.clone());
            settings.sense_voice_itn = true;
            settings.tokens = Some(tokens.clone());
        },
        AsrConfig::FunAsrNano { encoder_adaptor, llm, embedding, tokenizer, language, itn } => {
            settings.funasr_encoder_adaptor = Some(encoder_adaptor.clone());
            settings.funasr_llm = Some(llm.clone());
            settings.funasr_embedding = Some(embedding.clone());
            settings.funasr_tokenizer = Some(tokenizer.clone());
            settings.funasr_language = Some(language.clone());
            settings.funasr_itn = if *itn {
                1
            } else {
                0
            };
        },
    }
    settings
}

/// Two configurations load the same recogniser only where they name the same family, the same files,
/// the same language and the same treatment of numbers.
pub proof fn recognisers_differ_with_any_setting(a: AsrConfig, b: AsrConfig)
    ensures
        a@ == b@ <==> match (a, b) {
            (
                AsrConfig::SenseVoice { model: m, tokens: t, language: l },
                AsrConfig::SenseVoice { model: x, tokens: y, language: z },
            ) => m@ == x@ && t@ == y@ && l@ == z@,
            (
                AsrConfig::FunAsrNano {
                    encoder_adaptor: e,
                    llm: m,
                    embedding: b,
                    tokenizer: t,
                    language: l,
                    itn: i,
                },
                AsrConfig::FunAsrNano {
                    encoder_adaptor: u,
                    llm: v,
                    embedding: w,
                    tokenizer: x,
                    language: y,
                    itn: z,
                },
            ) => e@ == u@ && m@ == v@ && b@ == w@ && t@ == x@ && l@ == y@ && i == z,
            _ => false,
        },
{
}

/// Two configurations replace alike only where they name the same lexicon and the same rules; without
/// either there is nothing to replace with.
pub proof fn replacements_differ_with_any_file(a: HrConfig, b: HrConfig)
    ensures
        a@ == b@ <==> opt_view(a.lexicon) == opt_view(b.lexicon) && opt_view(a.rule_fsts)
            == opt_view(b.rule_fsts),
        a.enabled() <==> !(a.lexicon is None && a.rule_fsts is None),
{
}

/// A recogniser is made of the files of its own family alone, on four threads of the processor, and
/// the replacement files are handed on as they are.
pub proof fn a_recogniser_is_made_of_its_own_files(
    s: RecognizerSettings,
    config: AsrView,
    hr: HrView,
)
    requires
        s.stands_for(config, hr),
    ensures
        s.num_threads == 4 && !s.debug && s.provider@ == "cpu"@,
        opt_view(s.hr_lexicon) == hr.lexicon && opt_view(s.hr_rule_fsts) == hr.rule_fsts,
        config is SenseVoice <==> s.sense_voice_model is Some,
        config is SenseVoice <==> s.sense_voice_language is Some,
        config is SenseVoice <==> s.tokens is Some,
        config is SenseVoice <==> s.sense_voice_itn,
        config is FunAsrNano <==> s.funasr_encoder_adaptor is Some,
        config is FunAsrNano <==> s.funasr_llm is Some,
        config is FunAsrNano <==> s.funasr_embedding is Some,
        config is FunAsrNano <==> s.funasr_tokenizer is Some,
        config is FunAsrNano <==> s.funasr_language is Some,
        s.funasr_itn == 1 || s.funasr_itn == 0,
        s.funasr_itn == 1 <==> config is FunAsrNano && config->itn,
        config matches AsrView::SenseVoice { model, tokens, language } ==> s.sense_voice_model->0@
            == model && s.tokens->0@ == tokens && s.sense_voice_language->0@ == language,
        config matches AsrView::FunAsrNano {
            encoder_adaptor,
            llm,
            embedding,
            tokenizer,
            language,
            itn,
        } ==> s.funasr_encoder_adaptor->0@ == encoder_adaptor && s.funasr_llm->0@ == llm
            && s.funasr_embedding->0@ == embedding && s.funasr_tokenizer->0@ == tokenizer
            && s.funasr_language->0@ == language,
{
}

}
