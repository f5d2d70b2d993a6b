use auto_voice::app_config::{
    AppConfig, CliOverrides, DEFAULT_LANG, DEFAULT_MODEL, DEFAULT_TOKENS,
};
use auto_voice::asr::{recognizer_settings, AsrConfig, HrConfig};
use auto_voice::config::{
    config_places, describe_ptt_key, parse_ptt_keys, ptt_presets, ConfigFile, PttKey, UiTheme,
};
use auto_voice::runtime::{EngineStatus, LiveTunables, Runtime};
use auto_voice::single::Single;

fn single(x: f32) -> Single {
    Single { bits: x.to_bits() }
}

fn runtime() -> Runtime {
    Runtime::new(
        LiveTunables {
            ptt_key: "CapsLock".into(),
            input_device: None,
            energy_threshold: single(0.01),
            no_llm: false,
            lm_url: "http://localhost:1234".into(),
            lm_model: "local-model".into(),
            follow_caret: true,
            live_preview: true,
        },
        AsrConfig::SenseVoice {
            model: DEFAULT_MODEL.into(),
            tokens: DEFAULT_TOKENS.into(),
            language: DEFAULT_LANG.into(),
        },
        HrConfig::default(),
    )
}

#[test]
fn tuning_changes_do_not_trigger_a_model_reload() {
    let mut runtime = runtime();
    let generation = runtime.pending_asr().expect("initial load").0;
    runtime.mark_asr_applied(generation);

    let mut config = ConfigFile::default();
    config.energy_threshold = Some(single(0.05));
    config.ptt_key = Some("RightCtrl".to_owned());
    config.input_device = Some("Studio microphone".to_owned());
    assert!(!runtime.apply(&config));
    assert!(runtime.pending_asr().is_none());
    assert_eq!(runtime.live().energy_threshold, single(0.05));
    assert_eq!(
        runtime.live().input_device.as_deref(),
        Some("Studio microphone")
    );
    assert_eq!(runtime.ptt_keys(), vec![PttKey::RightCtrl]);
}

#[test]
fn several_changes_queue_one_reload_of_the_last() {
    let mut runtime = runtime();
    let begun = runtime.pending_asr().expect("initial load").0;
    let mut config = ConfigFile::default();
    config.hr_lexicon = Some("lexicon.txt".to_owned());
    assert!(runtime.apply(&config));
    config.hr_rule_fsts = Some("rules.fst".to_owned());
    assert!(runtime.apply(&config));
    assert!(!runtime.apply(&config));
    runtime.mark_asr_applied(begun);
    let (generation, _, hr) = runtime.pending_asr().expect("the changes");
    assert_eq!(hr.lexicon.as_deref(), Some("lexicon.txt"));
    assert_eq!(hr.rule_fsts.as_deref(), Some("rules.fst"));
    runtime.mark_asr_applied(generation);
    assert!(runtime.pending_asr().is_none());
}

#[test]
fn switching_backend_queues_one_reload() {
    let mut runtime = runtime();
    let generation = runtime.pending_asr().expect("initial load").0;
    runtime.mark_asr_applied(generation);

    let mut config = ConfigFile::default();
    config.asr_backend = Some("funasr-nano".to_owned());
    assert!(runtime.apply(&config));
    let (generation, asr, _) = runtime.pending_asr().expect("reload queued");
    assert!(matches!(asr, AsrConfig::FunAsrNano { .. }));
    runtime.mark_asr_applied(generation);
    assert!(runtime.pending_asr().is_none());
}

#[test]
fn an_unparsable_hotkey_keeps_the_previous_binding() {
    let mut runtime = runtime();
    let mut config = ConfigFile::default();
    config.ptt_key = Some("F13".to_owned());
    runtime.apply(&config);
    assert_eq!(runtime.ptt_keys(), vec![PttKey::CapsLock]);
}

#[test]
fn a_change_during_a_load_is_loaded_next() {
    let mut runtime = runtime();
    let (generation, _, _) = runtime.pending_asr().expect("initial load");
    let mut config = ConfigFile::default();
    config.lang = Some("zh".to_owned());
    assert!(runtime.apply(&config));
    assert!(!runtime.apply(&config));
    runtime.mark_asr_applied(generation);
    let (next, asr, hr) = runtime.pending_asr().expect("still behind");
    assert_eq!(next, generation + 1);
    assert_eq!(
        asr,
        AsrConfig::SenseVoice {
            model: DEFAULT_MODEL.into(),
            tokens: DEFAULT_TOKENS.into(),
            language: "zh".into(),
        }
    );
    assert_eq!(hr, HrConfig::default());
}

#[test]
fn a_new_replacement_rule_reloads_the_recogniser() {
    let mut runtime = runtime();
    let mut config = ConfigFile::default();
    config.hr_rule_fsts = Some("replace.fst".to_owned());
    assert!(runtime.apply(&config));
    let (_, _, hr) = runtime.pending_asr().expect("behind");
    assert!(hr.is_enabled());
    assert!(!HrConfig::default().is_enabled());
}

#[test]
fn status_and_shutdown_are_passed_on() {
    let mut runtime = runtime();
    assert_eq!(runtime.status(), EngineStatus::Loading);
    runtime.set_status(EngineStatus::Ready);
    assert!(runtime.status().is_ready());
    assert!(!EngineStatus::Failed("x".into()).is_ready());
    assert!(!runtime.shutdown_requested());
    runtime.request_shutdown();
    assert!(runtime.shutdown_requested());
}

fn silent() -> CliOverrides {
    CliOverrides {
        lm_url: None,
        lm_model: None,
        no_llm: false,
        asr_backend: None,
        model: None,
        tokens: None,
        funasr_encoder_adaptor: None,
        funasr_llm: None,
        funasr_embedding: None,
        funasr_tokenizer: None,
        lang: None,
    }
}

#[test]
fn defaults_fill_what_the_file_leaves_open() {
    let app = AppConfig::from_file(&ConfigFile::default());
    assert_eq!(app.lm_url, "http://localhost:1234");
    assert_eq!(app.lm_model, "local-model");
    assert_eq!(app.lmstudio_model, "local-model");
    assert_eq!(app.asr_backend, "sense-voice");
    assert_eq!(app.model, "models/sense-voice/model.int8.onnx");
    assert_eq!(app.funasr_tokenizer, "models/funasr-nano");
    assert!(app.funasr_itn);
    assert!(!app.no_llm);
    assert_eq!(app.energy_threshold, single(0.01));
    assert_eq!(app.speaker_threshold, single(0.5));
    assert_eq!(app.speaker_min_duration_on, single(0.2));
    assert_eq!(app.speaker_min_duration_off, single(0.5));
    assert_eq!(app.vad_silence_ms, 800);
    assert_eq!(app.lang, "auto");
    assert_eq!(app.ptt_key, None);
}

#[test]
fn the_command_line_wins_over_the_file() {
    let mut file = ConfigFile::default();
    file.lm_url = Some("file".into());
    file.lm_model = Some("file-model".into());
    file.lang = Some("zh".into());
    let mut cli = silent();
    cli.lm_url = Some("cli".into());
    cli.lm_model = Some("cli-model".into());
    cli.no_llm = true;
    let app = AppConfig::resolve(&cli, &file);
    assert_eq!(app.lm_url, "cli");
    assert_eq!(app.lm_model, "cli-model");
    assert_eq!(app.lmstudio_model, "cli-model");
    assert_eq!(app.lang, "zh");
    assert!(app.no_llm);
    file.lmstudio_model = Some("kept".into());
    assert_eq!(AppConfig::resolve(&cli, &file).lmstudio_model, "kept");
    file.no_llm = Some(true);
    cli.no_llm = false;
    assert!(AppConfig::resolve(&cli, &file).no_llm);
}

#[test]
fn auto_start_follows_the_switches() {
    let mut file = ConfigFile::default();
    assert!(AppConfig::from_file(&file).build_lmstudio_config().is_none());
    file.lmstudio_auto_start = Some(true);
    file.lmstudio_context_length = Some(4096);
    let cfg = AppConfig::from_file(&file).build_lmstudio_config().expect("on");
    assert_eq!(cfg.base_url, "http://localhost:1234");
    assert_eq!(cfg.api_model, "local-model");
    assert_eq!(cfg.local_model, "local-model");
    assert_eq!(cfg.context_length, Some(4096));
    file.no_llm = Some(true);
    assert!(AppConfig::from_file(&file).build_lmstudio_config().is_none());
}

#[test]
fn the_runtime_starts_from_the_resolved_settings() {
    let mut file = ConfigFile::default();
    file.overlay_follow_caret = Some(false);
    file.ptt_key = Some("LeftCtrl + LeftAlt".into());
    let runtime = AppConfig::from_file(&file).build_runtime(&file);
    assert!(!runtime.live().follow_caret);
    assert!(runtime.live().live_preview);
    assert_eq!(runtime.live().ptt_key, "LeftCtrl + LeftAlt");
    assert_eq!(runtime.ptt_keys(), vec![PttKey::LeftCtrl, PttKey::LeftAlt]);
    assert_eq!(runtime.pending_asr().expect("initial load").0, 1);
}

#[test]
fn options_of_a_command_win_over_the_settings() {
    let mut file = ConfigFile::default();
    file.speaker_num_clusters = Some(3);
    file.input_device = Some("Mic".into());
    let app = AppConfig::from_file(&file);
    let d = app.diarization_config(None, Some(single(0.7)), None, None);
    assert_eq!(d.num_clusters, Some(3));
    assert_eq!(d.threshold, single(0.7));
    assert_eq!(d.min_duration_on, single(0.2));
    assert_eq!(app.diarization_config(Some(2), None, None, None).num_clusters, Some(2));
    let live = app.live_config(Some(500), None, Some("out.txt".into()));
    assert_eq!(live.vad_silence_ms, 500);
    assert_eq!(live.energy_threshold, single(0.01));
    assert_eq!(live.input_device.as_deref(), Some("Mic"));
    assert_eq!(live.output_path.as_deref(), Some("out.txt"));
}

#[test]
fn settings_are_reported() {
    let mut file = ConfigFile::default();
    let lines = AppConfig::from_file(&file).info_lines();
    assert_eq!(lines[1], "  asr_backend: sense-voice");
    assert_eq!(lines[2], "  model:  models/sense-voice/model.int8.onnx");
    assert_eq!(lines[9], "  lmstudio_context_length: default");
    assert_eq!(lines.len(), 11);
    file.asr_backend = Some("funasr-nano".into());
    file.lmstudio_context_length = Some(2048);
    let lines = AppConfig::from_file(&file).info_lines();
    assert_eq!(lines.len(), 14);
    assert_eq!(lines[6], "  funasr_itn:             true");
    assert_eq!(lines[12], "  lmstudio_context_length: 2048");
}

#[test]
fn a_recogniser_gets_only_its_own_files() {
    let sense = AsrConfig::SenseVoice {
        model: "m".into(),
        tokens: "t".into(),
        language: "zh".into(),
    };
    let s = recognizer_settings(&sense, Some(&HrConfig::default()));
    assert_eq!(s.sense_voice_model.as_deref(), Some("m"));
    assert_eq!(s.tokens.as_deref(), Some("t"));
    assert!(s.sense_voice_itn);
    assert_eq!(s.funasr_llm, None);
    assert_eq!((s.num_threads, s.debug, s.provider), (4, false, "cpu"));
    assert_eq!(s.hr_lexicon, None);
    let nano = AsrConfig::FunAsrNano {
        encoder_adaptor: "e".into(),
        llm: "l".into(),
        embedding: "b".into(),
        tokenizer: "k".into(),
        language: "auto".into(),
        itn: true,
    };
    let hr = HrConfig { lexicon: Some("lex".into()), rule_fsts: None };
    let s = recognizer_settings(&nano, Some(&hr));
    assert_eq!(s.funasr_encoder_adaptor.as_deref(), Some("e"));
    assert_eq!(s.funasr_itn, 1);
    assert_eq!(s.tokens, None);
    assert_eq!(s.hr_lexicon.as_deref(), Some("lex"));
    assert!(nano.same_as(&nano.clone()));
    assert!(!nano.same_as(&sense));
}

// ── The file ─────────────────────────────────────────────────────────────────

#[test]
fn the_first_readable_file_is_taken() {
    let mut a = ConfigFile::default();
    a.lang = Some("ja".into());
    let a = a.read_from("second.toml".into());
    let got = ConfigFile::load(vec![None, Some(a), None], "platform.toml".into());
    assert_eq!(got.lang.as_deref(), Some("ja"));
    assert_eq!(got.display_path("platform.toml"), "second.toml");
    assert!(got.loaded_from_disk);
    let none = ConfigFile::load(vec![None, None], "platform.toml".into());
    assert_eq!(none.display_path("x"), "platform.toml");
    assert!(!none.loaded_from_disk);
    assert_eq!(ConfigFile::default().display_path("x"), "x");
}

#[test]
fn old_files_count_as_configured() {
    let mut c = ConfigFile::default();
    assert!(!c.is_configured());
    c.ptt_key = Some("CapsLock".into());
    assert!(!c.is_configured());
    c.loaded_from_disk = true;
    assert!(c.is_configured());
    let mut fresh = ConfigFile::default();
    fresh.finish_setup();
    assert!(fresh.is_configured());
    assert_eq!(fresh.ptt_key.as_deref(), Some("CapsLock"));
}

#[test]
fn settings_are_looked_for_in_order() {
    let some = |text: &str| Some(text.to_string());
    assert_eq!(
        config_places(some("C:\\Data"), some("C:\\Home"), "P".into(), '\\'),
        vec!["config.toml", "C:\\Data\\auto-voice\\config.toml", "P"]
    );
    assert_eq!(
        config_places(None, some("/home/me/"), "P".into(), '/'),
        vec!["config.toml", "/home/me/.config/auto-voice/config.toml", "P"]
    );
    assert_eq!(config_places(None, None, "P".into(), '/'), vec!["config.toml", "P"]);
}

#[test]
fn hotkeys_are_described_piece_by_piece() {
    for (a, b) in [("LeftCtrl", "LeftAlt"), ("CapsLock", " Foo +RightWin"), ("", "LeftCtrl+LeftAlt")] {
        assert_eq!(
            describe_ptt_key(&format!("{a}+{b}")),
            format!("{} + {}", describe_ptt_key(a), describe_ptt_key(b))
        );
    }
}

#[test]
fn themes_are_named_by_key() {
    let themes = [UiTheme::DeepSeaAurora, UiTheme::MorningPorcelain, UiTheme::GraphiteFocus];
    assert_eq!(UiTheme::all(), themes);
    for theme in themes {
        assert_eq!(UiTheme::from_key(theme.key()), theme);
    }
    assert_eq!(UiTheme::from_key("?"), UiTheme::DeepSeaAurora);
    let mut c = ConfigFile::default();
    assert_eq!(c.ui_theme(), UiTheme::DeepSeaAurora);
    c.ui_theme = Some("graphite-focus".into());
    assert_eq!(c.ui_theme(), UiTheme::GraphiteFocus);
    assert_eq!(UiTheme::MorningPorcelain.label(), "晨雾白瓷");
}

#[test]
fn hotkeys_are_parsed_token_by_token() {
    assert_eq!(parse_ptt_keys("CapsLock"), Some(vec![PttKey::CapsLock]));
    assert_eq!(
        parse_ptt_keys("LeftCtrl+ RightShift +Pause"),
        Some(vec![PttKey::LeftCtrl, PttKey::RightShift, PttKey::Pause])
    );
    assert_eq!(parse_ptt_keys("CapsLock+F13"), None);
    assert_eq!(parse_ptt_keys(""), None);
}

#[test]
fn hotkeys_are_described_for_people() {
    assert_eq!(describe_ptt_key("LeftCtrl+LeftAlt"), "左 Ctrl + 左 Alt");
    assert_eq!(describe_ptt_key("CapsLock"), "Caps Lock");
    assert_eq!(describe_ptt_key("LeftWin + RightShift"), "左 Win + 右 Shift");
    assert_eq!(describe_ptt_key("Insert+F13"), "Insert + F13");
    for preset in ptt_presets() {
        assert_eq!(describe_ptt_key(preset.spec), preset.label);
        assert!(parse_ptt_keys(preset.spec).is_some());
    }
}

#[test]
fn single_precision_numbers_compare_by_value() {
    assert!(single(-1.0).lt(single(-0.5)));
    assert!(single(0.1).lt(single(0.2)));
    assert!(single(-0.0).le(single(0.0)));
    assert!(!single(f32::NAN).le(single(0.0)));
    assert_eq!(single(2.0).clamp_unit(), single(1.0));
    assert_eq!(single(-3.0).clamp_unit(), single(0.0));
    assert_eq!(single(0.25).max_of(single(0.5)), single(0.5));
    assert_eq!(single(0.25).max_of(single(f32::NAN)), single(0.25));
}
