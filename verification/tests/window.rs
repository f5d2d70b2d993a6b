use auto_voice::app_config::AppConfig;
use auto_voice::config::{ConfigFile, UiTheme};
use auto_voice::fonts::SystemFont;
use auto_voice::platform::Capability;
use auto_voice::runtime::EngineStatus;
use auto_voice::tray::{opens_settings, tooltip, uses_own_overlay, TrayConfig, TrayEvent};
use auto_voice::ui::{
    background_notice, backend_name, backends, capability_tone, current_backend, current_hotkey,
    current_language, custom_hotkey_hint, device_note, edit_fonts, effective_input_device_name,
    engine_headline, engine_status, expected_model, font_count, font_offer, font_row, hotkey_chip,
    input_device_options, is_dark, languages, microphone_line, missing_model, on_close,
    platform_chip, search_fonts, step_marker, Autosave, CloseAction, DesktopApp, FontEdit, Rgb, Section, ThemeTokens, Tone,
    WizardClick,
};

const SECOND: u64 = 1_000_000_000;

fn strings(list: &[&str]) -> Vec<String> {
    list.iter().map(|s| s.to_string()).collect()
}

#[test]
fn a_fresh_installation_opens_the_wizard() {
    let mut file = ConfigFile::default();
    let app = DesktopApp::new(&file);
    assert_eq!(app.wizard_step(), Some(0));
    file.setup_done = Some(true);
    assert_eq!(DesktopApp::new(&file).wizard_step(), None);
    let resolved = AppConfig::from_file(&file);
    let tray = TrayConfig {
        runtime: resolved.build_runtime(&file),
        lmstudio: None,
        settings: file,
    };
    assert!(!tray.shows_window());
}

#[test]
fn the_wizard_goes_forward_back_and_out() {
    let file = ConfigFile::default();
    let mut app = DesktopApp::new(&file);
    assert!(!app.wizard_clicked(WizardClick::Back));
    assert!(!app.wizard_clicked(WizardClick::Forward));
    assert!(!app.wizard_clicked(WizardClick::Forward));
    assert_eq!(app.wizard_step(), Some(2));
    assert!(!app.wizard_clicked(WizardClick::Back));
    assert_eq!(app.wizard_step(), Some(1));
    assert!(!app.wizard_clicked(WizardClick::Forward));
    assert!(!app.wizard_clicked(WizardClick::Skip));
    assert!(app.wizard_clicked(WizardClick::Forward));
    assert_eq!(app.wizard_step(), None);
    let mut skipped = DesktopApp::new(&file);
    assert!(skipped.wizard_clicked(WizardClick::Skip));
    assert_eq!(skipped.wizard_step(), None);
    assert_eq!(step_marker(0, 1), "✓");
    assert_eq!(step_marker(1, 1), "2");
    assert_eq!(background_notice("CapsLock"), "已在后台运行 · 按住 Caps Lock 说话");
}

#[test]
fn edits_are_saved_once_typing_pauses() {
    let mut app = DesktopApp::new(&ConfigFile::default());
    assert_eq!(app.autosave(0), Autosave::Nothing);
    app.touched(SECOND);
    assert!(app.has_unsaved());
    assert_eq!(app.autosave(SECOND + 100), Autosave::Wait(599_999_900));
    app.touched(SECOND + 500_000_000);
    assert_eq!(app.autosave(SECOND + 600_000_000), Autosave::Wait(500_000_000));
    assert_eq!(app.autosave(SECOND + 1_100_000_000), Autosave::Save);
    app.committed(false, None, 2 * SECOND);
    assert!(!app.has_unsaved());
    assert_eq!(app.autosave(9 * SECOND), Autosave::Nothing);
}

#[test]
fn toasts_tell_of_saving_and_go_away() {
    let mut app = DesktopApp::new(&ConfigFile::default());
    assert_eq!(app.toast(0), None);
    app.committed(true, None, SECOND);
    assert_eq!(
        app.toast(2 * SECOND),
        Some(("已保存 · 正在重新加载模型".to_string(), false, 1_600_000_000))
    );
    app.committed(false, Some((2, 0)), SECOND);
    assert_eq!(app.toast(SECOND).unwrap().0, "已保存 · 立即生效");
    app.committed(true, Some((2, 1)), SECOND);
    let (message, error, _) = app.toast(SECOND).unwrap();
    assert_eq!(message, "已保存 · 已加载 2 个字体，1 个字体不可用");
    assert!(error);
    app.commit_failed("磁盘已满", SECOND);
    let (message, error, _) = app.toast(SECOND).unwrap();
    assert_eq!((message.as_str(), error), ("保存失败：磁盘已满", true));
    assert_eq!(app.toast(SECOND + 2_600_000_000), None);
    assert_eq!(app.toast(SECOND), None);
}

#[test]
fn pages_are_opened() {
    let mut app = DesktopApp::new(&ConfigFile::default());
    assert_eq!(app.section(), Section::Overview);
    app.open(Section::Polish);
    assert_eq!(app.section(), Section::Polish);
    let labels: Vec<&str> = Section::all().into_iter().map(|s| s.label()).collect();
    assert_eq!(labels, vec!["总览", "说话方式", "识别模型", "文本优化", "外观"]);
    assert_eq!(Section::Appearance.description(), "界面字体");
}

#[test]
fn themes_have_their_colours() {
    let t = ThemeTokens::for_theme(UiTheme::MorningPorcelain);
    assert_eq!(t.bg, Rgb(246, 247, 251));
    let t = ThemeTokens::for_theme(UiTheme::GraphiteFocus);
    assert_eq!(t.accent, Rgb(136, 184, 255));
    let t = ThemeTokens::for_theme(UiTheme::DeepSeaAurora);
    assert_eq!(Tone::Bad.color(&t), Rgb(255, 104, 125));
    assert!(is_dark(UiTheme::DeepSeaAurora) && !is_dark(UiTheme::MorningPorcelain));
    assert_eq!(capability_tone(Capability::PermissionRequired), Tone::Warn);
}

#[test]
fn the_recogniser_status_is_told() {
    let failed = EngineStatus::Failed("没有文件".into());
    assert_eq!(engine_headline(&EngineStatus::Ready), (Tone::Good, "识别引擎就绪"));
    assert_eq!(engine_headline(&failed).1, "识别引擎未就绪");
    assert_eq!(engine_status(&failed).text, "加载失败：没有文件");
    assert_eq!(engine_status(&EngineStatus::Loading).tone, Tone::Warn);
    let mut file = ConfigFile::default();
    assert_eq!(backend_name(&file), "SenseVoice");
    assert_eq!(expected_model(&file), "models/sense-voice/model.int8.onnx");
    file.asr_backend = Some("funasr-nano".into());
    assert_eq!(backend_name(&file), "FunASR Nano");
    assert_eq!(expected_model(&file), "models/funasr-nano/encoder_adaptor.int8.onnx");
    assert_eq!(missing_model("m").text, "找不到模型文件：m");
    assert_eq!(hotkey_chip("RightAlt"), "按住 右 Alt");
    assert_eq!(platform_chip("Linux", "X11"), "Linux · X11");
}

#[test]
fn devices_are_offered() {
    let devices = strings(&["A", "B"]);
    let default = Some("B".to_string());
    let offer = |chosen: Option<&str>, default: &Option<String>| -> Vec<(Option<String>, String)> {
        input_device_options(&chosen.map(str::to_string), &devices, default)
            .into_iter()
            .map(|o| (o.value, o.label))
            .collect()
    };
    assert_eq!(
        offer(Some("C"), &default),
        vec![
            (None, "系统默认 · B".to_string()),
            (Some("A".to_string()), "A".to_string()),
            (Some("B".to_string()), "B · 系统默认".to_string()),
            (Some("C".to_string()), "C · 当前不可用".to_string()),
        ]
    );
    assert_eq!(offer(Some("A"), &None)[0].1, "系统默认");
    assert_eq!(offer(Some("A"), &None).len(), 3);
    let pick = |chosen: Option<&str>| {
        effective_input_device_name(&chosen.map(str::to_string), &devices, &default)
    };
    assert_eq!(pick(Some("A")).as_deref(), Some("A"));
    assert_eq!(pick(Some("C")).as_deref(), Some("B"));
    assert_eq!(pick(None).as_deref(), Some("B"));
    assert!(device_note(&Some("C".into()), &devices).0);
    assert!(!device_note(&None, &devices).0);
    assert_eq!(microphone_line(&pick(None)).text, "麦克风：B");
    assert_eq!(microphone_line(&None).tone, Tone::Bad);
}

#[test]
fn choices_are_offered() {
    let mut file = ConfigFile::default();
    assert_eq!(current_hotkey(&file), "CapsLock");
    assert_eq!(current_backend(&file), "sense-voice");
    assert_eq!(current_language(&file), "auto");
    file.lang = Some("yue".into());
    assert_eq!(current_language(&file), "yue");
    assert_eq!(backends()[1].value, "funasr-nano");
    assert_eq!(languages().len(), 6);
    assert_eq!(languages()[5].label, "粤语");
    assert_eq!(custom_hotkey_hint("ScrollLock"), None);
    assert_eq!(
        custom_hotkey_hint("LeftWin"),
        Some("当前使用自定义组合键：LeftWin".to_string())
    );
}

#[test]
fn fonts_are_chosen_moved_and_dropped() {
    let list = edit_fonts(None, FontEdit::Add("A".into()));
    let list = edit_fonts(list, FontEdit::Add("B".into()));
    let list = edit_fonts(list, FontEdit::Add("C".into()));
    let list = edit_fonts(list, FontEdit::Swap(0, 1));
    assert_eq!(list, Some(strings(&["B", "A", "C"])));
    let list = edit_fonts(list, FontEdit::Remove(1));
    assert_eq!(list, Some(strings(&["B", "C"])));
    assert_eq!(edit_fonts(list, FontEdit::Restore), None);
    assert_eq!(edit_fonts(Some(strings(&["A"])), FontEdit::Remove(0)), None);
}

fn system(families: &[&str]) -> Vec<SystemFont> {
    families
        .iter()
        .map(|f| SystemFont { family: f.to_string(), file: 0, face_index: 0 })
        .collect()
}

#[test]
fn fonts_are_searched_and_marked() {
    let fonts = system(&["Hack", "Noto Sans", "ÉTOILE"]);
    assert_eq!(search_fonts(&fonts, "  "), vec![0, 1, 2]);
    assert_eq!(search_fonts(&fonts, " NOTO "), vec![1]);
    assert_eq!(search_fonts(&fonts, "étoile"), vec![2]);
    assert!(search_fonts(&fonts, "zzz").is_empty());
    let chosen = strings(&["hack", "Gone"]);
    assert_eq!(font_offer(&chosen, "HACK"), (true, "✓  HACK".to_string()));
    assert_eq!(font_offer(&chosen, "Noto Sans"), (false, "Noto Sans".to_string()));
    let row = font_row(&chosen, 0, &fonts);
    assert_eq!((row.number.as_str(), row.label.as_str()), ("1", "hack"));
    assert!(row.installed && !row.can_rise && row.can_sink);
    let row = font_row(&chosen, 1, &fonts);
    assert_eq!(row.label, "Gone（未安装）");
    assert!(!row.installed && row.can_rise && !row.can_sink);
    assert_eq!(font_count(3), "已检测到 3 种字体");
}

#[test]
fn the_tray_icon_opens_the_settings() {
    assert!(opens_settings(TrayEvent::Click { left: true, up: true }));
    assert!(!opens_settings(TrayEvent::Click { left: true, up: false }));
    assert!(!opens_settings(TrayEvent::Click { left: false, up: true }));
    assert!(opens_settings(TrayEvent::DoubleClick { left: true }));
    assert!(!opens_settings(TrayEvent::Other));
    assert_eq!(
        tooltip("Caps Lock"),
        "Auto Voice  |  按住 Caps Lock 说话，松开后自动插入文字"
    );
    assert!(!uses_own_overlay(true, true));
    assert!(uses_own_overlay(false, true));
}

#[test]
fn closing_goes_to_the_tray() {
    assert_eq!(on_close(false, false, false), CloseAction::Stay);
    assert_eq!(on_close(true, false, false), CloseAction::ToTray);
    assert_eq!(on_close(true, true, false), CloseAction::Exit);
    assert_eq!(on_close(false, false, true), CloseAction::Exit);
}
