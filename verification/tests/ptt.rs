use auto_voice::asr::{AsrConfig, HrConfig};
use auto_voice::audio::ptt::{
    before_transcript, check_session, final_text, load_finished, load_started, mic_failure, report,
    worth_inserting, Heard, KeyTracker, Outcome, PttAction, PttMachine, Report,
};
use auto_voice::config::PttKey;
use auto_voice::runtime::{EngineStatus, LiveTunables, Runtime};
use auto_voice::single::Single;

#[test]
fn a_hotkey_is_held_while_all_its_keys_are() {
    let keys = vec![PttKey::LeftCtrl, PttKey::LeftAlt];
    let mut t = KeyTracker::new();
    assert!(!t.held(&keys));
    t.press(PttKey::LeftCtrl);
    t.press(PttKey::LeftCtrl);
    assert!(!t.held(&keys));
    t.press(PttKey::LeftAlt);
    t.press(PttKey::Other(30));
    assert!(t.held(&keys));
    t.release(PttKey::LeftCtrl);
    assert!(!t.held(&keys));
    t.release(PttKey::LeftCtrl);
    assert!(!t.held(&Vec::new()));
}

#[test]
fn a_dictation_runs_from_press_to_release() {
    let mut m: PttMachine<u8> = PttMachine::new();
    m.begin_round(false);
    assert_eq!(m.next(true, true), PttAction::LoadEngine);
    assert_eq!(m.next(true, true), PttAction::Idle);
    m.begin_round(true);
    assert_eq!(m.next(false, true), PttAction::OpenMic);
    m.mic_opened(true);
    assert_eq!(m.next(false, true), PttAction::Capture);
    m.captured(vec![1, 2]);
    m.begin_round(true);
    assert_eq!(m.next(true, true), PttAction::Capture);
    m.captured(vec![3]);
    m.begin_round(false);
    assert_eq!(m.next(true, true), PttAction::Finish);
    m.captured(vec![4]);
    assert_eq!(m.take_recording(), vec![1, 2, 3, 4]);
    m.begin_round(false);
    assert_eq!(m.next(false, true), PttAction::Idle);
}

#[test]
fn loading_comes_before_opening_in_the_same_round() {
    let mut m: PttMachine<u8> = PttMachine::new();
    m.begin_round(true);
    assert_eq!(m.next(true, true), PttAction::LoadEngine);
    assert_eq!(m.next(false, true), PttAction::OpenMic);
}

#[test]
fn a_shown_result_keeps_the_mic_closed() {
    let mut m: PttMachine<u8> = PttMachine::new();
    m.begin_round(true);
    assert_eq!(m.next(false, false), PttAction::Idle);
    m.begin_round(true);
    assert_eq!(m.next(false, true), PttAction::OpenMic);
}

#[test]
fn a_mic_that_fails_is_tried_again_after_release() {
    let mut m: PttMachine<u8> = PttMachine::new();
    m.begin_round(true);
    assert_eq!(m.next(false, true), PttAction::OpenMic);
    m.mic_opened(false);
    assert_eq!(m.next(false, true), PttAction::Idle);
    m.begin_round(true);
    assert_eq!(m.next(false, true), PttAction::Idle);
    m.begin_round(false);
    assert_eq!(m.next(false, true), PttAction::Idle);
    m.begin_round(true);
    assert_eq!(m.next(false, true), PttAction::OpenMic);
}

fn runtime() -> Runtime {
    Runtime::new(
        LiveTunables {
            ptt_key: "CapsLock".into(),
            input_device: None,
            energy_threshold: Single { bits: 0 },
            no_llm: false,
            lm_url: "u".into(),
            lm_model: "m".into(),
            follow_caret: true,
            live_preview: true,
        },
        AsrConfig::SenseVoice { model: "a".into(), tokens: "b".into(), language: "c".into() },
        HrConfig::default(),
    )
}

#[test]
fn a_recogniser_that_does_not_load_is_not_tried_again() {
    let mut r = runtime();
    let (generation, _, _) = r.pending_asr().expect("initial load");
    load_started(&mut r);
    assert_eq!(r.status(), EngineStatus::Loading);
    load_finished(&mut r, generation, Some("no file".into()));
    assert_eq!(r.status(), EngineStatus::Failed("no file".into()));
    assert!(r.pending_asr().is_none());
    load_finished(&mut r, generation, None);
    assert!(r.status().is_ready());
}

fn message(o: Outcome) -> String {
    match o {
        Outcome::Inserted(t) => format!("+{t}"),
        Outcome::NothingHeard => "?".to_string(),
        Outcome::Failed(m) => format!("!{m}"),
    }
}

#[test]
fn a_recording_is_settled_without_a_transcript_where_it_can_be() {
    let ready = EngineStatus::Ready;
    let failed = EngineStatus::Failed("坏了".into());
    assert_eq!(before_transcript(true, true, &ready).map(message), Some("?".to_string()));
    assert_eq!(before_transcript(false, true, &ready).map(message), None);
    assert_eq!(
        before_transcript(false, false, &failed).map(message),
        Some("!识别模型未就绪：坏了".to_string())
    );
    assert_eq!(
        before_transcript(false, false, &EngineStatus::Loading).map(message),
        Some("!识别模型仍在加载，稍后再试".to_string())
    );
    assert_eq!(message(mic_failure()), "!麦克风打开失败，检查录音权限");
}

#[test]
fn only_meaningful_text_is_inserted() {
    let judge = |h: Heard| match worth_inserting(h) {
        Ok(t) => t,
        Err(o) => message(o),
    };
    assert_eq!(judge(Heard::NotResampled), "!音频重采样失败");
    assert_eq!(judge(Heard::NotRecognised), "!识别失败，详见日志");
    assert_eq!(judge(Heard::Text("。".into())), "?");
    assert_eq!(judge(Heard::Text("你好".into())), "你好");
}

#[test]
fn raw_text_stands_in_for_a_failed_polish() {
    assert_eq!(final_text("raw".into(), false, Some("polished".into())), "polished");
    assert_eq!(final_text("raw".into(), false, None), "raw");
    assert_eq!(final_text("raw".into(), true, Some("polished".into())), "raw");
}

#[test]
fn outcomes_are_reported() {
    let show = |o: Outcome, overlay: bool| match report(o, overlay) {
        Report::Done(t) => format!("done {t}"),
        Report::Notice { message, failed } => format!("notice {message} {failed}"),
        Report::Console(t) => t,
    };
    assert_eq!(show(Outcome::Inserted("a".into()), true), "done a");
    assert_eq!(show(Outcome::NothingHeard, true), "notice 没有听清，再按住试一次 false");
    assert_eq!(show(Outcome::Failed("x".into()), true), "notice x true");
    assert_eq!(
        show(Outcome::Inserted("a".into()), false),
        "\r✅ 已粘贴                       \n"
    );
    assert_eq!(
        show(Outcome::NothingHeard, false),
        "\r🤷 没有识别到语音               \n"
    );
    assert_eq!(show(Outcome::Failed("x".into()), false), "\r❌ x\n");
}

#[test]
fn wayland_is_refused() {
    assert!(check_session(false).is_ok());
    assert!(check_session(true).err().unwrap().starts_with("Wayland global PTT requires"));
}
