use auto_voice::diarization::{
    check_sample_rate, diarization_settings, keep_nonempty, DiarizationConfig, DiarizationError,
    SpeakerSegment,
};
use auto_voice::llm::{
    chat_url, correct_text, correction_request, polish_request, polish_voice_blocking, strip_think_tags,
    MEETING_PROMPT, VOICE_INPUT_SYSTEM,
};
use auto_voice::lmstudio::{
    cannot_run, command_args, ensure_ready, find_lms_executable, has_model, local_server_port,
    models_url, port_of_parts, run_lms, wait_until, AutoStartConfig, LmEvent, LmSession, LmStep,
    ServerStatus, UrlParts, WaitStep,
};
use auto_voice::output::markdown::{
    fmt_duration, fmt_offset, merge_adjacent_segments, render, render_dated, whole_seconds,
    TranscriptSegment,
};
use auto_voice::single::Single;
use auto_voice::text::{
    decimal_of, joined_with, pieces_of, same_but_for_case, signed_decimal_of, trimmed,
};
use auto_voice::transcribe::{
    diarized_jobs, maybe_correct_text, needs_correction, plain_jobs, transcript_segment,
    unique_speakers, Job,
};

fn single(x: f32) -> Single {
    Single { bits: x.to_bits() }
}

// ── LM Studio ────────────────────────────────────────────────────────────────

#[test]
fn accepts_loopback_http_urls() {
    assert_eq!(local_server_port("http://localhost:1234"), Some(1234));
    assert_eq!(local_server_port("http://127.0.0.1:4321/"), Some(4321));
    assert_eq!(local_server_port("http://[::1]:1234"), Some(1234));
}

#[test]
fn rejects_remote_or_unsafe_urls() {
    assert_eq!(local_server_port("http://192.168.1.10:1234"), None);
    assert_eq!(local_server_port("https://localhost:1234"), None);
    assert_eq!(local_server_port("http://localhost:1234/proxy"), None);
    assert_eq!(local_server_port("not-a-url"), None);
}

#[test]
fn queries_fragments_and_default_ports() {
    assert_eq!(local_server_port("http://localhost"), Some(80));
    assert_eq!(local_server_port("http://localhost:1234/?a=b"), None);
    assert_eq!(local_server_port("http://localhost:1234/#top"), None);
    let mut parts = UrlParts {
        scheme: "http".into(),
        host: Some("::1".into()),
        path: String::new(),
        query: None,
        fragment: None,
        port: Some(9),
    };
    assert_eq!(port_of_parts(&parts), Some(9));
    parts.host = None;
    assert_eq!(port_of_parts(&parts), None);
}

fn auto_start() -> AutoStartConfig {
    AutoStartConfig {
        base_url: "http://localhost:1234/".into(),
        api_model: "api".into(),
        local_model: "local".into(),
        context_length: Some(4096),
    }
}

fn step_name(s: &LmSession) -> String {
    match &s.step {
        LmStep::ProbeModel => "probe".into(),
        LmStep::StartDaemon => "daemon".into(),
        LmStep::QueryServer => "query".into(),
        LmStep::StartServer => "start".into(),
        LmStep::AwaitServer => "await server".into(),
        LmStep::ProbeAgain => "probe again".into(),
        LmStep::LoadModel => "load".into(),
        LmStep::AwaitModel => "await model".into(),
        LmStep::Ready => "ready".into(),
        LmStep::Failed(m) => m.clone(),
    }
}

#[test]
fn a_server_is_started_and_a_model_loaded() {
    let cfg = auto_start();
    let mut s = ensure_ready(&cfg).ok().unwrap();
    let mut seen = vec![step_name(&s)];
    let events = vec![
        LmEvent::Listed(false),
        LmEvent::Ran(None),
        LmEvent::Answered(ServerStatus { running: false, port: None }),
        LmEvent::Ran(None),
        LmEvent::Waited(true),
        LmEvent::Listed(false),
        LmEvent::Ran(None),
        LmEvent::Waited(true),
    ];
    let mut commands = Vec::new();
    for e in events {
        if let Some(args) = command_args(&cfg, &s) {
            commands.push(args.join(" "));
        }
        s.advance(&cfg, e);
        seen.push(step_name(&s));
    }
    assert_eq!(
        seen,
        vec![
            "probe",
            "daemon",
            "query",
            "start",
            "await server",
            "probe again",
            "load",
            "await model",
            "ready"
        ]
    );
    assert_eq!(
        commands,
        vec![
            "daemon up --json",
            "server status --json",
            "server start --port 1234",
            "load local --identifier api --yes --context-length 4096"
        ]
    );
}

#[test]
fn a_listed_model_needs_nothing() {
    let cfg = auto_start();
    let mut s = ensure_ready(&cfg).ok().unwrap();
    assert!(command_args(&cfg, &s).is_none());
    s.advance(&cfg, LmEvent::Listed(true));
    assert_eq!(step_name(&s), "ready");
    assert!(command_args(&cfg, &s).is_none());
}

#[test]
fn every_failure_is_explained() {
    let cfg = auto_start();
    let fail = |step: LmStep, event: LmEvent| {
        let mut s = LmSession { port: 1234, step };
        s.advance(&cfg, event);
        step_name(&s)
    };
    let why = || LmEvent::Ran(Some("why".into()));
    assert_eq!(
        fail(LmStep::StartDaemon, why()),
        "Failed to start the LM Studio headless daemon: why"
    );
    assert_eq!(fail(LmStep::QueryServer, why()), "Failed to query the LM Studio server: why");
    assert_eq!(
        fail(LmStep::QueryServer, LmEvent::Garbled("eof".into())),
        "LM Studio returned an invalid server status: eof"
    );
    let running = |port| LmEvent::Answered(ServerStatus { running: true, port });
    assert_eq!(
        fail(LmStep::QueryServer, running(Some(1))),
        "LM Studio server is already running on port 1, but lm_url uses port 1234"
    );
    assert_eq!(
        fail(LmStep::QueryServer, running(None)),
        "LM Studio server is already running on port unknown, but lm_url uses port 1234"
    );
    assert_eq!(fail(LmStep::QueryServer, running(Some(1234))), "await server");
    assert_eq!(
        fail(LmStep::StartServer, why()),
        "Failed to start the LM Studio server on port 1234: why"
    );
    assert_eq!(
        fail(LmStep::AwaitServer, LmEvent::Waited(false)),
        "LM Studio server did not become reachable: timed out after 20 seconds"
    );
    assert_eq!(fail(LmStep::ProbeAgain, LmEvent::Listed(true)), "await model");
    assert_eq!(fail(LmStep::LoadModel, why()), "Failed to load LM Studio model local: why");
    assert_eq!(
        fail(LmStep::AwaitModel, LmEvent::Waited(false)),
        "LM Studio model api did not become ready: timed out after 30 seconds"
    );
    let mut remote = auto_start();
    remote.base_url = "http://example.com".into();
    assert_eq!(
        ensure_ready(&remote).err(),
        Some(
            "LM Studio auto-start only supports a loopback HTTP URL without a path: http://example.com"
                .to_string()
        )
    );
}

#[test]
fn programs_are_run_and_their_failures_told() {
    assert_eq!(run_lms("lms", true, Some(0), "", ""), None);
    assert_eq!(
        run_lms("lms", false, Some(-2), "out", " err \n"),
        Some("lms failed (exit -2): err".to_string())
    );
    assert_eq!(
        run_lms("lms", false, None, " out ", " \n"),
        Some("lms failed (exit terminated): out".to_string())
    );
    assert_eq!(
        cannot_run("lms"),
        "Could not run lms; install LM Studio and launch it once so the lms CLI is available"
    );
    assert_eq!(find_lms_executable(false, Some("x".into())), "lms");
    assert_eq!(find_lms_executable(true, None), "lms.exe");
    assert_eq!(find_lms_executable(true, Some("p/lms.exe".into())), "p/lms.exe");
    assert_eq!(models_url("http://h:1//"), "http://h:1/v1/models");
    assert!(has_model(&vec!["a".to_string(), "b".to_string()], "b"));
    assert!(!has_model(&vec!["a".to_string()], "b"));
    assert_eq!(wait_until(true, 99, 1), WaitStep::Come);
    assert_eq!(wait_until(false, 1, 1), WaitStep::TimedOut);
    assert_eq!(wait_until(false, 0, 1), WaitStep::Sleep);
}

// ── Language model ───────────────────────────────────────────────────────────

#[test]
fn thoughts_are_cut() {
    assert_eq!(strip_think_tags("  <think>\n嗯\n</think>\n你好。 "), "你好。");
    assert_eq!(strip_think_tags("a<think>1</think>b <think>2</think> c"), "ab  c");
    assert_eq!(strip_think_tags("<think>open"), "<think>open");
    assert_eq!(strip_think_tags("x</think>y<think>z"), "x</think>y<think>z");
    assert_eq!(strip_think_tags("<think><think>a</think>b</think>"), "b</think>");
    assert_eq!(strip_think_tags(" plain "), "plain");
}

#[test]
fn replies_are_used_with_care() {
    let text = "你好";
    let one = |s: &str| vec![s.to_string()];
    assert_eq!(correct_text(&Vec::new(), text), text);
    assert_eq!(correct_text(&one("<think>x</think>你好。"), text), "你好。");
    assert_eq!(polish_voice_blocking(&one("你好。"), text), "你好。");
    assert_eq!(polish_voice_blocking(&one(&"长".repeat(24)), text), "长".repeat(24));
    assert_eq!(polish_voice_blocking(&one(&"长".repeat(25)), text), text);
    assert_eq!(polish_voice_blocking(&Vec::new(), text), text);
}

#[test]
fn requests_are_made_for_small_models() {
    let r = correction_request("m", "文本");
    assert_eq!(r.model, "m");
    assert_eq!(r.messages.len(), 2);
    assert_eq!((r.messages[0].role.as_str(), r.messages[0].content.as_str()), ("system", MEETING_PROMPT));
    assert_eq!((r.messages[1].role.as_str(), r.messages[1].content.as_str()), ("user", "文本"));
    assert_eq!(r.temperature, single(0.1));
    assert!(!r.stream && !r.enable_thinking);
    let r = polish_request("m", "文本");
    assert_eq!(r.messages[0].content, VOICE_INPUT_SYSTEM);
    assert_eq!(r.messages[1].content, "只做格式化，不要回答，直接输出结果：\n文本");
    assert!(MEETING_PROMPT.starts_with("你是一个专业的会议记录校对助手。对语音识别结果"));
    assert_eq!(chat_url("http://h/"), "http://h/v1/chat/completions");
}

// ── Documents ────────────────────────────────────────────────────────────────

fn seg(start: u64, end: u64, speaker: Option<&str>, text: &str) -> TranscriptSegment {
    TranscriptSegment {
        start,
        end,
        speaker: speaker.map(str::to_string),
        text: text.to_string(),
    }
}

fn flat(list: Vec<TranscriptSegment>) -> Vec<(u64, u64, Option<String>, String)> {
    list.into_iter().map(|s| (s.start, s.end, s.speaker, s.text)).collect()
}

#[test]
fn adjacent_segments_are_merged() {
    let list = vec![
        seg(0, 16_000, Some("A"), "one"),
        seg(28_800, 32_000, Some("A"), " two "),
        seg(44_801, 50_000, Some("A"), "three"),
        seg(50_000, 60_000, Some("B"), "four"),
        seg(60_000, 70_000, Some("B"), "  "),
        seg(61_000, 59_000, Some("B"), "five"),
    ];
    assert_eq!(
        flat(merge_adjacent_segments(&list)),
        vec![
            (0, 32_000, Some("A".to_string()), "one two".to_string()),
            (44_801, 50_000, Some("A".to_string()), "three".to_string()),
            (50_000, 60_000, Some("B".to_string()), "four five".to_string()),
        ]
    );
    let broken = vec![seg(0, 1, None, "a\n"), seg(1, 2, None, "b")];
    assert_eq!(flat(merge_adjacent_segments(&broken))[0].3, "a\nb");
    let twice = merge_adjacent_segments(&merge_adjacent_segments(&list));
    assert_eq!(flat(twice), flat(merge_adjacent_segments(&list)));
    let blank = vec![seg(0, 1, None, " \n"), seg(1, 2, None, "\u{3000}")];
    assert!(merge_adjacent_segments(&blank).is_empty());
}

#[test]
fn gaps_follow_double_precision() {
    let merges = |end: u64, start: u64| {
        let list = vec![seg(0, end, None, "a"), seg(start, start, None, "b")];
        merge_adjacent_segments(&list).len() == 1
    };
    let seconds = |samples: u64| samples as f64 / 16_000.0;
    for end in (0..200_000).step_by(37).chain([1 << 54, (1 << 60) + 1, u64::MAX - 20_000]) {
        for gap in [0, 1, 12_799, 12_800, 12_801] {
            let expected = (seconds(end + gap) - seconds(end)).abs() <= 0.8;
            assert_eq!(merges(end, end + gap), expected, "{gap} after {end}");
            assert_eq!(merges(end + gap, end), expected, "{gap} before {end}");
        }
    }
    assert!(!merges(22_400, 35_200));
    assert!(!merges(36_800, 49_600));
    assert!(merges(16_000, 28_800));
}

#[test]
fn whole_seconds_follow_double_precision() {
    for samples in [0, 15_999, 16_000, 47_999, (1 << 54) - 1, (1 << 60) + 15_999, u64::MAX] {
        assert_eq!(whole_seconds(samples), (samples as f64 / 16_000.0) as u64);
    }
}

#[test]
fn documents_are_laid_out() {
    let list = vec![seg(0, 58_000 * 1000, Some("Speaker 1"), " 你好 "), seg(0, 0, None, "x")];
    assert_eq!(
        render_dated(&list, "a.mp3", "2024-05-06 07:08:09", 3725),
        "# 会议转写\n\n**来源**: a.mp3  \n**日期**: 2024-05-06 07:08:09  \n**时长**: 01:02:05  \n\n---\n\n\
## Speaker 1 [00:00:00] - [01:00:25]\n\n你好\n\n\
## [00:00:00] - [00:00:00]\n\nx\n\n"
    );
    assert_eq!(fmt_duration(360_000), "100:00:00");
    assert_eq!(fmt_offset(59), "[00:00:59]");
}

#[test]
fn documents_are_dated_now() {
    let doc = render(&Vec::new(), "a", 0);
    assert!(doc.starts_with("# 会议转写\n\n**来源**: a  \n**日期**: "));
    let date = doc.split("**日期**: ").nth(1).unwrap().split("  \n").next().unwrap();
    assert_eq!(date.len(), 19);
    for (i, c) in date.chars().enumerate() {
        match i {
            4 | 7 => assert_eq!(c, '-'),
            10 => assert_eq!(c, ' '),
            13 | 16 => assert_eq!(c, ':'),
            _ => assert!(c.is_ascii_digit()),
        }
    }
    assert!(doc.ends_with("  \n**时长**: 00:00:00  \n\n---\n\n"));
}

// ── Stretches ────────────────────────────────────────────────────────────────

fn job(start: u64, end: u64, speaker: Option<usize>) -> Job {
    Job { start, end, speaker }
}

#[test]
fn long_recordings_are_read_in_stretches() {
    assert_eq!(plain_jobs(0), vec![]);
    assert_eq!(plain_jobs(480_000), vec![job(0, 480_000, None)]);
    assert_eq!(plain_jobs(480_001), vec![job(0, 480_000, None), job(480_000, 480_001, None)]);
}

fn said(start: f32, end: f32, speaker: usize) -> SpeakerSegment {
    SpeakerSegment { start_sec: single(start), end_sec: single(end), speaker }
}

#[test]
fn speaker_segments_are_read_within_the_recording() {
    let list = vec![
        said(0.5, 1.25, 0),
        said(-3.0, 0.00001, 1),
        said(1.0, f32::INFINITY, 2),
        said(9.0, 10.0, 3),
        said(f32::NAN, 0.5, 4),
        said(0.1, 0.2, 5),
    ];
    assert_eq!(
        diarized_jobs(&list, 32_000),
        vec![
            job(8_000, 20_000, Some(0)),
            job(0, 1, Some(1)),
            job(16_000, 32_000, Some(2)),
            job(0, 8_000, Some(4)),
            job(1_600, 3_201, Some(5)),
        ]
    );
    assert_eq!(
        diarized_jobs(&vec![said(0.0, 31.0, 7)], 1_000_000),
        vec![job(0, 480_000, Some(7)), job(480_000, 496_000, Some(7))]
    );
}

#[test]
fn samples_agree_with_floating_point() {
    for x in [0.0f32, 1.0e-40, 0.1, 0.3, 1.7, 12.345, 59.999, 600.125, 3.0e7, 1.0e30] {
        let floor = ((x as f64) * 16000.0).floor().max(0.0) as usize;
        let ceil = ((x as f64) * 16000.0).ceil().max(0.0) as usize;
        let len = 10_000_000usize;
        let jobs = diarized_jobs(&vec![said(x, x + x.max(0.25), 0)], len as u64);
        let end = (((x + x.max(0.25)) as f64) * 16000.0).ceil() as usize;
        if floor.min(len) < end.min(len) {
            assert_eq!(jobs[0].start, floor.min(len) as u64);
            assert_eq!(jobs[jobs.len() - 1].end, end.min(len) as u64);
        } else {
            assert!(jobs.is_empty());
        }
        let to = diarized_jobs(&vec![said(0.0, x, 0)], len as u64);
        assert_eq!(to.last().map_or(0, |j| j.end), ceil.min(len) as u64);
    }
}

#[test]
fn speakers_are_counted_from_one() {
    let s = transcript_segment(&job(1, 2, Some(0)), "x".into());
    assert_eq!(s.speaker.as_deref(), Some("Speaker 1"));
    assert_eq!(transcript_segment(&job(1, 2, None), "x".into()).speaker, None);
    let list = vec![said(0.0, 1.0, 3), said(1.0, 2.0, 1), said(2.0, 3.0, 3)];
    assert_eq!(unique_speakers(&list), vec![1, 3]);
}

#[test]
fn corrections_are_asked_for_where_there_is_text() {
    assert!(needs_correction(false, "a"));
    assert!(!needs_correction(true, "a"));
    assert!(!needs_correction(false, " \n"));
    assert_eq!(maybe_correct_text(false, " a ", Some(" b ".into())), "b");
    assert_eq!(maybe_correct_text(false, " a ", None), "a");
    assert_eq!(maybe_correct_text(true, " a ", Some("b".into())), "a");
}

// ── Speakers ─────────────────────────────────────────────────────────────────

fn diarization() -> DiarizationConfig {
    DiarizationConfig {
        segmentation_model: "s".into(),
        embedding_model: "e".into(),
        num_clusters: None,
        threshold: single(0.5),
        min_duration_on: single(0.2),
        min_duration_off: single(0.5),
    }
}

#[test]
fn both_speaker_models_are_needed() {
    let s = diarization_settings(&diarization()).ok().unwrap();
    assert_eq!((s.num_clusters, s.segmentation_model.as_str()), (-1, "s"));
    let mut c = diarization();
    c.num_clusters = Some(4);
    assert_eq!(diarization_settings(&c).ok().unwrap().num_clusters, 4);
    c.embedding_model = " ".into();
    assert_eq!(diarization_settings(&c).err(), Some(DiarizationError::NoEmbeddingModel));
    c.segmentation_model = "".into();
    let e = diarization_settings(&c).err().unwrap();
    assert_eq!(e, DiarizationError::NoSegmentationModel);
    assert_eq!(e.message(), "speaker segmentation model path is empty");
    assert_eq!(
        DiarizationError::NoEmbeddingModel.message(),
        "speaker embedding model path is empty"
    );
}

#[test]
fn empty_segments_and_wrong_rates_are_refused() {
    let list = vec![said(0.0, 1.0, 0), said(1.0, 1.0, 1), said(2.0, 1.5, 2), said(2.0, 3.0, 3)];
    let kept: Vec<usize> = keep_nonempty(&list).iter().map(|s| s.speaker).collect();
    assert_eq!(kept, vec![0, 3]);
    assert_eq!(check_sample_rate(16_000), Ok(()));
    assert_eq!(
        check_sample_rate(8_000),
        Err(
            "Speaker diarization model expects 8000Hz audio; current pipeline resamples to 16000Hz"
                .to_string()
        )
    );
}

// ── Text ─────────────────────────────────────────────────────────────────────

#[test]
fn texts_are_taken_apart_and_put_together() {
    assert_eq!(pieces_of("a+b++", '+'), vec!["a", "b", "", ""]);
    assert_eq!(joined_with(&pieces_of("a+b++", '+'), "+"), "a+b++");
    assert_eq!(trimmed("\u{3000} x\u{a0}\n"), "x");
    assert_eq!(decimal_of(0), "0");
    assert_eq!(decimal_of(u64::MAX), "18446744073709551615");
    assert_eq!(signed_decimal_of(i64::MIN), "-9223372036854775808");
    assert!(same_but_for_case("HaCk", "hAcK"));
    assert!(!same_but_for_case("É", "é"));
}
