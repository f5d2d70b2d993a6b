use auto_voice::config::UiTheme;
use auto_voice::osd::{
    card_inset, resting_surface, schedule_repaint, scroll_body, visible_for, CompositingCache,
    Content, Ink, Meter, OsdHandle, OsdPhase, Palette, RestingSurface, WAVE_SLOTS,
};
use auto_voice::osd_demo::{drive, streamed, DemoAction, DemoPhase, SAMPLE};
use auto_voice::platform::OverlayCompositing;
use auto_voice::single::Single;
use auto_voice::wayland_osd::{
    agent_start, datagram, level_text, parse, send_level, send_partial, show, socket_path, Agent,
    AgentStart, Delivery, Placement,
};

const SECOND: u64 = 1_000_000_000;

fn single(x: f32) -> Single {
    Single { bits: x.to_bits() }
}

#[test]
fn recording_lifecycle_blocks_reentry_until_hidden() {
    let mut handle = OsdHandle::new(0);
    assert!(handle.can_recording_start());
    handle.set_recording(1);
    assert!(!handle.can_recording_start());
    handle.set_processing(2);
    handle.set_done("你好", 3);
    assert!(!handle.can_recording_start());
    handle.hide_overlay(4);
    assert!(handle.can_recording_start());
}

#[test]
fn audio_level_is_clamped_and_recorded_in_the_waveform() {
    let mut handle = OsdHandle::new(0);
    handle.set_recording(0);
    handle.set_level(single(2.0), 0);
    let snapshot = handle.snapshot(0);
    assert_eq!(snapshot.level, single(1.0));
    assert_eq!(snapshot.levels.len(), WAVE_SLOTS);
    assert_eq!(snapshot.levels.last().copied(), Some(single(1.0)));
}

#[test]
fn a_result_carries_the_inserted_text() {
    let mut handle = OsdHandle::new(0);
    handle.set_recording(0);
    handle.set_processing(0);
    handle.set_done("  今天天气不错  ", 0);
    let snapshot = handle.snapshot(0);
    assert_eq!(snapshot.phase, OsdPhase::Done);
    assert_eq!(snapshot.text, "今天天气不错");
}

#[test]
fn longer_results_stay_on_screen_longer() {
    assert!(visible_for("好") < visible_for(&"好".repeat(30)));
}

#[test]
fn partial_text_streams_while_listening_and_survives_processing() {
    let mut handle = OsdHandle::new(0);
    handle.set_recording(0);
    handle.set_partial("今天");
    assert_eq!(handle.snapshot(0).partial, "今天");
    handle.set_partial("今天天气");
    handle.set_processing(0);
    assert_eq!(handle.snapshot(0).partial, "今天天气");
    handle.set_partial("今天天气不错");
    assert_eq!(handle.snapshot(0).partial, "今天天气不错");
}

#[test]
fn partial_text_is_dropped_once_the_result_is_in() {
    let mut handle = OsdHandle::new(0);
    handle.set_recording(0);
    handle.set_partial("今天天气");
    handle.set_done("今天天气不错。", 0);
    let snapshot = handle.snapshot(0);
    assert!(snapshot.partial.is_empty());
    assert_eq!(snapshot.text, "今天天气不错。");
    handle.set_partial("今天天气不");
    assert!(handle.snapshot(0).partial.is_empty());
}

#[test]
fn showing_times_are_exact() {
    assert_eq!(visible_for(""), 1_500_000_000);
    assert_eq!(visible_for("好"), 1_526_000_000);
    assert_eq!(visible_for(&"好".repeat(60)), 3_060_000_000);
    assert_eq!(visible_for(&"好".repeat(600)), 3_060_000_000);
}

#[test]
fn result_cards_are_retired_on_time() {
    let mut h = OsdHandle::new(0);
    h.set_recording(0);
    h.tick(100 * SECOND);
    assert_eq!(h.snapshot(0).phase, OsdPhase::Listening);
    h.set_done("好", 100 * SECOND);
    h.tick(100 * SECOND + 1_525_999_999);
    assert_eq!(h.snapshot(0).phase, OsdPhase::Done);
    h.tick(100 * SECOND + 1_526_000_000);
    assert_eq!(h.snapshot(0).phase, OsdPhase::Hidden);
    h.set_notice("没有听清".into(), true, 200 * SECOND);
    assert!(h.snapshot(0).warn);
    h.tick(200 * SECOND + 2_599_999_999);
    assert_eq!(h.snapshot(0).phase, OsdPhase::Notice);
    h.tick(200 * SECOND + 2_600_000_000);
    assert_eq!(h.snapshot(0).phase, OsdPhase::Hidden);
}

#[test]
fn the_surface_outlives_the_card_by_its_fade() {
    let mut h = OsdHandle::new(SECOND);
    assert!(!h.native_surface_visible(false, SECOND));
    assert!(h.native_surface_visible(true, SECOND));
    h.set_recording(SECOND);
    assert!(h.native_surface_visible(false, SECOND));
    h.hide_overlay(2 * SECOND);
    assert!(h.native_surface_visible(false, 2 * SECOND + 179_999_999));
    assert!(!h.native_surface_visible(false, 2 * SECOND + 180_000_000));
}

#[test]
fn the_recording_clock_runs_and_stops() {
    let mut h = OsdHandle::new(0);
    h.set_recording(5 * SECOND);
    assert_eq!(h.snapshot(7 * SECOND).elapsed, 2 * SECOND);
    h.set_processing(8 * SECOND);
    assert_eq!(h.snapshot(20 * SECOND).elapsed, 3 * SECOND);
    h.set_done("x", 30 * SECOND);
    assert_eq!(h.snapshot(40 * SECOND).elapsed, 3 * SECOND);
}

#[test]
fn the_waveform_scrolls_a_bar_at_a_time() {
    let mut h = OsdHandle::new(0);
    h.set_recording(0);
    assert!(h.set_level(single(0.5), 31_999_999));
    assert!(h.set_level(single(0.25), 31_999_999));
    assert_eq!(h.snapshot(0).levels[WAVE_SLOTS - 1], single(0.5));
    assert!(h.set_level(single(0.25), 32_000_000));
    let s = h.snapshot(0);
    assert_eq!(s.levels[WAVE_SLOTS - 1], single(0.25));
    assert_eq!(s.levels[WAVE_SLOTS - 2], single(0.5));
    assert_eq!(s.levels.len(), WAVE_SLOTS);
    h.set_processing(0);
    assert!(!h.set_level(single(0.9), 99));
    assert_eq!(h.snapshot(0).level, single(0.0));
}

#[test]
fn labels_and_caret_are_kept() {
    let mut h = OsdHandle::new(0);
    assert_eq!(h.snapshot(0).hotkey, "Caps Lock");
    assert!(h.follows_caret());
    h.set_hotkey_label("右 Ctrl".into());
    h.set_follow_caret(false);
    assert_eq!(h.snapshot(0).hotkey, "右 Ctrl");
    assert!(!h.follows_caret());
}

#[test]
fn the_card_says_what_is_going_on() {
    let mut h = OsdHandle::new(0);
    let c = Content::for_snapshot(&h.snapshot(0));
    assert_eq!((c.title, c.body.as_str(), c.meter), ("", "", Meter::Nothing));
    h.set_recording(0);
    let c = Content::for_snapshot(&h.snapshot(0));
    assert_eq!((c.title, c.body.as_str()), ("正在聆听", "松开 Caps Lock 插入文字"));
    assert!(c.body_muted && !c.measured && c.meter == Meter::Wave);
    h.set_partial("你好");
    let c = Content::for_snapshot(&h.snapshot(0));
    assert_eq!(c.body, "你好");
    assert!(!c.body_muted);
    h.set_processing(0);
    assert_eq!(Content::for_snapshot(&h.snapshot(0)).body, "你好");
    h.set_recording(0);
    h.set_processing(0);
    let c = Content::for_snapshot(&h.snapshot(0));
    assert_eq!((c.title, c.body.as_str(), c.meter), ("正在整理", "转写中…", Meter::Sweep));
    h.set_done("好", 0);
    let c = Content::for_snapshot(&h.snapshot(0));
    assert_eq!((c.title, c.body.as_str(), c.meter), ("已插入", "好", Meter::Elapsed));
    h.set_notice("坏".into(), false, 0);
    let c = Content::for_snapshot(&h.snapshot(0));
    assert_eq!((c.title, c.body.as_str(), c.measured), ("未插入", "坏", true));
}

#[test]
fn colours_tell_the_phases_apart() {
    let mut h = OsdHandle::new(0);
    let alpha = OverlayCompositing::PerPixelAlpha;
    h.set_recording(0);
    let p = Palette::for_snapshot(&h.snapshot(0), alpha);
    assert_eq!(p.accent, Ink::Opaque(255, 92, 116));
    assert_eq!(p.surface, Ink::Translucent(17, 21, 30, 224));
    h.set_notice("x".into(), true, 0);
    let p = Palette::for_snapshot(&h.snapshot(0), OverlayCompositing::ColorKey);
    assert_eq!(p.accent, Ink::Opaque(255, 122, 122));
    assert_eq!(p.rim, Ink::Opaque(48, 56, 72));
    let c = Content::for_snapshot(&h.snapshot(0));
    assert_eq!(c.body_color(&p), p.text);
}

#[test]
fn the_theme_colours_the_overlay_at_once() {
    let mut h = OsdHandle::new(0);
    let alpha = OverlayCompositing::PerPixelAlpha;
    h.set_recording(0);
    assert_eq!(h.snapshot(0).theme, UiTheme::DeepSeaAurora);
    h.set_theme(UiTheme::MorningPorcelain);
    let p = Palette::for_snapshot(&h.snapshot(0), alpha);
    assert_eq!(p.surface, Ink::Translucent(255, 255, 255, 224));
    assert_eq!(p.accent, Ink::Opaque(214, 77, 97));
    assert_eq!((p.text, p.muted), (Ink::Opaque(25, 32, 45), Ink::Opaque(101, 115, 138)));
    let p = Palette::for_snapshot(&h.snapshot(0), OverlayCompositing::ColorKey);
    assert_eq!((p.surface, p.rim), (Ink::Opaque(255, 255, 255), Ink::Opaque(218, 224, 235)));
    h.set_theme(UiTheme::GraphiteFocus);
    h.set_done("好", 0);
    let p = Palette::for_snapshot(&h.snapshot(0), alpha);
    assert_eq!(p.surface, Ink::Translucent(37, 39, 44, 224));
    assert_eq!(p.accent, Ink::Opaque(72, 201, 158));
    h.set_notice("x".into(), false, 0);
    assert_eq!(
        Palette::for_snapshot(&h.snapshot(0), alpha).accent,
        Ink::Opaque(226, 169, 79)
    );
    h.set_optimizing(0);
    assert_eq!(
        Palette::for_snapshot(&h.snapshot(0), alpha).accent,
        Ink::Opaque(136, 184, 255)
    );
}

#[test]
fn polishing_has_a_state_of_its_own() {
    let mut h = OsdHandle::new(0);
    h.set_recording(SECOND);
    h.set_partial("你好");
    h.set_processing(3 * SECOND);
    h.set_optimizing(4 * SECOND);
    assert!(!h.can_recording_start());
    let s = h.snapshot(9 * SECOND);
    assert_eq!((s.phase, s.elapsed), (OsdPhase::Optimizing, 2 * SECOND));
    assert!(!h.set_partial("迟到"));
    let c = Content::for_snapshot(&h.snapshot(0));
    assert_eq!((c.title, c.body.as_str(), c.meter), ("正在优化", "你好", Meter::Pulse));
    assert!(!c.body_muted && !c.measured);
    h.tick(900 * SECOND);
    assert_eq!(h.snapshot(0).phase, OsdPhase::Optimizing);
    h.set_recording(0);
    h.set_optimizing(0);
    let c = Content::for_snapshot(&h.snapshot(0));
    assert_eq!((c.body.as_str(), c.body_muted), ("优化中…", true));
    assert_eq!(schedule_repaint(&h.snapshot(0), 0), 33_000_000);
}

#[test]
fn bars_lie_between_nought_and_one() {
    let mut h = OsdHandle::new(0);
    let mut a = Agent::new(0);
    h.set_recording(0);
    for (step, level) in [-3.0, 0.25, 7.0, f32::INFINITY].into_iter().enumerate() {
        let now = (step as u64 + 1) * 32_000_000;
        h.set_level(single(level), now);
        a.receive("level\nx", Some(single(level)), now);
    }
    let expected = [single(0.0), single(0.25), single(1.0), single(1.0)];
    assert_eq!(h.snapshot(0).levels[26..], expected);
    assert_eq!(a.levels()[22..], expected);
}

#[test]
fn repaints_are_scheduled() {
    let mut h = OsdHandle::new(0);
    assert_eq!(schedule_repaint(&h.snapshot(0), 0), 33_000_000);
    h.set_notice("x".into(), false, SECOND);
    assert_eq!(schedule_repaint(&h.snapshot(0), 2 * SECOND), 1_600_000_000);
    assert_eq!(schedule_repaint(&h.snapshot(0), 9 * SECOND), 0);
    assert_eq!(resting_surface(OsdPhase::Hidden, true), Some(RestingSurface::Parked));
    assert_eq!(resting_surface(OsdPhase::Hidden, false), Some(RestingSurface::Unmapped));
    assert_eq!(resting_surface(OsdPhase::Done, false), None);
    assert_eq!(card_inset(), (145, 26));
}

#[test]
fn compositing_is_found_out_once() {
    let mut c = CompositingCache::new();
    assert!(c.needs_preparing());
    assert_eq!(c.overlay_compositing(None), OverlayCompositing::PerPixelAlpha);
    assert!(c.needs_preparing());
    let key = OverlayCompositing::ColorKey;
    assert_eq!(c.overlay_compositing(Some(key)), key);
    assert_eq!(c.overlay_compositing(Some(OverlayCompositing::PerPixelAlpha)), key);
    assert!(!c.needs_preparing());
}

#[test]
fn long_transcripts_scroll_by_lines() {
    assert_eq!(scroll_body("一二三四五", 4, 2), Some("三四五".to_string()));
    assert_eq!(scroll_body("一二三四五", 3, 2), None);
    assert_eq!(scroll_body("一二三", 4, 0), Some("二三".to_string()));
    assert_eq!(scroll_body("一二三", 4, 3), None);
}

// ── The demonstration ────────────────────────────────────────────────────────

#[test]
fn demo_phases_are_named() {
    assert_eq!(DemoPhase::named("waiting"), Ok(DemoPhase::Waiting));
    assert_eq!("notice".parse::<DemoPhase>(), Ok(DemoPhase::Notice));
    assert_eq!(
        "x".parse::<DemoPhase>(),
        Err("unknown phase \"x\" (waiting|listening|processing|done|notice)".to_string())
    );
}

#[test]
fn the_demo_drives_the_overlay() {
    assert_eq!(drive(DemoPhase::Done, OsdPhase::Hidden), DemoAction::Begin);
    assert_eq!(drive(DemoPhase::Waiting, OsdPhase::Listening), DemoAction::Level);
    assert_eq!(drive(DemoPhase::Listening, OsdPhase::Listening), DemoAction::LevelAndPartial);
    assert_eq!(drive(DemoPhase::Processing, OsdPhase::Listening), DemoAction::Release);
    assert_eq!(drive(DemoPhase::Processing, OsdPhase::Processing), DemoAction::Nothing);
    assert_eq!(drive(DemoPhase::Optimizing, OsdPhase::Listening), DemoAction::Optimize);
    assert_eq!(drive(DemoPhase::Optimizing, OsdPhase::Optimizing), DemoAction::Nothing);
    assert_eq!(drive(DemoPhase::Notice, OsdPhase::Notice), DemoAction::Notice);
}

#[test]
fn the_sample_streams_in_and_starts_over() {
    let total = SAMPLE.chars().count() as u64;
    assert_eq!(streamed(0), "");
    assert_eq!(streamed(3), "这个悬");
    assert_eq!(streamed(total), SAMPLE);
    assert_eq!(streamed(total + 11), SAMPLE);
    assert_eq!(streamed(total + 12), "");
    assert_eq!(streamed(total + 13), "这");
}

// ── The overlay's own process ────────────────────────────────────────────────

#[test]
fn messages_arrive_as_sent() {
    assert_eq!(send_partial("你好\n世界"), "partial\n你好\n世界");
    assert_eq!(parse("partial\n你好\n世界"), ("partial".to_string(), "你好\n世界".to_string()));
    assert_eq!(parse("ping"), ("ping".to_string(), String::new()));
    assert_eq!(datagram("done", ""), "done\n");
    assert_eq!(level_text(&send_level(" 0.5 ")), Some("0.5".to_string()));
    assert_eq!(level_text("partial\n0.5"), None);
}

#[test]
fn only_a_new_dictation_starts_the_process() {
    assert_eq!(show("done", true), Ok(Delivery::Delivered));
    assert_eq!(show("listening", false), Ok(Delivery::Launch));
    assert_eq!(show("done", false), Err("Wayland OSD is not running"));
    assert_eq!(agent_start(false, false), AgentStart::Bind);
    assert_eq!(agent_start(true, true), AgentStart::Leave);
    assert_eq!(agent_start(true, false), AgentStart::RemoveAndBind);
    assert_eq!(
        socket_path(Some("/run/user/1000".into()), "/tmp".into()),
        "/run/user/1000/auto-voice-osd.sock"
    );
}

#[test]
fn the_process_follows_the_messages() {
    let mut a = Agent::new(0);
    assert!(a.receive("listening\n松开插入", None, 0));
    assert_eq!(a.card().title, "正在聆听");
    assert_eq!(a.card().body, "松开插入");
    assert!(a.receive("level\n0.5", Some(single(7.0)), 32_000_000));
    assert_eq!(a.levels()[25], single(1.0));
    assert_eq!(a.levels()[24], single(0.0));
    assert!(a.receive("level\nx", None, 64_000_000));
    assert!(a.receive("partial\n你好", None, 0));
    assert_eq!(a.card().body, "你好");
    assert!(a.receive("processing\n", None, SECOND));
    assert_eq!(a.card().body, "你好");
    assert!(!a.may_leave(100 * SECOND));
    assert!(a.receive("copied\n文字", None, SECOND));
    assert_eq!((a.card().title, a.card().body.as_str()), ("已复制", "文字"));
    assert!(!a.may_leave(SECOND + 2_399_999_999));
    assert!(a.may_leave(SECOND + 2_400_000_000));
    assert!(!a.receive("nonsense\n", None, 0));
    assert!(a.receive("failed\n坏", None, 0));
    assert_eq!(a.card().accent, (245, 105, 105));
    assert!(a.receive("listening\n", None, 0));
    assert_eq!(a.card().body, "");
    assert!(a.card().listening);
}

#[test]
fn the_window_is_placed_once() {
    let mut p = Placement::new();
    assert!(!p.frame(false));
    assert!(p.frame(true));
    assert!(!p.frame(true));
    let mut q = Placement::new();
    for _ in 0..60 {
        assert!(!q.frame(false));
    }
    assert!(!q.frame(true));
}
