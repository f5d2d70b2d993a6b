use std::time::Duration;

use auto_voice::audio::decode::{
    after_decode, after_read, append_planar_interleaved, first_audio_track, stream_format,
    DecodeStep, PacketDecoded, PacketRead,
};
use auto_voice::audio::mic::{
    is_meaningful_pub, listening_banner, set_clipboard_pub, wait_clipboard_ready_pub,
    ClipboardRead, ClipboardStep, LiveConfig, Vad, VadLimits,
};
use auto_voice::audio::preview::{
    frozen_samples, joined, next_interval, preview_wait, quiet_split, raw_offset, worth_freezing,
    LivePreview, PreviewWait, Transcript, FRAME,
};
use auto_voice::audio::resample::{needs_resampling, padded_chunks, whole_frames};
use auto_voice::audio::{
    describe_device, input_device_names, select_input_device, InputFormat,
};
use auto_voice::single::Single;

fn single(x: f32) -> Single {
    Single { bits: x.to_bits() }
}

/// The energy of each whole frame, and the energy up to which a frame counts as a pause.
fn frame_levels(mono: &[f32]) -> (Vec<Single>, Single) {
    let frames = mono.len() / FRAME;
    let energy = |frame: usize| {
        let window = &mono[frame * FRAME..(frame + 1) * FRAME];
        (window.iter().map(|s| s * s).sum::<f32>() / FRAME as f32).sqrt()
    };
    let levels: Vec<f32> = (0..frames).map(energy).collect();
    let average = levels.iter().sum::<f32>() / frames as f32;
    (levels.into_iter().map(single).collect(), single(average * 0.35))
}

// ── Preview ──────────────────────────────────────────────────────────────────

#[test]
fn a_frozen_prefix_is_glued_to_the_newest_guess() {
    assert_eq!(joined("", "你好"), "你好");
    assert_eq!(joined("今天天气", "不错"), "今天天气不错");
    assert_eq!(joined("hello", "world"), "hello world");
    assert_eq!(joined("你好，", "world"), "你好，world");
    assert_eq!(joined("今天天气", ""), "今天天气");
}

#[test]
fn a_pause_is_found_between_two_bursts_of_speech() {
    let mut mono = vec![0.0f32; FRAME * 60];
    for (index, sample) in mono.iter_mut().enumerate() {
        let frame = index / FRAME;
        *sample = if (24..34).contains(&frame) { 0.0 } else { 0.4 };
    }
    let (levels, limit) = frame_levels(&mono);
    let split = quiet_split(&levels, limit).expect("a pause in the second half");
    assert!(
        (24 * FRAME..34 * FRAME).contains(&split),
        "split {split} should land in the silence"
    );
}

#[test]
fn continuous_speech_is_never_cut() {
    let mono: Vec<f32> = (0..FRAME * 60)
        .map(|index| (index as f32 * 0.05).sin() * 0.4)
        .collect();
    let (levels, limit) = frame_levels(&mono);
    assert_eq!(quiet_split(&levels, limit), None);
}

#[test]
fn short_buffers_are_left_alone() {
    let (levels, limit) = frame_levels(&vec![0.0; FRAME * 10]);
    assert_eq!(quiet_split(&levels, limit), None);
}

#[test]
fn mono_offsets_map_back_onto_interleaved_frames() {
    assert_eq!(raw_offset(16_000, 48_000, 2), 48_000 * 2);
    assert_eq!(raw_offset(0, 44_100, 1), 0);
}

#[test]
fn the_earliest_of_equally_quiet_frames_is_cut() {
    let mut levels = vec![single(0.4); 100];
    levels[50] = single(0.01);
    levels[70] = single(0.01);
    assert_eq!(quiet_split(&levels, single(0.1)), Some(50 * FRAME));
    levels[60] = single(0.005);
    assert_eq!(quiet_split(&levels, single(0.1)), Some(60 * FRAME));
    assert_eq!(quiet_split(&levels, single(0.001)), None);
}

#[test]
fn frozen_text_keeps_its_place() {
    let mut t = Transcript::new();
    assert_eq!(t.partial("今天"), "今天");
    t.commit("今天天气");
    t.commit(" good ");
    assert_eq!(t.partial("morning "), "今天天气good morning");
}

#[test]
fn freezing_never_takes_more_than_there_is() {
    assert_eq!(frozen_samples(16_000, 48_000, 2, 1_000_000), 96_000);
    assert_eq!(frozen_samples(16_000, 48_000, 2, 500), 500);
    assert_eq!(frozen_samples(16_000, 48_000, 0, 500), 0);
}

#[test]
fn offsets_follow_double_precision() {
    let offset = |mono: usize, rate: u32| (mono as f64 * rate as f64 / 16_000.0) as usize;
    for mono in [1, 7, 15_999, 16_001, 123_456_789, (1 << 53) + 1, (1 << 60) + 12_345, usize::MAX] {
        for rate in [1, 8_000, 11_025, 44_100, 48_000, 192_000, 4_000_000_007, u32::MAX] {
            assert_eq!(raw_offset(mono, rate, 1), offset(mono, rate), "{mono} at {rate}");
        }
    }
}

#[test]
fn passes_back_off_within_bounds() {
    assert_eq!(next_interval(0), 650_000_000);
    assert_eq!(next_interval(700_000_000), 1_049_999_952);
    assert_eq!(next_interval(2_500_000_000), 3_000_000_000);
    assert_eq!(next_interval(u64::MAX), 3_000_000_000);
}

#[test]
fn the_gap_follows_single_precision() {
    let shortest = Duration::from_millis(650);
    let longest = Duration::from_secs(3);
    let edges = [999_999_999, 1_000_000_000, 1_999_999_999, 2_000_000_000, 2_000_000_001];
    let spread = (0..40_000u64).map(|step| step * 54_321 + 430_000_000);
    for nanos in edges.into_iter().chain(spread) {
        let gap = shortest.max(Duration::from_nanos(nanos).mul_f32(1.5)).min(longest);
        assert_eq!(Duration::from_nanos(next_interval(nanos)), gap, "after {nanos}");
    }
}

#[test]
fn a_pass_waits_for_audio_and_time() {
    let second = 16_000usize;
    assert_eq!(preview_wait(true, 0, 0, second, 16_000, 1), PreviewWait::Finish);
    assert_eq!(
        preview_wait(false, 650_000_000, 650_000_000, second, 16_000, 1),
        PreviewWait::Run
    );
    assert_eq!(
        preview_wait(false, 650_000_000, 650_000_000, second / 2, 16_000, 1),
        PreviewWait::Wait(30_000_000)
    );
    assert_eq!(
        preview_wait(false, 150_000_000, 650_000_000, second, 16_000, 1),
        PreviewWait::Wait(500_000_000)
    );
    assert!(worth_freezing(128_000));
    assert!(!worth_freezing(127_999));
}

#[test]
fn the_length_of_audio_follows_single_precision() {
    let enough = |samples: usize, rate: u32, stride: u16| {
        samples as f32 / stride as f32 / rate as f32 >= 0.9
    };
    let rates = [1, 7, 44_100, 48_000, 16_777_217, 123_456_789, 4_000_000_007, u32::MAX];
    for rate in rates {
        for stride in [1u16, 2, 3, 6, 7, u16::MAX] {
            let needed = (rate as u128 * stride as u128 * 9 / 10) as usize;
            for samples in needed.saturating_sub(400)..needed + 400 {
                let expected = if enough(samples, rate, stride) {
                    PreviewWait::Run
                } else {
                    PreviewWait::Wait(30_000_000)
                };
                assert_eq!(preview_wait(false, 1, 1, samples, rate, stride), expected);
            }
        }
    }
    assert_eq!(preview_wait(false, 1, 1, 9, 0, 1), PreviewWait::Wait(30_000_000));
    assert_eq!(preview_wait(false, 1, 1, 9, 1, 0), PreviewWait::Wait(30_000_000));
    assert_eq!(preview_wait(false, 1, 1, usize::MAX, 1, 1), PreviewWait::Run);
}

#[test]
fn a_pass_that_ends_late_shows_nothing() {
    let mut p: LivePreview<i16> = LivePreview::start();
    p.push(vec![0; 16_000]);
    assert_eq!(p.wait(0, 16_000, 1), PreviewWait::Run);
    assert_eq!(p.pass_ended("一", 2_000_000_000), Some("一".to_string()));
    p.stop();
    assert_eq!(p.pass_ended("一二", 0), None);
    assert_eq!(p.wait(9_000_000_000, 16_000, 1), PreviewWait::Finish);
}

#[test]
fn gluing_does_not_depend_on_the_order() {
    for (a, b, c) in [
        (" 今天 ", " good", "day "),
        ("a", "  ", "b"),
        ("", "x ", " y"),
        ("one", "，", "two"),
        ("one", "two", ""),
    ] {
        assert_eq!(joined(&joined(a, b), c), joined(a, &joined(b, c)));
    }
}

#[test]
fn a_preview_drops_only_what_it_froze() {
    let mut p: LivePreview<i16> = LivePreview::start();
    p.push((0..16_000i16).collect());
    assert_eq!(p.wait(1_000, 16_000, 1), PreviewWait::Run);
    assert_eq!(p.pass_ended("你好", 0), Some("你好".to_string()));
    p.freeze("你好", 8_000, 16_000, 1);
    p.push(vec![-1, -2]);
    assert_eq!(p.audio().len(), 8_002);
    assert_eq!(p.audio()[0], 8_000);
    assert_eq!(p.audio()[8_001], -2);
    assert_eq!(p.pass_ended("世界", 0), Some("你好世界".to_string()));
    assert_eq!(p.wait(1_001, 16_000, 1), PreviewWait::Wait(649_999_999));
    p.stop();
    assert!(p.is_stopped());
    assert_eq!(p.wait(2_000_000_000, 16_000, 1), PreviewWait::Finish);
}

// ── Listening ────────────────────────────────────────────────────────────────

#[test]
fn limits_follow_from_the_stream() {
    let l = VadLimits::for_stream(48_000, 2, 800);
    assert_eq!(l.silence, 48_000 * 800 / 1000 * 2);
    assert_eq!(l.longest, 30 * 48_000 * 2);
    assert_eq!(l.shortest, 24_000 * 2);
}

#[test]
fn limits_follow_floating_point() {
    let silences = [0, 1, 800, 999, 1_000_000_007, (1 << 53) + 1, u64::MAX];
    for rate in [0, 1, 44_100, 559_241, 1_118_481, 16_777_217, 123_456_789, u32::MAX] {
        for silence in silences {
            assert!(VadLimits::fit(rate, 1, silence));
            let l = VadLimits::for_stream(rate, 1, silence);
            assert_eq!(l.silence, (rate as f64 * silence as f64 / 1000.0) as usize);
            assert_eq!(l.longest, (30.0 * rate as f32) as usize);
            assert_eq!(l.shortest, (8000.0 * rate as f64 / 16000.0) as usize);
        }
    }
    assert_eq!(VadLimits::for_stream(559_241, 1, 0).longest, 16_777_230);
    assert!(!VadLimits::fit(u32::MAX, 2, u64::MAX));
    assert!(VadLimits::fit(u32::MAX, 0, u64::MAX));
}

#[test]
fn an_utterance_ends_with_silence() {
    let limits = VadLimits { silence: 4, longest: 100, shortest: 6 };
    let mut vad: Vad<u8> = Vad::new(limits, single(0.1));
    assert_eq!(vad.push(vec![9, 9], single(0.05)), None);
    assert_eq!(vad.push(vec![1, 2], single(0.5)), None);
    assert_eq!(vad.push(vec![3, 4], single(0.01)), None);
    assert_eq!(vad.push(vec![5, 6], single(0.01)), Some(vec![1, 2, 3, 4, 5, 6]));
    assert_eq!(vad.finish(), None);
}

#[test]
fn long_speech_is_cut_and_short_speech_waits() {
    let limits = VadLimits { silence: 2, longest: 4, shortest: 3 };
    let mut vad: Vad<u8> = Vad::new(limits, single(0.1));
    assert_eq!(vad.push(vec![1, 2], single(0.5)), None);
    assert_eq!(vad.push(vec![3, 4], single(0.5)), Some(vec![1, 2, 3, 4]));
    assert_eq!(vad.push(vec![5], single(0.5)), None);
    assert_eq!(vad.push(vec![6], single(0.0)), None);
    assert_eq!(vad.push(vec![7], single(0.0)), Some(vec![5, 6, 7]));
    assert_eq!(vad.push(vec![8, 8, 8], single(0.5)), None);
    assert_eq!(vad.finish(), Some(vec![8, 8, 8]));
}

#[test]
fn punctuation_and_single_letters_are_not_worth_inserting() {
    assert!(is_meaningful_pub("你好"));
    assert!(is_meaningful_pub("a1"));
    assert!(!is_meaningful_pub("啊。"));
    assert!(!is_meaningful_pub("。，、！？…·.,!?"));
    assert!(!is_meaningful_pub(""));
    assert!(!is_meaningful_pub(" - "));
}

#[test]
fn listening_announces_itself() {
    let mut cfg = LiveConfig {
        vad_silence_ms: 800,
        energy_threshold: single(0.01),
        input_device: None,
        output_path: None,
        lm_url: "http://localhost:1234".to_string(),
        lm_model: "m".to_string(),
        no_llm: false,
    };
    assert_eq!(
        listening_banner(&cfg),
        "Listening... (LLM polish via http://localhost:1234, press Ctrl+C to stop)"
    );
    cfg.no_llm = true;
    assert_eq!(listening_banner(&cfg), "Listening... (LLM disabled, press Ctrl+C to stop)");
}

#[test]
fn the_clipboard_is_waited_for() {
    let text = ClipboardRead::Text("你好".to_string());
    let stale = ClipboardRead::Text("old".to_string());
    assert_eq!(wait_clipboard_ready_pub("你好", &text, 0), ClipboardStep::Ready);
    assert_eq!(wait_clipboard_ready_pub("你好", &stale, 0), ClipboardStep::LookAgain);
    assert_eq!(wait_clipboard_ready_pub("你好", &stale, 300_000_000), ClipboardStep::GiveUp);
    assert_eq!(
        wait_clipboard_ready_pub("你好", &ClipboardRead::NoReader, 0),
        ClipboardStep::WaitBlindly
    );
    assert_eq!(
        wait_clipboard_ready_pub("你好", &ClipboardRead::Failed, 299_999_999),
        ClipboardStep::LookAgain
    );
    assert_eq!(set_clipboard_pub(true, ""), Ok(()));
    assert_eq!(
        set_clipboard_pub(false, " no seat \n"),
        Err("wl-copy failed: no seat".to_string())
    );
}

// ── Devices ──────────────────────────────────────────────────────────────────

fn names(list: &[&str]) -> Vec<Option<String>> {
    list.iter().map(|n| Some(n.to_string())).collect()
}

#[test]
fn device_names_are_sorted_without_regard_to_case() {
    let mut listed = names(&["usb Mic", "Built-in", "USB Mic", "built-in", "Built-in", "Ärger"]);
    listed.push(None);
    assert_eq!(
        input_device_names(&listed),
        vec!["Built-in", "built-in", "Built-in", "usb Mic", "USB Mic", "Ärger"]
    );
    assert_eq!(input_device_names(&names(&["b", "a", "b"])), vec!["a", "b"]);
}

#[test]
fn a_saved_device_is_found_or_replaced_by_the_default() {
    let listed = names(&["A", "B", "B"]);
    let s = select_input_device(Some("B"), Some(&listed), Some(Some("A".into()))).ok().unwrap();
    assert_eq!((s.device, s.name.as_str(), s.used_fallback), (Some(1), "B", false));
    let s = select_input_device(Some("C"), Some(&listed), Some(Some("A".into()))).ok().unwrap();
    assert_eq!((s.device, s.name.as_str(), s.used_fallback), (None, "A", true));
    let s = select_input_device(None, Some(&listed), Some(None)).ok().unwrap();
    assert_eq!(
        (s.device, s.name.as_str(), s.used_fallback),
        (None, "<unknown input device>", false)
    );
    let s = select_input_device(Some("  "), None, Some(Some("A".into()))).ok().unwrap();
    assert_eq!((s.device, s.name.as_str(), s.used_fallback), (None, "A", true));
    assert_eq!(
        select_input_device(Some("C"), Some(&listed), None).err(),
        Some("No input device found")
    );
}

#[test]
fn devices_are_described() {
    let format = InputFormat { rate: 48_000, channels: 2, sample_format: "F32".to_string() };
    assert_eq!(
        describe_device(3, &Some("Mic".to_string()), &Some(format)),
        "[3] Mic (48000Hz, 2ch, F32)"
    );
    assert_eq!(describe_device(0, &None, &None), "[0] <unknown>");
}

// ── Files ────────────────────────────────────────────────────────────────────

#[test]
fn planes_are_interleaved_frame_by_frame() {
    let left = [1i32, 2, 3];
    let right = [10i32, 20, 30];
    let planes: Vec<&[i32]> = vec![&left, &right];
    let mut out: Vec<i64> = vec![-1];
    append_planar_interleaved(&planes, 3, &mut out, |s: &i32| *s as i64 * 2);
    assert_eq!(out, vec![-1, 2, 20, 4, 40, 6, 60]);
}

#[test]
fn short_planes_are_skipped() {
    let left = [1u8, 2];
    let right = [9u8];
    let planes: Vec<&[u8]> = vec![&left, &right];
    let mut out: Vec<u8> = Vec::new();
    append_planar_interleaved(&planes, 2, &mut out, |s: &u8| *s);
    assert_eq!(out, vec![1, 9, 2]);
    let none: Vec<&[u8]> = Vec::new();
    append_planar_interleaved(&none, 5, &mut out, |s: &u8| *s);
    assert_eq!(out, vec![1, 9, 2]);
}

#[test]
fn decoding_goes_on_past_damage() {
    assert_eq!(after_read(PacketRead::Packet(1), 1), DecodeStep::Take);
    assert_eq!(after_read(PacketRead::Packet(2), 1), DecodeStep::Skip);
    assert_eq!(after_read(PacketRead::EndOfFile, 1), DecodeStep::Stop);
    assert_eq!(after_read(PacketRead::ResetRequired, 1), DecodeStep::Skip);
    assert_eq!(after_read(PacketRead::Failed, 1), DecodeStep::Fail);
    assert_eq!(after_decode(PacketDecoded::Samples), DecodeStep::Take);
    assert_eq!(after_decode(PacketDecoded::Damaged), DecodeStep::Skip);
    assert_eq!(after_decode(PacketDecoded::Failed), DecodeStep::Fail);
}

#[test]
fn the_first_sounding_track_is_taken() {
    assert_eq!(first_audio_track(&vec![false, true, true]), Some(1));
    assert_eq!(first_audio_track(&vec![false]), None);
    assert_eq!(stream_format(None, None), (44_100, 1));
    assert_eq!(stream_format(Some(8_000), Some(2)), (8_000, 2));
}

#[test]
fn chunks_hold_the_whole_recording() {
    let samples: Vec<f32> = vec![1.0, 2.0, 3.0, 4.0, 5.0];
    assert_eq!(
        padded_chunks(&samples, 2, 0.0),
        vec![vec![1.0, 2.0], vec![3.0, 4.0], vec![5.0, 0.0]]
    );
    assert_eq!(padded_chunks(&Vec::<f32>::new(), 2, 0.0), Vec::<Vec<f32>>::new());
    assert_eq!(padded_chunks(&vec![7u8, 8], 2, 0), vec![vec![7, 8]]);
    assert!(!needs_resampling(16_000));
    assert!(needs_resampling(44_100));
    assert_eq!(whole_frames(7, 2), 3);
}
