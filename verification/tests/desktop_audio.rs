use base64::engine::general_purpose::STANDARD;
use base64::Engine;
use jarvis::desktop::audio::{PlaybackMonitor, PlaybackQueue};
use jarvis::desktop::mic_pipeline::{dispatch, Dispatch, MicPipeline, Stream};
use jarvis::desktop::screen::{capture_size, encode_capture, to_rgb, to_rgba, CaptureError};
use jarvis::desktop::speech_gate::{is_speech, score, windows, Inference, WINDOW};
use jarvis::desktop::streaming_stt::{
    control_line, datagrams, enabled, hex_decode, pinned_digest, read_event, Control,
    EventReader, StreamingConfig, StreamingEvent, Tally,
};
use jarvis::desktop::vad::{Vad, VadConfig, VadState};
use jarvis::hex::DigestError;
use jarvis::precision::{part, share, DOUBLE, SINGLE};

fn rms(frame: &[f32]) -> f32 {
    let sum: f32 = frame.iter().map(|s| s * s).sum();
    (sum / frame.len() as f32).sqrt()
}

#[test]
fn endpoint_after_silence_block() {
    let mut vad: Vad<f32> = Vad::new(VadConfig::default(), 16_000);
    let mut floor = 0.005f32;
    let mut voiced = |frame: &[f32], listening: bool| -> bool {
        let level = rms(frame);
        let v = level > (floor * 2.0).max(0.010);
        if !v && listening {
            floor = floor * 0.95 + level * 0.05;
        }
        v
    };
    for _ in 0..6 {
        let mut frame = vec![0.0; 640];
        for s in frame.iter_mut() {
            *s = 0.3;
        }
        let v = voiced(&frame, vad.state() == VadState::Listening);
        assert!(vad.feed(&frame, v).is_none());
    }
    assert_eq!(vad.state(), VadState::Utterance);
    let silence = vec![0.0; 640];
    let mut emitted = None;
    for _ in 0..10 {
        let v = voiced(&silence, vad.state() == VadState::Listening);
        if let Some(buf) = vad.feed(&silence, v) {
            emitted = Some(buf);
            break;
        }
    }
    assert!(emitted.is_some());
    assert_eq!(vad.state(), VadState::Listening);
}

#[test]
fn an_utterance_holds_its_preroll() {
    let cfg = VadConfig { min_speech_ms: 80, endpoint_silence_ms: 40, frame_ms: 40, pre_roll_ms: 80 };
    let mut vad: Vad<u8> = Vad::new(cfg, 50);
    assert!(vad.feed(&[1, 1], false).is_none());
    assert!(vad.feed(&[2, 2], false).is_none());
    assert!(vad.feed(&[3, 3], true).is_none());
    assert!(vad.feed(&[4, 4], true).is_none());
    assert_eq!(vad.state(), VadState::Utterance);
    assert_eq!(vad.take_streaming_preroll(), Some(vec![3, 3, 4, 4]));
    assert_eq!(vad.take_streaming_preroll(), None);
    assert_eq!(vad.feed(&[5, 5], false), Some(vec![3, 3, 4, 4, 4, 4, 5, 5]));
    vad.set_muted(true);
    assert!(vad.feed(&[6, 6], true).is_none());
    assert!(vad.feed(&[6, 6], true).is_none());
    assert_eq!(vad.state(), VadState::Listening);
}

#[test]
fn frames_of_any_size_are_cut_alike() {
    let samples: Vec<u16> = (0..5_000).collect();
    let cut = |size: usize| -> Vec<Vec<u16>> {
        let mut p: MicPipeline<u16> = MicPipeline::new();
        let mut out = Vec::new();
        for frame in samples.chunks(size) {
            p.note_frame(frame, 16_000, false, false, false);
            p.take_frame(frame, false, false, false);
            while let Some(c) = p.next_chunk() {
                out.push(c);
            }
        }
        out
    };
    let a = cut(160);
    assert_eq!(a, cut(999));
    assert_eq!(a.len(), 7);
    assert!(a.iter().all(|c| c.len() == 640));
    let all: Vec<u16> = a.into_iter().flatten().collect();
    assert_eq!(all, samples[..4480]);
}

#[test]
fn speaking_over_jarvis_takes_three_loud_frames() {
    let mut p: MicPipeline<u8> = MicPipeline::new();
    for _ in 0..2 {
        assert!(p.note_frame(&[1], 25, false, true, true).is_none());
        assert!(!p.take_frame(&[1], false, true, true));
    }
    assert!(p.note_frame(&[1], 25, false, true, false).is_none());
    assert!(!p.take_frame(&[1], false, true, true));
    for _ in 0..2 {
        assert!(p.note_frame(&[2], 25, false, true, true).is_none());
        p.take_frame(&[2], false, true, true);
    }
    let ask = p.note_frame(&[3], 25, false, true, true);
    assert_eq!(ask, Some(vec![1, 1, 1, 2, 2, 3]));
    assert!(p.take_frame(&[3], false, true, true));
    assert!(p.note_frame(&[4], 25, false, true, true).is_none());
    p.take_frame(&[4], false, true, false);
}

#[test]
fn jarvis_does_not_hear_itself() {
    let run = |tts: bool| -> (bool, bool, usize) {
        let mut p: MicPipeline<u8> = MicPipeline::new();
        let mut onset = false;
        let mut preroll = 0;
        let mut utterance = false;
        for i in 0..40u8 {
            p.note_frame(&[i], 25, false, tts, false);
            p.take_frame(&[i], false, tts, false);
            while let Some(c) = p.next_chunk() {
                let r = p.feed_chunk(&c, i < 10, true);
                if r.onset {
                    onset = true;
                    preroll = r.preroll.map(|v| v.len()).unwrap_or(0);
                }
                if r.utterance.is_some() {
                    utterance = true;
                }
            }
        }
        (onset, utterance, preroll)
    };
    assert_eq!(run(true), (false, false, 0));
    let (onset, utterance, preroll) = run(false);
    assert!(onset && utterance);
    assert_eq!(preroll, 4);
}

#[test]
fn utterances_are_dispatched() {
    assert_eq!(dispatch(false, Stream::Alive), Dispatch::Reject { reset_stream: true });
    assert_eq!(dispatch(false, Stream::Dead), Dispatch::Reject { reset_stream: false });
    assert_eq!(dispatch(true, Stream::Alive), Dispatch::EndStream);
    assert_eq!(dispatch(true, Stream::Dead), Dispatch::Transcribe);
    assert_eq!(dispatch(true, Stream::Absent), Dispatch::Transcribe);
}

#[test]
fn playback_fills_and_halts() {
    let mut q: PlaybackQueue<i32> = PlaybackQueue::new(1_000);
    q.enqueue_pcm(1_000, &[1, 2, 3]);
    q.add_gap(2, 0);
    assert_eq!(q.pending_samples(), 5);
    let mut data = vec![9; 8];
    let mono = q.fill_output(&mut data, 2, 0);
    assert_eq!(data, vec![1, 1, 2, 2, 3, 3, 0, 0]);
    assert_eq!(mono, vec![1, 2, 3, 0]);
    q.halt();
    q.enqueue_pcm(1_000, &[7]);
    assert_eq!(q.pending_samples(), 0);
    q.resume();
    q.enqueue_pcm(1_000, &[7]);
    assert_eq!(q.pending_samples(), 1);
    assert!(q.needs_resampling(16_000));
    assert!(!q.needs_resampling(1_000));
    q.mark_tts_active();
    assert!(q.is_tts_active());
    q.mark_tts_idle();
    assert!(!q.is_tts_active());
}

#[test]
fn the_monitor_remembers_the_level() {
    let mut m = PlaybackMonitor::new();
    assert_eq!(f32::from_bits(m.recent_rms()), 0.0);
    m.store_rms(0.25f32.to_bits());
    assert_eq!(f32::from_bits(m.recent_rms()), 0.25);
}

#[test]
fn audio_goes_out_in_datagrams() {
    let samples: Vec<u16> = (0..600).collect();
    let d = datagrams(&samples);
    assert_eq!(d.iter().map(|x| x.len()).collect::<Vec<_>>(), vec![256, 256, 88]);
    assert_eq!(d.concat(), samples);
    let mut t = Tally::new();
    t.sent(1024);
    t.sent(352);
    assert_eq!((t.datagrams, t.bytes), (2, 1376));
    t.control(Control::End);
    assert_eq!(t.datagrams, 2);
    t.control(Control::Reset);
    assert_eq!(t.datagrams, 0);
    assert_eq!(control_line(Control::Start), "{\"type\":\"start\"}\n");
    assert_eq!(control_line(Control::End), "{\"type\":\"end\"}\n");
    assert_eq!(control_line(Control::Reset), "{\"type\":\"reset\"}\n");
}

#[test]
fn the_recogniser_is_pinned_by_its_digest() {
    let cfg = |hash: &str| StreamingConfig { url: "https://x".to_string(), cert_sha256: hash.to_string() };
    assert!(enabled(cfg("")).is_none());
    assert!(enabled(cfg("ab")).is_some());
    assert_eq!(pinned_digest(&cfg(&"0f".repeat(32))), Ok(vec![15; 32]));
    assert_eq!(pinned_digest(&cfg("0f")), Err(DigestError::Length(1)));
    assert!(matches!(pinned_digest(&cfg("0")), Err(DigestError::Hex(_))));
    assert_eq!(hex_decode("+a0B"), Ok(vec![10, 11]));
}

#[test]
fn events_of_the_recogniser_come_in_lines() {
    let mut r = EventReader::new();
    let mut out = r.push(b"{\"type\":\"interim\",\"text\":\"he\"}\r\n\nnot json\n{\"type\":\"fi");
    out.extend(r.push(b"nal\",\"text\":\"hello\"}\n{\"type\":\"other\",\"text\":\"x\"}\n"));
    out.extend(r.push(&[0xff, 0xfe, b'\n']));
    assert_eq!(out.len(), 2);
    assert!(matches!(&out[0], StreamingEvent::Interim(t) if t == "he"));
    assert!(matches!(&out[1], StreamingEvent::Final(t) if t == "hello"));
}

#[test]
fn recogniser_events_are_records() {
    assert!(matches!(read_event("[\"final\",\"a\"]"), Some(StreamingEvent::Final(t)) if t == "a"));
    assert!(matches!(
        read_event("{\"text\":\"a\",\"x\":0,\"type\":\"interim\",\"x\":1}"),
        Some(StreamingEvent::Interim(t)) if t == "a"
    ));
    for line in [
        "{\"type\":\"final\",\"type\":\"final\",\"text\":\"a\"}",
        "{\"type\":\"final\",\"text\":\"a\",\"text\":\"a\"}",
        "{\"type\":\"final\"}",
        "{\"type\":\"final\",\"text\":1}",
        "[\"final\"]",
        "[\"final\",\"a\",1]",
        "{\"type\":\"final\",\"text\":\"a\",\"x\":1e999}",
        "{\"type\":\"final\",\"text\":\"a\",\"x\":\"\\ud800\"}",
    ] {
        assert!(read_event(line).is_none(), "{line}");
    }
    let deep = |n: usize| {
        format!(
            "{{\"type\":\"final\",\"text\":\"a\",\"x\":{}{}}}",
            "[".repeat(n),
            "]".repeat(n)
        )
    };
    assert!(read_event(&deep(126)).is_some());
    assert!(read_event(&deep(127)).is_none());
}

#[test]
fn pixels_change_their_order() {
    assert_eq!(to_rgba(&[1, 2, 3, 4, 5, 6, 7, 8, 9]), vec![3, 2, 1, 255, 7, 6, 5, 255]);
    assert_eq!(to_rgb(&[3, 2, 1, 255, 7, 6, 5, 255]), vec![3, 2, 1, 7, 6, 5]);
}

#[test]
fn captures_are_capped() {
    assert_eq!(capture_size(1568, 900), (1568, 900));
    assert_eq!(capture_size(3136, 1765), (1568, 883));
    assert_eq!(capture_size(1080, 3136), (540, 1568));
    assert_eq!(capture_size(4000, 1), (1568, 0));
    assert_eq!(capture_size(2752, 301), (1568, 171));
    assert_eq!(capture_size(2176, 170), (1568, 122));
}

#[test]
fn captures_are_capped_in_single_precision() {
    let exact = |w: u32, h: u32| {
        let scale = 1568f32 / w.max(h) as f32;
        ((w as f32 * scale).round() as u32, (h as f32 * scale).round() as u32)
    };
    for w in (1569..9000).step_by(37) {
        for h in (1..4000).step_by(29) {
            assert_eq!(capture_size(w, h), exact(w, h), "{w} {h}");
        }
    }
    for w in [16_777_217, 16_777_219, 0x7fff_ffff, 0x7fff_ff81, u32::MAX] {
        for h in [1, 5_350, 16_777_219, 0x7fff_ff80] {
            assert_eq!(capture_size(w, h), exact(w, h), "{w} {h}");
        }
    }
}

#[test]
fn a_wide_capture_is_brought_down() {
    let bgra = vec![128u8; 70_000 * 50 * 4];
    let text = encode_capture(&bgra, 70_000, 50).unwrap();
    let img = image::load_from_memory(&STANDARD.decode(&text).unwrap()).unwrap();
    assert_eq!((img.width(), img.height()), (1568, 1));
}

#[test]
fn parts_and_shares_round_as_floats_do() {
    for (x, n, d) in [
        (48_000u32, 220u32, 1000u32),
        (44_100, 333, 1000),
        (4_294_967_295, 4_294_967_295, 1000),
        (22_050, 7, 1000),
        (16_777_217, 1, 3),
        (0, 5, 7),
        (9, 0, 7),
    ] {
        let single = (x as f32 * (n as f32 / d as f32)).round() as u128;
        assert_eq!(part(x, n, d, SINGLE), single, "{x} {n} {d}");
        let double = (x as f64 * (n as f64 / d as f64)).round() as u128;
        assert_eq!(part(x, n, d, DOUBLE), double, "{x} {n} {d}");
        let single = (x as f32 * n as f32 / d as f32).round() as u128;
        assert_eq!(share(x, n, d, SINGLE), single, "{x} {n} {d}");
        let double = (x as f64 * n as f64 / d as f64).round() as u128;
        assert_eq!(share(x, n, d, DOUBLE), double, "{x} {n} {d}");
    }
    let mut seed = 1u32;
    for _ in 0..20_000 {
        seed = seed.wrapping_mul(1_664_525).wrapping_add(1_013_904_223);
        let x = seed >> (seed % 17);
        seed = seed.wrapping_mul(1_664_525).wrapping_add(1_013_904_223);
        let n = seed >> (seed % 13);
        seed = seed.wrapping_mul(1_664_525).wrapping_add(1_013_904_223);
        let d = (seed >> (seed % 19)).max(1);
        let single = (x as f32 * (n as f32 / d as f32)).round() as u128;
        assert_eq!(part(x, n, d, SINGLE), single, "{x} {n} {d}");
        let single = (x as f32 * n as f32 / d as f32).round() as u128;
        assert_eq!(share(x, n, d, SINGLE), single, "{x} {n} {d}");
        let double = (x as f64 * (n as f64 / d as f64)).round() as u128;
        assert_eq!(part(x, n, d, DOUBLE), double, "{x} {n} {d}");
    }
}

#[test]
fn a_capture_is_jpeg_in_base64() {
    let w = 16;
    let h = 8;
    let mut bgra = Vec::new();
    for _ in 0..w * h {
        bgra.extend([0u8, 0, 255, 7]);
    }
    let text = encode_capture(&bgra, w, h).unwrap();
    let bytes = STANDARD.decode(&text).unwrap();
    assert_eq!(&bytes[..3], &[0xff, 0xd8, 0xff]);
    let img = image::load_from_memory(&bytes).unwrap().to_rgb8();
    assert_eq!(img.dimensions(), (16, 8));
    let p = img.get_pixel(8, 4);
    assert!(p.0[0] > 240 && p.0[1] < 16 && p.0[2] < 16, "{p:?}");
}

#[test]
fn a_large_capture_is_brought_down() {
    let w = 2000;
    let h = 20;
    let bgra = vec![128u8; w as usize * h as usize * 4];
    let text = encode_capture(&bgra, w, h).unwrap();
    let bytes = STANDARD.decode(&text).unwrap();
    let img = image::load_from_memory(&bytes).unwrap();
    assert_eq!((img.width(), img.height()), (1568, 16));
}

#[test]
fn a_capture_that_vanishes_is_refused() {
    let bgra = vec![0u8; 4000 * 4];
    assert_eq!(encode_capture(&bgra, 4000, 1), Err(CaptureError::Encode));
}

#[test]
fn empty_buffer_scores_zero() {
    let bits = score(0, &Inference::Unavailable);
    assert_eq!(f32::from_bits(bits), 0.0);
}

#[test]
fn the_speech_gate_fails_open() {
    let one = |said: &Inference| f32::from_bits(score(8_000, said)) == 1.0;
    assert!(one(&Inference::Unavailable));
    assert!(one(&Inference::Short(None)));
    assert!(one(&Inference::Whole(vec![None, None])));
    assert!(one(&Inference::Whole(vec![])));
    let silent = Inference::Whole(vec![None, Some(0.0f32.to_bits())]);
    assert_eq!(f32::from_bits(score(8_000, &silent)), 0.0);
    assert!(!is_speech(score(8_000, &silent)));
    assert!(!one(&Inference::Short(Some(0.0f32.to_bits()))));
    assert!(is_speech(1.0f32.to_bits()));
}

#[test]
fn the_highest_probability_counts() {
    let probs: Vec<Option<u32>> = [0.1f32, 0.7, f32::NAN, -3.0, 0.4]
        .iter()
        .map(|p| Some(p.to_bits()))
        .collect();
    let bits = score(3_000, &Inference::Whole(probs));
    assert_eq!(f32::from_bits(bits), 0.7);
    assert!(is_speech(bits));
    assert!(is_speech(0.5f32.to_bits()));
    assert!(!is_speech(0.499f32.to_bits()));
    assert!(!is_speech(f32::NAN.to_bits()));
    assert!(!is_speech((-1.0f32).to_bits()));
}

#[test]
fn recordings_are_cut_into_windows() {
    assert_eq!(WINDOW, 512);
    let short = windows(&[1u16, 2], 0);
    assert_eq!(short.len(), 1);
    assert_eq!(short[0].len(), 512);
    assert_eq!(&short[0][..3], &[1, 2, 0]);
    let samples: Vec<u16> = (0..1_100).collect();
    let whole = windows(&samples, 9);
    assert_eq!(whole.concat(), samples[..1_024]);
    assert!(whole.iter().all(|w| w.len() == 512));
    assert_eq!(windows(&[0u16; 512], 1), vec![vec![0; 512]]);
}
