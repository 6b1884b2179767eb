use jarvis::dashboard::api::{
    bearer, events_url, outgoing_images, status_error, status_error_with_body, url,
};
use jarvis::dashboard::arc::ArcState;
use jarvis::dashboard::hud::{
    extract_key_param, next_probe, parse_stop_intent, pinned_to_bottom, streams_audio, Action,
    Boot, Hud, Probe, Role,
};
use jarvis::dashboard::mic::MicState;
use jarvis::dashboard::pip::{check_video, finish_pin, prepare_pin, AutoPip, PinStep, PipAction};
use jarvis::dashboard::screen::{data_of_url, scale_to_max_edge, MAX_IMAGE_LONG_EDGE};
use jarvis::dashboard::speech::WorkerStep;
use jarvis::dashboard::sse::ChatEvent;
use jarvis::dashboard::streaming::SttEvent;
use jarvis::dashboard::wizard::{
    advances, channels_body, choose_model, export_line, heartbeat_body, interval, onboard_state,
    reply_error, submit_anthropic, Form, OnboardState, SecurityResponse, StatusResponse, Step,
};

fn up() -> Hud {
    let mut h = Hud::new();
    h.booted(Boot::Up);
    h.voice_status(true, true);
    assert!(matches!(h.start_mic()[..], [Action::PrepareAudio, Action::OpenMic]));
    assert!(matches!(h.mic_opened(Ok(()))[..], [Action::InstallAutoPip]));
    h
}

fn said(h: &mut Hud, s: &str) -> Vec<Action> {
    h.handle_stt_event(SttEvent::Final(s.to_string()))
}

fn chunk(h: &mut Hud, s: &str) -> Vec<Action> {
    h.handle_chat_event(ChatEvent::StreamChunk { content: s.to_string() })
}

fn ask(h: &mut Hud) -> Vec<Action> {
    h.handle_chat_event(ChatEvent::ApprovalNeeded {
        request_id: "r7".to_string(),
        tool_name: "shell".to_string(),
        description: "d".to_string(),
        parameters: "{}".to_string(),
    })
}

#[test]
fn booting_is_reported() {
    let mut h = Hud::new();
    assert_eq!(h.status_line, "booting");
    h.booted(Boot::NoToken("404".to_string()));
    assert_eq!(h.status_line, "token fetch failed: 404");
    assert_eq!(h.arc_state, ArcState::Error);
    assert!(!h.token_ready);
    let mut h = Hud::new();
    h.booted(Boot::NoEvents("x".to_string()));
    assert!(h.token_ready);
    assert_eq!(h.arc_state, ArcState::Error);
    let mut h = Hud::new();
    h.start_mic();
    assert_eq!(h.status_line, "opening mic...");
    assert!(h.mic_opened(Err("denied".to_string())).is_empty());
    assert_eq!(h.status_line, "mic failed: denied");
}

#[test]
fn transcripts_are_sent_with_the_screenshot() {
    let mut h = up();
    h.pending_screenshot = Some("png".to_string());
    h.handle_stt_event(SttEvent::Interim("hello".to_string()));
    assert!(h.interim_stt.is_none());
    h.on_utterance(true);
    assert_eq!(h.status_line, "finalizing transcript...");
    h.handle_stt_event(SttEvent::Interim("hello".to_string()));
    assert_eq!(h.interim_stt.as_deref(), Some("hello"));
    match &said(&mut h, " hello ")[..] {
        [Action::SendChat { content, screenshot }] => {
            assert_eq!(content, "hello");
            assert_eq!(screenshot.as_deref(), Some("png"));
        }
        other => panic!("{other:?}"),
    }
    assert!(h.pending_screenshot.is_none());
    assert!(h.interim_stt.is_none());
    assert_eq!(h.messages[0].role, Role::User);
    assert_eq!(h.messages[0].content, "hello");
    assert_eq!(h.status_line, "waiting on JARVIS...");
    assert!(said(&mut h, "  ").is_empty());
    assert_eq!(h.arc_state, ArcState::Idle);
}

#[test]
fn stop_words_stand_alone() {
    assert!(parse_stop_intent("Stop!"));
    assert!(parse_stop_intent(" shut up. "));
    assert!(parse_stop_intent("SILENCE"));
    assert!(!parse_stop_intent("stop, I have another idea"));
    assert!(!parse_stop_intent(""));
}

#[test]
fn a_spoken_stop_silences_jarvis() {
    let mut h = up();
    chunk(&mut h, "One. Two. Three. ");
    assert_eq!(h.speech.waiting.len(), 3);
    let out = said(&mut h, "stop");
    assert!(matches!(out[..], [Action::HaltAudio, Action::ResumeAudio, Action::MicToIdle]));
    assert!(h.speech.waiting.is_empty());
    assert!(h.messages.is_empty());
    assert_eq!(h.status_line, "stopped");
}

#[test]
fn approvals_are_answered_by_voice() {
    let mut h = up();
    let out = ask(&mut h);
    assert!(matches!(out[..], [Action::StartSpeech]));
    assert_eq!(h.status_line, "approval needed: shell (say yes or no)");
    assert!(matches!(
        h.speech.next(),
        WorkerStep::Say(s) if s == "Permission needed for shell. Say yes or no."
    ));
    assert!(said(&mut h, "what's the weather").is_empty());
    assert_eq!(h.status_line, "waiting for approval (say yes or no)");
    assert!(h.pending_approval.is_some());
    match &said(&mut h, "no, stop")[..] {
        [Action::PostApproval { request_id, action }] => {
            assert_eq!(request_id, "r7");
            assert_eq!(*action, "deny");
        }
        other => panic!("{other:?}"),
    }
    assert!(h.pending_approval.is_none());
    assert_eq!(h.messages[0].content, "[approval: deny]");
    ask(&mut h);
    let waiting = h.speech.waiting.len();
    match &said(&mut h, "Halt!")[..] {
        [Action::PostApproval { request_id, action }] => {
            assert_eq!(request_id, "r7");
            assert_eq!(*action, "deny");
        }
        other => panic!("{other:?}"),
    }
    assert_eq!(h.speech.waiting.len(), waiting);
    assert_eq!(h.status_line, "approval: deny");
    ask(&mut h);
    match &h.answer_click("always")[..] {
        [Action::PostApproval { action, .. }] => assert_eq!(*action, "always"),
        other => panic!("{other:?}"),
    }
    assert!(h.answer_click("deny").is_empty());
}

#[test]
fn answers_are_shown_and_spoken_as_they_come() {
    let mut h = up();
    let out = chunk(&mut h, "Hello the");
    assert!(matches!(out[..], [Action::MicSpeaking]));
    let out = chunk(&mut h, "re. And mo");
    assert!(matches!(out[..], [Action::StartSpeech]));
    assert_eq!(h.streaming_buffer.as_deref(), Some("Hello there. And mo"));
    let out = h.handle_chat_event(ChatEvent::Response { content: "Hello there. And mo".to_string() });
    assert!(out.is_empty());
    assert_eq!(h.speech.waiting, vec!["Hello there.", "And mo"]);
    assert!(h.streaming_buffer.is_none());
    assert_eq!(h.messages.len(), 1);
    assert_eq!(h.messages[0].role, Role::Assistant);
    assert_eq!(h.status_line, "ready");
}

#[test]
fn without_a_voice_answers_are_only_shown() {
    let mut h = up();
    h.toggle_tts();
    chunk(&mut h, "One. Two.");
    assert!(h.speech.waiting.is_empty());
    let out = h.handle_chat_event(ChatEvent::Response { content: "One. Two.".to_string() });
    assert!(matches!(out[..], [Action::MicToIdle]));
    assert_eq!(h.arc_state, ArcState::Idle);
}

#[test]
fn recordings_are_transcribed_without_a_stream() {
    let mut h = up();
    assert!(matches!(h.on_utterance(false)[..], [Action::HaltAudio, Action::Transcribe]));
    assert!(matches!(h.transcribed("  ")[..], [Action::MicToIdle]));
    assert_eq!(h.status_line, "(no speech recognized)");
    assert!(matches!(
        &h.transcribed(" hi ")[..],
        [Action::MicToIdle, Action::SendChat { content, screenshot: None }] if content == "hi"
    ));
    h.recording_sent();
    assert_eq!(h.status_line, "waiting on JARVIS...");
    h.transcription_failed("500");
    assert_eq!(h.status_line, "STT failed: 500");
    h.send_failed("502");
    assert_eq!(h.status_line, "send failed: 502");
    h.on_barge_in();
    assert_eq!(h.arc_state, ArcState::Listening);
    assert!(matches!(h.on_silero_reject()[..], [Action::ResumeAudio]));
    assert_eq!(h.arc_state, ArcState::Speaking);
}

#[test]
fn tools_and_status_are_shown() {
    let mut h = up();
    h.handle_chat_event(ChatEvent::ToolStarted { name: "ls".to_string() });
    assert_eq!(h.status_line, "tool: ls");
    h.handle_chat_event(ChatEvent::ToolCompleted { name: "ls".to_string(), success: true });
    assert_eq!(h.status_line, "tool ls ✓");
    h.handle_chat_event(ChatEvent::ToolCompleted { name: "ls".to_string(), success: false });
    assert_eq!(h.status_line, "tool ls ✗");
    h.handle_chat_event(ChatEvent::Status("busy".to_string()));
    assert_eq!(h.status_line, "busy");
}

#[test]
fn the_controls_of_the_display() {
    let mut h = up();
    assert!(matches!(h.reactor_click()[..], [Action::MuteMic(true)]));
    assert_eq!(h.status_line, "muted");
    assert_eq!(h.telemetry(), (true, false, true, true));
    assert_eq!(h.empty_state().unwrap().0, "// SYSTEMS NOMINAL — MIC MUTED.");
    assert!(matches!(h.toggle_mute()[..], [Action::MuteMic(false)]));
    assert_eq!(h.telemetry(), (true, true, true, true));
    assert!(matches!(h.pin_click(), Action::Pin));
    h.pinned(true);
    assert!(matches!(h.pin_click(), Action::Unpin));
    assert!(!h.pip_pinned);
    assert!(matches!(h.share_click(false), Action::StartShare));
    h.share_started(Err("denied".to_string()));
    assert_eq!(h.status_line, "screen share: denied");
    h.share_started(Ok(()));
    assert!(matches!(h.share_click(false), Action::StopShare));
    assert_eq!(h.status_line, "screen share stopped");
    assert!(h.send_typed("  ").is_empty());
    assert!(matches!(&h.send_typed("x ")[..], [Action::SendChat { content, .. }] if content == "x "));
    assert!(h.empty_state().is_none());
    assert_eq!(Hud::new().empty_state().unwrap().0, "// READY ON COMMAND.");
}

#[test]
fn probes_scroll_and_streams() {
    assert!(streams_audio(MicState::Listening));
    assert!(!streams_audio(MicState::Idle));
    assert!(pinned_to_bottom(420, 1000, 500));
    assert!(!pinned_to_bottom(419, 1000, 500));
    assert_eq!(next_probe(1, Probe::ConfigFailed), Some(1500));
    assert_eq!(next_probe(9, Probe::NotReady), Some(2000));
    assert_eq!(next_probe(9, Probe::ConnectFailed), Some(2000));
    assert_eq!(next_probe(10, Probe::NotReady), None);
    assert_eq!(next_probe(1, Probe::Connected), None);
}

#[test]
fn the_key_parameter_is_found() {
    let find = |s: &str| extract_key_param("tool", s).map(|(l, v)| (l.to_string(), v));
    let pair = |l: &str, v: &str| Some((l.to_string(), v.to_string()));
    assert_eq!(find("{\"from\":\"a\",\"to\":\"b\",\"path\":\"p\"}"), pair("MOVE", "a → b"));
    assert_eq!(find("{\"path\":\"\",\"url\":\"u\"}"), pair("URL", "u"));
    assert_eq!(find("{\"path\":\"p\",\"url\":\"u\"}"), pair("PATH", "p"));
    assert_eq!(find("{\"command\":\"ls\"}"), pair("CMD", "ls"));
    assert_eq!(find("{\"query\":\"q\"}"), pair("QUERY", "q"));
    assert_eq!(find("{\"from\":\"a\"}"), None);
    assert_eq!(find("nonsense"), None);
}

#[test]
fn reactor_colours() {
    assert_eq!(ArcState::Error.ring_stroke(), "#f59e0b");
    assert_eq!(ArcState::Idle.ring_stroke(), "#0e7490");
    assert_eq!(ArcState::Thinking.outer_class(), "animate-arc-spin-fast");
    assert_eq!(ArcState::Error.inner_pulse_class(), "");
    assert_eq!(ArcState::Speaking.middle_class(), "animate-arc-spin-rev");
    assert_eq!(ArcState::Error.core_fill(), "rgba(245, 158, 11, 0.18)");
    assert_eq!(ArcState::Idle.outer_halo(), "rgba(34, 211, 238, 0.35)");
    assert_eq!(ArcState::Idle.inner_halo(), "rgba(34, 211, 238, 0.25)");
    assert_eq!(ArcState::Listening.icon(), "■");
    assert_eq!(ArcState::Idle.label(), "STANDBY");
    assert_eq!(ArcState::Speaking.transcript_label(), "speaking");
    assert_ne!(ArcState::Listening.button_class(), ArcState::Idle.button_class());
}

#[test]
fn requests_to_the_gateway() {
    assert_eq!(url("/x"), "http://127.0.0.1:3030/x");
    assert_eq!(events_url("t"), "http://127.0.0.1:3030/api/chat/events?token=t");
    assert_eq!(bearer("t"), "Bearer t");
    assert_eq!(status_error("chat", 204), Ok(()));
    assert_eq!(status_error("chat", 503), Err("chat 503".to_string()));
    assert_eq!(
        status_error_with_body("chat", 400, "bad"),
        Err("chat 400: bad".to_string())
    );
    assert_eq!(outgoing_images(None, None), None);
    let a = Some("a".to_string());
    let b = Some("b".to_string());
    assert_eq!(outgoing_images(a.clone(), b), Some(vec!["a".to_string(), "b".to_string()]));
    assert_eq!(outgoing_images(None, a), Some(vec!["a".to_string()]));
}

#[test]
fn the_window_floats_while_the_tab_is_hidden() {
    let mut p = AutoPip::new();
    assert!(p.install());
    assert!(!p.install());
    assert_eq!(p.visibility_changed(true, false), Some(PipAction::Pin));
    assert_eq!(p.pin_done(true), Some(true));
    assert_eq!(p.visibility_changed(false, true), Some(PipAction::Unpin));
    assert!(!p.unpin_done());
    assert_eq!(p.visibility_changed(true, true), None);
    assert_eq!(p.visibility_changed(false, true), None);
    assert_eq!(p.pin_done(false), None);
    assert_eq!(p.visibility_changed(false, false), None);
}

#[test]
fn a_window_needs_a_video_with_a_size() {
    assert_eq!(check_video(640, 360, 4), Ok(()));
    assert_eq!(
        check_video(0, 360, 2),
        Err("video metadata still empty after wait (readyState=2); skipping PiP".to_string())
    );
    assert!(prepare_pin(true, false, false).is_empty());
    assert_eq!(
        prepare_pin(false, false, true),
        vec![PinStep::CreateCanvas, PinStep::StartAnimation, PinStep::AttachStream]
    );
    assert_eq!(finish_pin(0)[0], PinStep::WaitForMetadata);
    assert_eq!(finish_pin(1)[0], PinStep::Play);
    assert_eq!(*finish_pin(1).last().unwrap(), PinStep::RequestWindow);
}

#[test]
fn screenshots_are_scaled_down() {
    assert_eq!(scale_to_max_edge(1568, 900, MAX_IMAGE_LONG_EDGE), (1568, 900));
    assert_eq!(scale_to_max_edge(3136, 1765, MAX_IMAGE_LONG_EDGE), (1568, 883));
    assert_eq!(scale_to_max_edge(1080, 2160, 1568), (784, 1568));
    assert_eq!(scale_to_max_edge(10_000, 1, 1568), (1568, 1));
    assert_eq!(scale_to_max_edge(10_000, -7, 1568), (1568, 1));
    let exact = |w: i32, h: i32, max: i32| {
        let scale = max as f64 / w.max(h) as f64;
        let edge = |e: i32| (e as f64 * scale).round().max(1.0) as i32;
        (edge(w), edge(h))
    };
    for h in (1..6000).step_by(7) {
        for (w, max) in [(6001, 1568), (7213, 999), (i32::MAX, 1568), (i32::MAX, i32::MAX - 1)] {
            assert_eq!(scale_to_max_edge(w, h, max), exact(w, h, max), "{w} {h} {max}");
        }
    }
    assert_eq!(data_of_url("data:image/jpeg;base64,AB,C").as_deref(), Some("AB,C"));
    assert_eq!(data_of_url("nothing"), None);
}

#[test]
fn the_setup_goes_step_by_step() {
    let mut s = Step::Security;
    let mut seen = vec![s.progress()];
    while s != Step::Done {
        s = s.next();
        seen.push(s.progress());
    }
    assert_eq!(seen.len(), 6);
    assert_eq!(seen[2], "step 3/5 — Model");
    assert_eq!(seen[5], "complete");
    assert_eq!(Step::Channels.percent(), 80);
    assert_eq!(Step::Done.percent(), 100);
    assert_eq!(Step::Done.next(), Step::Done);
    assert_eq!(Step::Heartbeat.label(), "Heartbeat");
    assert_eq!(Step::Heartbeat.index(), 5);
}

#[test]
fn forms_are_checked_before_they_are_sent() {
    let mut f = Form::new();
    assert!(submit_anthropic(&mut f, "nope".to_string(), String::new()).is_none());
    assert_eq!(f.error.as_deref(), Some("Anthropic API keys start with sk-ant-"));
    let b = submit_anthropic(&mut f, " sk-ant-SECRET-REDACTED".to_string(), " ".to_string()).unwrap();
    assert!(b.base_url.is_none());
    assert!(f.busy && f.error.is_none());
    assert!(!f.submit());
    assert!(!f.answered(Err("x".to_string())));
    assert_eq!(f.error.as_deref(), Some("x"));
    assert!(f.submit());
    assert!(f.answered(Ok(())));
    assert_eq!(choose_model("a".to_string(), " ".to_string()), "a");
    assert_eq!(choose_model("a".to_string(), "b".to_string()), "b");
    let c = channels_body("https://t".to_string(), true, true);
    assert_eq!(c.tunnel_url.as_deref(), Some("https://t"));
    assert_eq!(c.http_port, Some(8080));
    assert_eq!(c.wasm_channels, vec!["telegram"]);
    assert_eq!(channels_body(String::new(), false, false).http_port, None);
    assert_eq!(interval(30, "0"), 1);
    assert_eq!(interval(30, "+45"), 45);
    assert_eq!(interval(30, "007"), 7);
    for entry in ["", "+", "-1", "12a", " 5", "18446744073709551616"] {
        assert_eq!(interval(30, entry), 30);
    }
    assert_eq!(interval(30, "18446744073709551615"), u64::MAX);
    let h = heartbeat_body(true, 15, String::new());
    assert_eq!(h.interval_minutes, Some(15));
    assert!(h.notify_channel.is_none());
}

#[test]
fn the_setup_answers_are_read() {
    let r = SecurityResponse { status: "ok".to_string(), source: "env".to_string(), generated_key: None };
    assert!(advances(&r));
    let r = SecurityResponse { generated_key: Some("k".to_string()), ..r };
    assert!(!advances(&r));
    assert_eq!(export_line("k"), "export SECRETS_MASTER_KEY=k");
    assert_eq!(reply_error("/p", 200, ""), Ok(()));
    assert_eq!(reply_error("/p", 422, "b"), Err("/p returned 422: b".to_string()));
    let status = |done: bool| StatusResponse {
        onboard_completed: done,
        has_anthropic_key: false,
        has_openai_key: false,
        has_secrets_master_key: false,
    };
    assert_eq!(onboard_state(Some(status(false))), OnboardState::NeedsWizard);
    assert_eq!(onboard_state(Some(status(true))), OnboardState::Ready);
    assert_eq!(onboard_state(None), OnboardState::Ready);
}
