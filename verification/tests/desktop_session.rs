use jarvis::desktop::agent_names::identify;
use jarvis::desktop::conversations::{
    copied_status, export_file_name, refresh_conversation_model, select_conversation, short_date,
};
use jarvis::desktop::gateway::{
    after_reply, approval_action, chat_request, endpoint, events_url, history_url, parse_sse,
    token_retry_delay_ms, AfterReply, Breaker, ChatEvent, ThreadInfo, ThreadListResponse, TurnInfo,
};
use jarvis::desktop::hotkeys::{parse_key_env, Code};
use jarvis::desktop::session::{is_likely_parakeet_hallucination, Effect, Session};
use jarvis::desktop::settings::{
    is_ironclad_root, merge_settings, opens_wizard, seeded_settings, WriteSettings,
};
use jarvis::desktop::speech::{waits_for_drain, waits_for_release, SpeechChannel, WorkerStep};
use jarvis::desktop::splitter::Sentence;
use jarvis::desktop::startup::{
    command_text, member_is_true, probe_wav, Command, Phase, Startup, Telemetry,
};
use jarvis::desktop::streaming_stt::StreamingEvent;
use jarvis::desktop::sub_agents::{AgentState, SubAgents};
use jarvis::desktop::transcript::{short_clock, truncate_for_toast, RowKind, Transcript};

fn awake() -> Session {
    let mut s = Session::new();
    s.voice_is_up();
    s
}

fn pending(s: &mut Session) {
    let ev = parse_sse(
        "approval_needed",
        "{\"type\":\"approval_needed\",\"request_id\":\"r1\",\"tool_name\":\"shell\",\
         \"description\":\"runs\",\"parameters\":{\"command\":\"ls\"}}",
    )
    .unwrap();
    assert!(s.handle_chat_event(ev, true, "10:00").is_empty());
}

fn sends(out: &[Effect]) -> Vec<String> {
    out.iter()
        .filter_map(|e| match e {
            Effect::SendChat { text, .. } => Some(text.clone()),
            _ => None,
        })
        .collect()
}

#[test]
fn a_transcript_becomes_a_turn() {
    let mut s = awake();
    s.adopt_thread("t1");
    s.toggle_screen_share();
    let out = s.handle_stt_final("  what time is it?  ", "09:05");
    assert_eq!(out.len(), 1);
    match &out[0] {
        Effect::SendChat { text, thread, with_screen } => {
            assert_eq!(text, "what time is it?");
            assert_eq!(thread.as_deref(), Some("t1"));
            assert!(*with_screen);
        }
        other => panic!("{other:?}"),
    }
    assert_eq!(s.status, "thinking...");
    assert_eq!(s.transcript.rows.len(), 1);
    assert_eq!(s.transcript.rows[0].kind, RowKind::User);
    assert_eq!(s.transcript.rows[0].body, "what time is it?");
    assert_eq!(s.transcript.rows[0].timestamp, "09:05");
}

#[test]
fn noise_is_dropped_unless_an_approval_is_pending() {
    assert!(is_likely_parakeet_hallucination("Yeah."));
    assert!(is_likely_parakeet_hallucination("thank you!"));
    assert!(!is_likely_parakeet_hallucination("thank you very much"));
    let mut s = awake();
    assert!(s.handle_stt_final("Yeah.", "x").is_empty());
    assert!(s.transcript.rows.is_empty());
    pending(&mut s);
    let out = s.handle_stt_final("Yeah.", "x");
    match &out[0] {
        Effect::SendApproval { request_id, approved, always } => {
            assert_eq!(request_id, "r1");
            assert!(*approved);
            assert!(!*always);
        }
        other => panic!("{other:?}"),
    }
    assert_eq!(s.status, "approval: approve");
    assert!(s.pending_approval.is_none());
    assert_eq!(s.banner.request_id, "");
}

#[test]
fn a_pending_approval_holds_the_floor() {
    let mut s = awake();
    pending(&mut s);
    assert!(s.expanded);
    assert_eq!(s.banner.tool_name, "shell");
    assert_eq!(s.banner.description, "runs");
    assert!(s.handle_stt_final("what's the weather", "x").is_empty());
    assert!(s.pending_approval.is_some());
    let out = s.handle_stt_final("stop", "x");
    match &out[0] {
        Effect::SendApproval { approved, .. } => assert!(!*approved),
        other => panic!("{other:?}"),
    }
    assert!(!s.stop_requested);
    for phrase in ["halt", "Enough!"] {
        pending(&mut s);
        match &s.handle_stt_final(phrase, "x")[..] {
            [Effect::SendApproval { approved, .. }] => assert!(!*approved),
            other => panic!("{other:?}"),
        }
        assert_eq!(s.status, "approval: deny");
        assert!(!s.stop_requested);
    }
    pending(&mut s);
    let out = s.answer_approval("r1", true, true);
    match &out[0] {
        Effect::SendApproval { request_id, approved, always } => {
            assert_eq!(request_id, "r1");
            assert!(*approved && *always);
        }
        other => panic!("{other:?}"),
    }
    assert!(s.pending_approval.is_none());
}

#[test]
fn a_spoken_stop_lasts_until_the_next_turn() {
    let mut s = awake();
    let out = s.handle_stt_final("stop", "x");
    assert!(matches!(out[0], Effect::HaltAudio));
    assert!(s.stop_requested);
    assert_eq!(s.status, "stopped");
    s.handle_chat_event(
        ChatEvent::StreamChunk { content: "More. Words.".to_string() },
        true,
        "x",
    );
    assert!(s.stop_requested);
    assert_eq!(s.speech.waiting.len(), 2);
    assert!(matches!(s.speech.next(true), WorkerStep::Dropped(2)));
    s.send_text("hello", "x");
    assert!(!s.stop_requested);
}

#[test]
fn muted_by_voice_the_microphone_stays_on() {
    let mut s = awake();
    let out = s.handle_stt_final("go to sleep", "x");
    assert!(matches!(out[0], Effect::HaltAudio));
    assert!(s.wake_word_only);
    assert!(!s.mic_muted);
    assert!(!s.mic_active);
    assert!(s.handle_stt_final("tell me a story", "x").is_empty());
    let out = s.handle_stt_final("Jarvis, what's open?", "x");
    assert!(matches!(out[0], Effect::ResumeAudio));
    assert_eq!(sends(&out), vec!["what's open?"]);
    assert!(!s.wake_word_only);
    assert!(s.mic_active);
    assert_eq!(s.status, "thinking...");
    let mut t = awake();
    t.handle_stt_final("mute", "x");
    let out = t.handle_stt_final("hey jarvis", "x");
    assert_eq!(out.len(), 1);
    assert_eq!(t.status, "listening");
}

#[test]
fn interim_transcripts_are_shown() {
    let mut s = awake();
    s.handle_stt_event(StreamingEvent::Interim("what ti".to_string()), "x");
    assert_eq!(s.status, "transcribing: what ti");
    let out = s.handle_stt_event(StreamingEvent::Final("what time".to_string()), "x");
    assert_eq!(sends(&out), vec!["what time"]);
    assert!(s.transcribed("   ", "x").is_empty());
    assert_eq!(s.status, "listening");
    s.transcription_failed("500");
    assert_eq!(s.status, "STT error: 500");
}

#[test]
fn streaming_leaves_no_trace() {
    let answer = "# Title\n\nAll **done** here.";
    let mut streamed = awake();
    for piece in ["# Ti", "tle\n\nAll **do", "ne** here."] {
        streamed.handle_chat_event(
            ChatEvent::StreamChunk { content: piece.to_string() },
            true,
            "12:00",
        );
        assert_eq!(streamed.transcript.rows.len(), 1);
    }
    assert_eq!(streamed.transcript.rows[0].body, answer);
    streamed.handle_chat_event(
        ChatEvent::Response { content: answer.to_string() },
        true,
        "12:01",
    );
    let mut whole = awake();
    whole.handle_chat_event(
        ChatEvent::Response { content: answer.to_string() },
        true,
        "12:01",
    );
    assert_eq!(streamed.transcript.rows.len(), whole.transcript.rows.len());
    for (a, b) in streamed.transcript.rows.iter().zip(whole.transcript.rows.iter()) {
        assert_eq!(a.body, b.body);
        assert_eq!(a.timestamp, b.timestamp);
        assert_eq!(a.header_rank, b.header_rank);
    }
    assert_eq!(whole.transcript.rows[0].body, "Title");
    assert_eq!(whole.transcript.rows[0].timestamp, "");
    let rows = &whole.transcript.rows;
    assert_eq!(rows.len(), 4);
    assert_eq!((rows[1].body.as_str(), rows[1].is_bold, rows[1].continues_prev), ("All ", false, false));
    assert_eq!((rows[2].body.as_str(), rows[2].is_bold, rows[2].continues_prev), ("done", true, true));
    assert_eq!((rows[3].body.as_str(), rows[3].is_bold, rows[3].continues_prev), (" here.", false, true));
    assert_eq!(rows[2].timestamp, "");
    assert_eq!(rows[3].timestamp, "12:01");
    assert!(streamed.streaming_buffer.is_empty());
    assert_eq!(streamed.speech.waiting.len(), 1);
    assert_eq!(whole.speech.waiting.len(), 1);
}

#[test]
fn an_answer_that_is_not_seen_is_announced() {
    let mut s = awake();
    let long = "x".repeat(130);
    let out = s.handle_chat_event(ChatEvent::Response { content: long }, false, "x");
    match &out[0] {
        Effect::Notify { title, body } => {
            assert_eq!(*title, "JARVIS");
            assert_eq!(*body, format!("{}…", "x".repeat(120)));
        }
        other => panic!("{other:?}"),
    }
    assert_eq!(s.status, "ready");
}

#[test]
fn tools_have_one_row_each() {
    let mut s = awake();
    s.handle_chat_event(ChatEvent::ToolStarted { name: "memory_search".to_string() }, true, "8");
    assert_eq!(s.status, "tool: memory_search");
    assert_eq!(s.transcript.rows[0].body, "→ memory_search");
    s.handle_chat_event(
        ChatEvent::ToolCompleted { name: "memory_search".to_string(), success: true },
        true,
        "9",
    );
    assert_eq!(s.status, "tool memory_search ok");
    assert_eq!(s.transcript.rows[0].body, "✓ memory_search");
    assert_eq!(s.transcript.rows[0].timestamp, "8");
    s.handle_chat_event(
        ChatEvent::ToolResult {
            name: "memory_search".to_string(),
            preview: "10\n  results".to_string(),
        },
        true,
        "9",
    );
    assert_eq!(s.transcript.rows[0].body, "✓ memory_search · 10 results");
    s.handle_chat_event(
        ChatEvent::ToolCompleted { name: "other".to_string(), success: false },
        true,
        "9",
    );
    assert_eq!(s.status, "tool other FAILED");
    assert_eq!(s.transcript.rows.len(), 1);
    s.handle_chat_event(ChatEvent::Error { message: "no".to_string() }, true, "9");
    assert_eq!(s.status, "error: no");
}

#[test]
fn previews_are_cut_short() {
    let mut t = Transcript::new();
    t.push_tool_row("→ x", "1");
    t.update_last_tool_preview("x", &"y".repeat(101));
    assert_eq!(t.rows[0].body, format!("→ x · {}…", "y".repeat(99)));
    t.update_last_tool_preview("x", " ");
    assert_eq!(t.rows[0].body, format!("→ x · {}…", "y".repeat(99)));
    t.push_tool_row("→ z", "2");
    t.update_last_tool_preview("z", &"y".repeat(100));
    assert_eq!(t.rows[1].body, format!("→ z · {}", "y".repeat(100)));
    t.update_last_tool_completion("z", true);
    t.update_last_tool_completion("x", false);
    assert_eq!(t.rows[0].body, "✗ x");
}

#[test]
fn the_transcript_exports_as_markdown() {
    let mut t = Transcript::new();
    t.push_user_block("hi", "01:02");
    t.append_jarvis_blocks("hello", "01:03");
    t.push_tool_row("→ ls", "01:04");
    assert_eq!(
        t.transcript_to_markdown(Some("abc")),
        "# JARVIS conversation\n\n_Thread: `abc`_\n\n\n## User · 01:02\n\nhi\n\n## JARVIS · 01:03\n\nhello\n\n### tool · 01:04\n\n```\n→ ls\n```\n"
    );
    t.clear_transcript_rows();
    assert_eq!(t.transcript_to_markdown(None), "# JARVIS conversation\n");
}

#[test]
fn history_is_loaded_in_order() {
    let turn = |n: usize, user: &str, answer: Option<&str>| TurnInfo {
        turn_number: n,
        user_input: user.to_string(),
        response: answer.map(|a| a.to_string()),
        state: "done".to_string(),
    };
    let turns = vec![
        turn(1, "one", Some("first")),
        turn(2, "", Some("")),
        turn(3, "three", None),
    ];
    let mut t = Transcript::new();
    t.load_history(&turns, "00:00");
    let bodies: Vec<&str> = t.rows.iter().map(|r| r.body.as_str()).collect();
    assert_eq!(bodies, vec!["one", "first", "three"]);
}

#[test]
fn the_clock_shows_hours_and_minutes() {
    assert_eq!(short_clock(0), "00:00");
    assert_eq!(short_clock(86_399), "23:59");
    assert_eq!(short_clock(86_400 * 3 + 3_600 * 9 + 60 * 7 + 59), "09:07");
    assert_eq!(truncate_for_toast("abc", 2), "ab…");
}

#[test]
fn cards_tell_the_calls() {
    let mut a = SubAgents::new();
    a.push_sub_agent_row("1", "memory_search");
    a.push_sub_agent_row("2", "shell");
    a.push_sub_agent_row("3", "memory_search");
    assert_eq!(a.rows.len(), 2);
    assert_eq!(a.rows[0].label, identify("memory_search").name);
    assert_eq!(a.rows[1].label, identify("shell").name);
    assert_eq!((a.rows[0].turn_count, a.rows[1].turn_count), (2, 1));
    assert_eq!((a.rows[0].id.as_str(), a.rows[1].id.as_str()), ("3", "2"));
    assert!(a.rows.iter().all(|r| r.state == AgentState::Running && !r.done));
}

#[test]
fn cards_accumulate_calls() {
    let mut a = SubAgents::new();
    a.push_sub_agent_row("1", "memory_search");
    a.push_sub_agent_row("1", "memory_search");
    assert_eq!(a.rows.len(), 1);
    assert_eq!(a.rows[0].turn_count, 1);
    a.update_sub_agent_status("1", "diving");
    assert_eq!(a.rows[0].status, "diving");
    a.mark_sub_agent_done("1", false, "");
    assert_eq!(a.rows[0].status, "failed");
    assert_eq!(a.rows[0].state, AgentState::Failed);
    a.update_sub_agent_status("1", "late");
    assert_eq!(a.rows[0].status, "failed");
    a.push_sub_agent_row("2", "memory_search");
    assert_eq!(a.rows.len(), 1);
    assert_eq!(a.rows[0].turn_count, 2);
    assert_eq!(a.rows[0].id, "2");
    assert_eq!(a.rows[0].state, AgentState::Running);
    assert!(!a.rows[0].done);
    a.push_sub_agent_row("3", "vault_move");
    assert_eq!(a.rows.len(), 2);
    a.mark_sub_agent_done("3", true, "moved");
    assert_eq!(a.rows[1].status, "moved");
    a.prune_sub_agent_row("2");
    assert_eq!(a.rows.len(), 1);
    assert_eq!(a.rows[0].id, "3");
}

#[test]
fn identities_follow_the_namespace() {
    let memory = identify("memory_unknown_thing");
    assert_eq!(memory.name, identify("memory_another").name);
    let a = identify("memory_search");
    assert_eq!(a.name, "Memory Diver");
    assert_ne!(identify("github_create_issue").category, identify("vault_move").category);
}

#[test]
fn conversations_are_listed_and_selected() {
    let thread = |id: &str, n: usize| ThreadInfo {
        id: id.to_string(),
        state: "idle".to_string(),
        turn_count: n,
        created_at: "2026-05-27T21:43:00Z".to_string(),
        updated_at: "2026-05-27T21:43:00Z".to_string(),
    };
    let list = ThreadListResponse {
        threads: vec![thread("0123456789", 1), thread("b", 2)],
        active_thread: Some("b".to_string()),
    };
    let mut rows = refresh_conversation_model(&list);
    assert_eq!(rows[0].title, "Thread 01234567");
    assert_eq!(rows[0].subtitle, "1 turn • 21:43");
    assert_eq!(rows[1].subtitle, "2 turns • 21:43");
    assert!(!rows[0].is_active);
    assert!(rows[1].is_active);
    select_conversation(&mut rows, "0123456789");
    assert!(rows[0].is_active);
    assert!(!rows[1].is_active);
    assert_eq!(short_date("2026-05-27 later"), "2026-05-27");
    assert_eq!(export_file_name(12), "jarvis-conversation-12.md");
    assert_eq!(copied_status(&"z".repeat(50)), format!("copied: {}", "z".repeat(40)));
}

#[test]
fn buttons_toggle() {
    let mut s = Session::new();
    assert!(s.mic_muted);
    s.toggle_mic();
    assert!(!s.mic_muted && s.mic_active);
    assert_eq!(s.status, "listening");
    s.toggle_mic();
    assert_eq!(s.status, "muted");
    assert_eq!(s.toggle_expand(), (960, 780));
    assert_eq!(s.toggle_expand(), (196, 232));
    assert!(matches!(s.bring_to_focus()[..], [Effect::RaiseWindow]));
    assert!(s.expanded);
    s.toggle_screen_share();
    assert!(s.screen_share_on);
    s.toggle_screen_share();
    assert_eq!(s.status, "screen sharing off");
    s.send_text("x", "1");
    s.open_thread("t9");
    assert!(s.transcript.rows.is_empty());
    assert_eq!(s.current_thread_id.as_deref(), Some("t9"));
}

#[test]
fn typed_turns_carry_no_picture() {
    let mut s = awake();
    s.toggle_screen_share();
    let out = s.send_text("hello", "1");
    match &out[0] {
        Effect::SendChat { text, thread, with_screen } => {
            assert_eq!(text, "hello");
            assert!(thread.is_none());
            assert!(!*with_screen);
        }
        other => panic!("{other:?}"),
    }
}

#[test]
fn events_of_the_chat_stream_are_read() {
    assert!(matches!(
        parse_sse("response", "{\"type\":\"response\",\"content\":\"hi\"}"),
        Some(ChatEvent::Response { content }) if content == "hi"
    ));
    assert!(matches!(
        parse_sse("tool_completed", "{\"name\":\"x\",\"success\":true}"),
        Some(ChatEvent::ToolCompleted { name, success: true }) if name == "x"
    ));
    match parse_sse(
        "approval_needed",
        "{\"request_id\":\"r\",\"tool_name\":\"t\",\"description\":\"d\",\"parameters\":{\"a\":1}}",
    ) {
        Some(ChatEvent::ApprovalNeeded { parameters, .. }) => {
            assert_eq!(parameters, "{\"a\":1}")
        }
        other => panic!("{other:?}"),
    }
    assert!(parse_sse("response", "not json").is_none());
    assert!(parse_sse("unknown", "{}").is_none());
}

#[test]
fn breakers_trip_at_three_and_back_off() {
    let mut b = Breaker::default();
    assert_eq!(after_reply(&mut b, None, false, 100), AfterReply::NetworkError);
    assert_eq!(after_reply(&mut b, Some(500), false, 200), AfterReply::Deliver);
    assert!(!b.is_open(200));
    assert_eq!(after_reply(&mut b, None, true, 300), AfterReply::RetryNetworkError);
    assert!(b.is_open(300));
    assert!(b.is_open(2_299));
    assert!(!b.is_open(2_300));
    b.record_failure(10_000);
    assert!(b.is_open(13_999));
    assert!(!b.is_open(14_000));
    for _ in 0..5 {
        b.record_failure(20_000);
    }
    assert!(b.is_open(49_999));
    assert!(!b.is_open(50_000));
    assert_eq!(after_reply(&mut b, Some(200), false, 60_000), AfterReply::Deliver);
    assert!(!b.is_open(60_000));
}

#[test]
fn a_refused_token_is_refreshed_once() {
    let mut b = Breaker::default();
    assert_eq!(after_reply(&mut b, Some(401), false, 0), AfterReply::RefreshAndRetry);
    assert_eq!(after_reply(&mut b, Some(401), true, 0), AfterReply::Deliver);
    assert_eq!(after_reply(&mut b, Some(404), false, 0), AfterReply::Deliver);
    assert_eq!(token_retry_delay_ms(0), Some(500));
    assert_eq!(token_retry_delay_ms(9), Some(5000));
    assert_eq!(token_retry_delay_ms(29), Some(5000));
    assert_eq!(token_retry_delay_ms(30), None);
}

#[test]
fn addresses_and_bodies() {
    let base = "http://127.0.0.1:3030";
    assert_eq!(endpoint(base, "/api/x"), "http://127.0.0.1:3030/api/x");
    assert_eq!(
        history_url(base, Some("t")),
        "http://127.0.0.1:3030/api/chat/history?thread_id=t"
    );
    assert_eq!(history_url(base, None), "http://127.0.0.1:3030/api/chat/history");
    assert_eq!(
        events_url(base, "k"),
        "http://127.0.0.1:3030/api/chat/events?token=k"
    );
    assert_eq!(approval_action(true, true), "always");
    assert_eq!(approval_action(true, false), "approve");
    assert_eq!(approval_action(false, true), "deny");
    let r = chat_request("hi", vec![], Some("t"));
    assert_eq!(r.content, "hi");
    assert!(r.images.is_none());
    assert_eq!(r.thread_id, Some("t"));
    let r = chat_request("hi", vec!["img".to_string()], None);
    assert_eq!(r.images.unwrap().len(), 1);
}

#[test]
fn settings_merge_into_the_file() {
    let s = WriteSettings {
        anthropic_key: "k".to_string(),
        model: "m".to_string(),
        elevenlabs_key: "e".to_string(),
        elevenlabs_voice_id: "v".to_string(),
        heartbeat: true,
        autonomous: false,
    };
    let out = merge_settings("# head\nOTHER=1\nANTHROPIC_MODEL=old\n", &s);
    assert_eq!(
        out,
        "# head\nOTHER=1\nANTHROPIC_MODEL=m\n\n# Added by jarvis-desktop SettingsPanel\nANTHROPIC_API_KEY=k\nAUTONOMOUS_LOOP_ENABLED=false\nELEVENLABS_API_KEY=e\nELEVENLABS_VOICE_ID=v\nHEARTBEAT_ENABLED=true\n"
    );
    assert_eq!(merge_settings(&out, &s), out);
    let once = merge_settings("a\r\r\n", &s);
    assert_ne!(merge_settings(&once, &s), once);
    let set: Vec<&str> = out.lines().filter(|l| l.starts_with("ANTHROPIC_MODEL")).collect();
    assert_eq!(set, vec!["ANTHROPIC_MODEL=m"]);
    assert!(is_ironclad_root(true, true, false));
    assert!(is_ironclad_root(true, false, true));
    assert!(!is_ironclad_root(false, true, true));
    assert!(!is_ironclad_root(true, false, false));
}

#[test]
fn the_panel_starts_from_the_environment() {
    let s = seeded_settings(None, None, None, None, None, None, "small");
    assert_eq!(s.model, "small");
    assert_eq!((s.anthropic_key.as_str(), s.elevenlabs_key.as_str()), ("", ""));
    assert_eq!(s.elevenlabs_voice_id, "");
    assert!(s.heartbeat && !s.autonomous);
    let s = seeded_settings(
        Some("k"),
        Some(""),
        Some("e"),
        Some("v"),
        Some("false"),
        Some("true"),
        "small",
    );
    assert_eq!((s.anthropic_key.as_str(), s.model.as_str()), ("k", ""));
    assert_eq!((s.elevenlabs_key.as_str(), s.elevenlabs_voice_id.as_str()), ("e", "v"));
    assert!(!s.heartbeat && s.autonomous);
    let s = seeded_settings(None, None, None, None, Some("no"), Some("TRUE"), "small");
    assert!(s.heartbeat && !s.autonomous);
    assert!(opens_wizard(" \t"));
    assert!(!opens_wizard("k"));
}

#[test]
fn hotkeys_are_named() {
    assert_eq!(parse_key_env(Some("j"), Code::KeyA), Code::KeyJ);
    assert_eq!(parse_key_env(Some(" F9 "), Code::KeyA), Code::F9);
    assert_eq!(parse_key_env(Some("KeyQ"), Code::KeyA), Code::KeyQ);
    assert_eq!(parse_key_env(Some("nonsense"), Code::Semicolon), Code::Semicolon);
    assert_eq!(parse_key_env(None, Code::KeyK), Code::KeyK);
}

#[test]
fn speech_is_taken_one_sentence_at_a_time() {
    let sentence = |t: &str, p: bool| Sentence { text: t.to_string(), ends_paragraph: p };
    let mut c = SpeechChannel::new();
    c.spawn_all(vec![
        sentence("**One.**", false),
        sentence("``` ", false),
        sentence("Two.", true),
    ]);
    assert_eq!(c.waiting.len(), 2);
    match c.next(false) {
        WorkerStep::Speak { speakable, gap_ms } => {
            assert_eq!(speakable, "One.\n");
            assert_eq!(gap_ms, 450);
        }
        other => panic!("{other:?}"),
    }
    assert!(!c.burst_is_over());
    assert!(matches!(c.next(false), WorkerStep::Speak { gap_ms: 750, .. }));
    assert!(c.burst_is_over());
    assert!(matches!(c.next(true), WorkerStep::Wait));
    assert!(waits_for_drain(24_001, 8_000));
    assert!(!waits_for_drain(24_001, 8_001));
    assert!(!waits_for_drain(24_000, 0));
    assert!(waits_for_release(2_401));
    assert!(!waits_for_release(2_400));
}

#[test]
fn the_voice_comes_up_in_steps() {
    let mut s = Startup::new();
    let p = s.gateway_replied(false);
    assert_eq!(
        p.note.as_deref(),
        Some("step 1/2 · gateway warming up (1s) · TYPE TO CHAT ↓")
    );
    assert_eq!(p.wait_ms, 1000);
    assert!(s.gateway_replied(false).note.is_none());
    assert!(s.gateway_replied(false).note.is_some());
    assert!(s.phase() == Phase::Gateway);
    assert_eq!(s.gateway_replied(true).wait_ms, 0);
    assert!(s.phase() == Phase::Model);
    assert_eq!(
        s.model_replied(false).note.as_deref(),
        Some("step 2/2 · parakeet AI model loading (2s, usually ~25s first launch) · TYPE TO CHAT ↓")
    );
    s.model_replied(true);
    assert!(s.phase() == Phase::Connect);
    s.connected();
    assert!(s.phase() == Phase::Up);
    let w = probe_wav();
    assert_eq!(w.len(), 44 + 16_000);
}

#[test]
fn lamps_follow_the_answer() {
    let mut t = Telemetry::new();
    t.polled(true, Some("{\"stt_ready\":true,\"tts_ready\":false}"), 5);
    assert!(t.gateway_up && t.parakeet_up && !t.elevenlabs_up && t.claude_up);
    assert_eq!(t.last_success_ms, 5);
    t.polled(false, Some("{\"stt_ready\":true}"), 9);
    assert!(!t.gateway_up && !t.parakeet_up && !t.claude_up);
    assert_eq!(t.last_success_ms, 5);
    assert!(!t.is_stale(15_005));
    assert!(t.is_stale(15_006));
    assert!(!t.is_stale(0));
    assert!(!member_is_true("[1]", "stt_ready"));
    assert_eq!(command_text(Command::Undo), "/undo");
    assert_eq!(command_text(Command::New), "/new");
}
