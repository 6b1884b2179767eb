use jarvis::dashboard::audio_queue::{AudioQueue, Chunk, Enqueue};
use jarvis::dashboard::mic::{ContinuousMic, MicState, Onset, VadConfig};
use jarvis::dashboard::speech::{SpeechQueue, WorkerStep};
use jarvis::dashboard::sse::{ev_kind, parse_event, ChatEvent};
use jarvis::dashboard::streaming::{
    finalize_line, hex_decode, pinned_digest, reset_line, EventLines, SttEvent,
};
use jarvis::dashboard::voice::{find_sentence_boundary, strip_markdown_for_tts, SentenceSplitter};

#[test]
fn strips_bold_italic_code() {
    assert_eq!(strip_markdown_for_tts("**hello**"), "hello");
    assert_eq!(strip_markdown_for_tts("*hello*"), "hello");
    assert_eq!(strip_markdown_for_tts("__hello__"), "hello");
    assert_eq!(strip_markdown_for_tts("`hello`"), "hello");
    assert_eq!(strip_markdown_for_tts("~~hello~~"), "hello");
}

#[test]
fn strips_headings_and_lists() {
    assert_eq!(strip_markdown_for_tts("# Heading"), "Heading");
    assert_eq!(strip_markdown_for_tts("## Heading"), "Heading");
    assert_eq!(strip_markdown_for_tts("- item one"), "item one");
    assert_eq!(strip_markdown_for_tts("1. first thing"), "first thing");
    assert_eq!(
        strip_markdown_for_tts("1. **What's the priority?**"),
        "What's the priority?"
    );
}

#[test]
fn a_heading_is_hashes_and_a_space() {
    assert_eq!(strip_markdown_for_tts("###  Third"), "Third");
    assert_eq!(strip_markdown_for_tts("#### Fourth"), "#### Fourth");
    assert_eq!(strip_markdown_for_tts("#tag"), "#tag");
    assert_eq!(strip_markdown_for_tts("a\n  ## b"), "a b");
    assert_eq!(strip_markdown_for_tts("#"), "#");
}

#[test]
fn strips_links_keep_label() {
    assert_eq!(
        strip_markdown_for_tts("see [the docs](https://example.com)"),
        "see the docs"
    );
}

#[test]
fn collapses_whitespace_and_newlines() {
    let input = "**Wednesday, May 27, 2026 — 21:43 UTC**\n\nClean slate.";
    assert_eq!(
        strip_markdown_for_tts(input),
        "Wednesday, May 27, 2026 — 21:43 UTC Clean slate."
    );
}

#[test]
fn other_brackets_are_spoken() {
    assert_eq!(strip_markdown_for_tts("[not a link] here"), "[not a link] here");
    assert_eq!(strip_markdown_for_tts("in 2026. Then"), "in 2026. Then");
    assert_eq!(strip_markdown_for_tts(" \n\t"), "");
}

#[test]
fn sentences_are_split_as_they_come() {
    let mut s = SentenceSplitter::new();
    assert!(s.push("Version 1.5 of Dr. ").is_empty());
    assert_eq!(s.push("Who is out! And"), vec!["Version 1.5 of Dr. Who is out!"]);
    assert_eq!(s.push(" more? Tail"), vec!["And more?"]);
    assert_eq!(s.finish().as_deref(), Some("Tail"));
    assert_eq!(s.finish(), None);
    assert!(s.push("It is 3.").is_empty());
    assert!(s.push("14 now.").is_empty());
    assert_eq!(s.push(" Or"), vec!["It is 3.14 now."]);
    let text = "Dr. No is 3.5 m tall. Is he?  Yes! And. so on";
    let mut whole = SentenceSplitter::new();
    let all = whole.push(text);
    assert_eq!(all, vec!["Dr. No is 3.5 m tall.", "Is he?", "Yes!", "And."]);
    for cut in 0..text.len() {
        let mut s = SentenceSplitter::new();
        let mut out = s.push(&text[..cut]);
        out.extend(s.push(&text[cut..]));
        assert_eq!(out, all);
        assert_eq!(s.finish().as_deref(), Some("so on"));
    }
    let chars: Vec<char> = "a. b".chars().collect();
    assert_eq!(find_sentence_boundary(&chars), Some(1));
    let chars: Vec<char> = "e.g. b".chars().collect();
    assert_eq!(find_sentence_boundary(&chars), None);
}

#[test]
fn speech_is_said_in_order_by_one_worker() {
    let mut q = SpeechQueue::new();
    assert!(q.say("one"));
    assert!(!q.say("two"));
    assert!(!q.say_all(&vec!["three".to_string()]));
    assert!(matches!(q.next(), WorkerStep::Say(s) if s == "one"));
    assert_eq!(q.gap_ms(), 220);
    assert!(matches!(q.next(), WorkerStep::Say(s) if s == "two"));
    assert!(matches!(q.next(), WorkerStep::Say(s) if s == "three"));
    assert_eq!(q.gap_ms(), 0);
    assert!(matches!(q.next(), WorkerStep::Done));
    assert!(!q.running);
    assert!(q.say("four"));
    q.say("five");
    q.clear();
    assert!(q.running);
    assert!(matches!(q.next(), WorkerStep::Done));
    q.say("six");
    q.say("seven");
    q.abandon();
    assert!(!q.running);
    assert!(q.say("eight"));
}

fn play(q: &mut AudioQueue<u32, i16>, id: u32, now: u64, duration: u64) -> Option<u64> {
    let chunk = Chunk { samples: vec![1i16, 2], sample_rate: 24_000 };
    match q.enqueue_pcm(chunk, now) {
        Enqueue::Held => None,
        Enqueue::Play { chunk, start } => {
            assert_eq!(chunk.samples, vec![1, 2]);
            q.scheduled(id, start, duration);
            Some(start)
        }
    }
}

#[test]
fn chunks_play_one_after_the_other() {
    let mut q: AudioQueue<u32, i16> = AudioQueue::new(100);
    assert_eq!(play(&mut q, 1, 100, 50), Some(100));
    assert_eq!(play(&mut q, 2, 110, 50), Some(150));
    assert_eq!(q.queued(120), 80);
    q.add_gap(20, 120);
    assert_eq!(play(&mut q, 3, 130, 10), Some(220));
    assert_eq!(play(&mut q, 4, 500, 10), Some(500));
    q.add_gap(20, 600);
    assert_eq!(q.queued(600), 0);
}

#[test]
fn a_graceful_halt_lets_the_current_chunk_finish() {
    let mut q: AudioQueue<u32, i16> = AudioQueue::new(0);
    play(&mut q, 1, 0, 100);
    play(&mut q, 2, 0, 100);
    play(&mut q, 3, 0, 100);
    let cancel = q.halt_after_current(150);
    assert_eq!(cancel.iter().map(|s| s.source).collect::<Vec<_>>(), vec![3]);
    assert!(q.is_halted());
    assert_eq!(q.queued(150), 50);
    assert_eq!(play(&mut q, 4, 160, 10), None);
    assert_eq!(play(&mut q, 5, 160, 10), None);
    let held = q.resume(170);
    assert_eq!(held.len(), 2);
    assert!(!q.is_halted());
    assert_eq!(play(&mut q, 4, 170, 10), Some(200));
    let stop = q.halt_immediately(205);
    assert_eq!(stop.iter().map(|s| s.source).collect::<Vec<_>>(), vec![1, 2, 4]);
    assert_eq!(q.queued(205), 0);
}

#[test]
fn an_empty_chunk_is_nothing() {
    let mut q: AudioQueue<u32, i16> = AudioQueue::new(0);
    q.halt_immediately(0);
    assert!(matches!(
        q.enqueue_pcm(Chunk { samples: vec![], sample_rate: 1 }, 0),
        Enqueue::Held
    ));
    assert!(q.resume(0).is_empty());
}

#[test]
fn utterances_start_and_end() {
    let mut m: ContinuousMic<u8> =
        ContinuousMic::start(VadConfig { min_speech_ms: 160, endpoint_silence_ms: 160, frame_ms: 80 });
    assert!(m.tick(&[1], true).onset.is_none());
    assert!(m.tick(&[2], false).onset.is_none());
    assert_eq!(m.tick(&[3], true).onset, Some(Onset::Spoke));
    assert_eq!(m.state(), MicState::Listening);
    assert!(m.tick(&[4], false).utterance.is_none());
    assert_eq!(m.tick(&[5], false).utterance, Some(vec![3, 4, 5]));
    assert_eq!(m.state(), MicState::Processing);
    assert!(m.tick(&[6], true).onset.is_none());
    assert!(m.judge(true));
    assert_eq!(m.state(), MicState::Processing);
    m.return_to_idle();
    assert_eq!(m.state(), MicState::Idle);
    assert!(!m.judge(false));
    assert_eq!(m.state(), MicState::Idle);
    assert!(m.is_listening());
}

#[test]
fn the_defaults_wait_five_seconds() {
    let c = VadConfig::default();
    assert_eq!((c.min_speech_ms, c.endpoint_silence_ms, c.frame_ms), (160, 5000, 80));
}

#[test]
fn a_long_pause_resets_the_run_of_voice() {
    let mut m: ContinuousMic<u8> = ContinuousMic::start(VadConfig::default());
    m.tick(&[1], true);
    for _ in 0..4 {
        m.tick(&[0], false);
    }
    assert!(m.tick(&[1], true).onset.is_none());
    assert!(m.tick(&[1], true).onset.is_some());
}

#[test]
fn the_user_can_speak_over_jarvis() {
    let mut m: ContinuousMic<u8> = ContinuousMic::start(VadConfig::default());
    m.set_speaking(true);
    m.tick(&[1], true);
    assert_eq!(m.tick(&[1], true).onset, Some(Onset::BargeIn));
    m.set_muted(true);
    assert!(!m.in_utterance());
    assert!(m.tick(&[1], true).onset.is_none());
    m.set_muted(false);
    assert_eq!(m.state(), MicState::Idle);
    m.set_speaking(false);
    assert_eq!(m.state(), MicState::Idle);
    m.close();
    assert_eq!(m.state(), MicState::Muted);
}

#[test]
fn chat_events_are_parsed() {
    assert!(matches!(
        parse_event("stream_chunk", "{\"content\":\"hé\"}"),
        Some(ChatEvent::StreamChunk { content }) if content == "hé"
    ));
    assert!(matches!(
        parse_event("thinking", "{\"message\":\"hm\"}"),
        Some(ChatEvent::Status(m)) if m == "hm"
    ));
    assert!(matches!(
        parse_event("tool_completed", "{\"name\":\"x\",\"success\":false}"),
        Some(ChatEvent::ToolCompleted { name, success: false }) if name == "x"
    ));
    assert!(parse_event("tool_completed", "{\"name\":\"x\",\"success\":1}").is_none());
    assert!(parse_event("response", "{\"content\":3}").is_none());
    assert!(parse_event("response", "{").is_none());
    assert!(parse_event("heartbeat", "{}").is_none());
    let e = parse_event(
        "approval_needed",
        "{\"request_id\":\"r\",\"tool_name\":\"t\",\"description\":\"d\",\"parameters\":\"{}\"}",
    )
    .unwrap();
    assert_eq!(ev_kind(&e), "ApprovalNeeded");
}

#[test]
fn events_are_records() {
    let content = |data: &str| match parse_event("response", data) {
        Some(ChatEvent::Response { content }) => Some(content),
        _ => None,
    };
    assert_eq!(content(" { \"content\" : \"a\" } ").as_deref(), Some("a"));
    assert_eq!(content("{\"c\\u006fntent\":\"\\n\"}").as_deref(), Some("\n"));
    assert_eq!(content("{\"content\":\"a\",\"content\":\"b\"}"), None);
    assert_eq!(content("{\"x\":1,\"x\":[{}],\"content\":\"b\"}").as_deref(), Some("b"));
    assert_eq!(content("[\"a\"]").as_deref(), Some("a"));
    assert_eq!(content(" [ \"a\" ]\n").as_deref(), Some("a"));
    for data in [
        "[]",
        "[\"a\",\"b\"]",
        "[\"a\",]",
        "[,\"a\"]",
        "\"a\"",
        "",
        "{}",
        "{\"content\":\"a\",}",
        "{,\"content\":\"a\"}",
        "{\"content\" \"a\"}",
        "{\"content\":\"a\" \"x\":1}",
        "{\"content\":\"a\"} x",
        "{\"content\":\"a\"",
        "{\"content\":\"\\ud800\"}",
        "{\"x\":tru,\"content\":\"a\"}",
    ] {
        assert_eq!(content(data), None, "{data}");
    }
    let deep = format!("{{\"x\":{}{},\"content\":\"a\"}}", "[".repeat(400), "]".repeat(400));
    assert_eq!(content(&deep).as_deref(), Some("a"));
    assert_eq!(content("{\"x\":1e999,\"content\":\"a\"}").as_deref(), Some("a"));
    assert!(matches!(
        parse_event("tool_completed", "[\"x\", true]"),
        Some(ChatEvent::ToolCompleted { success: true, .. })
    ));
    assert!(parse_event("tool_completed", "[true, \"x\"]").is_none());
}

#[test]
fn recogniser_lines_are_read() {
    let mut l = EventLines::new();
    assert!(l.push(b"{\"type\":\"interim\",\"te").is_empty());
    let out = l.push(b"xt\":\"he\"}\n\n{\"type\":\"final\"}\r\nnot json\n");
    assert_eq!(out.len(), 2);
    assert!(matches!(&out[0], SttEvent::Interim(t) if t == "he"));
    assert!(matches!(&out[1], SttEvent::Final(t) if t.is_empty()));
    assert!(l.push(&[0xc3]).is_empty());
    assert!(matches!(
        &l.push(b"{\"type\":\"final\",\"text\":\"ok\"}\n")[0],
        SttEvent::Final(t) if t == "ok"
    ));
    assert_eq!(finalize_line(), "{\"type\":\"end\"}\n");
    assert_eq!(reset_line(), "{\"type\":\"reset\"}\n");
}

#[test]
fn certificate_hashes_are_checked() {
    assert_eq!(hex_decode("0aFf"), Some(vec![10, 255]));
    assert_eq!(hex_decode("0a f"), None);
    assert_eq!(hex_decode("abc"), None);
    assert_eq!(pinned_digest(&"01".repeat(32)), Ok(vec![1; 32]));
    assert_eq!(
        pinned_digest("0101"),
        Err("cert hash must be 32 bytes (SHA-256), got 2".to_string())
    );
    assert_eq!(pinned_digest("xy"), Err("bad cert hash hex: xy".to_string()));
}
