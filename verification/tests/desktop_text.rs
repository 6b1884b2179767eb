use jarvis::desktop::crash_isolation::{
    crash_file_name, crash_json, escape_json, location_text, CrashReport,
};
use jarvis::desktop::markdown::{
    parse, parse_runs, split_inline_runs, strip_inline_emphasis, Block,
};
use jarvis::desktop::splitter::{
    find_sentence_boundary, strip_markdown, Sentence, SentenceSplitter,
};
use jarvis::desktop::voice_intent::{
    classify, lowered, parse_approval_intent, parse_mute_intent, parse_stop_intent,
    parse_wake_intent, phrase_of, VoiceIntent,
};

fn s(text: &str) -> Sentence {
    Sentence {
        text: text.to_string(),
        ends_paragraph: false,
    }
}

fn p(text: &str) -> Sentence {
    Sentence {
        text: text.to_string(),
        ends_paragraph: true,
    }
}

fn chars(s: &str) -> Vec<char> {
    s.chars().collect()
}

#[test]
fn escape_handles_control_chars() {
    assert_eq!(escape_json("hi\nthere"), "hi\\nthere");
    assert_eq!(escape_json("a\"b"), "a\\\"b");
    assert_eq!(escape_json("c\\d"), "c\\\\d");
}

#[test]
fn escape_covers_every_control_character() {
    assert_eq!(escape_json("\r\t"), "\\r\\t");
    assert_eq!(escape_json("\u{1}\u{1f}"), "\\u0001\\u001f");
    assert_eq!(escape_json("é—"), "é—");
    for n in 0u32..0x20 {
        let c = char::from_u32(n).unwrap();
        let e = escape_json(&c.to_string());
        assert!(e.chars().all(|c| c as u32 >= 0x20), "{n}");
        let quoted = format!("\"{e}\"");
        let back: String = serde_json::from_str(&quoted).unwrap();
        assert_eq!(back, c.to_string());
    }
}

#[test]
fn crash_report_is_json_that_reads_back() {
    let r = CrashReport {
        ts: 1_700_000_000,
        thread: "main".to_string(),
        location: location_text(Some(("src/a.rs", 12, 5))),
        message: "bad \"thing\"\nhappened".to_string(),
        backtrace: "0: x\\y".to_string(),
    };
    let v: serde_json::Value = serde_json::from_str(&crash_json(&r)).unwrap();
    assert_eq!(v.get("thread").and_then(|x| x.as_str()), Some("main"));
    assert_eq!(
        v.get("location").and_then(|x| x.as_str()),
        Some("src/a.rs:12:5")
    );
    assert_eq!(
        v.get("message").and_then(|x| x.as_str()),
        Some("bad \"thing\"\nhappened")
    );
    assert_eq!(v.get("backtrace").and_then(|x| x.as_str()), Some("0: x\\y"));
    assert_eq!(crash_file_name(42), "42.json");
}

#[test]
fn header_h1() {
    let blocks = parse("# Title\n\nbody text");
    assert_eq!(blocks[0].header_rank, 1);
    assert_eq!(blocks[0].body, "Title");
    assert_eq!(blocks[1].body, "body text");
}

#[test]
fn bullets_unordered() {
    let blocks = parse("- one\n- two\n- three");
    assert_eq!(blocks.len(), 3);
    assert!(blocks.iter().all(|b| b.is_bullet));
}

#[test]
fn fenced_code_block() {
    let blocks = parse("```\nfn main() {}\n```");
    assert!(blocks[0].is_code);
    assert_eq!(blocks[0].body, "fn main() {}");
}

#[test]
fn inline_emphasis_stripped() {
    let blocks = parse("hello **world** and `code` too");
    assert_eq!(blocks[0].body, "hello world and code too");
}

#[test]
fn link_text_only() {
    let blocks = parse("see [the docs](https://example.com) please");
    assert_eq!(blocks[0].body, "see the docs please");
}

#[test]
fn runs_keep_their_style_and_coalesce_to_one_block() {
    let text = "hello **world** and `code` too";
    let runs = parse_runs(text);
    assert!(runs.len() > 1);
    assert!(!runs[0].continues_prev);
    assert!(runs.iter().skip(1).all(|b| b.continues_prev));
    assert!(runs.iter().any(|b| b.is_bold && b.body == "world"));
    assert!(runs.iter().any(|b| b.is_code && b.body == "code"));
    let joined: String = runs.iter().map(|b| b.body.as_str()).collect();
    let blocks = parse(text);
    assert_eq!(blocks.len(), 1);
    assert_eq!(blocks[0].body, joined);
    assert!(!blocks[0].continues_prev);
}

#[test]
fn headers_go_down_to_the_third_rank() {
    let blocks = parse("## Two\n### Three\n- point");
    assert_eq!(blocks[0].header_rank, 2);
    assert_eq!(blocks[1].header_rank, 3);
    assert_eq!(blocks[1].body, "Three");
    assert!(blocks[2].is_bullet);
    assert_eq!(blocks[2].body, "point");
}

#[test]
fn an_empty_text_is_one_empty_block() {
    assert_eq!(parse(""), vec![Block::default()]);
}

#[test]
fn unmarked_text_is_one_run_and_markers_go() {
    let plain = chars("no markers here");
    assert_eq!(split_inline_runs(&plain).len(), 1);
    let out: String = strip_inline_emphasis(&chars("**a** `b`")).into_iter().collect();
    assert_eq!(out, "a b");
}

#[test]
fn splitter_emits_on_period_space() {
    let mut sp = SentenceSplitter::new();
    let r = sp.push("Hello world. ");
    assert_eq!(r, vec![s("Hello world.")]);
}

#[test]
fn splitter_decimals_dont_trigger() {
    let mut sp = SentenceSplitter::new();
    let r = sp.push("Pi is 3.14 ");
    assert!(r.is_empty(), "expected no split, got {:?}", r);
    let r = sp.push("approximately. Next sentence.");
    assert_eq!(
        r,
        vec![s("Pi is 3.14 approximately."), s("Next sentence.")]
    );
}

#[test]
fn splitter_finish_returns_tail() {
    let mut sp = SentenceSplitter::new();
    sp.push("Incomplete sentence");
    assert_eq!(sp.finish(), Some(p("Incomplete sentence")));
    assert_eq!(sp.finish(), None);
}

#[test]
fn splitter_reset_clears_buffer() {
    let mut sp = SentenceSplitter::new();
    sp.push("In-progress");
    sp.reset();
    assert_eq!(sp.finish(), None);
}

#[test]
fn splitter_marks_paragraph_break() {
    let mut sp = SentenceSplitter::new();
    let r = sp.push("First sentence.\n\nSecond sentence.");
    assert_eq!(r, vec![p("First sentence."), s("Second sentence.")]);
}

#[test]
fn splitter_single_newline_is_not_paragraph_break() {
    let mut sp = SentenceSplitter::new();
    let r = sp.push("Line one.\nLine two.");
    assert_eq!(r, vec![s("Line one."), s("Line two.")]);
}

#[test]
fn splitter_pauses_longer_after_a_list_item() {
    let mut sp = SentenceSplitter::new();
    let r = sp.push("- First item.\n- Second item.\nPlain. ");
    assert_eq!(
        r,
        vec![p("- First item."), p("- Second item."), s("Plain.")]
    );
}

#[test]
fn splitter_keeps_every_visible_character() {
    let text = "One. Two!  Three?\n\nfour 3.5 five";
    let mut sp = SentenceSplitter::new();
    let mut out = String::new();
    for c in text.chars() {
        for x in sp.push(&c.to_string()) {
            out.push_str(&x.text);
        }
    }
    if let Some(x) = sp.finish() {
        out.push_str(&x.text);
    }
    let ink = |t: &str| -> String { t.chars().filter(|c| !c.is_whitespace()).collect() };
    assert_eq!(ink(&out), ink(text));
}

#[test]
fn boundaries_stand_before_white_space_or_the_end() {
    assert_eq!(find_sentence_boundary(&chars("a. b")), Some(1));
    assert_eq!(find_sentence_boundary(&chars("a.b")), None);
    assert_eq!(find_sentence_boundary(&chars("a.b!")), Some(3));
    assert_eq!(find_sentence_boundary(&chars("")), None);
}

#[test]
fn unmatched_asterisks_are_text() {
    let runs = split_inline_runs(&chars("a **b"));
    assert_eq!(runs.len(), 1);
    assert_eq!(runs[0].body, "a **b");
    assert!(!runs[0].is_bold);
    assert_eq!(parse("**x** and ** y")[0].body, "x and ** y");
    assert_eq!(parse("2 ** 3")[0].body, "2 ** 3");
}

#[test]
fn a_blank_line_parts_blocks() {
    let a = "# Title\ntext **bold**\n";
    let b = "- point\n\nlast";
    let mut both = parse(a);
    both.extend(parse(b));
    assert_eq!(parse(&format!("{a}\n\n{b}")), both);
    assert_eq!(both.len(), 4);
}

#[test]
fn fenced_code_is_kept_as_it_stands() {
    let body = "  **x** # y\n\n- z";
    let code = vec![Block { body: body.to_string(), is_code: true, ..Block::default() }];
    assert_eq!(parse(&format!("```rust\n{body}\n```")), code);
    assert_eq!(parse(&format!("```rust\n{body}")), code);
}

#[test]
fn lines_are_read_in_turn() {
    let a = "one\n```\ncode\n```";
    let b = "## two\n";
    assert_eq!(
        strip_markdown(&format!("{a}\n{b}")),
        format!("{}{}", strip_markdown(a), strip_markdown(b))
    );
    assert_eq!(strip_markdown(a), "one\n");
}

#[test]
fn strip_markdown_removes_code_fences() {
    let input = "Hello\n```rust\nlet x = 1;\n```\nWorld";
    assert_eq!(strip_markdown(input), "Hello\nWorld\n");
}

#[test]
fn strip_markdown_removes_inline_markers() {
    let input = "This is **bold** and *italic* and `code`";
    assert_eq!(
        strip_markdown(input),
        "This is bold and italic and code\n"
    );
}

#[test]
fn strip_markdown_strips_headers_and_bullets() {
    let input = "# Title\n## Sub\n- bullet one\n* bullet two";
    assert_eq!(
        strip_markdown(input),
        "Title\nSub\nbullet one\nbullet two\n"
    );
}

#[test]
fn stop_intent_exact() {
    assert!(parse_stop_intent("stop"));
    assert!(parse_stop_intent("HALT"));
    assert!(parse_stop_intent("Shut up."));
    assert!(parse_stop_intent("  shut  up "));
    assert!(parse_stop_intent("be quiet"));
    assert!(parse_stop_intent("wait"));
    assert!(parse_stop_intent("pause"));
    assert!(parse_stop_intent("enough!"));
}

#[test]
fn stop_intent_partial_does_not_match() {
    assert!(!parse_stop_intent("stop talking"));
    assert!(!parse_stop_intent("hey stop"));
    assert!(!parse_stop_intent("can you stop"));
}

#[test]
fn approval_yes_words() {
    assert_eq!(parse_approval_intent("yes"), Some("approve"));
    assert_eq!(parse_approval_intent("Yeah, go ahead"), Some("approve"));
    assert_eq!(parse_approval_intent("OK"), Some("approve"));
    assert_eq!(parse_approval_intent("confirm"), Some("approve"));
}

#[test]
fn approval_no_words() {
    assert_eq!(parse_approval_intent("no"), Some("deny"));
    assert_eq!(parse_approval_intent("cancel that"), Some("deny"));
    assert_eq!(parse_approval_intent("abort!"), Some("deny"));
}

#[test]
fn approval_always_wins() {
    assert_eq!(parse_approval_intent("always"), Some("always"));
    assert_eq!(parse_approval_intent("yes, always"), Some("always"));
}

#[test]
fn approval_unrelated_returns_none() {
    assert_eq!(parse_approval_intent("what's the weather"), None);
    assert_eq!(parse_approval_intent("hmm"), None);
}

#[test]
fn classify_routes_to_stop_when_no_approval() {
    assert_eq!(classify("stop", false, false), VoiceIntent::Stop);
}

#[test]
fn classify_routes_stop_to_deny_when_approval_pending() {
    assert_eq!(
        classify("stop", true, false),
        VoiceIntent::Approval("deny")
    );
}

#[test]
fn every_stop_phrase_denies_a_pending_approval() {
    for phrase in ["halt", "Enough."] {
        assert_eq!(classify(phrase, true, false), VoiceIntent::Approval("deny"));
        assert_eq!(classify(phrase, false, false), VoiceIntent::Stop);
    }
    assert_eq!(classify("halt", true, true), VoiceIntent::Ignore);
    assert_eq!(classify("always halt", true, false), VoiceIntent::Approval("always"));
}

#[test]
fn classify_drops_irrelevant_during_approval() {
    assert_eq!(
        classify("what's the weather", true, false),
        VoiceIntent::SendChat
    );
}

#[test]
fn classify_sends_chat_for_normal_text() {
    assert_eq!(
        classify("hey jarvis what time is it", false, false),
        VoiceIntent::SendChat
    );
}

#[test]
fn wake_word_carries_what_follows() {
    assert_eq!(parse_wake_intent("Hey Jarvis, what's open?"), Some("what's open?".to_string()));
    assert_eq!(parse_wake_intent("  OKAY JARVIS!"), Some(String::new()));
    assert_eq!(parse_wake_intent("jarvis"), Some(String::new()));
    assert_eq!(parse_wake_intent("jarvisx hello"), None);
    assert_eq!(parse_wake_intent("jarvisé"), None);
    assert_eq!(parse_wake_intent("tell jarvis"), None);
}

#[test]
fn asleep_only_the_wake_word_and_answers_count() {
    assert_eq!(classify("stop", false, true), VoiceIntent::Ignore);
    assert_eq!(
        classify("jarvis, lights on", false, true),
        VoiceIntent::Wake("lights on".to_string())
    );
    assert_eq!(classify("yes", true, true), VoiceIntent::Approval("approve"));
    assert_eq!(classify("mute", false, false), VoiceIntent::Mute);
    assert_eq!(classify("   ", false, true), VoiceIntent::SendChat);
}

#[test]
fn mute_intent_is_the_whole_utterance() {
    assert!(parse_mute_intent("Go to sleep."));
    assert!(parse_mute_intent("standby"));
    assert!(!parse_mute_intent("mute the television"));
}

#[test]
fn letters_and_case_are_those_of_unicode() {
    let lower: String = lowered("ÀB Ünï").into_iter().collect();
    assert_eq!(lower, "àb ünï");
    let phrase: String = phrase_of(&chars("été, c'est — fini!")).into_iter().collect();
    assert_eq!(phrase, "été cest fini");
    assert!(!parse_stop_intent("stopé"));
}

#[test]
fn silence_mutes_until_the_wake_word() {
    assert_eq!(classify("Silence!", false, false), VoiceIntent::Mute);
    assert_eq!(classify("be silent", false, false), VoiceIntent::Mute);
    assert_eq!(classify("quiet", false, false), VoiceIntent::Stop);
    assert!(parse_stop_intent("silence"));
}
