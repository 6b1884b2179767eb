//! A session: everything that the desktop client shows or remembers, and what
//! it does about what it hears, reads and is told.
//!
//! The session holds state only. Each event is a method that changes the state
//! and returns the effects that the surroundings have to bring about, in order.

use vstd::prelude::*;

use crate::desktop::gateway;
use crate::desktop::gateway::ChatEvent;
use crate::desktop::speech;
use crate::desktop::speech::SpeechChannel;
use crate::desktop::splitter;
use crate::desktop::splitter::{Sentence, SentenceSplitter};
use crate::desktop::streaming_stt;
use crate::desktop::streaming_stt::StreamingEvent;
use crate::desktop::sub_agents;
use crate::desktop::sub_agents::SubAgents;
use crate::desktop::transcript;
use crate::desktop::transcript::{truncate_for_toast, Transcript};
use crate::desktop::voice_intent;
use crate::desktop::voice_intent::{classify, lowered, phrase_of, VoiceIntent};
use crate::text;
use crate::text::{is_blank, is_empty, joined, same, spells, trimmed};

verus! {

/// A tool call that waits for the user's word.
#[derive(Clone, Debug)]
pub struct PendingApproval {
    pub request_id: String,
    pub tool_name: String,
}

/// What a pending approval holds.
#[verifier::ext_equal]
pub struct PendingModel {
    pub request_id: Seq<char>,
    pub tool_name: Seq<char>,
}

impl View for PendingApproval {
    type V = PendingModel;

    open spec fn view(&self) -> PendingModel {
        PendingModel { request_id: self.request_id@, tool_name: self.tool_name@ }
    }
}

/// What the banner for an approval shows; nothing when its texts are empty.
pub struct Banner {
    pub request_id: String,
    pub tool_name: String,
    pub description: String,
}

/// What a banner holds.
#[verifier::ext_equal]
pub struct BannerModel {
    pub request_id: Seq<char>,
    pub tool_name: Seq<char>,
    pub description: Seq<char>,
}

impl View for Banner {
    type V = BannerModel;

    open spec fn view(&self) -> BannerModel {
        BannerModel {
            request_id: self.request_id@,
            tool_name: self.tool_name@,
            description: self.description@,
        }
    }
}

/// What the surroundings have to bring about.
#[derive(Debug)]
pub enum Effect {
    /// Stop playback and drop what is queued.
    HaltAudio,
    /// Let playback go on.
    ResumeAudio,
    /// Send a chat turn to a thread, with a picture of the screen if wanted.
    SendChat { text: String, thread: Option<String>, with_screen: bool },
    /// Answer an approval request.
    SendApproval { request_id: String, approved: bool, always: bool },
    /// Show a notification.
    Notify { title: &'static str, body: String },
    /// Show the window and raise it above all others.
    RaiseWindow,
}

/// What an effect holds.
#[verifier::ext_equal]
pub enum EffectModel {
    HaltAudio,
    ResumeAudio,
    SendChat { text: Seq<char>, thread: Option<Seq<char>>, with_screen: bool },
    SendApproval { request_id: Seq<char>, approved: bool, always: bool },
    Notify { title: Seq<char>, body: Seq<char> },
    RaiseWindow,
}

/// The text of an optional string.
pub open spec fn opt_text(s: Option<String>) -> Option<Seq<char>> {
    match s {
        Some(x) => Some(x@),
        None => None,
    }
}

impl View for Effect {
    type V = EffectModel;

    open spec fn view(&self) -> EffectModel {
        match self {
            Effect::HaltAudio => EffectModel::HaltAudio,
            Effect::ResumeAudio => EffectModel::ResumeAudio,
            Effect::SendChat { text, thread, with_screen } => EffectModel::SendChat {
                text: text@,
                thread: opt_text(*thread),
                with_screen: *with_screen,
            },
            Effect::SendApproval { request_id, approved, always } => EffectModel::SendApproval {
                request_id: request_id@,
                approved: *approved,
                always: *always,
            },
            Effect::Notify { title, body } => EffectModel::Notify { title: title@, body: body@ },
            Effect::RaiseWindow => EffectModel::RaiseWindow,
        }
    }
}

/// The models of a sequence of effects.
pub open spec fn effects(s: Seq<Effect>) -> Seq<EffectModel> {
    s.map_values(|e: Effect| e@)
}

/// Everything that a session holds.
pub struct Session {
    /// The microphone is off altogether.
    pub mic_muted: bool,
    pub screen_share_on: bool,
    /// The answer in progress.
    pub streaming_buffer: String,
    pub splitter: SentenceSplitter,
    /// Whether the transcript's last row is the answer in progress.
    pub streaming_active: bool,
    /// The thread that chat turns go to; none is the gateway's active one.
    pub current_thread_id: Option<String>,
    pub pending_approval: Option<PendingApproval>,
    pub voice_ready: bool,
    /// The microphone is on, but only the wake word is heeded.
    pub wake_word_only: bool,
    /// The user asked for silence: what waits to be spoken is dropped until the
    /// next chat turn.
    pub stop_requested: bool,
    pub speech: SpeechChannel,
    pub status: String,
    /// Whether the reactor shows a live microphone.
    pub mic_active: bool,
    pub expanded: bool,
    pub banner: Banner,
    pub transcript: Transcript,
    pub sub_agents: SubAgents,
}

/// What a session holds.
#[verifier::ext_equal]
pub struct SessionModel {
    pub mic_muted: bool,
    pub screen_share_on: bool,
    pub buffer: Seq<char>,
    pub splitter: splitter::SplitterModel,
    pub streaming: bool,
    pub thread: Option<Seq<char>>,
    pub pending: Option<PendingModel>,
    pub voice_ready: bool,
    pub wake_word_only: bool,
    pub stop_requested: bool,
    pub speech: Seq<splitter::SentenceModel>,
    pub status: Seq<char>,
    pub mic_active: bool,
    pub expanded: bool,
    pub banner: BannerModel,
    pub transcript: Seq<transcript::EntryModel>,
    pub sub_agents: Seq<sub_agents::RowModel>,
}

impl View for Session {
    type V = SessionModel;

    open spec fn view(&self) -> SessionModel {
        SessionModel {
            mic_muted: self.mic_muted,
            screen_share_on: self.screen_share_on,
            buffer: self.streaming_buffer@,
            splitter: self.splitter@,
            streaming: self.streaming_active,
            thread: opt_text(self.current_thread_id),
            pending: match self.pending_approval {
                Some(p) => Some(p@),
                None => None,
            },
            voice_ready: self.voice_ready,
            wake_word_only: self.wake_word_only,
            stop_requested: self.stop_requested,
            speech: self.speech@,
            status: self.status@,
            mic_active: self.mic_active,
            expanded: self.expanded,
            banner: self.banner@,
            transcript: self.transcript@,
            sub_agents: self.sub_agents@,
        }
    }
}

/// A session after an event, and what has to be brought about.
#[verifier::ext_equal]
pub struct Step {
    pub session: SessionModel,
    pub effects: Seq<EffectModel>,
}

/// The splitter without anything in it.
pub open spec fn empty_splitter() -> splitter::SplitterModel {
    splitter::SplitterModel { buf: Seq::empty(), line: splitter::Line::Fresh }
}

/// The banner that shows nothing.
pub open spec fn no_banner() -> BannerModel {
    BannerModel { request_id: ""@, tool_name: ""@, description: ""@ }
}

/// The phrases that a recogniser is apt to make of noise.
pub open spec fn sounds_like_noise(p: Seq<char>) -> bool {
    ||| is_filler(p)
    ||| is_stray_word(p)
    ||| is_lyric(p)
}

/// Filler interjections.
pub open spec fn is_filler(p: Seq<char>) -> bool {
    ||| p == "yeah"@
    ||| p == "yes"@
    ||| p == "yep"@
    ||| p == "yup"@
    ||| p == "uh"@
    ||| p == "uhh"@
    ||| p == "umm"@
    ||| p == "um"@
    ||| p == "hmm"@
    ||| p == "hm"@
    ||| p == "mm"@
    ||| p == "mmm"@
    ||| p == "ah"@
    ||| p == "ahh"@
    ||| p == "oh"@
    ||| p == "ohh"@
    ||| p == "huh"@
    ||| p == "ha"@
    ||| p == "haha"@
    ||| p == "hey"@
}

/// Short words that are heard where nothing was said.
pub open spec fn is_stray_word(p: Seq<char>) -> bool {
    ||| p == "you"@
    ||| p == "it"@
    ||| p == "the"@
    ||| p == "and"@
    ||| p == "but"@
    ||| p == "so"@
    ||| p == "well"@
    ||| p == "right"@
    ||| p == "okay"@
    ||| p == "ok"@
    ||| p == "bye"@
    ||| p == "thanks"@
    ||| p == "thank you"@
    ||| p == "thank"@
    ||| p == "i"@
    ||| p == "a"@
    ||| p == "is"@
    ||| p == "no"@
    ||| p == "now"@
    ||| p == "to"@
}

/// What music is heard as.
pub open spec fn is_lyric(p: Seq<char>) -> bool {
    ||| p == "yeah yeah"@
    ||| p == "la la"@
    ||| p == "na na"@
    ||| p == "oh yeah"@
    ||| p == "ah ha"@
}

/// Whether a transcript looks like what the recogniser makes of noise. Not to
/// be asked while an approval is pending: "yes" is an answer then.
pub fn is_likely_parakeet_hallucination(s: &str) -> (r: bool)
    ensures
        r == sounds_like_noise(voice_intent::phrase(text::lowercase(s@), text::alnum())),
        text::all_ascii(s@) ==> r == sounds_like_noise(
            voice_intent::phrase(text::ascii_lowered(s@), text::ascii_alnum()),
        ),
{
    let lower = lowered(s);
    let phrase = phrase_of(lower.as_slice());
    let p = phrase.as_slice();
    let filler = spells(p, "yeah") || spells(p, "yes") || spells(p, "yep") || spells(p, "yup")
        || spells(p, "uh") || spells(p, "uhh") || spells(p, "umm") || spells(p, "um") || spells(
        p,
        "hmm",
    ) || spells(p, "hm") || spells(p, "mm") || spells(p, "mmm") || spells(p, "ah") || spells(
        p,
        "ahh",
    ) || spells(p, "oh") || spells(p, "ohh") || spells(p, "huh") || spells(p, "ha") || spells(
        p,
        "haha",
    ) || spells(p, "hey");
    let stray = spells(p, "you") || spells(p, "it") || spells(p, "the") || spells(p, "and")
        || spells(p, "but") || spells(p, "so") || spells(p, "well") || spells(p, "right")
        || spells(p, "okay") || spells(p, "ok") || spells(p, "bye") || spells(p, "thanks")
        || spells(p, "thank you") || spells(p, "thank") || spells(p, "i") || spells(p, "a")
        || spells(p, "is") || spells(p, "no") || spells(p, "now") || spells(p, "to");
    let lyric = spells(p, "yeah yeah") || spells(p, "la la") || spells(p, "na na") || spells(
        p,
        "oh yeah",
    ) || spells(p, "ah ha");
    filler || stray || lyric
}

/// A new chat turn of the user's: the transcript shows it, and what was asked
/// to be silent may speak again.
pub open spec fn turn_step(m: SessionModel, said: Seq<char>, clock: Seq<char>) -> Step {
    Step {
        session: SessionModel {
            stop_requested: false,
            status: "thinking..."@,
            transcript: m.transcript.push(
                transcript::plain(transcript::RowKind::User, said, clock),
            ),
            ..m
        },
        effects: seq![
            EffectModel::SendChat { text: said, thread: m.thread, with_screen: m.screen_share_on },
        ],
    }
}

/// What a transcript does, given what it is for; `t` is the transcript without
/// white space around it.
pub open spec fn intent_step(
    m: SessionModel,
    t: Seq<char>,
    intent: voice_intent::IntentModel,
    clock: Seq<char>,
) -> Step {
    match intent {
        voice_intent::IntentModel::Stop => Step {
            session: SessionModel {
                splitter: empty_splitter(),
                stop_requested: true,
                status: "stopped"@,
                ..m
            },
            effects: seq![EffectModel::HaltAudio],
        },
        voice_intent::IntentModel::Mute => Step {
            session: SessionModel {
                splitter: empty_splitter(),
                wake_word_only: true,
                mic_active: false,
                status: "muted · say \"Jarvis\" to wake"@,
                ..m
            },
            effects: seq![EffectModel::HaltAudio],
        },
        voice_intent::IntentModel::Wake(rest) => {
            let awake = SessionModel {
                wake_word_only: false,
                mic_active: true,
                status: "listening"@,
                ..m
            };
            if rest.len() == 0 {
                Step { session: awake, effects: seq![EffectModel::ResumeAudio] }
            } else {
                let turn = turn_step(awake, rest, clock);
                Step {
                    session: turn.session,
                    effects: seq![EffectModel::ResumeAudio] + turn.effects,
                }
            }
        },
        voice_intent::IntentModel::Ignore => Step { session: m, effects: Seq::empty() },
        voice_intent::IntentModel::Approval(action) => match m.pending {
            Some(p) => Step {
                session: SessionModel {
                    pending: None,
                    banner: no_banner(),
                    status: "approval: "@ + action,
                    ..m
                },
                effects: seq![
                    EffectModel::SendApproval {
                        request_id: p.request_id,
                        approved: action != "deny"@,
                        always: action == "always"@,
                    },
                ],
            },
            None => Step { session: m, effects: Seq::empty() },
        },
        voice_intent::IntentModel::SendChat => if m.pending is Some {
            Step { session: m, effects: Seq::empty() }
        } else {
            turn_step(m, t, clock)
        },
    }
}

/// What a final transcript does; `t` is the transcript without white space
/// around it, `lower` the same in lower case.
pub open spec fn final_step(
    m: SessionModel,
    t: Seq<char>,
    lower: Seq<char>,
    alnum: spec_fn(char) -> bool,
    clock: Seq<char>,
) -> Step {
    if t.len() == 0 || (m.pending is None && sounds_like_noise(
        voice_intent::phrase(lower, alnum),
    )) {
        Step { session: m, effects: Seq::empty() }
    } else {
        intent_step(
            m,
            t,
            voice_intent::intent(t, lower, alnum, m.pending is Some, m.wake_word_only),
            clock,
        )
    }
}

/// What an event of the streaming recogniser does.
pub open spec fn stt_step(
    m: SessionModel,
    ev: streaming_stt::StreamingModel,
    clock: Seq<char>,
) -> Step {
    match ev {
        streaming_stt::StreamingModel::Interim(t) => Step {
            session: SessionModel { status: "transcribing: "@ + t, ..m },
            effects: Seq::empty(),
        },
        streaming_stt::StreamingModel::Final(s) => {
            let t = text::trim_spec(s);
            final_step(m, t, text::lowercase(t), text::alnum(), clock)
        },
    }
}

/// The sentence that is left in a splitter when it is flushed: none or one.
pub open spec fn tail_of(s: splitter::SplitterModel) -> Seq<splitter::SentenceModel> {
    let t = text::trim_spec(s.buf);
    if t.len() == 0 {
        Seq::empty()
    } else {
        seq![splitter::SentenceModel { text: t, ends_paragraph: true }]
    }
}

/// The sentences of an answer that came in one piece.
pub open spec fn sentences_of(answer: Seq<char>) -> Seq<splitter::SentenceModel> {
    let s = splitter::split(
        splitter::SplitterModel { buf: Seq::empty() + answer, line: splitter::Line::Fresh },
    );
    s.sentences + tail_of(s.rest)
}

/// The session after a piece of an answer has come in.
pub open spec fn after_chunk(m: SessionModel, content: Seq<char>, clock: Seq<char>) -> SessionModel {
    let s = splitter::split(
        splitter::SplitterModel { buf: m.splitter.buf + content, line: m.splitter.line },
    );
    SessionModel {
        buffer: m.buffer + content,
        splitter: s.rest,
        speech: m.speech + speech::worth_saying(s.sentences),
        streaming: true,
        transcript: transcript::streamed(m.transcript, m.buffer + content, m.streaming, clock),
        ..m
    }
}

/// The session after an answer is complete.
pub open spec fn after_response(m: SessionModel, content: Seq<char>, clock: Seq<char>) -> SessionModel {
    let was_streamed = m.buffer.len() > 0;
    SessionModel {
        buffer: Seq::empty(),
        splitter: empty_splitter(),
        speech: m.speech + speech::worth_saying(
            if was_streamed {
                tail_of(m.splitter)
            } else {
                sentences_of(content)
            },
        ),
        streaming: false,
        transcript: transcript::finished(m.transcript, content, was_streamed, clock),
        status: "ready"@,
        ..m
    }
}

/// The notification for an answer that the user cannot see.
pub open spec fn announced(content: Seq<char>, window_visible: bool) -> Seq<EffectModel> {
    if window_visible {
        Seq::empty()
    } else {
        seq![
            EffectModel::Notify { title: "JARVIS"@, body: text::ellipsized(content, 120) },
        ]
    }
}

/// What an event of the chat stream does.
pub open spec fn chat_step(
    m: SessionModel,
    ev: gateway::EventModel,
    window_visible: bool,
    clock: Seq<char>,
) -> Step {
    match ev {
        gateway::EventModel::Status { message } => quiet(SessionModel { status: message, ..m }),
        gateway::EventModel::Thinking { message } => quiet(SessionModel { status: message, ..m }),
        gateway::EventModel::Error { message } => quiet(
            SessionModel { status: "error: "@ + message, ..m },
        ),
        gateway::EventModel::StreamChunk { content } => quiet(after_chunk(m, content, clock)),
        gateway::EventModel::Response { content } => Step {
            session: after_response(m, content, clock),
            effects: announced(content, window_visible),
        },
        gateway::EventModel::ToolStarted { name } => quiet(
            SessionModel {
                status: "tool: "@ + name,
                transcript: m.transcript.push(
                    transcript::plain(transcript::RowKind::Tool, "→ "@ + name, clock),
                ),
                ..m
            },
        ),
        gateway::EventModel::ToolCompleted { name, success } => quiet(
            SessionModel {
                status: "tool "@ + name + if success {
                    " ok"@
                } else {
                    " FAILED"@
                },
                transcript: transcript::completed(m.transcript, name, success),
                ..m
            },
        ),
        gateway::EventModel::ToolResult { name, preview } => quiet(
            SessionModel { transcript: transcript::previewed(m.transcript, name, preview), ..m },
        ),
        gateway::EventModel::ApprovalNeeded { request_id, tool_name, description, parameters } =>
        quiet(
            SessionModel {
                pending: Some(PendingModel { request_id, tool_name }),
                banner: BannerModel { request_id, tool_name, description },
                expanded: true,
                ..m
            },
        ),
        gateway::EventModel::SubAgentStarted { id, label, kind } => quiet(
            SessionModel { sub_agents: sub_agents::started(m.sub_agents, id, label), ..m },
        ),
        gateway::EventModel::SubAgentProgress { id, message } => quiet(
            SessionModel { sub_agents: sub_agents::reported(m.sub_agents, id, message), ..m },
        ),
        gateway::EventModel::SubAgentCompleted { id, success, summary } => quiet(
            SessionModel {
                sub_agents: sub_agents::finished(m.sub_agents, id, success, summary),
                ..m
            },
        ),
    }
}

/// A session after an event that brings nothing about outside.
pub open spec fn quiet(m: SessionModel) -> Step {
    Step { session: m, effects: Seq::empty() }
}

/// Nothing to bring about.
fn nothing() -> (out: Vec<Effect>)
    ensures
        effects(out@) == Seq::<EffectModel>::empty(),
{
    let out: Vec<Effect> = Vec::new();
    assert(effects(out@) =~= Seq::<EffectModel>::empty());
    out
}

/// One effect.
fn just(e: Effect) -> (out: Vec<Effect>)
    ensures
        effects(out@) == seq![e@],
{
    let mut out: Vec<Effect> = Vec::new();
    out.push(e);
    assert(effects(out@) =~= seq![e@]);
    out
}

impl Session {
    /// A session that has just started: the microphone is off until the
    /// recogniser is up.
    pub fn new() -> (s: Self)
        ensures
            s@ == (SessionModel {
                mic_muted: true,
                screen_share_on: false,
                buffer: Seq::empty(),
                splitter: empty_splitter(),
                streaming: false,
                thread: None,
                pending: None,
                voice_ready: false,
                wake_word_only: false,
                stop_requested: false,
                speech: Seq::empty(),
                status: "starting up · TYPE TO CHAT WHILE VOICE LOADS ↓"@,
                mic_active: false,
                expanded: false,
                banner: no_banner(),
                transcript: Seq::empty(),
                sub_agents: Seq::empty(),
            }),
    {
        let s = Session {
            mic_muted: true,
            screen_share_on: false,
            streaming_buffer: String::new(),
            splitter: SentenceSplitter::new(),
            streaming_active: false,
            current_thread_id: None,
            pending_approval: None,
            voice_ready: false,
            wake_word_only: false,
            stop_requested: false,
            speech: SpeechChannel::new(),
            status: "starting up · TYPE TO CHAT WHILE VOICE LOADS ↓".to_owned(),
            mic_active: false,
            expanded: false,
            banner: Banner {
                request_id: "".to_owned(),
                tool_name: "".to_owned(),
                description: "".to_owned(),
            },
            transcript: Transcript::new(),
            sub_agents: SubAgents::new(),
        };
        assert(s@.buffer =~= Seq::<char>::empty());
        s
    }

    /// A chat turn of the user's.
    fn take_turn(&mut self, said: String, clock: &str) -> (e: Effect)
        ensures
            final(self)@ == turn_step(old(self)@, said@, clock@).session,
            seq![e@] == turn_step(old(self)@, said@, clock@).effects,
    {
        self.stop_requested = false;
        self.status = "thinking...".to_owned();
        self.transcript.push_user_block(said.as_str(), clock);
        let thread = match &self.current_thread_id {
            Some(t) => Some(t.clone()),
            None => None,
        };
        let e = Effect::SendChat { text: said, thread, with_screen: self.screen_share_on };
        assert(seq![e@] =~= turn_step(old(self)@, said@, clock@).effects);
        e
    }

    /// The user typed a chat turn. Pictures of the screen go with spoken turns
    /// only.
    pub fn send_text(&mut self, said: &str, clock: &str) -> (out: Vec<Effect>)
        ensures
            final(self)@ == turn_step(old(self)@, said@, clock@).session,
            effects(out@) == seq![
                EffectModel::SendChat {
                    text: said@,
                    thread: old(self)@.thread,
                    with_screen: false,
                },
            ],
    {
        self.stop_requested = false;
        self.status = "thinking...".to_owned();
        self.transcript.push_user_block(said, clock);
        let thread = match &self.current_thread_id {
            Some(t) => Some(t.clone()),
            None => None,
        };
        just(Effect::SendChat { text: said.to_owned(), thread, with_screen: false })
    }

    /// Forgets the approval that was pending.
    fn clear_approval(&mut self)
        ensures
            final(self)@ == (SessionModel { pending: None, banner: no_banner(), ..old(self)@ }),
    {
        self.pending_approval = None;
        self.banner = Banner {
            request_id: "".to_owned(),
            tool_name: "".to_owned(),
            description: "".to_owned(),
        };
    }

    /// The user answered an approval request with a button.
    pub fn answer_approval(&mut self, request_id: &str, approved: bool, always: bool) -> (out: Vec<
        Effect,
    >)
        ensures
            final(self)@ == (SessionModel { pending: None, banner: no_banner(), ..old(self)@ }),
            effects(out@) == seq![
                EffectModel::SendApproval { request_id: request_id@, approved, always },
            ],
    {
        self.clear_approval();
        just(Effect::SendApproval { request_id: request_id.to_owned(), approved, always })
    }

    /// Acts on what a transcript is for.
    fn act_on(&mut self, t: String, intent: VoiceIntent, clock: &str) -> (out: Vec<Effect>)
        ensures
            final(self)@ == intent_step(old(self)@, t@, intent@, clock@).session,
            effects(out@) == intent_step(old(self)@, t@, intent@, clock@).effects,
    {
        match intent {
            VoiceIntent::Stop => {
                self.splitter.reset();
                self.stop_requested = true;
                self.status = "stopped".to_owned();
                just(Effect::HaltAudio)
            },
            VoiceIntent::Mute => {
                self.splitter.reset();
                self.wake_word_only = true;
                self.mic_active = false;
                self.status = "muted · say \"Jarvis\" to wake".to_owned();
                just(Effect::HaltAudio)
            },
            VoiceIntent::Wake(rest) => {
                self.wake_word_only = false;
                self.mic_active = true;
                self.status = "listening".to_owned();
                let mut out = just(Effect::ResumeAudio);
                if !is_empty(rest.as_str()) {
                    let ghost had = out@;
                    let e = self.take_turn(rest, clock);
                    out.push(e);
                    assert(effects(out@) =~= effects(had) + seq![e@]);
                }
                out
            },
            VoiceIntent::Ignore => nothing(),
            VoiceIntent::Approval(action) => self.answer_aloud(action),
            VoiceIntent::SendChat => {
                if self.pending_approval.is_some() {
                    nothing()
                } else {
                    let e = self.take_turn(t, clock);
                    just(e)
                }
            },
        }
    }

    fn answer_aloud(&mut self, action: &'static str) -> (out: Vec<Effect>)
        ensures
            final(self)@ == intent_step(
                old(self)@,
                Seq::empty(),
                voice_intent::IntentModel::Approval(action@),
                Seq::empty(),
            ).session,
            effects(out@) == intent_step(
                old(self)@,
                Seq::empty(),
                voice_intent::IntentModel::Approval(action@),
                Seq::empty(),
            ).effects,
    {
        match self.pending_approval.take() {
            Some(p) => {
                self.clear_approval();
                self.status = joined("approval: ", action);
                just(
                    Effect::SendApproval {
                        request_id: p.request_id,
                        approved: !same(action, "deny"),
                        always: same(action, "always"),
                    },
                )
            },
            None => nothing(),
        }
    }

    /// Decides what a final transcript is for and acts on it.
    pub fn handle_stt_final(&mut self, s: &str, clock: &str) -> (out: Vec<Effect>)
        ensures
            ({
                let t = text::trim_spec(s@);
                let e = final_step(old(self)@, t, text::lowercase(t), text::alnum(), clock@);
                final(self)@ == e.session && effects(out@) == e.effects
            }),
            text::all_ascii(s@) ==> {
                let t = text::trim_spec(s@);
                let e = final_step(
                    old(self)@,
                    t,
                    text::ascii_lowered(t),
                    text::ascii_alnum(),
                    clock@,
                );
                final(self)@ == e.session && effects(out@) == e.effects
            },
    {
        let t = trimmed(s);
        if is_empty(t.as_str()) {
            return nothing();
        }
        proof {
            if text::all_ascii(s@) {
                let q = |c: char| c as u32 <= 0x7f;
                assert(text::only(s@, q));
                text::lemma_trim_only(s@, q);
                assert forall|i: int| 0 <= i < t@.len() implies (#[trigger] t@[i]) as u32 <= 0x7f by {
                    assert(q(t@[i]));
                }
            }
        }
        let has_pending = self.pending_approval.is_some();
        if !has_pending && is_likely_parakeet_hallucination(t.as_str()) {
            return nothing();
        }
        let intent = classify(s, has_pending, self.wake_word_only);
        self.act_on(t, intent, clock)
    }

    /// Handles one event of the streaming recogniser.
    pub fn handle_stt_event(&mut self, ev: StreamingEvent, clock: &str) -> (out: Vec<Effect>)
        ensures
            final(self)@ == stt_step(old(self)@, ev@, clock@).session,
            effects(out@) == stt_step(old(self)@, ev@, clock@).effects,
    {
        match ev {
            StreamingEvent::Interim(t) => {
                self.status = joined("transcribing: ", t.as_str());
                nothing()
            },
            StreamingEvent::Final(s) => self.handle_stt_final(s.as_str(), clock),
        }
    }

    /// A recording was transcribed. One of white space alone was no speech.
    pub fn transcribed(&mut self, s: &str, clock: &str) -> (out: Vec<Effect>)
        ensures
            ({
                let t = text::trim_spec(s@);
                let e = if t.len() == 0 {
                    quiet(SessionModel { status: "listening"@, ..old(self)@ })
                } else {
                    final_step(old(self)@, t, text::lowercase(t), text::alnum(), clock@)
                };
                final(self)@ == e.session && effects(out@) == e.effects
            }),
    {
        if is_blank(s) {
            self.status = "listening".to_owned();
            nothing()
        } else {
            self.handle_stt_final(s, clock)
        }
    }

    /// A recording could not be transcribed.
    pub fn transcription_failed(&mut self, e: &str)
        ensures
            final(self)@ == (SessionModel { status: "STT error: "@ + e@, ..old(self)@ }),
    {
        self.status = joined("STT error: ", e);
    }

    fn on_status(&mut self, message: String) -> (out: Vec<Effect>)
        ensures
            final(self)@ == (SessionModel { status: message@, ..old(self)@ }),
            effects(out@) == Seq::<EffectModel>::empty(),
    {
        self.status = message;
        nothing()
    }

    fn on_chunk(&mut self, content: &str, clock: &str) -> (out: Vec<Effect>)
        ensures
            final(self)@ == after_chunk(old(self)@, content@, clock@),
            effects(out@) == Seq::<EffectModel>::empty(),
    {
        self.streaming_buffer.push_str(content);
        let sentences = self.splitter.push(content);
        self.speech.spawn_all(sentences);
        self.transcript.update_streaming_jarvis(
            self.streaming_buffer.as_str(),
            self.streaming_active,
            clock,
        );
        self.streaming_active = true;
        nothing()
    }

    /// Says what is left of an answer, or all of one that was not streamed.
    fn say_rest(&mut self, content: &str, was_streamed: bool)
        ensures
            final(self)@ == (SessionModel {
                splitter: empty_splitter(),
                speech: old(self)@.speech + speech::worth_saying(
                    if was_streamed {
                        tail_of(old(self)@.splitter)
                    } else {
                        sentences_of(content@)
                    },
                ),
                ..old(self)@
            }),
    {
        let ghost before = self@;
        let tail = self.splitter.finish();
        if was_streamed {
            let mut sentences: Vec<Sentence> = Vec::new();
            if let Some(t) = tail {
                sentences.push(t);
            }
            assert(splitter::models(sentences@) =~= tail_of(before.splitter));
            self.speech.spawn_all(sentences);
        } else {
            let mut sentences = self.splitter.push(content);
            let ghost first = sentences@;
            let ghost rest = self.splitter@;
            if let Some(t) = self.splitter.finish() {
                sentences.push(t);
            }
            assert(splitter::models(sentences@) =~= splitter::models(first) + tail_of(rest));
            assert(splitter::models(sentences@) =~= sentences_of(content@));
            self.speech.spawn_all(sentences);
        }
    }

    fn on_response(&mut self, content: &str, window_visible: bool, clock: &str) -> (out: Vec<
        Effect,
    >)
        ensures
            final(self)@ == after_response(old(self)@, content@, clock@),
            effects(out@) == announced(content@, window_visible),
    {
        let was_streamed = !is_empty(self.streaming_buffer.as_str());
        self.say_rest(content, was_streamed);
        self.streaming_buffer = String::new();
        assert(self.streaming_buffer@ =~= Seq::<char>::empty());
        self.streaming_active = false;
        self.transcript.replace_streaming_with_final(content, was_streamed, clock);
        self.status = "ready".to_owned();
        if window_visible {
            nothing()
        } else {
            let body = truncate_for_toast(content, 120);
            just(Effect::Notify { title: "JARVIS", body })
        }
    }

    fn on_tool_started(&mut self, name: &str, clock: &str) -> (out: Vec<Effect>)
        ensures
            final(self)@ == (SessionModel {
                status: "tool: "@ + name@,
                transcript: old(self)@.transcript.push(
                    transcript::plain(transcript::RowKind::Tool, "→ "@ + name@, clock@),
                ),
                ..old(self)@
            }),
            effects(out@) == Seq::<EffectModel>::empty(),
    {
        self.status = joined("tool: ", name);
        let row = joined("→ ", name);
        self.transcript.push_tool_row(row.as_str(), clock);
        nothing()
    }

    fn on_tool_completed(&mut self, name: &str, success: bool) -> (out: Vec<Effect>)
        ensures
            final(self)@ == (SessionModel {
                status: "tool "@ + name@ + if success {
                    " ok"@
                } else {
                    " FAILED"@
                },
                transcript: transcript::completed(old(self)@.transcript, name@, success),
                ..old(self)@
            }),
            effects(out@) == Seq::<EffectModel>::empty(),
    {
        let mut s = joined("tool ", name);
        s.push_str(
            if success {
                " ok"
            } else {
                " FAILED"
            },
        );
        self.status = s;
        self.transcript.update_last_tool_completion(name, success);
        nothing()
    }

    fn on_tool_result(&mut self, name: &str, preview: &str) -> (out: Vec<Effect>)
        ensures
            final(self)@ == (SessionModel {
                transcript: transcript::previewed(old(self)@.transcript, name@, preview@),
                ..old(self)@
            }),
            effects(out@) == Seq::<EffectModel>::empty(),
    {
        self.transcript.update_last_tool_preview(name, preview);
        nothing()
    }

    fn on_approval_needed(
        &mut self,
        request_id: String,
        tool_name: String,
        description: String,
    ) -> (out: Vec<Effect>)
        ensures
            final(self)@ == (SessionModel {
                pending: Some(PendingModel { request_id: request_id@, tool_name: tool_name@ }),
                banner: BannerModel {
                    request_id: request_id@,
                    tool_name: tool_name@,
                    description: description@,
                },
                expanded: true,
                ..old(self)@
            }),
            effects(out@) == Seq::<EffectModel>::empty(),
    {
        self.pending_approval = Some(
            PendingApproval { request_id: request_id.clone(), tool_name: tool_name.clone() },
        );
        self.banner = Banner { request_id, tool_name, description };
        self.expanded = true;
        nothing()
    }

    fn on_agent_started(&mut self, id: &str, label: &str) -> (out: Vec<Effect>)
        ensures
            final(self)@ == (SessionModel {
                sub_agents: sub_agents::started(old(self)@.sub_agents, id@, label@),
                ..old(self)@
            }),
            effects(out@) == Seq::<EffectModel>::empty(),
    {
        self.sub_agents.push_sub_agent_row(id, label);
        nothing()
    }

    fn on_agent_progress(&mut self, id: &str, message: &str) -> (out: Vec<Effect>)
        ensures
            final(self)@ == (SessionModel {
                sub_agents: sub_agents::reported(old(self)@.sub_agents, id@, message@),
                ..old(self)@
            }),
            effects(out@) == Seq::<EffectModel>::empty(),
    {
        self.sub_agents.update_sub_agent_status(id, message);
        nothing()
    }

    fn on_agent_completed(&mut self, id: &str, success: bool, summary: &str) -> (out: Vec<Effect>)
        ensures
            final(self)@ == (SessionModel {
                sub_agents: sub_agents::finished(old(self)@.sub_agents, id@, success, summary@),
                ..old(self)@
            }),
            effects(out@) == Seq::<EffectModel>::empty(),
    {
        self.sub_agents.mark_sub_agent_done(id, success, summary);
        nothing()
    }

    /// Handles one event of the chat stream.
    #[verifier::rlimit(60)]
    #[verifier::spinoff_prover]
    pub fn handle_chat_event(&mut self, ev: ChatEvent, window_visible: bool, clock: &str) -> (out:
        Vec<Effect>)
        ensures
            final(self)@ == chat_step(old(self)@, ev@, window_visible, clock@).session,
            effects(out@) == chat_step(old(self)@, ev@, window_visible, clock@).effects,
    {
        match ev {
            ChatEvent::Status { message } => self.on_status(message),
            ChatEvent::Thinking { message } => self.on_status(message),
            ChatEvent::Error { message } => self.on_status(joined("error: ", message.as_str())),
            ChatEvent::StreamChunk { content } => self.on_chunk(content.as_str(), clock),
            ChatEvent::Response { content } => self.on_response(
                content.as_str(),
                window_visible,
                clock,
            ),
            ChatEvent::ToolStarted { name } => self.on_tool_started(name.as_str(), clock),
            ChatEvent::ToolCompleted { name, success } => self.on_tool_completed(
                name.as_str(),
                success,
            ),
            ChatEvent::ToolResult { name, preview } => self.on_tool_result(
                name.as_str(),
                preview.as_str(),
            ),
            ChatEvent::ApprovalNeeded { request_id, tool_name, description, parameters: _ } => {
                self.on_approval_needed(request_id, tool_name, description)
            },
            ChatEvent::SubAgentStarted { id, label, kind: _ } => self.on_agent_started(
                id.as_str(),
                label.as_str(),
            ),
            ChatEvent::SubAgentProgress { id, message } => self.on_agent_progress(
                id.as_str(),
                message.as_str(),
            ),
            ChatEvent::SubAgentCompleted { id, success, summary } => self.on_agent_completed(
                id.as_str(),
                success,
                summary.as_str(),
            ),
        }
    }

    /// The microphone button was clicked.
    pub fn toggle_mic(&mut self)
        ensures
            final(self)@ == (SessionModel {
                mic_muted: !old(self)@.mic_muted,
                mic_active: old(self)@.mic_muted,
                status: if old(self)@.mic_muted {
                    "listening"@
                } else {
                    "muted"@
                },
                ..old(self)@
            }),
    {
        let next = !self.mic_muted;
        self.mic_muted = next;
        self.mic_active = !next;
        self.status = if next {
            "muted".to_owned()
        } else {
            "listening".to_owned()
        };
    }

    /// The button that shares the screen was clicked.
    pub fn toggle_screen_share(&mut self)
        ensures
            final(self)@ == (SessionModel {
                screen_share_on: !old(self)@.screen_share_on,
                status: if old(self)@.screen_share_on {
                    "screen sharing off"@
                } else {
                    "screen sharing — JARVIS sees the foreground window each turn"@
                },
                ..old(self)@
            }),
    {
        self.screen_share_on = !self.screen_share_on;
        self.status = if self.screen_share_on {
            "screen sharing — JARVIS sees the foreground window each turn".to_owned()
        } else {
            "screen sharing off".to_owned()
        };
    }

    /// The window was asked to expand or to shrink: its new size in pixels.
    pub fn toggle_expand(&mut self) -> (size: (u32, u32))
        ensures
            final(self)@ == (SessionModel { expanded: !old(self)@.expanded, ..old(self)@ }),
            size == if old(self)@.expanded {
                (196u32, 232u32)
            } else {
                (960u32, 780u32)
            },
    {
        self.expanded = !self.expanded;
        if self.expanded {
            (960, 780)
        } else {
            (196, 232)
        }
    }

    /// The user called for the window, wherever they are: it is shown, expanded
    /// and raised.
    pub fn bring_to_focus(&mut self) -> (out: Vec<Effect>)
        ensures
            final(self)@ == (SessionModel { expanded: true, ..old(self)@ }),
            effects(out@) == seq![EffectModel::RaiseWindow],
    {
        self.expanded = true;
        just(Effect::RaiseWindow)
    }

    /// The user picked a conversation, or a new one was started: its rows are
    /// still to come.
    pub fn open_thread(&mut self, id: &str)
        ensures
            final(self)@ == (SessionModel {
                thread: Some(id@),
                transcript: Seq::empty(),
                ..old(self)@
            }),
    {
        self.current_thread_id = Some(id.to_owned());
        self.transcript.clear_transcript_rows();
    }

    /// A thread was made for the first turn.
    pub fn adopt_thread(&mut self, id: &str)
        ensures
            final(self)@ == (SessionModel { thread: Some(id@), ..old(self)@ }),
    {
        self.current_thread_id = Some(id.to_owned());
    }

    /// The recogniser is up: the microphone is switched on.
    pub fn voice_is_up(&mut self)
        ensures
            final(self)@ == (SessionModel {
                voice_ready: true,
                mic_muted: false,
                mic_active: true,
                status: "listening"@,
                ..old(self)@
            }),
    {
        self.voice_ready = true;
        self.mic_muted = false;
        self.mic_active = true;
        self.status = "listening".to_owned();
    }
}

/// While an approval is pending and JARVIS is awake, no transcript becomes a
/// chat turn and none stops JARVIS: it answers the request, or nothing happens.
/// A phrase that would stop JARVIS denies the request.
pub proof fn law_pending_approval_holds_the_floor(
    m: SessionModel,
    t: Seq<char>,
    lower: Seq<char>,
    alnum: spec_fn(char) -> bool,
    clock: Seq<char>,
)
    requires
        m.pending is Some,
        !m.wake_word_only,
        t.len() > 0,
    ensures
        ({
            let s = final_step(m, t, lower, alnum, clock);
            let answer = voice_intent::answer(text::runs(lower, alnum));
            let reply = if answer is None && voice_intent::stops(
                voice_intent::phrase(lower, alnum),
            ) {
                Some("deny"@)
            } else {
                answer
            };
            &&& s.session.transcript == m.transcript
            &&& s.session.stop_requested == m.stop_requested
            &&& reply is None ==> s == quiet(m)
            &&& reply matches Some(a) ==> s.session.pending is None && s.effects == seq![
                EffectModel::SendApproval {
                    request_id: m.pending->0.request_id,
                    approved: a != "deny"@,
                    always: a == "always"@,
                },
            ]
        }),
{
}

/// In wake-word-only mode an utterance without the wake word does nothing at
/// all.
pub proof fn law_asleep_until_woken(
    m: SessionModel,
    t: Seq<char>,
    lower: Seq<char>,
    alnum: spec_fn(char) -> bool,
    clock: Seq<char>,
)
    requires
        m.wake_word_only,
        m.pending is None,
        voice_intent::woken(t, alnum) is None,
    ensures
        final_step(m, t, lower, alnum, clock) == quiet(m),
{
}

/// Being told to be quiet keeps the microphone on: else the wake word would
/// never be heard. Only the display says "muted".
pub proof fn law_voice_mute_keeps_the_microphone(m: SessionModel, t: Seq<char>, clock: Seq<char>)
    ensures
        ({
            let s = intent_step(m, t, voice_intent::IntentModel::Mute, clock).session;
            s.mic_muted == m.mic_muted && s.wake_word_only && !s.mic_active
        }),
{
}

/// A spoken stop is honoured until the user's next chat turn: events of the
/// chat stream do not lift it.
pub proof fn law_stop_lasts_until_the_next_turn(
    m: SessionModel,
    t: Seq<char>,
    ev: gateway::EventModel,
    window_visible: bool,
    clock: Seq<char>,
)
    ensures
        intent_step(m, t, voice_intent::IntentModel::Stop, clock).session.stop_requested,
        chat_step(m, ev, window_visible, clock).session.stop_requested == m.stop_requested,
        !turn_step(m, t, clock).session.stop_requested,
{
}

/// The session after several pieces of an answer have come in.
pub open spec fn after_chunks(m: SessionModel, pieces: Seq<Seq<char>>, clock: Seq<char>) -> SessionModel
    decreases pieces.len(),
{
    if pieces.len() == 0 {
        m
    } else {
        after_chunk(after_chunks(m, pieces.drop_last(), clock), pieces.last(), clock)
    }
}

/// However an answer is streamed, the row in progress shows what has come in of
/// it, and once it is complete the transcript is what it would be had the
/// answer come in one piece.
pub proof fn law_streaming_leaves_no_trace(
    m: SessionModel,
    pieces: Seq<Seq<char>>,
    answer: Seq<char>,
    clock: Seq<char>,
)
    requires
        m.buffer.len() == 0,
        !m.streaming,
        pieces.len() > 0,
        pieces.flatten().len() > 0,
    ensures
        ({
            let during = after_chunks(m, pieces, clock);
            let after = after_response(during, answer, clock);
            &&& during.transcript == m.transcript.push(
                transcript::plain(transcript::RowKind::Jarvis, pieces.flatten(), clock),
            )
            &&& after.transcript == after_response(m, answer, clock).transcript
            &&& after.buffer.len() == 0
            &&& !after.streaming
        }),
{
    lemma_chunks(m, pieces, clock);
    let during = after_chunks(m, pieces, clock);
    assert(during.transcript.drop_last() =~= m.transcript);
}

proof fn lemma_chunks(m: SessionModel, pieces: Seq<Seq<char>>, clock: Seq<char>)
    requires
        m.buffer.len() == 0,
        !m.streaming,
    ensures
        ({
            let during = after_chunks(m, pieces, clock);
            &&& during.buffer == pieces.flatten()
            &&& during.streaming == (pieces.len() > 0)
            &&& during.transcript == if pieces.len() == 0 {
                m.transcript
            } else {
                m.transcript.push(
                    transcript::plain(transcript::RowKind::Jarvis, pieces.flatten(), clock),
                )
            }
        }),
    decreases pieces.len(),
{
    if pieces.len() == 0 {
        assert(pieces =~= Seq::<Seq<char>>::empty());
        assert(m.buffer =~= pieces.flatten());
    } else {
        let shorter = pieces.drop_last();
        lemma_chunks(m, shorter, clock);
        assert(shorter.push(pieces.last()) =~= pieces);
        shorter.lemma_flatten_push(pieces.last());
        let during = after_chunks(m, pieces, clock);
        assert(during.buffer =~= pieces.flatten());
        if shorter.len() > 0 {
            assert(during.transcript =~= m.transcript.push(
                transcript::plain(transcript::RowKind::Jarvis, pieces.flatten(), clock),
            ));
        }
    }
}

/// What a recogniser is apt to make of noise.
pub open spec fn noise_phrases() -> Seq<Seq<char>> {
    seq![
        "yeah"@,
        "yes"@,
        "yep"@,
        "yup"@,
        "uh"@,
        "uhh"@,
        "umm"@,
        "um"@,
        "hmm"@,
        "hm"@,
        "mm"@,
        "mmm"@,
        "ah"@,
        "ahh"@,
        "oh"@,
        "ohh"@,
        "huh"@,
        "ha"@,
        "haha"@,
        "hey"@,
        "you"@,
        "it"@,
        "the"@,
        "and"@,
        "but"@,
        "so"@,
        "well"@,
        "right"@,
        "okay"@,
        "ok"@,
        "bye"@,
        "thanks"@,
        "thank you"@,
        "thank"@,
        "i"@,
        "a"@,
        "is"@,
        "no"@,
        "now"@,
        "to"@,
        "yeah yeah"@,
        "la la"@,
        "na na"@,
        "oh yeah"@,
        "ah ha"@,
    ]
}

/// The phrases of noise are these and no others.
pub proof fn law_noise(p: Seq<char>)
    ensures
        sounds_like_noise(p) <==> noise_phrases().contains(p),
{
    let l = noise_phrases();
    assert(l[0] == "yeah"@);
    assert(l[1] == "yes"@);
    assert(l[2] == "yep"@);
    assert(l[3] == "yup"@);
    assert(l[4] == "uh"@);
    assert(l[5] == "uhh"@);
    assert(l[6] == "umm"@);
    assert(l[7] == "um"@);
    assert(l[8] == "hmm"@);
    assert(l[9] == "hm"@);
    assert(l[10] == "mm"@);
    assert(l[11] == "mmm"@);
    assert(l[12] == "ah"@);
    assert(l[13] == "ahh"@);
    assert(l[14] == "oh"@);
    assert(l[15] == "ohh"@);
    assert(l[16] == "huh"@);
    assert(l[17] == "ha"@);
    assert(l[18] == "haha"@);
    assert(l[19] == "hey"@);
    assert(l[20] == "you"@);
    assert(l[21] == "it"@);
    assert(l[22] == "the"@);
    assert(l[23] == "and"@);
    assert(l[24] == "but"@);
    assert(l[25] == "so"@);
    assert(l[26] == "well"@);
    assert(l[27] == "right"@);
    assert(l[28] == "okay"@);
    assert(l[29] == "ok"@);
    assert(l[30] == "bye"@);
    assert(l[31] == "thanks"@);
    assert(l[32] == "thank you"@);
    assert(l[33] == "thank"@);
    assert(l[34] == "i"@);
    assert(l[35] == "a"@);
    assert(l[36] == "is"@);
    assert(l[37] == "no"@);
    assert(l[38] == "now"@);
    assert(l[39] == "to"@);
    assert(l[40] == "yeah yeah"@);
    assert(l[41] == "la la"@);
    assert(l[42] == "na na"@);
    assert(l[43] == "oh yeah"@);
    assert(l[44] == "ah ha"@);
}

/// With no approval pending, what sounds like noise does nothing. With one
/// pending it is heard: the answer in it is taken.
pub proof fn law_noise_is_dropped(
    m: SessionModel,
    t: Seq<char>,
    lower: Seq<char>,
    alnum: spec_fn(char) -> bool,
    clock: Seq<char>,
)
    requires
        noise_phrases().contains(voice_intent::phrase(lower, alnum)),
    ensures
        m.pending is None ==> final_step(m, t, lower, alnum, clock).session == m && final_step(
            m,
            t,
            lower,
            alnum,
            clock,
        ).effects.len() == 0,
        m.pending is Some && t.len() > 0 && voice_intent::answer(text::runs(lower, alnum)) is Some
            ==> final_step(m, t, lower, alnum, clock).session.pending is None,
{
    law_noise(voice_intent::phrase(lower, alnum));
}

/// An utterance that is no command, no noise and no answer is a chat turn: the
/// transcript shows it, silence is lifted, it is sent to the thread of the
/// session, with the screen if that is shared, and nothing else changes.
pub proof fn law_talk_is_a_chat_turn(
    m: SessionModel,
    t: Seq<char>,
    lower: Seq<char>,
    alnum: spec_fn(char) -> bool,
    clock: Seq<char>,
)
    requires
        t.len() > 0,
        m.pending is None,
        !m.wake_word_only,
        ({
            let p = voice_intent::phrase(lower, alnum);
            !noise_phrases().contains(p) && !voice_intent::stop_phrases().contains(p)
                && !voice_intent::mute_phrases().contains(p)
        }),
    ensures
        ({
            let r = final_step(m, t, lower, alnum, clock);
            &&& r.session == (SessionModel {
                stop_requested: false,
                status: "thinking..."@,
                transcript: m.transcript.push(
                    transcript::row(transcript::RowKind::User, t, clock),
                ),
                ..m
            })
            &&& r.effects == seq![
                EffectModel::SendChat { text: t, thread: m.thread, with_screen: m.screen_share_on },
            ]
        }),
{
    law_noise(voice_intent::phrase(lower, alnum));
    voice_intent::law_commands(t, lower, alnum);
}

/// A command to stop or to mute halts the audio and drops the sentence in
/// progress; stopping asks for silence, muting leaves only the wake word to be
/// heeded, and nothing else changes but the status line.
pub proof fn law_commands_halt_the_audio(
    m: SessionModel,
    t: Seq<char>,
    lower: Seq<char>,
    alnum: spec_fn(char) -> bool,
    clock: Seq<char>,
)
    requires
        t.len() > 0,
        m.pending is None,
        !m.wake_word_only,
        !noise_phrases().contains(voice_intent::phrase(lower, alnum)),
    ensures
        ({
            let p = voice_intent::phrase(lower, alnum);
            let r = final_step(m, t, lower, alnum, clock);
            let none = splitter::SplitterModel { buf: Seq::empty(), line: splitter::Line::Fresh };
            &&& voice_intent::mute_phrases().contains(p) ==> r.effects == seq![
                EffectModel::HaltAudio,
            ] && r.session == (SessionModel {
                splitter: none,
                wake_word_only: true,
                mic_active: false,
                status: "muted · say \"Jarvis\" to wake"@,
                ..m
            })
            &&& voice_intent::stop_phrases().contains(p) && !voice_intent::mute_phrases().contains(
                p,
            ) ==> r.effects == seq![EffectModel::HaltAudio] && r.session == (SessionModel {
                splitter: none,
                stop_requested: true,
                status: "stopped"@,
                ..m
            })
        }),
{
    law_noise(voice_intent::phrase(lower, alnum));
    voice_intent::law_commands(t, lower, alnum);
}

/// The wake word wakes JARVIS up: the audio goes on, and what follows the wake
/// word, if anything, is a chat turn.
pub proof fn law_waking_up(
    m: SessionModel,
    t: Seq<char>,
    lower: Seq<char>,
    alnum: spec_fn(char) -> bool,
    clock: Seq<char>,
)
    requires
        t.len() > 0,
        m.pending is None,
        m.wake_word_only,
        voice_intent::woken(t, alnum) is Some,
        !noise_phrases().contains(voice_intent::phrase(lower, alnum)),
    ensures
        ({
            let rest = voice_intent::woken(t, alnum)->0;
            let r = final_step(m, t, lower, alnum, clock);
            &&& rest.len() == 0 ==> r.effects == seq![EffectModel::ResumeAudio] && r.session
                == (SessionModel {
                wake_word_only: false,
                mic_active: true,
                status: "listening"@,
                ..m
            })
            &&& rest.len() > 0 ==> r.effects == seq![
                EffectModel::ResumeAudio,
                EffectModel::SendChat {
                    text: rest,
                    thread: m.thread,
                    with_screen: m.screen_share_on,
                },
            ] && r.session == (SessionModel {
                wake_word_only: false,
                mic_active: true,
                stop_requested: false,
                status: "thinking..."@,
                transcript: m.transcript.push(
                    transcript::row(transcript::RowKind::User, rest, clock),
                ),
                ..m
            })
        }),
{
    law_noise(voice_intent::phrase(lower, alnum));
    let rest = voice_intent::woken(t, alnum)->0;
    let r = final_step(m, t, lower, alnum, clock);
    if rest.len() > 0 {
        assert(r.effects =~= seq![
            EffectModel::ResumeAudio,
            EffectModel::SendChat { text: rest, thread: m.thread, with_screen: m.screen_share_on },
        ]);
    }
}

/// An answer to a pending approval is sent under the request's own id, as
/// approved unless it denies and for always if it says so; the request and its
/// banner are gone then, and nothing else changes but the status line.
pub proof fn law_answers_settle_the_request(
    m: SessionModel,
    t: Seq<char>,
    lower: Seq<char>,
    alnum: spec_fn(char) -> bool,
    clock: Seq<char>,
)
    requires
        t.len() > 0,
        m.pending is Some,
        voice_intent::answer(text::runs(lower, alnum)) is Some,
    ensures
        ({
            let a = voice_intent::answer(text::runs(lower, alnum))->0;
            let r = final_step(m, t, lower, alnum, clock);
            &&& r.session.pending is None
            &&& r.session.banner.request_id.len() == 0 && r.session.banner.tool_name.len() == 0
                && r.session.banner.description.len() == 0
            &&& r.session.status == "approval: "@ + a
            &&& r.session == (SessionModel {
                pending: None,
                banner: r.session.banner,
                status: r.session.status,
                ..m
            })
            &&& r.effects.len() == 1
            &&& r.effects[0] is SendApproval
            &&& r.effects[0]->request_id == m.pending->0.request_id
            &&& a == "approve"@ ==> r.effects[0]->approved && !r.effects[0]->always
            &&& a == "always"@ ==> r.effects[0]->approved && r.effects[0]->always
            &&& a == "deny"@ ==> !r.effects[0]->approved && !r.effects[0]->always
        }),
{
    reveal_strlit("");
    reveal_strlit("approve");
    reveal_strlit("always");
    reveal_strlit("deny");
    assert("approve"@.len() == 7 && "always"@.len() == 6 && "deny"@.len() == 4);
}

/// Of an event of the chat stream only an answer is announced, and only where
/// the window cannot be seen. No event touches the microphone, the thread or
/// the mode of listening; only a request for approval raises one, only a
/// sub-agent's event changes the cards, and only an answer or a piece of one
/// changes what is to be spoken.
pub proof fn law_events_keep_to_their_own(
    m: SessionModel,
    ev: gateway::EventModel,
    window_visible: bool,
    clock: Seq<char>,
)
    ensures
        ({
            let r = chat_step(m, ev, window_visible, clock);
            let s = r.session;
            &&& s.mic_muted == m.mic_muted && s.mic_active == m.mic_active && s.wake_word_only
                == m.wake_word_only && s.voice_ready == m.voice_ready
            &&& s.screen_share_on == m.screen_share_on && s.thread == m.thread
            &&& !(ev is ApprovalNeeded) ==> s.pending == m.pending && s.banner == m.banner
                && s.expanded == m.expanded
            &&& !(ev is SubAgentStarted || ev is SubAgentProgress || ev is SubAgentCompleted)
                ==> s.sub_agents == m.sub_agents
            &&& !(ev is Response || ev is StreamChunk) ==> s.buffer == m.buffer && s.splitter
                == m.splitter && s.speech == m.speech && s.streaming == m.streaming
            &&& !(ev is Response || ev is StreamChunk || ev is ToolStarted || ev is ToolCompleted
                || ev is ToolResult) ==> s.transcript == m.transcript
            &&& !(ev is Response) || window_visible ==> r.effects.len() == 0
        }),
{
}

/// The status line says what an event is about.
pub proof fn law_status_line(
    m: SessionModel,
    ev: gateway::EventModel,
    window_visible: bool,
    clock: Seq<char>,
)
    ensures
        ({
            let status = chat_step(m, ev, window_visible, clock).session.status;
            &&& ev matches gateway::EventModel::Status { message } ==> status == message
            &&& ev matches gateway::EventModel::Thinking { message } ==> status == message
            &&& ev matches gateway::EventModel::Error { message } ==> status == "error: "@ + message
            &&& ev matches gateway::EventModel::ToolStarted { name } ==> status == "tool: "@ + name
            &&& ev matches gateway::EventModel::ToolCompleted { name, success: true } ==> status
                == "tool "@ + name + " ok"@
            &&& ev matches gateway::EventModel::ToolCompleted { name, success: false } ==> status
                == "tool "@ + name + " FAILED"@
            &&& ev is Response ==> status == "ready"@
        }),
{
}

/// A tool that starts is shown by a row with an arrow and ticked off in that row
/// when it has finished.
pub proof fn law_tools_are_shown(
    m: SessionModel,
    name: Seq<char>,
    success: bool,
    window_visible: bool,
    clock: Seq<char>,
)
    ensures
        ({
            let a = chat_step(
                m,
                gateway::EventModel::ToolStarted { name },
                window_visible,
                clock,
            ).session;
            let b = chat_step(
                a,
                gateway::EventModel::ToolCompleted { name, success },
                window_visible,
                clock,
            ).session;
            &&& a.transcript == m.transcript.push(
                transcript::row(transcript::RowKind::Tool, "→ "@ + name, clock),
            )
            &&& success ==> b.transcript == m.transcript.push(
                transcript::row(transcript::RowKind::Tool, "✓ "@ + name, clock),
            )
            &&& !success ==> b.transcript == m.transcript.push(
                transcript::row(transcript::RowKind::Tool, "✗ "@ + name, clock),
            )
        }),
{
    let t = m.transcript.push(transcript::row(transcript::RowKind::Tool, "→ "@ + name, clock));
    let n = m.transcript.len() as int;
    assert(("→ "@ + name).is_prefix_of(t[n].body));
    transcript::law_finished_tool_is_marked(t, name, success, n);
    assert(t.update(n, transcript::row(transcript::RowKind::Tool, "✓ "@ + name, clock))
        =~= m.transcript.push(transcript::row(transcript::RowKind::Tool, "✓ "@ + name, clock)));
    assert(t.update(n, transcript::row(transcript::RowKind::Tool, "✗ "@ + name, clock))
        =~= m.transcript.push(transcript::row(transcript::RowKind::Tool, "✗ "@ + name, clock)));
}

/// A request for approval is held and shown in the banner, and unfolds the
/// panel.
pub proof fn law_requests_are_held(
    m: SessionModel,
    request_id: Seq<char>,
    tool_name: Seq<char>,
    description: Seq<char>,
    parameters: Seq<char>,
    window_visible: bool,
    clock: Seq<char>,
)
    ensures
        ({
            let s = chat_step(
                m,
                gateway::EventModel::ApprovalNeeded {
                    request_id,
                    tool_name,
                    description,
                    parameters,
                },
                window_visible,
                clock,
            ).session;
            &&& s.pending is Some
            &&& s.pending->0.request_id == request_id
            &&& s.pending->0.tool_name == tool_name
            &&& s.banner.request_id == request_id
            &&& s.banner.tool_name == tool_name
            &&& s.banner.description == description
            &&& s.expanded
        }),
{
}

/// An answer that the user cannot see is announced, cut to 120 characters.
pub proof fn law_unseen_answers_are_announced(
    m: SessionModel,
    content: Seq<char>,
    clock: Seq<char>,
)
    ensures
        ({
            let r = chat_step(m, gateway::EventModel::Response { content }, false, clock);
            &&& r.effects.len() == 1
            &&& r.effects[0] is Notify
            &&& r.effects[0]->title == "JARVIS"@
            &&& content.len() <= 120 ==> r.effects[0]->body == content
            &&& content.len() > 120 ==> r.effects[0]->body == content.take(120) + "…"@
        }),
{
}

proof fn lemma_spoken_ink_concat(
    a: Seq<splitter::SentenceModel>,
    b: Seq<splitter::SentenceModel>,
)
    ensures
        splitter::spoken_ink(a + b) == splitter::spoken_ink(a) + splitter::spoken_ink(b),
    decreases a.len(),
{
    if a.len() == 0 {
        assert(a + b =~= b);
        assert(splitter::spoken_ink(a) + splitter::spoken_ink(b) =~= splitter::spoken_ink(b));
    } else {
        assert((a + b).drop_first() =~= a.drop_first() + b);
        lemma_spoken_ink_concat(a.drop_first(), b);
        assert(splitter::spoken_ink(a + b) =~= splitter::spoken_ink(a) + splitter::spoken_ink(b));
    }
}

/// An answer that comes in one piece is cut into sentences without losing
/// anything but white space, and the last of them ends a paragraph.
pub proof fn law_answers_are_spoken_whole(answer: Seq<char>)
    ensures
        splitter::spoken_ink(sentences_of(answer)) == text::ink(answer),
        text::ink(splitter::split(
            splitter::SplitterModel { buf: answer, line: splitter::Line::Fresh },
        ).rest.buf).len() > 0 ==> sentences_of(answer).len() > 0
            && sentences_of(answer).last().ends_paragraph,
{
    let buf = Seq::<char>::empty() + answer;
    assert(buf =~= answer);
    let s = splitter::split(splitter::SplitterModel { buf, line: splitter::Line::Fresh });
    splitter::law_splitting_keeps_ink(
        splitter::SplitterModel { buf, line: splitter::Line::Fresh },
    );
    let t = text::trim_spec(s.rest.buf);
    text::lemma_trim_keeps_ink(s.rest.buf);
    let tail = tail_of(s.rest);
    lemma_spoken_ink_concat(s.sentences, tail);
    assert(text::ink(Seq::<char>::empty()) =~= Seq::<char>::empty()) by {
        reveal(Seq::filter);
    }
    if t.len() == 0 {
        assert(t =~= Seq::<char>::empty());
        assert(splitter::spoken_ink(tail) =~= Seq::<char>::empty());
    } else {
        assert(tail.drop_first() =~= Seq::<splitter::SentenceModel>::empty());
        assert(splitter::spoken_ink(tail.drop_first()) =~= Seq::<char>::empty());
        assert(splitter::spoken_ink(tail) =~= text::ink(t));
    }
}

/// Once an answer is complete, nothing of it is left in progress; what was
/// streamed of it is not spoken again, only what was not yet spoken.
pub proof fn law_complete_answers_leave_nothing(
    m: SessionModel,
    content: Seq<char>,
    clock: Seq<char>,
)
    ensures
        ({
            let s = after_response(m, content, clock);
            &&& s.buffer.len() == 0
            &&& s.splitter.buf.len() == 0
            &&& s.splitter.line == splitter::Line::Fresh
            &&& !s.streaming
            &&& m.buffer.len() == 0 ==> s.speech == m.speech + speech::worth_saying(
                sentences_of(content),
            )
            &&& m.buffer.len() > 0 && text::trim_spec(m.splitter.buf).len() == 0 ==> s.speech
                == m.speech
            &&& m.buffer.len() > 0 && text::trim_spec(m.splitter.buf).len() > 0 ==> s.speech
                == m.speech + speech::worth_saying(
                seq![
                    splitter::SentenceModel {
                        text: text::trim_spec(m.splitter.buf),
                        ends_paragraph: true,
                    },
                ],
            )
        }),
{
    reveal(Seq::filter);
    if m.buffer.len() > 0 && text::trim_spec(m.splitter.buf).len() == 0 {
        assert(speech::worth_saying(tail_of(m.splitter)) =~= Seq::empty());
        assert(after_response(m, content, clock).speech =~= m.speech);
    }
}

/// Effects are what their models say, one by one.
pub proof fn law_models_are_the_effects(s: Seq<Effect>, i: int)
    requires
        0 <= i < s.len(),
    ensures
        effects(s).len() == s.len(),
        s[i] is HaltAudio <==> effects(s)[i] is HaltAudio,
        s[i] is ResumeAudio <==> effects(s)[i] is ResumeAudio,
        s[i] is RaiseWindow <==> effects(s)[i] is RaiseWindow,
        s[i] matches Effect::SendChat { text, thread, with_screen } ==> {
            &&& effects(s)[i] is SendChat
            &&& effects(s)[i]->text == text@
            &&& effects(s)[i]->with_screen == with_screen
            &&& thread is None ==> effects(s)[i]->thread is None
            &&& thread is Some ==> effects(s)[i]->thread == Some(thread->0@)
        },
        s[i] matches Effect::SendApproval { request_id, approved, always } ==> effects(s)[i] == (
        EffectModel::SendApproval { request_id: request_id@, approved, always }),
        s[i] matches Effect::Notify { title, body } ==> effects(s)[i] == (EffectModel::Notify {
            title: title@,
            body: body@,
        }),
{
}

/// A session is what its model says.
pub proof fn law_model_is_the_session(s: Session)
    ensures
        s@.mic_muted == s.mic_muted && s@.mic_active == s.mic_active,
        s@.screen_share_on == s.screen_share_on && s@.voice_ready == s.voice_ready,
        s@.wake_word_only == s.wake_word_only && s@.stop_requested == s.stop_requested,
        s@.streaming == s.streaming_active && s@.expanded == s.expanded,
        s@.buffer == s.streaming_buffer@ && s@.status == s.status@,
        s@.splitter == s.splitter@ && s@.speech == s.speech@,
        s@.transcript == s.transcript@ && s@.sub_agents == s.sub_agents@,
        s.current_thread_id is None <==> s@.thread is None,
        s.current_thread_id matches Some(t) ==> s@.thread == Some(t@),
        s.pending_approval is None <==> s@.pending is None,
        s.pending_approval matches Some(p) ==> s@.pending->0.request_id == p.request_id@
            && s@.pending->0.tool_name == p.tool_name@,
        s@.banner.request_id == s.banner.request_id@,
        s@.banner.tool_name == s.banner.tool_name@,
        s@.banner.description == s.banner.description@,
{
}

} // verus!
