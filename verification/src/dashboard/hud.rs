//! The heads-up display: everything that it shows, and what it does about what
//! it hears, reads and is told.
//!
//! The display holds state only. Each event is a method that changes the state
//! and returns the actions that the surroundings have to take, in order.

use vstd::prelude::*;

use crate::dashboard::arc::ArcState;
use crate::dashboard::mic::MicState;
use crate::dashboard::speech;
use crate::dashboard::speech::SpeechQueue;
use crate::dashboard::sse;
use crate::dashboard::sse::ChatEvent;
use crate::dashboard::streaming;
use crate::dashboard::streaming::SttEvent;
use crate::dashboard::voice;
use crate::dashboard::voice::SentenceSplitter;
use crate::desktop::voice_intent;
use crate::desktop::voice_intent::{lowered, parse_approval_intent, phrase_of};
use crate::json;
use crate::json::{parse_json, str_member};
use crate::text;
use crate::text::{is_blank, is_empty, joined, spells, trimmed};

verus! {

/// Who said something.
#[derive(Clone, Copy, Debug, PartialEq, Eq, Structural)]
pub enum Role {
    User,
    Assistant,
}

/// One message of the transcript.
#[derive(Clone, Debug)]
pub struct Message {
    pub role: Role,
    pub content: String,
}

/// What a message holds.
#[verifier::ext_equal]
pub struct MessageModel {
    pub role: Role,
    pub content: Seq<char>,
}

impl View for Message {
    type V = MessageModel;

    open spec fn view(&self) -> MessageModel {
        MessageModel { role: self.role, content: self.content@ }
    }
}

/// A tool call that waits for the user's word. The agent is held up until it is
/// answered.
#[derive(Clone, Debug)]
pub struct ApprovalRequest {
    pub request_id: String,
    pub tool_name: String,
    pub description: String,
    pub parameters: String,
}

/// What an approval request holds.
#[verifier::ext_equal]
pub struct RequestModel {
    pub request_id: Seq<char>,
    pub tool_name: Seq<char>,
    pub description: Seq<char>,
    pub parameters: Seq<char>,
}

impl View for ApprovalRequest {
    type V = RequestModel;

    open spec fn view(&self) -> RequestModel {
        RequestModel {
            request_id: self.request_id@,
            tool_name: self.tool_name@,
            description: self.description@,
            parameters: self.parameters@,
        }
    }
}

/// What the surroundings have to do.
#[derive(Debug)]
pub enum Action {
    /// Create the audio output, inside the user's gesture.
    PrepareAudio,
    /// Ask for the microphone and report how that went.
    OpenMic,
    /// Mute or unmute the microphone.
    MuteMic(bool),
    /// Let the microphone listen again.
    MicToIdle,
    /// Tell the microphone that JARVIS speaks.
    MicSpeaking,
    /// Stop playback and drop what is queued.
    HaltAudio,
    /// Let playback go on.
    ResumeAudio,
    /// Start the speech worker.
    StartSpeech,
    /// Send a chat message, with a screenshot if one waits.
    SendChat { content: String, screenshot: Option<String> },
    /// Answer an approval request.
    PostApproval { request_id: String, action: &'static str },
    /// Ask the streaming recogniser for the final transcript.
    Finalize,
    /// Send the recording to be transcribed and report how that went.
    Transcribe,
    /// Float the window whenever the tab is hidden.
    InstallAutoPip,
    /// Float the window and report how that went.
    Pin,
    /// Close the floating window.
    Unpin,
    /// Ask for a screen to share and report how that went.
    StartShare,
    /// Stop sharing the screen.
    StopShare,
}

/// What an action holds.
#[verifier::ext_equal]
pub enum ActionModel {
    PrepareAudio,
    OpenMic,
    MuteMic(bool),
    MicToIdle,
    MicSpeaking,
    HaltAudio,
    ResumeAudio,
    StartSpeech,
    SendChat { content: Seq<char>, screenshot: Option<Seq<char>> },
    PostApproval { request_id: Seq<char>, action: Seq<char> },
    Finalize,
    Transcribe,
    InstallAutoPip,
    Pin,
    Unpin,
    StartShare,
    StopShare,
}

/// The text of an optional string.
pub open spec fn opt_text(s: Option<String>) -> Option<Seq<char>> {
    match s {
        Some(x) => Some(x@),
        None => None,
    }
}

impl View for Action {
    type V = ActionModel;

    open spec fn view(&self) -> ActionModel {
        match self {
            Action::PrepareAudio => ActionModel::PrepareAudio,
            Action::OpenMic => ActionModel::OpenMic,
            Action::MuteMic(b) => ActionModel::MuteMic(*b),
            Action::MicToIdle => ActionModel::MicToIdle,
            Action::MicSpeaking => ActionModel::MicSpeaking,
            Action::HaltAudio => ActionModel::HaltAudio,
            Action::ResumeAudio => ActionModel::ResumeAudio,
            Action::StartSpeech => ActionModel::StartSpeech,
            Action::SendChat { content, screenshot } => ActionModel::SendChat {
                content: content@,
                screenshot: opt_text(*screenshot),
            },
            Action::PostApproval { request_id, action } => ActionModel::PostApproval {
                request_id: request_id@,
                action: action@,
            },
            Action::Finalize => ActionModel::Finalize,
            Action::Transcribe => ActionModel::Transcribe,
            Action::InstallAutoPip => ActionModel::InstallAutoPip,
            Action::Pin => ActionModel::Pin,
            Action::Unpin => ActionModel::Unpin,
            Action::StartShare => ActionModel::StartShare,
            Action::StopShare => ActionModel::StopShare,
        }
    }
}

/// The models of a sequence of actions.
pub open spec fn actions(s: Seq<Action>) -> Seq<ActionModel> {
    s.map_values(|a: Action| a@)
}

/// The models of a sequence of messages.
pub open spec fn messages_of(s: Seq<Message>) -> Seq<MessageModel> {
    s.map_values(|m: Message| m@)
}

/// Everything that the display shows or remembers.
pub struct Hud {
    pub token_ready: bool,
    pub arc_state: ArcState,
    pub status_line: String,
    pub messages: Vec<Message>,
    /// The answer in progress.
    pub streaming_buffer: Option<String>,
    pub tts_enabled: bool,
    pub stt_ready: bool,
    pub tts_ready: bool,
    pub muted: bool,
    /// Whether there is a microphone to talk to.
    pub mic_open: bool,
    pub mic_initialized: bool,
    /// A screenshot for the next message only.
    pub pending_screenshot: Option<String>,
    pub screen_streaming: bool,
    pub pip_pinned: bool,
    pub splitter: SentenceSplitter,
    pub speech: SpeechQueue,
    /// What the user is saying, as far as it is recognised.
    pub interim_stt: Option<String>,
    pub pending_approval: Option<ApprovalRequest>,
}

/// What the display holds.
#[verifier::ext_equal]
pub struct HudModel {
    pub token_ready: bool,
    pub arc: ArcState,
    pub status: Seq<char>,
    pub messages: Seq<MessageModel>,
    pub streaming: Option<Seq<char>>,
    pub tts_enabled: bool,
    pub stt_ready: bool,
    pub tts_ready: bool,
    pub muted: bool,
    pub mic_open: bool,
    pub mic_initialized: bool,
    pub screenshot: Option<Seq<char>>,
    pub sharing: bool,
    pub pinned: bool,
    pub splitter: Seq<char>,
    pub speech: speech::SpeechModel,
    pub interim: Option<Seq<char>>,
    pub pending: Option<RequestModel>,
}

impl View for Hud {
    type V = HudModel;

    open spec fn view(&self) -> HudModel {
        HudModel {
            token_ready: self.token_ready,
            arc: self.arc_state,
            status: self.status_line@,
            messages: messages_of(self.messages@),
            streaming: opt_text(self.streaming_buffer),
            tts_enabled: self.tts_enabled,
            stt_ready: self.stt_ready,
            tts_ready: self.tts_ready,
            muted: self.muted,
            mic_open: self.mic_open,
            mic_initialized: self.mic_initialized,
            screenshot: opt_text(self.pending_screenshot),
            sharing: self.screen_streaming,
            pinned: self.pip_pinned,
            splitter: self.splitter@,
            speech: self.speech@,
            interim: opt_text(self.interim_stt),
            pending: match self.pending_approval {
                Some(r) => Some(r@),
                None => None,
            },
        }
    }
}

/// The display after an event, and what has to be done.
#[verifier::ext_equal]
pub struct Step {
    pub hud: HudModel,
    pub acts: Seq<ActionModel>,
}

/// The display with another reactor state and status line.
pub open spec fn shown(m: HudModel, arc: ArcState, status: Seq<char>) -> HudModel {
    HudModel { arc, status, ..m }
}

/// The display with one more message of the user's.
pub open spec fn with_user(m: HudModel, content: Seq<char>) -> HudModel {
    HudModel { messages: m.messages.push(MessageModel { role: Role::User, content }), ..m }
}

/// The display that has handed its screenshot out.
pub open spec fn screenshot_taken(m: HudModel) -> HudModel {
    HudModel { screenshot: None, ..m }
}

/// The phrases that stop JARVIS when they are all that was said.
pub open spec fn stops(p: Seq<char>) -> bool {
    ||| p == "stop"@
    ||| p == "halt"@
    ||| p == "silence"@
    ||| p == "enough"@
    ||| p == "quiet"@
    ||| p == "shutup"@
    ||| p == "shut up"@
}

/// Whether an utterance, in lower case, is a stop word and nothing else.
pub open spec fn is_stop(lower: Seq<char>, alnum: spec_fn(char) -> bool) -> bool {
    stops(voice_intent::phrase(lower, alnum))
}

/// The answer that an utterance, in lower case, gives to an approval request.
pub open spec fn reply(lower: Seq<char>, alnum: spec_fn(char) -> bool) -> Option<Seq<char>> {
    voice_intent::answer(text::runs(lower, alnum))
}

/// Whether the entire utterance is a stop word. "stop, I have another idea" is
/// not: the user wants to redirect JARVIS, not to silence it.
pub fn parse_stop_intent(s: &str) -> (r: bool)
    ensures
        r == is_stop(text::lowercase(s@), text::alnum()),
        text::all_ascii(s@) ==> r == is_stop(text::ascii_lowered(s@), text::ascii_alnum()),
{
    let lower = lowered(s);
    let phrase = phrase_of(lower.as_slice());
    let p = phrase.as_slice();
    spells(p, "stop") || spells(p, "halt") || spells(p, "silence") || spells(p, "enough") || spells(
        p,
        "quiet",
    ) || spells(p, "shutup") || spells(p, "shut up")
}

/// What an utterance says to a pending approval request: its answer, and where
/// it has none a stop word denies.
pub open spec fn verdict(stop: bool, answer: Option<Seq<char>>) -> Option<Seq<char>> {
    if answer is None && stop {
        Some("deny"@)
    } else {
        answer
    }
}

/// What saying `said` to a pending approval request does.
pub open spec fn answer_step(m: HudModel, said: Option<Seq<char>>) -> Step {
    match said {
        Some(action) => Step {
            hud: HudModel {
                pending: None,
                ..shown(
                    with_user(m, "[approval: "@ + action + "]"@),
                    ArcState::Thinking,
                    "approval: "@ + action,
                )
            },
            acts: seq![
                ActionModel::PostApproval { request_id: m.pending->0.request_id, action },
            ],
        },
        None => Step {
            hud: HudModel { status: "waiting for approval (say yes or no)"@, ..m },
            acts: Seq::empty(),
        },
    }
}

fn verdict_of(stop: bool, answer: Option<&'static str>) -> (r: Option<&'static str>)
    ensures
        answer is Some ==> r == answer,
        answer is None && stop ==> r == Some("deny"),
        answer is None && !stop ==> r is None,
{
    if stop && answer.is_none() {
        Some("deny")
    } else {
        answer
    }
}

/// What a final transcript does, where `t` is the transcript without white
/// space around it, `stop` whether it is a stop word and `answer` what it says
/// to an approval request.
pub open spec fn final_step(
    m0: HudModel,
    t: Seq<char>,
    stop: bool,
    answer: Option<Seq<char>>,
) -> Step {
    let m = HudModel { interim: None, ..m0 };
    if t.len() == 0 {
        Step { hud: HudModel { arc: ArcState::Idle, ..m }, acts: Seq::empty() }
    } else if m.pending is None && stop {
        Step {
            hud: HudModel {
                speech: speech::SpeechModel { waiting: Seq::empty(), ..m.speech },
                ..shown(m, ArcState::Idle, "stopped"@)
            },
            acts: seq![ActionModel::HaltAudio, ActionModel::ResumeAudio, ActionModel::MicToIdle],
        }
    } else if m.pending is Some {
        answer_step(m, verdict(stop, answer))
    } else {
        Step {
            hud: screenshot_taken(
                shown(with_user(m, t), ArcState::Thinking, "waiting on JARVIS..."@),
            ),
            acts: seq![ActionModel::SendChat { content: t, screenshot: m.screenshot }],
        }
    }
}

/// What an event of the recogniser does, with the lower case and the letters
/// and digits of Unicode.
pub open spec fn stt_step(m: HudModel, ev: streaming::SttModel) -> Step {
    match ev {
        streaming::SttModel::Interim(t) => Step {
            hud: if m.arc == ArcState::Listening || m.arc == ArcState::Thinking {
                HudModel { interim: Some(t), ..m }
            } else {
                m
            },
            acts: Seq::empty(),
        },
        streaming::SttModel::Final(s) => {
            let t = text::trim_spec(s);
            let lower = text::lowercase(t);
            final_step(m, t, is_stop(lower, text::alnum()), reply(lower, text::alnum()))
        },
    }
}

/// The display after sentences were said, with the speech worker started if it
/// has to be.
pub open spec fn say_step(m: HudModel, sentences: Seq<Seq<char>>) -> Step {
    let after = speech::all_said(m.speech, sentences);
    Step {
        hud: HudModel { speech: after, ..m },
        acts: if !m.speech.running && after.running {
            seq![ActionModel::StartSpeech]
        } else {
            Seq::empty()
        },
    }
}

/// Whether answers are read aloud.
pub open spec fn speaks(m: HudModel) -> bool {
    m.tts_enabled && m.tts_ready
}

/// What an event of the chat stream does.
pub open spec fn chat_step(m: HudModel, ev: sse::EventModel) -> Step {
    match ev {
        sse::EventModel::Response { content } => {
            let tail = text::trim_spec(m.splitter);
            let flushed = HudModel {
                splitter: Seq::empty(),
                messages: m.messages.push(MessageModel { role: Role::Assistant, content }),
                streaming: None,
                status: "ready"@,
                ..m
            };
            if speaks(m) {
                say_step(
                    flushed,
                    if tail.len() == 0 {
                        Seq::empty()
                    } else {
                        seq![tail]
                    },
                )
            } else {
                Step {
                    hud: HudModel { arc: ArcState::Idle, ..flushed },
                    acts: seq![ActionModel::MicToIdle],
                }
            }
        },
        sse::EventModel::StreamChunk { content } => {
            let shown = HudModel {
                streaming: Some(
                    match m.streaming {
                        Some(s) => s + content,
                        None => content,
                    },
                ),
                arc: ArcState::Speaking,
                ..m
            };
            let first = if m.arc == ArcState::Speaking {
                Seq::empty()
            } else {
                seq![ActionModel::MicSpeaking]
            };
            if speaks(m) {
                let split = voice::split(m.splitter + content);
                let s = say_step(HudModel { splitter: split.rest, ..shown }, split.sentences);
                Step { hud: s.hud, acts: first + s.acts }
            } else {
                Step { hud: shown, acts: first }
            }
        },
        sse::EventModel::Status(msg) => Step {
            hud: HudModel { status: msg, ..m },
            acts: Seq::empty(),
        },
        sse::EventModel::ToolStarted { name } => Step {
            hud: HudModel { status: "tool: "@ + name, ..m },
            acts: Seq::empty(),
        },
        sse::EventModel::ToolCompleted { name, success } => Step {
            hud: HudModel {
                status: "tool "@ + name + if success {
                    " ✓"@
                } else {
                    " ✗"@
                },
                ..m
            },
            acts: Seq::empty(),
        },
        sse::EventModel::ApprovalNeeded { request_id, tool_name, description, parameters } => {
            let asked = HudModel {
                pending: Some(RequestModel { request_id, tool_name, description, parameters }),
                ..shown(
                    m,
                    ArcState::Idle,
                    "approval needed: "@ + tool_name + " (say yes or no)"@,
                )
            };
            if speaks(m) {
                say_step(
                    asked,
                    seq!["Permission needed for "@ + tool_name + ". Say yes or no."@],
                )
            } else {
                Step { hud: asked, acts: Seq::empty() }
            }
        },
    }
}

/// How booting went.
#[derive(Debug)]
pub enum Boot {
    /// No token: nothing works.
    NoToken(String),
    /// A token, but the chat events could not be subscribed to.
    NoEvents(String),
    /// All is well.
    Up,
}

/// What a click on the mute button does.
pub open spec fn toggle_mute_step(m: HudModel) -> Step {
    if !m.muted {
        Step {
            hud: HudModel { muted: true, ..shown(m, ArcState::Idle, "muted"@) },
            acts: if m.mic_open {
                seq![ActionModel::MuteMic(true)]
            } else {
                Seq::empty()
            },
        }
    } else if m.mic_open {
        Step {
            hud: HudModel { muted: false, ..shown(m, ArcState::Idle, "listening"@) },
            acts: seq![ActionModel::MuteMic(false)],
        }
    } else {
        start_mic_step(HudModel { muted: false, ..m })
    }
}

/// What starting the microphone does: an open one is unmuted.
pub open spec fn start_mic_step(m: HudModel) -> Step {
    if m.mic_open {
        Step { hud: HudModel { muted: false, ..m }, acts: seq![ActionModel::MuteMic(false)] }
    } else {
        Step {
            hud: shown(m, ArcState::Listening, "opening mic..."@),
            acts: seq![ActionModel::PrepareAudio, ActionModel::OpenMic],
        }
    }
}

/// What the transcript of a recording does.
pub open spec fn transcribed_step(m: HudModel, s: Seq<char>) -> Step {
    let t = text::trim_spec(s);
    if t.len() == 0 {
        Step {
            hud: shown(m, ArcState::Idle, "(no speech recognized)"@),
            acts: seq![ActionModel::MicToIdle],
        }
    } else {
        Step {
            hud: screenshot_taken(with_user(m, t)),
            acts: seq![
                ActionModel::MicToIdle,
                ActionModel::SendChat { content: t, screenshot: m.screenshot },
            ],
        }
    }
}

/// Nothing to do.
fn nothing() -> (out: Vec<Action>)
    ensures
        actions(out@) == Seq::<ActionModel>::empty(),
{
    let out: Vec<Action> = Vec::new();
    assert(actions(out@) =~= Seq::<ActionModel>::empty());
    out
}

impl Hud {
    /// The display at boot.
    pub fn new() -> (r: Self)
        ensures
            r@ == (HudModel {
                token_ready: false,
                arc: ArcState::Idle,
                status: "booting"@,
                messages: Seq::empty(),
                streaming: None,
                tts_enabled: true,
                stt_ready: false,
                tts_ready: false,
                muted: false,
                mic_open: false,
                mic_initialized: false,
                screenshot: None,
                sharing: false,
                pinned: false,
                splitter: Seq::empty(),
                speech: speech::SpeechModel { waiting: Seq::empty(), running: false },
                interim: None,
                pending: None,
            }),
    {
        let r = Hud {
            token_ready: false,
            arc_state: ArcState::Idle,
            status_line: "booting".to_owned(),
            messages: Vec::new(),
            streaming_buffer: None,
            tts_enabled: true,
            stt_ready: false,
            tts_ready: false,
            muted: false,
            mic_open: false,
            mic_initialized: false,
            pending_screenshot: None,
            screen_streaming: false,
            pip_pinned: false,
            splitter: SentenceSplitter::new(),
            speech: SpeechQueue::new(),
            interim_stt: None,
            pending_approval: None,
        };
        assert(r@.messages =~= Seq::<MessageModel>::empty());
        r
    }

    fn show(&mut self, arc: ArcState, status: &str)
        ensures
            final(self)@ == shown(old(self)@, arc, status@),
            final(self).pending_approval == old(self).pending_approval,
            final(self).pending_screenshot == old(self).pending_screenshot,
    {
        self.arc_state = arc;
        self.status_line = status.to_owned();
    }

    fn add_user(&mut self, content: String)
        ensures
            final(self)@ == with_user(old(self)@, content@),
            final(self).pending_approval == old(self).pending_approval,
            final(self).pending_screenshot == old(self).pending_screenshot,
    {
        let m = Message { role: Role::User, content };
        self.messages.push(m);
        assert(self@.messages =~= old(self)@.messages.push(m@));
    }

    /// Hands out a message to send, with the screenshot that waits for it.
    fn take_chat(&mut self, content: String) -> (a: Action)
        ensures
            final(self)@ == screenshot_taken(old(self)@),
            a@ == (ActionModel::SendChat { content: content@, screenshot: old(self)@.screenshot }),
    {
        let screenshot = self.pending_screenshot.take();
        Action::SendChat { content, screenshot }
    }

    /// The token was fetched and the chat events subscribed to, or not.
    pub fn booted(&mut self, outcome: Boot)
        ensures
            final(self)@ == match outcome {
                Boot::NoToken(e) => shown(
                    old(self)@,
                    ArcState::Error,
                    "token fetch failed: "@ + e@,
                ),
                Boot::NoEvents(_) => HudModel {
                    token_ready: true,
                    ..shown(old(self)@, ArcState::Error, "ready"@)
                },
                Boot::Up => HudModel { token_ready: true, status: "ready"@, ..old(self)@ },
            },
    {
        match outcome {
            Boot::NoToken(e) => {
                let s = joined("token fetch failed: ", e.as_str());
                self.show(ArcState::Error, s.as_str());
            },
            Boot::NoEvents(_) => {
                self.token_ready = true;
                self.show(ArcState::Error, "ready");
            },
            Boot::Up => {
                self.token_ready = true;
                self.status_line = "ready".to_owned();
            },
        }
    }

    /// The gateway said which parts of the voice pipeline are up.
    pub fn voice_status(&mut self, stt_ready: bool, tts_ready: bool)
        ensures
            final(self)@ == (HudModel { stt_ready, tts_ready, ..old(self)@ }),
    {
        self.stt_ready = stt_ready;
        self.tts_ready = tts_ready;
    }

    /// Opens the microphone, or unmutes the one that is open.
    pub fn start_mic(&mut self) -> (out: Vec<Action>)
        ensures
            final(self)@ == start_mic_step(old(self)@).hud,
            actions(out@) == start_mic_step(old(self)@).acts,
    {
        let mut out: Vec<Action> = Vec::new();
        if self.mic_open {
            self.muted = false;
            out.push(Action::MuteMic(false));
        } else {
            self.show(ArcState::Listening, "opening mic...");
            out.push(Action::PrepareAudio);
            out.push(Action::OpenMic);
        }
        assert(actions(out@) =~= start_mic_step(old(self)@).acts);
        out
    }

    /// The microphone opened, or did not.
    pub fn mic_opened(&mut self, outcome: Result<(), String>) -> (out: Vec<Action>)
        ensures
            outcome is Ok ==> final(self)@ == (HudModel {
                mic_open: true,
                mic_initialized: true,
                muted: false,
                ..shown(old(self)@, ArcState::Idle, "listening"@)
            }) && actions(out@) == seq![ActionModel::InstallAutoPip],
            outcome matches Err(e) ==> final(self)@ == shown(
                old(self)@,
                ArcState::Error,
                "mic failed: "@ + e@,
            ) && out@.len() == 0,
    {
        let mut out: Vec<Action> = Vec::new();
        match outcome {
            Ok(()) => {
                self.mic_open = true;
                self.show(ArcState::Idle, "listening");
                self.muted = false;
                self.mic_initialized = true;
                out.push(Action::InstallAutoPip);
                assert(actions(out@) =~= seq![ActionModel::InstallAutoPip]);
            },
            Err(e) => {
                let s = joined("mic failed: ", e.as_str());
                self.show(ArcState::Error, s.as_str());
            },
        }
        out
    }

    /// The mute button was clicked.
    pub fn toggle_mute(&mut self) -> (out: Vec<Action>)
        ensures
            final(self)@ == toggle_mute_step(old(self)@).hud,
            actions(out@) == toggle_mute_step(old(self)@).acts,
    {
        let mut out: Vec<Action> = Vec::new();
        if !self.muted {
            self.muted = true;
            if self.mic_open {
                out.push(Action::MuteMic(true));
            }
            self.show(ArcState::Idle, "muted");
        } else {
            self.muted = false;
            if self.mic_open {
                out.push(Action::MuteMic(false));
                self.show(ArcState::Idle, "listening");
            } else {
                return self.start_mic();
            }
        }
        assert(actions(out@) =~= toggle_mute_step(old(self)@).acts);
        out
    }

    /// The reactor was clicked: the first time that opens the microphone,
    /// later it mutes and unmutes.
    pub fn reactor_click(&mut self) -> (out: Vec<Action>)
        ensures
            ({
                let s = if old(self)@.mic_open {
                    toggle_mute_step(old(self)@)
                } else {
                    start_mic_step(old(self)@)
                };
                final(self)@ == s.hud && actions(out@) == s.acts
            }),
    {
        if self.mic_open {
            self.toggle_mute()
        } else {
            self.start_mic()
        }
    }

    /// The user finished speaking, and it was speech. What was still to be
    /// heard of the last answer is dropped. A recogniser that is alive is asked
    /// for the transcript, else the recording is sent to be transcribed.
    pub fn on_utterance(&mut self, stream_alive: bool) -> (out: Vec<Action>)
        ensures
            final(self)@ == shown(
                old(self)@,
                ArcState::Thinking,
                if stream_alive {
                    "finalizing transcript..."@
                } else {
                    "transcribing..."@
                },
            ),
            actions(out@) == if stream_alive {
                seq![ActionModel::HaltAudio, ActionModel::Finalize, ActionModel::MicToIdle]
            } else {
                seq![ActionModel::HaltAudio, ActionModel::Transcribe]
            },
    {
        let mut out: Vec<Action> = Vec::new();
        out.push(Action::HaltAudio);
        if stream_alive {
            self.show(ArcState::Thinking, "finalizing transcript...");
            out.push(Action::Finalize);
            out.push(Action::MicToIdle);
            assert(actions(out@) =~= seq![
                ActionModel::HaltAudio,
                ActionModel::Finalize,
                ActionModel::MicToIdle,
            ]);
        } else {
            self.show(ArcState::Thinking, "transcribing...");
            out.push(Action::Transcribe);
            assert(actions(out@) =~= seq![ActionModel::HaltAudio, ActionModel::Transcribe]);
        }
        out
    }

    /// The recording was transcribed.
    pub fn transcribed(&mut self, s: &str) -> (out: Vec<Action>)
        ensures
            final(self)@ == transcribed_step(old(self)@, s@).hud,
            actions(out@) == transcribed_step(old(self)@, s@).acts,
    {
        let mut out: Vec<Action> = Vec::new();
        out.push(Action::MicToIdle);
        if is_blank(s) {
            self.show(ArcState::Idle, "(no speech recognized)");
        } else {
            let t = trimmed(s);
            self.add_user(t.clone());
            let a = self.take_chat(t);
            out.push(a);
        }
        assert(actions(out@) =~= transcribed_step(old(self)@, s@).acts);
        out
    }

    /// The recording could not be transcribed.
    pub fn transcription_failed(&mut self, e: &str) -> (out: Vec<Action>)
        ensures
            final(self)@ == shown(old(self)@, ArcState::Error, "STT failed: "@ + e@),
            actions(out@) == seq![ActionModel::MicToIdle],
    {
        let s = joined("STT failed: ", e);
        self.show(ArcState::Error, s.as_str());
        let mut out: Vec<Action> = Vec::new();
        out.push(Action::MicToIdle);
        assert(actions(out@) =~= seq![ActionModel::MicToIdle]);
        out
    }

    /// A transcribed recording was sent.
    pub fn recording_sent(&mut self)
        ensures
            final(self)@ == (HudModel { status: "waiting on JARVIS..."@, ..old(self)@ }),
    {
        self.status_line = "waiting on JARVIS...".to_owned();
    }

    /// A message could not be sent.
    pub fn send_failed(&mut self, e: &str)
        ensures
            final(self)@ == shown(old(self)@, ArcState::Error, "send failed: "@ + e@),
    {
        let s = joined("send failed: ", e);
        self.show(ArcState::Error, s.as_str());
    }

    /// The user speaks over JARVIS. Playback goes on until it is known to be
    /// speech: an echo or a noise must not silence JARVIS.
    pub fn on_barge_in(&mut self)
        ensures
            final(self)@ == shown(old(self)@, ArcState::Listening, "listening (over JARVIS)"@),
    {
        self.show(ArcState::Listening, "listening (over JARVIS)");
    }

    /// What sounded like the user was no speech.
    pub fn on_silero_reject(&mut self) -> (out: Vec<Action>)
        ensures
            final(self)@ == shown(old(self)@, ArcState::Speaking, "speaking..."@),
            actions(out@) == seq![ActionModel::ResumeAudio],
    {
        self.show(ArcState::Speaking, "speaking...");
        let mut out: Vec<Action> = Vec::new();
        out.push(Action::ResumeAudio);
        assert(actions(out@) =~= seq![ActionModel::ResumeAudio]);
        out
    }

    /// The user typed a message; one of white space alone is not sent.
    pub fn send_typed(&mut self, content: &str) -> (out: Vec<Action>)
        ensures
            text::trim_spec(content@).len() == 0 ==> final(self)@ == old(self)@ && out@.len() == 0,
            text::trim_spec(content@).len() > 0 ==> final(self)@ == screenshot_taken(
                shown(
                    with_user(old(self)@, content@),
                    ArcState::Thinking,
                    "waiting on JARVIS..."@,
                ),
            ) && actions(out@) == seq![
                ActionModel::SendChat { content: content@, screenshot: old(self)@.screenshot },
            ],
    {
        let mut out: Vec<Action> = Vec::new();
        if is_blank(content) {
            return out;
        }
        let owned = content.to_owned();
        self.add_user(owned.clone());
        self.show(ArcState::Thinking, "waiting on JARVIS...");
        let a = self.take_chat(owned);
        out.push(a);
        assert(actions(out@) =~= seq![
            ActionModel::SendChat { content: content@, screenshot: old(self)@.screenshot },
        ]);
        out
    }

    /// Handles one event of the streaming recogniser.
    pub fn handle_stt_event(&mut self, ev: SttEvent) -> (out: Vec<Action>)
        ensures
            final(self)@ == stt_step(old(self)@, ev@).hud,
            actions(out@) == stt_step(old(self)@, ev@).acts,
            ev matches SttEvent::Final(s) ==> text::all_ascii(s@) ==> {
                let t = text::trim_spec(s@);
                let lower = text::ascii_lowered(t);
                let e = final_step(
                    old(self)@,
                    t,
                    is_stop(lower, text::ascii_alnum()),
                    reply(lower, text::ascii_alnum()),
                );
                final(self)@ == e.hud && actions(out@) == e.acts
            },
    {
        match ev {
            SttEvent::Interim(t) => {
                if self.arc_state == ArcState::Listening || self.arc_state == ArcState::Thinking {
                    self.interim_stt = Some(t);
                }
                nothing()
            },
            SttEvent::Final(s) => {
                let t = trimmed(s.as_str());
                proof {
                    if text::all_ascii(s@) {
                        let q = |c: char| c as u32 <= 0x7f;
                        assert(text::only(s@, q));
                        text::lemma_trim_only(s@, q);
                        assert forall|i: int| 0 <= i < t@.len() implies (#[trigger] t@[i]) as u32
                            <= 0x7f by {
                            assert(q(t@[i]));
                        }
                    }
                }
                let stop = parse_stop_intent(t.as_str());
                let answer = parse_approval_intent(t.as_str());
                self.heard(t, stop, answer)
            },
        }
    }

    /// Handles a final transcript.
    fn heard(&mut self, t: String, stop: bool, answer: Option<&'static str>) -> (out: Vec<Action>)
        ensures
            ({
                let e = final_step(
                    old(self)@,
                    t@,
                    stop,
                    match answer {
                        Some(a) => Some(a@),
                        None => None,
                    },
                );
                final(self)@ == e.hud && actions(out@) == e.acts
            }),
    {
        let ghost m = HudModel { interim: None, ..self@ };
        self.interim_stt = None;
        assert(self@ =~= m);
        if is_empty(t.as_str()) {
            self.arc_state = ArcState::Idle;
            assert(self@ =~= HudModel { arc: ArcState::Idle, ..m });
            nothing()
        } else if self.pending_approval.is_some() {
            self.heard_answer(stop, answer)
        } else if stop {
            self.heard_stop()
        } else {
            self.heard_chat(t)
        }
    }

    fn heard_stop(&mut self) -> (out: Vec<Action>)
        ensures
            final(self)@ == (HudModel {
                speech: speech::SpeechModel { waiting: Seq::empty(), ..old(self)@.speech },
                ..shown(old(self)@, ArcState::Idle, "stopped"@)
            }),
            actions(out@) == seq![
                ActionModel::HaltAudio,
                ActionModel::ResumeAudio,
                ActionModel::MicToIdle,
            ],
    {
        self.speech.clear();
        let mut out: Vec<Action> = Vec::new();
        out.push(Action::HaltAudio);
        out.push(Action::ResumeAudio);
        out.push(Action::MicToIdle);
        self.show(ArcState::Idle, "stopped");
        assert(actions(out@) =~= seq![
            ActionModel::HaltAudio,
            ActionModel::ResumeAudio,
            ActionModel::MicToIdle,
        ]);
        out
    }

    /// Handles what was said to a pending approval request.
    fn heard_answer(&mut self, stop: bool, answer: Option<&'static str>) -> (out: Vec<Action>)
        requires
            old(self).pending_approval is Some,
        ensures
            ({
                let e = answer_step(
                    old(self)@,
                    verdict(
                        stop,
                        match answer {
                            Some(a) => Some(a@),
                            None => None,
                        },
                    ),
                );
                final(self)@ == e.hud && actions(out@) == e.acts
            }),
    {
        let said = verdict_of(stop, answer);
        let mut out: Vec<Action> = Vec::new();
        match said {
            Some(action) => {
                let mut note = joined("[approval: ", action);
                note.push_str("]");
                self.add_user(note);
                let status = joined("approval: ", action);
                self.show(ArcState::Thinking, status.as_str());
                if let Some(r) = self.pending_approval.take() {
                    out.push(Action::PostApproval { request_id: r.request_id, action });
                }
                assert(actions(out@) =~= seq![
                    ActionModel::PostApproval {
                        request_id: old(self)@.pending->0.request_id,
                        action: action@,
                    },
                ]);
            },
            None => {
                self.status_line = "waiting for approval (say yes or no)".to_owned();
                assert(actions(out@) =~= Seq::<ActionModel>::empty());
            },
        }
        out
    }

    fn heard_chat(&mut self, t: String) -> (out: Vec<Action>)
        ensures
            final(self)@ == screenshot_taken(
                shown(with_user(old(self)@, t@), ArcState::Thinking, "waiting on JARVIS..."@),
            ),
            actions(out@) == seq![
                ActionModel::SendChat { content: t@, screenshot: old(self)@.screenshot },
            ],
    {
        self.add_user(t.clone());
        self.show(ArcState::Thinking, "waiting on JARVIS...");
        let a = self.take_chat(t);
        let mut out: Vec<Action> = Vec::new();
        out.push(a);
        assert(actions(out@) =~= seq![a@]);
        out
    }

    /// Says sentences; the speech worker is started if it has to be.
    fn say_all(&mut self, sentences: &Vec<String>, out: &mut Vec<Action>)
        ensures
            final(self)@ == say_step(old(self)@, text::texts(sentences@)).hud,
            actions(final(out)@) == actions(old(out)@) + say_step(
                old(self)@,
                text::texts(sentences@),
            ).acts,
    {
        let ghost before = out@;
        if self.speech.say_all(sentences) {
            out.push(Action::StartSpeech);
            assert(actions(out@) =~= actions(before) + seq![ActionModel::StartSpeech]);
        } else {
            assert(actions(out@) =~= actions(before) + Seq::<ActionModel>::empty());
        }
    }

    /// Handles one event of the chat stream.
    pub fn handle_chat_event(&mut self, ev: ChatEvent) -> (out: Vec<Action>)
        ensures
            final(self)@ == chat_step(old(self)@, ev@).hud,
            actions(out@) == chat_step(old(self)@, ev@).acts,
    {
        match ev {
            ChatEvent::Response { content } => self.on_response(content),
            ChatEvent::StreamChunk { content } => self.on_chunk(content),
            ChatEvent::Status(msg) => {
                self.status_line = msg;
                nothing()
            },
            ChatEvent::ToolStarted { name } => {
                self.status_line = joined("tool: ", name.as_str());
                nothing()
            },
            ChatEvent::ToolCompleted { name, success } => {
                let mut s = joined("tool ", name.as_str());
                s.push_str(
                    if success {
                        " ✓"
                    } else {
                        " ✗"
                    },
                );
                self.status_line = s;
                nothing()
            },
            ChatEvent::ApprovalNeeded { request_id, tool_name, description, parameters } => {
                self.on_approval_needed(
                    ApprovalRequest { request_id, tool_name, description, parameters },
                )
            },
        }
    }

    fn on_response(&mut self, content: String) -> (out: Vec<Action>)
        ensures
            final(self)@ == chat_step(
                old(self)@,
                sse::EventModel::Response { content: content@ },
            ).hud,
            actions(out@) == chat_step(
                old(self)@,
                sse::EventModel::Response { content: content@ },
            ).acts,
    {
        let ghost before = self@;
        let mut out = nothing();
        let tail = self.splitter.finish();
        let m = Message { role: Role::Assistant, content };
        self.messages.push(m);
        assert(self@.messages =~= before.messages.push(m@));
        self.streaming_buffer = None;
        self.status_line = "ready".to_owned();
        if self.tts_enabled && self.tts_ready {
            let mut sentences: Vec<String> = Vec::new();
            if let Some(s) = tail {
                sentences.push(s);
            }
            proof {
                let t = text::trim_spec(before.splitter);
                assert(text::texts(sentences@) =~= if t.len() == 0 {
                    Seq::empty()
                } else {
                    seq![t]
                });
            }
            self.say_all(&sentences, &mut out);
        } else {
            self.arc_state = ArcState::Idle;
            out.push(Action::MicToIdle);
            assert(actions(out@) =~= seq![ActionModel::MicToIdle]);
        }
        out
    }

    fn on_chunk(&mut self, content: String) -> (out: Vec<Action>)
        ensures
            final(self)@ == chat_step(
                old(self)@,
                sse::EventModel::StreamChunk { content: content@ },
            ).hud,
            actions(out@) == chat_step(
                old(self)@,
                sse::EventModel::StreamChunk { content: content@ },
            ).acts,
    {
        let mut out = nothing();
        let grown = match self.streaming_buffer.take() {
            Some(s) => joined(s.as_str(), content.as_str()),
            None => content.clone(),
        };
        self.streaming_buffer = Some(grown);
        if self.arc_state != ArcState::Speaking {
            self.arc_state = ArcState::Speaking;
            out.push(Action::MicSpeaking);
            assert(actions(out@) =~= seq![ActionModel::MicSpeaking]);
        }
        if self.tts_enabled && self.tts_ready {
            let sentences = self.splitter.push(content.as_str());
            self.say_all(&sentences, &mut out);
        }
        out
    }

    fn on_approval_needed(&mut self, r: ApprovalRequest) -> (out: Vec<Action>)
        ensures
            ({
                let e = chat_step(
                    old(self)@,
                    sse::EventModel::ApprovalNeeded {
                        request_id: r.request_id@,
                        tool_name: r.tool_name@,
                        description: r.description@,
                        parameters: r.parameters@,
                    },
                );
                final(self)@ == e.hud && actions(out@) == e.acts
            }),
    {
        let mut out = nothing();
        let mut status = joined("approval needed: ", r.tool_name.as_str());
        status.push_str(" (say yes or no)");
        let mut prompt = joined("Permission needed for ", r.tool_name.as_str());
        prompt.push_str(". Say yes or no.");
        self.pending_approval = Some(r);
        self.show(ArcState::Idle, status.as_str());
        if self.tts_enabled && self.tts_ready {
            let ghost p = prompt@;
            let mut sentences: Vec<String> = Vec::new();
            sentences.push(prompt);
            assert(text::texts(sentences@) =~= seq![p]);
            self.say_all(&sentences, &mut out);
        }
        out
    }

    /// One of the buttons "approve", "always" and "deny" was clicked.
    pub fn answer_click(&mut self, action: &'static str) -> (out: Vec<Action>)
        ensures
            final(self)@ == (HudModel { pending: None, ..old(self)@ }),
            actions(out@) == match old(self)@.pending {
                Some(r) => seq![
                    ActionModel::PostApproval { request_id: r.request_id, action: action@ },
                ],
                None => Seq::empty(),
            },
    {
        let mut out: Vec<Action> = Vec::new();
        if let Some(r) = self.pending_approval.take() {
            out.push(Action::PostApproval { request_id: r.request_id, action });
        }
        assert(actions(out@) =~= match old(self)@.pending {
            Some(r) => seq![
                ActionModel::PostApproval { request_id: r.request_id, action: action@ },
            ],
            None => Seq::empty(),
        });
        out
    }

    /// The button that floats the window was clicked.
    pub fn pin_click(&mut self) -> (a: Action)
        ensures
            final(self)@ == (HudModel { pinned: false, ..old(self)@ }),
            a@ == if old(self)@.pinned {
                ActionModel::Unpin
            } else {
                ActionModel::Pin
            },
    {
        if self.pip_pinned {
            self.pip_pinned = false;
            Action::Unpin
        } else {
            Action::Pin
        }
    }

    /// The window floats, or no longer does.
    pub fn pinned(&mut self, now: bool)
        ensures
            final(self)@ == (HudModel { pinned: now, ..old(self)@ }),
    {
        self.pip_pinned = now;
    }

    /// The button that shares the screen was clicked; `active` is whether a
    /// stream is alive.
    pub fn share_click(&mut self, active: bool) -> (a: Action)
        ensures
            old(self)@.sharing || active ==> a@ == ActionModel::StopShare && final(self)@
                == (HudModel {
                sharing: false,
                status: "screen share stopped"@,
                ..old(self)@
            }),
            !(old(self)@.sharing || active) ==> a@ == ActionModel::StartShare && final(self)@
                == (HudModel { status: "waiting for screen pick..."@, ..old(self)@ }),
    {
        if self.screen_streaming || active {
            self.screen_streaming = false;
            self.status_line = "screen share stopped".to_owned();
            Action::StopShare
        } else {
            self.status_line = "waiting for screen pick...".to_owned();
            Action::StartShare
        }
    }

    /// A screen was picked, or not.
    pub fn share_started(&mut self, outcome: Result<(), String>)
        ensures
            outcome is Ok ==> final(self)@ == (HudModel {
                sharing: true,
                status: "screen sharing live — JARVIS sees a fresh frame every voice turn"@,
                ..old(self)@
            }),
            outcome matches Err(e) ==> final(self)@ == (HudModel {
                status: "screen share: "@ + e@,
                ..old(self)@
            }),
    {
        match outcome {
            Ok(()) => {
                self.screen_streaming = true;
                self.status_line =
                "screen sharing live — JARVIS sees a fresh frame every voice turn".to_owned();
            },
            Err(e) => {
                self.status_line = joined("screen share: ", e.as_str());
            },
        }
    }

    /// The button that switches the voice on and off was clicked.
    pub fn toggle_tts(&mut self)
        ensures
            final(self)@ == (HudModel { tts_enabled: !old(self)@.tts_enabled, ..old(self)@ }),
    {
        self.tts_enabled = !self.tts_enabled;
    }

    /// What an empty transcript shows in place of messages: a headline and an
    /// invitation. None while there is anything to show.
    pub fn empty_state(&self) -> (r: Option<(&'static str, &'static str)>)
        ensures
            r is Some <==> self@.messages.len() == 0 && self@.streaming is None
                && self@.interim is None,
            r matches Some((top, bottom)) ==> if !self@.mic_initialized {
                top@ == "// READY ON COMMAND."@ && bottom@
                    == "Click the reactor to bring the mic online, or type below."@
            } else if self@.muted {
                top@ == "// SYSTEMS NOMINAL — MIC MUTED."@ && bottom@
                    == "Unmute to speak, or type below."@
            } else {
                top@ == "// SYSTEMS NOMINAL."@ && bottom@ == "Listening. Speak or type."@
            },
    {
        if self.messages.len() == 0 && self.streaming_buffer.is_none()
            && self.interim_stt.is_none() {
            if !self.mic_initialized {
                Some(
                    (
                        "// READY ON COMMAND.",
                        "Click the reactor to bring the mic online, or type below.",
                    ),
                )
            } else if self.muted {
                Some(("// SYSTEMS NOMINAL — MIC MUTED.", "Unmute to speak, or type below."))
            } else {
                Some(("// SYSTEMS NOMINAL.", "Listening. Speak or type."))
            }
        } else {
            None
        }
    }

    /// Which lamps of the telemetry strip are lit: gateway, recogniser, voice,
    /// model.
    pub fn telemetry(&self) -> (r: (bool, bool, bool, bool))
        ensures
            r == (
                self@.token_ready,
                self@.stt_ready && !self@.muted,
                self@.tts_ready,
                self@.token_ready,
            ),
    {
        (self.token_ready, self.stt_ready && !self.muted, self.tts_ready, self.token_ready)
    }
}

/// Whether recorded audio goes to the streaming recogniser: only while the user
/// is speaking, so that noise between turns is not transcribed.
pub fn streams_audio(state: MicState) -> (r: bool)
    ensures
        r == (state == MicState::Listening),
{
    state == MicState::Listening
}

/// Whether a transcript that is scrolled to within 80 pixels of its end follows
/// new content.
pub fn pinned_to_bottom(scroll_top: i32, scroll_height: i32, client_height: i32) -> (r: bool)
    ensures
        r == (scroll_height - scroll_top - client_height <= 80),
{
    scroll_height as i64 - scroll_top as i64 - client_height as i64 <= 80
}

/// How an attempt to reach the streaming recogniser went.
#[derive(Clone, Copy, Debug, PartialEq, Eq, Structural)]
pub enum Probe {
    /// Its address could not be fetched.
    ConfigFailed,
    /// It is still starting.
    NotReady,
    /// It did not take the connection.
    ConnectFailed,
    /// It is connected.
    Connected,
}

/// How many attempts are made.
pub const PROBE_ATTEMPTS: u32 = 10;

/// How long to wait after the given attempt, in milliseconds, before the next
/// one; none when there is no next one.
pub fn next_probe(attempt: u32, outcome: Probe) -> (wait_ms: Option<u32>)
    ensures
        wait_ms == if outcome == Probe::Connected || attempt >= PROBE_ATTEMPTS {
            None
        } else if outcome == Probe::ConfigFailed {
            Some(1500u32)
        } else {
            Some(2000u32)
        },
{
    if outcome == Probe::Connected || attempt >= PROBE_ATTEMPTS {
        None
    } else if outcome == Probe::ConfigFailed {
        Some(1500)
    } else {
        Some(2000)
    }
}

/// What of a tool call's parameters matters most to the user: a label and a
/// text.
#[verifier::ext_equal]
pub struct KeyParam {
    pub label: Seq<char>,
    pub value: Seq<char>,
}

/// Whether `key` is a string member that is not empty.
pub open spec fn filled(m: json::JsonModel, key: Seq<char>) -> bool {
    m.strings.contains_key(key) && m.strings[key].len() > 0
}

/// What of an object matters most: where something moves from and to, else a
/// path, else an address, else a command, else a query.
pub open spec fn key_param(m: json::JsonModel) -> Option<KeyParam> {
    if m.strings.contains_key("from"@) && m.strings.contains_key("to"@) {
        Some(
            KeyParam {
                label: "MOVE"@,
                value: m.strings["from"@] + " → "@ + m.strings["to"@],
            },
        )
    } else if filled(m, "path"@) {
        Some(KeyParam { label: "PATH"@, value: m.strings["path"@] })
    } else if filled(m, "url"@) {
        Some(KeyParam { label: "URL"@, value: m.strings["url"@] })
    } else if filled(m, "command"@) {
        Some(KeyParam { label: "CMD"@, value: m.strings["command"@] })
    } else if filled(m, "query"@) {
        Some(KeyParam { label: "QUERY"@, value: m.strings["query"@] })
    } else {
        None
    }
}

/// The string member `key`, if it is not empty.
fn filled_member(v: &serde_json::Value, key: &str) -> (r: Option<String>)
    ensures
        r is Some <==> filled(json::json_model(*v), key@),
        r matches Some(s) ==> s@ == json::json_model(*v).strings[key@],
{
    match str_member(v, key) {
        Some(s) => if is_empty(s.as_str()) {
            None
        } else {
            Some(s)
        },
        None => None,
    }
}

/// What of a parsed parameter object matters most to the user.
pub fn key_param_of(v: &serde_json::Value) -> (r: Option<(&'static str, String)>)
    ensures
        r is Some <==> key_param(json::json_model(*v)) is Some,
        r matches Some((label, value)) ==> key_param(json::json_model(*v)) == Some(
            (KeyParam { label: label@, value: value@ }),
        ),
{
    let from = str_member(v, "from");
    let to = str_member(v, "to");
    if let Some(f) = from {
        if let Some(t) = to {
            let mut s = joined(f.as_str(), " → ");
            s.push_str(t.as_str());
            return Some(("MOVE", s));
        }
    }
    if let Some(s) = filled_member(v, "path") {
        return Some(("PATH", s));
    }
    if let Some(s) = filled_member(v, "url") {
        return Some(("URL", s));
    }
    if let Some(s) = filled_member(v, "command") {
        return Some(("CMD", s));
    }
    if let Some(s) = filled_member(v, "query") {
        return Some(("QUERY", s));
    }
    None
}

/// What of a tool call's parameters, as JSON, matters most to the user, so that
/// it need not be looked for: none where the text is not JSON or nothing
/// notable is found. Which tool it is makes no difference.
pub fn extract_key_param(_tool_name: &str, params_json: &str) -> (r: Option<
    (&'static str, String),
>)
    ensures
        ({
            let e = match json::json_of(params_json@) {
                Some(m) => key_param(m),
                None => None,
            };
            &&& r is Some <==> e is Some
            &&& r matches Some((label, value)) ==> e == Some(
                (KeyParam { label: label@, value: value@ }),
            )
        }),
{
    match parse_json(params_json) {
        Some(v) => key_param_of(&v),
        None => None,
    }
}

/// While an approval is pending, nothing that is said goes to the agent as a
/// chat message and nothing stops JARVIS: it answers the request, or the
/// request stays. A stop word denies it.
pub proof fn law_pending_approval_holds_the_floor(
    m: HudModel,
    t: Seq<char>,
    stop: bool,
    answer: Option<Seq<char>>,
)
    requires
        m.pending is Some,
        t.len() > 0,
    ensures
        ({
            let s = final_step(m, t, stop, answer);
            &&& s.hud.speech == m.speech
            &&& answer is None && !stop ==> s.hud.pending == m.pending && s.acts.len() == 0
                && s.hud.messages == m.messages
            &&& answer is None && stop ==> s.hud.pending is None && s.acts == seq![
                ActionModel::PostApproval {
                    request_id: m.pending->0.request_id,
                    action: "deny"@,
                },
            ]
            &&& answer matches Some(a) ==> s.hud.pending is None && s.acts == seq![
                ActionModel::PostApproval { request_id: m.pending->0.request_id, action: a },
            ]
        }),
{
}

/// A spoken stop silences JARVIS and is not sent: what waited to be spoken is
/// dropped, playback is halted, and the transcript stays as it was.
pub proof fn law_spoken_stop_silences(m: HudModel, t: Seq<char>, answer: Option<Seq<char>>)
    requires
        m.pending is None,
        t.len() > 0,
    ensures
        ({
            let s = final_step(m, t, true, answer);
            &&& s.hud.speech.waiting.len() == 0
            &&& s.hud.messages == m.messages
            &&& s.acts.contains(ActionModel::HaltAudio)
            &&& forall|i: int| 0 <= i < s.acts.len() ==> !((#[trigger] s.acts[i]) is SendChat)
        }),
{
    let s = final_step(m, t, true, answer);
    assert(s.acts[0] == ActionModel::HaltAudio);
}

/// The display after several events of the chat stream.
pub open spec fn after_events(m: HudModel, evs: Seq<sse::EventModel>) -> HudModel
    decreases evs.len(),
{
    if evs.len() == 0 {
        m
    } else {
        chat_step(after_events(m, evs.drop_last()), evs.last()).hud
    }
}

/// A stream chunk for each piece of text.
pub open spec fn chunks(pieces: Seq<Seq<char>>) -> Seq<sse::EventModel> {
    pieces.map_values(|p: Seq<char>| sse::EventModel::StreamChunk { content: p })
}

/// The answer in progress is what has been streamed of it, in order; the
/// complete answer takes its place in the transcript.
pub proof fn law_streamed_text_is_shown(m: HudModel, pieces: Seq<Seq<char>>, content: Seq<char>)
    requires
        m.streaming is None,
    ensures
        ({
            let during = after_events(m, chunks(pieces));
            let after = chat_step(during, sse::EventModel::Response { content }).hud;
            &&& pieces.len() > 0 ==> during.streaming == Some(pieces.flatten())
            &&& during.messages == m.messages
            &&& after.streaming is None
            &&& after.messages == m.messages.push(
                MessageModel { role: Role::Assistant, content },
            )
        }),
    decreases pieces.len(),
{
    if pieces.len() > 0 {
        let shorter = pieces.drop_last();
        law_streamed_text_is_shown(m, shorter, content);
        assert(chunks(pieces).drop_last() =~= chunks(shorter));
        assert(chunks(pieces).last() == (sse::EventModel::StreamChunk { content: pieces.last() }));
        assert(shorter.push(pieces.last()) =~= pieces);
        shorter.lemma_flatten_push(pieces.last());
        if shorter.len() == 0 {
            assert(shorter =~= Seq::<Seq<char>>::empty());
            assert(shorter.flatten() =~= Seq::<char>::empty());
            assert(pieces.flatten() =~= pieces.last());
        }
    }
}

/// The speech worker is asked to start only when it is not at work, and is at
/// work from then on: there is never a second one.
pub proof fn law_one_speech_worker(m: HudModel, ev: sse::EventModel)
    ensures
        ({
            let s = chat_step(m, ev);
            s.acts.contains(ActionModel::StartSpeech) <==> !m.speech.running
                && s.hud.speech.running
        }),
{
    let s = chat_step(m, ev);
    if s.acts.contains(ActionModel::StartSpeech) {
        let i = choose|i: int| 0 <= i < s.acts.len() && s.acts[i] == ActionModel::StartSpeech;
        assert(s.acts[i] == ActionModel::StartSpeech);
    }
    if !m.speech.running && s.hud.speech.running {
        assert(s.acts.last() == ActionModel::StartSpeech);
    }
}

/// What halts speech.
pub open spec fn stop_phrases() -> Seq<Seq<char>> {
    seq![
        "stop"@,
        "halt"@,
        "silence"@,
        "enough"@,
        "quiet"@,
        "shutup"@,
        "shut up"@,
    ]
}

/// An utterance stops JARVIS if and only if it is one of these phrases.
pub proof fn law_stop_phrases(lower: Seq<char>, alnum: spec_fn(char) -> bool)
    ensures
        is_stop(lower, alnum) <==> stop_phrases().contains(voice_intent::phrase(lower, alnum)),
        reply(lower, alnum) == voice_intent::answer(text::runs(lower, alnum)),
{
    let l = stop_phrases();
    assert(l[0] == "stop"@);
    assert(l[1] == "halt"@);
    assert(l[2] == "silence"@);
    assert(l[3] == "enough"@);
    assert(l[4] == "quiet"@);
    assert(l[5] == "shutup"@);
    assert(l[6] == "shut up"@);
}

/// An utterance that neither stops nor answers is a chat turn: it is shown as
/// the user's, sent with the screenshot that waits, which is gone then, and
/// nothing else changes but the reactor and the status line.
pub proof fn law_talk_is_a_chat_turn(m: HudModel, t: Seq<char>, answer: Option<Seq<char>>)
    requires
        m.pending is None,
        t.len() > 0,
    ensures
        ({
            let s = final_step(m, t, false, answer);
            &&& s.hud == (HudModel {
                interim: None,
                messages: m.messages.push(MessageModel { role: Role::User, content: t }),
                arc: ArcState::Thinking,
                status: "waiting on JARVIS..."@,
                screenshot: None,
                ..m
            })
            &&& s.acts == seq![ActionModel::SendChat { content: t, screenshot: m.screenshot }]
        }),
{
}

/// A spoken stop empties what waits to be spoken and halts the audio, which may
/// go on afterwards; nothing else changes but the reactor and the status line.
/// An utterance of nothing changes nothing but the reactor.
pub proof fn law_stop_empties_the_queue(
    m: HudModel,
    t: Seq<char>,
    stop: bool,
    answer: Option<Seq<char>>,
)
    ensures
        m.pending is None && t.len() > 0 && stop ==> {
            let s = final_step(m, t, stop, answer);
            &&& s.hud == (HudModel {
                interim: None,
                speech: speech::SpeechModel { waiting: Seq::empty(), running: m.speech.running },
                arc: ArcState::Idle,
                status: "stopped"@,
                ..m
            })
            &&& s.acts == seq![
                ActionModel::HaltAudio,
                ActionModel::ResumeAudio,
                ActionModel::MicToIdle,
            ]
        },
        t.len() == 0 ==> {
            let s = final_step(m, t, stop, answer);
            &&& s.hud == (HudModel { interim: None, arc: ArcState::Idle, ..m })
            &&& s.acts.len() == 0
        },
{
}

/// An answer to a pending request is posted under the request's own id and shown
/// as the user's; the request is gone then. A stop without an answer denies it,
/// and anything else leaves it waiting.
pub proof fn law_answers_settle_the_request(
    m: HudModel,
    t: Seq<char>,
    stop: bool,
    answer: Option<Seq<char>>,
)
    requires
        m.pending is Some,
        t.len() > 0,
    ensures
        ({
            let s = final_step(m, t, stop, answer);
            let said = if answer is Some {
                answer->0
            } else {
                "deny"@
            };
            &&& answer is Some || stop ==> s.hud == (HudModel {
                interim: None,
                pending: None,
                messages: m.messages.push(
                    MessageModel { role: Role::User, content: "[approval: "@ + said + "]"@ },
                ),
                arc: ArcState::Thinking,
                status: "approval: "@ + said,
                ..m
            }) && s.acts == seq![
                ActionModel::PostApproval { request_id: m.pending->0.request_id, action: said },
            ]
            &&& answer is None && !stop ==> s.hud == (HudModel {
                interim: None,
                status: "waiting for approval (say yes or no)"@,
                ..m
            }) && s.acts.len() == 0
        }),
{
}

/// What is being said is shown while the reactor listens or thinks, and not
/// otherwise.
pub proof fn law_interim_text_is_shown(m: HudModel, t: Seq<char>)
    ensures
        ({
            let s = stt_step(m, streaming::SttModel::Interim(t));
            &&& m.arc == ArcState::Listening || m.arc == ArcState::Thinking ==> s.hud == (HudModel {
                interim: Some(t),
                ..m
            })
            &&& m.arc != ArcState::Listening && m.arc != ArcState::Thinking ==> s.hud == m
            &&& s.acts.len() == 0
        }),
{
}

/// An event of the chat stream says what it is about in the status line. None
/// touches the microphone, the screen or what the user is saying; only a request
/// for approval raises one, and only an answer or a piece of one changes the
/// talk.
pub proof fn law_events_keep_to_their_own(m: HudModel, ev: sse::EventModel)
    ensures
        ({
            let s = chat_step(m, ev).hud;
            &&& s.muted == m.muted && s.mic_open == m.mic_open && s.mic_initialized
                == m.mic_initialized
            &&& s.screenshot == m.screenshot && s.sharing == m.sharing && s.pinned == m.pinned
            &&& s.interim == m.interim && s.token_ready == m.token_ready
            &&& s.tts_enabled == m.tts_enabled && s.tts_ready == m.tts_ready && s.stt_ready
                == m.stt_ready
            &&& !(ev is ApprovalNeeded) ==> s.pending == m.pending
            &&& !(ev is Response) ==> s.messages == m.messages
            &&& !(ev is Response || ev is StreamChunk) ==> s.streaming == m.streaming && s.splitter
                == m.splitter
            &&& ev matches sse::EventModel::Status(msg) ==> s.status == msg
            &&& ev matches sse::EventModel::ToolStarted { name } ==> s.status == "tool: "@ + name
            &&& ev matches sse::EventModel::ToolCompleted { name, success: true } ==> s.status
                == "tool "@ + name + " ✓"@
            &&& ev matches sse::EventModel::ToolCompleted { name, success: false } ==> s.status
                == "tool "@ + name + " ✗"@
            &&& ev is Response ==> s.status == "ready"@
            &&& ev is Status || ev is ToolStarted || ev is ToolCompleted ==> s.arc == m.arc
                && s.speech == m.speech && chat_step(m, ev).acts.len() == 0
        }),
{
}

/// A request for approval is held with all that it says and shown; where answers
/// are read aloud, the user is asked for it.
pub proof fn law_requests_are_held(
    m: HudModel,
    request_id: Seq<char>,
    tool_name: Seq<char>,
    description: Seq<char>,
    parameters: Seq<char>,
)
    ensures
        ({
            let ev = sse::EventModel::ApprovalNeeded {
                request_id,
                tool_name,
                description,
                parameters,
            };
            let s = chat_step(m, ev);
            &&& s.hud.pending is Some
            &&& s.hud.pending->0.request_id == request_id
            &&& s.hud.pending->0.tool_name == tool_name
            &&& s.hud.pending->0.description == description
            &&& s.hud.pending->0.parameters == parameters
            &&& s.hud.arc == ArcState::Idle
            &&& s.hud.status == "approval needed: "@ + tool_name + " (say yes or no)"@
            &&& m.tts_enabled && m.tts_ready ==> s.hud.speech == speech::said(
                m.speech,
                "Permission needed for "@ + tool_name + ". Say yes or no."@,
            )
            &&& !(m.tts_enabled && m.tts_ready) ==> s.hud.speech == m.speech && s.acts.len() == 0
        }),
{
    let one = seq!["Permission needed for "@ + tool_name + ". Say yes or no."@];
    reveal_with_fuel(speech::all_said, 2);
    assert(one.drop_last() =~= Seq::<Seq<char>>::empty());
}

/// A piece of an answer is spoken sentence by sentence where answers are read
/// aloud, and not at all otherwise; when the answer is complete, what was left
/// of it is spoken.
pub proof fn law_answers_are_read_aloud(m: HudModel, content: Seq<char>)
    ensures
        ({
            let c = chat_step(m, sse::EventModel::StreamChunk { content }).hud;
            let r = chat_step(m, sse::EventModel::Response { content });
            let aloud = m.tts_enabled && m.tts_ready;
            &&& aloud ==> c.speech == speech::all_said(
                m.speech,
                voice::split(m.splitter + content).sentences,
            ) && c.splitter == voice::split(m.splitter + content).rest
            &&& !aloud ==> c.speech == m.speech && c.splitter == m.splitter
            &&& c.arc == ArcState::Speaking
            &&& r.hud.splitter.len() == 0
            &&& aloud && text::trim_spec(m.splitter).len() > 0 ==> r.hud.speech == speech::said(
                m.speech,
                text::trim_spec(m.splitter),
            )
            &&& !aloud || text::trim_spec(m.splitter).len() == 0 ==> r.hud.speech == m.speech
            &&& !aloud ==> r.hud.arc == ArcState::Idle && r.acts == seq![ActionModel::MicToIdle]
        }),
{
    let tail = text::trim_spec(m.splitter);
    reveal_with_fuel(speech::all_said, 2);
    assert(seq![tail].drop_last() =~= Seq::<Seq<char>>::empty());
}

/// The mute button mutes and unmutes. Where there is no microphone yet, unmuting
/// asks for one.
pub proof fn law_mute_button(m: HudModel)
    ensures
        ({
            let s = toggle_mute_step(m);
            &&& s.hud.muted == !m.muted
            &&& !m.muted && m.mic_open ==> s.acts == seq![ActionModel::MuteMic(true)]
            &&& m.muted && m.mic_open ==> s.acts == seq![ActionModel::MuteMic(false)]
            &&& !m.muted && !m.mic_open ==> s.acts.len() == 0
            &&& m.muted && !m.mic_open ==> s.acts == seq![
                ActionModel::PrepareAudio,
                ActionModel::OpenMic,
            ] && s.hud.status == "opening mic..."@ && s.hud.arc == ArcState::Listening
            &&& !m.muted ==> s.hud.status == "muted"@ && s.hud.arc == ArcState::Idle
            &&& m.muted && m.mic_open ==> s.hud.status == "listening"@ && s.hud.arc
                == ArcState::Idle
            &&& s.hud.messages == m.messages && s.hud.pending == m.pending && s.hud.speech
                == m.speech
        }),
{
}

/// A recording in which something was said is a chat turn with the screenshot
/// that waits; one in which nothing was is only reported.
pub proof fn law_recordings_are_chat_turns(
    m: HudModel,
    a: Seq<char>,
    t: Seq<char>,
    b: Seq<char>,
)
    requires
        forall|k: int| 0 <= k < a.len() ==> text::is_space_spec(#[trigger] a[k]),
        forall|k: int| 0 <= k < b.len() ==> text::is_space_spec(#[trigger] b[k]),
        t.len() > 0 ==> !text::is_space_spec(t[0]) && !text::is_space_spec(t.last()),
    ensures
        ({
            let s = transcribed_step(m, a + t + b);
            &&& t.len() > 0 ==> s.hud == (HudModel {
                messages: m.messages.push(MessageModel { role: Role::User, content: t }),
                screenshot: None,
                ..m
            }) && s.acts == seq![
                ActionModel::MicToIdle,
                ActionModel::SendChat { content: t, screenshot: m.screenshot },
            ]
            &&& t.len() == 0 ==> s.hud == (HudModel {
                arc: ArcState::Idle,
                status: "(no speech recognized)"@,
                ..m
            }) && s.acts == seq![ActionModel::MicToIdle]
        }),
{
    text::law_trim_takes_the_space_around(a, t, b);
}

/// Of the parameters of a tool call a move is shown first, then a path, an
/// address, a command and a query, each if it is there and not empty.
pub proof fn law_what_matters_of_a_call(m: json::JsonModel)
    ensures
        ({
            let p = key_param(m);
            let moves = m.strings.contains_key("from"@) && m.strings.contains_key("to"@);
            let path = m.strings.contains_key("path"@) && m.strings["path"@].len() > 0;
            let url = m.strings.contains_key("url"@) && m.strings["url"@].len() > 0;
            let command = m.strings.contains_key("command"@) && m.strings["command"@].len() > 0;
            let query = m.strings.contains_key("query"@) && m.strings["query"@].len() > 0;
            &&& moves ==> p is Some && p->0.label == "MOVE"@ && p->0.value == m.strings["from"@]
                + " → "@ + m.strings["to"@]
            &&& !moves && path ==> p is Some && p->0.label == "PATH"@ && p->0.value
                == m.strings["path"@]
            &&& !moves && !path && url ==> p is Some && p->0.label == "URL"@ && p->0.value
                == m.strings["url"@]
            &&& !moves && !path && !url && command ==> p is Some && p->0.label == "CMD"@
                && p->0.value == m.strings["command"@]
            &&& !moves && !path && !url && !command && query ==> p is Some && p->0.label
                == "QUERY"@ && p->0.value == m.strings["query"@]
            &&& !moves && !path && !url && !command && !query ==> p is None
        }),
{
}

/// Messages are what their models say, one by one.
pub proof fn law_models_are_the_messages(s: Seq<Message>, i: int)
    requires
        0 <= i < s.len(),
    ensures
        messages_of(s).len() == s.len(),
        messages_of(s)[i].role == s[i].role,
        messages_of(s)[i].content == s[i].content@,
{
}

/// Actions are what their models say, one by one.
pub proof fn law_models_are_the_actions(s: Seq<Action>, i: int)
    requires
        0 <= i < s.len(),
    ensures
        actions(s).len() == s.len(),
        s[i] is PrepareAudio <==> actions(s)[i] is PrepareAudio,
        s[i] is OpenMic <==> actions(s)[i] is OpenMic,
        s[i] is MicToIdle <==> actions(s)[i] is MicToIdle,
        s[i] is MicSpeaking <==> actions(s)[i] is MicSpeaking,
        s[i] is HaltAudio <==> actions(s)[i] is HaltAudio,
        s[i] is ResumeAudio <==> actions(s)[i] is ResumeAudio,
        s[i] is StartSpeech <==> actions(s)[i] is StartSpeech,
        s[i] is Finalize <==> actions(s)[i] is Finalize,
        s[i] is Transcribe <==> actions(s)[i] is Transcribe,
        s[i] is InstallAutoPip <==> actions(s)[i] is InstallAutoPip,
        s[i] is Pin <==> actions(s)[i] is Pin,
        s[i] is Unpin <==> actions(s)[i] is Unpin,
        s[i] is StartShare <==> actions(s)[i] is StartShare,
        s[i] is StopShare <==> actions(s)[i] is StopShare,
        s[i] matches Action::MuteMic(b) ==> actions(s)[i] == ActionModel::MuteMic(b),
        s[i] matches Action::SendChat { content, screenshot } ==> {
            &&& actions(s)[i] is SendChat
            &&& actions(s)[i]->content == content@
            &&& screenshot is None ==> actions(s)[i]->screenshot is None
            &&& screenshot is Some ==> actions(s)[i]->screenshot == Some(screenshot->0@)
        },
        s[i] matches Action::PostApproval { request_id, action } ==> actions(s)[i] == (
        ActionModel::PostApproval { request_id: request_id@, action: action@ }),
{
}

/// The display is what its model says.
pub proof fn law_model_is_the_display(h: Hud)
    ensures
        h@.token_ready == h.token_ready && h@.arc == h.arc_state,
        h@.status == h.status_line@ && h@.messages == messages_of(h.messages@),
        h@.tts_enabled == h.tts_enabled && h@.tts_ready == h.tts_ready && h@.stt_ready
            == h.stt_ready,
        h@.muted == h.muted && h@.mic_open == h.mic_open && h@.mic_initialized
            == h.mic_initialized,
        h@.sharing == h.screen_streaming && h@.pinned == h.pip_pinned,
        h@.splitter == h.splitter@ && h@.speech == h.speech@,
        h.streaming_buffer is None <==> h@.streaming is None,
        h.streaming_buffer matches Some(t) ==> h@.streaming == Some(t@),
        h.pending_screenshot is None <==> h@.screenshot is None,
        h.pending_screenshot matches Some(t) ==> h@.screenshot == Some(t@),
        h.interim_stt is None <==> h@.interim is None,
        h.interim_stt matches Some(t) ==> h@.interim == Some(t@),
        h.pending_approval is None <==> h@.pending is None,
        h.pending_approval matches Some(p) ==> {
            &&& h@.pending->0.request_id == p.request_id@
            &&& h@.pending->0.tool_name == p.tool_name@
            &&& h@.pending->0.description == p.description@
            &&& h@.pending->0.parameters == p.parameters@
        },
{
}

/// The recogniser is looked for up to ten times, with a pause between attempts,
/// and not any more once it is connected.
pub proof fn law_recogniser_is_looked_for(attempt: u32, outcome: Probe, r: Option<u32>)
    requires
        call_ensures(next_probe, (attempt, outcome), r),
    ensures
        outcome == Probe::Connected ==> r is None,
        attempt >= 10 ==> r is None,
        attempt < 10 && outcome == Probe::ConfigFailed ==> r == Some(1500u32),
        attempt < 10 && outcome != Probe::ConfigFailed && outcome != Probe::Connected ==> r
            == Some(2000u32),
{
}

} // verus!
