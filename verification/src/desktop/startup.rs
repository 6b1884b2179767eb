//! Bringing the voice up: the gateway first, then the recogniser's model, then
//! the connection to it. The microphone stays off until all that is done.

use vstd::prelude::*;

use crate::json;
use crate::json::{bool_member_or, parse_json};
use crate::text;
use crate::text::{decimal, joined};
use crate::wav;
use crate::wav::encode_wav_16khz;

verus! {

/// How far the voice has come up.
#[derive(Clone, Copy, Debug, PartialEq, Eq, Structural)]
pub enum Phase {
    /// The gateway is asked whether it has a recogniser.
    Gateway,
    /// The recogniser is asked to transcribe silence: only then is its model
    /// known to be loaded.
    Model,
    /// A streaming connection is tried, and a thread is made if there is none.
    Connect,
    /// The voice is up.
    Up,
}

/// Bringing the voice up.
pub struct Startup {
    phase: Phase,
    attempts: u32,
}

/// How far bringing the voice up has come.
#[verifier::ext_equal]
pub struct StartupModel {
    pub phase: Phase,
    pub attempts: int,
}

impl View for Startup {
    type V = StartupModel;

    closed spec fn view(&self) -> StartupModel {
        StartupModel { phase: self.phase, attempts: self.attempts as int }
    }
}

/// One attempt more, unless that cannot be counted.
pub open spec fn next_attempt(n: int) -> int {
    if n < u32::MAX {
        n + 1
    } else {
        n
    }
}

/// What the status line says after the `n`-th answer of a gateway that is not
/// ready, if it says anything new.
pub open spec fn gateway_note(n: int) -> Option<Seq<char>> {
    if n == 1 || n % 3 == 0 {
        Some(
            "step 1/2 · gateway warming up ("@ + text::decimal_spec(n as nat)
                + "s) · TYPE TO CHAT ↓"@,
        )
    } else {
        None
    }
}

/// What the status line says after the `n`-th failure of the recogniser, if it
/// says anything new.
pub open spec fn model_note(n: int) -> Option<Seq<char>> {
    if n == 1 || n % 2 == 0 {
        Some(
            "step 2/2 · parakeet AI model loading ("@ + text::decimal_spec((2 * n) as nat)
                + "s, usually ~25s first launch) · TYPE TO CHAT ↓"@,
        )
    } else {
        None
    }
}

/// The state after the gateway said whether it has a recogniser.
pub open spec fn gateway_said(m: StartupModel, ready: bool) -> StartupModel {
    if ready {
        StartupModel { phase: Phase::Model, attempts: 0 }
    } else {
        StartupModel { attempts: next_attempt(m.attempts), ..m }
    }
}

/// The state after the recogniser transcribed silence, or failed to.
pub open spec fn model_said(m: StartupModel, ok: bool) -> StartupModel {
    if ok {
        StartupModel { phase: Phase::Connect, attempts: 0 }
    } else {
        StartupModel { attempts: next_attempt(m.attempts), ..m }
    }
}

/// What to do after an answer: what to show, and how long to wait before the
/// next question.
pub struct Pause {
    pub note: Option<String>,
    pub wait_ms: u64,
}

impl Startup {
    /// Nothing is known.
    pub fn new() -> (s: Self)
        ensures
            s@ == (StartupModel { phase: Phase::Gateway, attempts: 0 }),
    {
        Startup { phase: Phase::Gateway, attempts: 0 }
    }

    /// How far the voice has come up.
    pub fn phase(&self) -> (p: Phase)
        ensures
            p == self@.phase,
    {
        self.phase
    }

    fn count(&mut self)
        ensures
            final(self)@ == (StartupModel {
                attempts: next_attempt(old(self)@.attempts),
                ..old(self)@
            }),
    {
        if self.attempts < u32::MAX {
            self.attempts = self.attempts + 1;
        }
    }

    /// The gateway said whether it has a recogniser.
    pub fn gateway_replied(&mut self, stt_ready: bool) -> (p: Pause)
        requires
            old(self)@.phase == Phase::Gateway,
        ensures
            final(self)@ == gateway_said(old(self)@, stt_ready),
            ({
                let note = if stt_ready {
                    None
                } else {
                    gateway_note(next_attempt(old(self)@.attempts))
                };
                &&& p.note is Some <==> note is Some
                &&& p.note matches Some(s) ==> s@ == note->0
                &&& p.wait_ms == if stt_ready {
                    0int
                } else {
                    1000
                }
            }),
    {
        if stt_ready {
            self.phase = Phase::Model;
            self.attempts = 0;
            return Pause { note: None, wait_ms: 0 };
        }
        self.count();
        let n: u32 = self.attempts;
        let note = if n == 1 || n % 3 == 0 {
            let mut s = joined("step 1/2 · gateway warming up (", decimal(n as u64).as_str());
            s.push_str("s) · TYPE TO CHAT ↓");
            Some(s)
        } else {
            None
        };
        Pause { note, wait_ms: 1000 }
    }

    /// The recogniser transcribed silence, or failed to.
    pub fn model_replied(&mut self, ok: bool) -> (p: Pause)
        requires
            old(self)@.phase == Phase::Model,
        ensures
            final(self)@ == model_said(old(self)@, ok),
            ({
                let note = if ok {
                    None
                } else {
                    model_note(next_attempt(old(self)@.attempts))
                };
                &&& p.note is Some <==> note is Some
                &&& p.note matches Some(s) ==> s@ == note->0
                &&& p.wait_ms == if ok {
                    0int
                } else {
                    2000
                }
            }),
    {
        if ok {
            self.phase = Phase::Connect;
            self.attempts = 0;
            return Pause { note: None, wait_ms: 0 };
        }
        self.count();
        let n: u32 = self.attempts;
        let note = if n == 1 || n % 2 == 0 {
            let mut s = joined(
                "step 2/2 · parakeet AI model loading (",
                decimal(2 * n as u64).as_str(),
            );
            s.push_str("s, usually ~25s first launch) · TYPE TO CHAT ↓");
            Some(s)
        } else {
            None
        };
        Pause { note, wait_ms: 2000 }
    }

    /// The streaming connection was tried: the voice is up whether it succeeded
    /// or not, since recordings can be sent instead.
    pub fn connected(&mut self)
        requires
            old(self)@.phase == Phase::Connect,
        ensures
            final(self)@ == (StartupModel { phase: Phase::Up, ..old(self)@ }),
    {
        self.phase = Phase::Up;
    }
}

/// The recording that the recogniser is asked to transcribe: half a second of
/// silence.
pub fn probe_wav() -> (w: Vec<u8>)
    ensures
        w@ == wav::wav_file(Seq::new(8000, |i: int| 0i16), 16000),
{
    let mut silence: Vec<i16> = Vec::new();
    let mut i: usize = 0;
    while i < 8000
        invariant
            i <= 8000,
            silence@ == Seq::new(i as nat, |k: int| 0i16),
        decreases 8000 - i,
    {
        silence.push(0);
        i += 1;
        assert(silence@ =~= Seq::new(i as nat, |k: int| 0i16));
    }
    encode_wav_16khz(silence.as_slice())
}

/// Whether the gateway's answer says that it has a recogniser.
pub open spec fn says_ready(body: Seq<char>, key: Seq<char>) -> bool {
    match json::json_of(body) {
        Some(m) => json::bool_or(m, key, false),
        None => false,
    }
}

/// Whether the member `key` of a JSON text is true.
pub fn member_is_true(body: &str, key: &str) -> (r: bool)
    ensures
        r == says_ready(body@, key@),
{
    match parse_json(body) {
        Some(v) => bool_member_or(&v, key, false),
        None => false,
    }
}

/// What the lamps show, and when the gateway was last reached, in milliseconds
/// since 1970.
pub struct Telemetry {
    pub gateway_up: bool,
    pub parakeet_up: bool,
    pub elevenlabs_up: bool,
    pub claude_up: bool,
    pub last_success_ms: u64,
}

impl Telemetry {
    /// Nothing is known to be up.
    pub fn new() -> (t: Self)
        ensures
            t == (Telemetry {
                gateway_up: false,
                parakeet_up: false,
                elevenlabs_up: false,
                claude_up: false,
                last_success_ms: 0,
            }),
    {
        Telemetry {
            gateway_up: false,
            parakeet_up: false,
            elevenlabs_up: false,
            claude_up: false,
            last_success_ms: 0,
        }
    }

    /// The gateway was asked how it is: whether it answered at all, and with
    /// what.
    pub fn polled(&mut self, gateway_up: bool, body: Option<&str>, now_ms: u64)
        ensures
            final(self).gateway_up == gateway_up,
            final(self).claude_up == gateway_up,
            final(self).parakeet_up == (gateway_up && body is Some && says_ready(
                body->0@,
                "stt_ready"@,
            )),
            final(self).elevenlabs_up == (gateway_up && body is Some && says_ready(
                body->0@,
                "tts_ready"@,
            )),
            final(self).last_success_ms == if gateway_up {
                now_ms
            } else {
                old(self).last_success_ms
            },
    {
        self.gateway_up = gateway_up;
        self.claude_up = gateway_up;
        self.parakeet_up = false;
        self.elevenlabs_up = false;
        if gateway_up {
            self.last_success_ms = now_ms;
            if let Some(b) = body {
                self.parakeet_up = member_is_true(b, "stt_ready");
                self.elevenlabs_up = member_is_true(b, "tts_ready");
            }
        }
    }

    /// Whether the gateway has not been reached for more than 15 seconds. It is
    /// down as soon as it cannot be reached once.
    pub fn is_stale(&self, now_ms: u64) -> (r: bool)
        ensures
            r == (now_ms - self.last_success_ms > 15_000),
    {
        now_ms > self.last_success_ms && now_ms - self.last_success_ms > 15_000
    }
}

/// A command that goes to the gateway as a chat message.
#[derive(Clone, Copy, Debug, PartialEq, Eq, Structural)]
pub enum Command {
    Undo,
    Redo,
    Compact,
    New,
}

/// The message for a command.
pub fn command_text(c: Command) -> (s: &'static str)
    ensures
        s@ == match c {
            Command::Undo => "/undo"@,
            Command::Redo => "/redo"@,
            Command::Compact => "/compact"@,
            Command::New => "/new"@,
        },
{
    match c {
        Command::Undo => "/undo",
        Command::Redo => "/redo",
        Command::Compact => "/compact",
        Command::New => "/new",
    }
}

/// What comes in while the voice is brought up.
pub enum Answer {
    Gateway(bool),
    Model(bool),
    Connection,
}

/// The state after an answer; one that was not asked for changes nothing.
pub open spec fn answered(m: StartupModel, a: Answer) -> StartupModel {
    match a {
        Answer::Gateway(ready) => if m.phase == Phase::Gateway {
            gateway_said(m, ready)
        } else {
            m
        },
        Answer::Model(ok) => if m.phase == Phase::Model {
            model_said(m, ok)
        } else {
            m
        },
        Answer::Connection => if m.phase == Phase::Connect {
            StartupModel { phase: Phase::Up, ..m }
        } else {
            m
        },
    }
}

/// The state after several answers.
pub open spec fn all_answered(m: StartupModel, answers: Seq<Answer>) -> StartupModel
    decreases answers.len(),
{
    if answers.len() == 0 {
        m
    } else {
        answered(all_answered(m, answers.drop_last()), answers.last())
    }
}

/// Whether an answer of a kind has come in.
pub open spec fn has_come(answers: Seq<Answer>, a: Answer) -> bool {
    exists|i: int| 0 <= i < answers.len() && #[trigger] answers[i] == a
}

/// The voice is up only after the gateway was ready and the recogniser has
/// transcribed something: the microphone is never switched on before.
pub proof fn law_up_only_after_probes(answers: Seq<Answer>)
    ensures
        ({
            let m = all_answered(
                StartupModel { phase: Phase::Gateway, attempts: 0 },
                answers,
            );
            &&& m.phase != Phase::Gateway ==> has_come(answers, Answer::Gateway(true))
            &&& m.phase == Phase::Connect || m.phase == Phase::Up ==> has_come(
                answers,
                Answer::Model(true),
            )
        }),
    decreases answers.len(),
{
    if answers.len() > 0 {
        let before = answers.drop_last();
        law_up_only_after_probes(before);
        let start = StartupModel { phase: Phase::Gateway, attempts: 0 };
        let a = answers.last();
        assert(answers[answers.len() - 1] == a);
        if has_come(before, Answer::Gateway(true)) {
            let i = choose|i: int|
                0 <= i < before.len() && #[trigger] before[i] == Answer::Gateway(true);
            assert(answers[i] == Answer::Gateway(true));
        }
        if has_come(before, Answer::Model(true)) {
            let i = choose|i: int|
                0 <= i < before.len() && #[trigger] before[i] == Answer::Model(true);
            assert(answers[i] == Answer::Model(true));
        }
    }
}

/// The voice comes up step by step: a ready gateway leads to the recogniser, a
/// working recogniser to the connection, and that makes the voice ready. An
/// answer of "not yet" is counted, one to another question is ignored.
pub proof fn law_startup_goes_step_by_step(m: StartupModel, a: Answer)
    requires
        0 <= m.attempts < u32::MAX,
    ensures
        ({
            let n = answered(m, a);
            &&& m.phase == Phase::Gateway && a == Answer::Gateway(true) ==> n.phase == Phase::Model
                && n.attempts == 0
            &&& m.phase == Phase::Gateway && a == Answer::Gateway(false) ==> n.phase
                == Phase::Gateway && n.attempts == m.attempts + 1
            &&& m.phase == Phase::Model && a == Answer::Model(true) ==> n.phase == Phase::Connect
                && n.attempts == 0
            &&& m.phase == Phase::Model && a == Answer::Model(false) ==> n.phase == Phase::Model
                && n.attempts == m.attempts + 1
            &&& m.phase == Phase::Connect && a == Answer::Connection ==> n.phase == Phase::Up
            &&& m.phase == Phase::Up ==> n == m
            &&& m.phase == Phase::Gateway && !(a is Gateway) ==> n == m
            &&& m.phase == Phase::Model && !(a is Model) ==> n == m
            &&& m.phase == Phase::Connect && !(a is Connection) ==> n == m
        }),
{
}

/// The first answer of "not yet" is shown, and after that every third of the
/// gateway's and every second of the recogniser's, with the seconds waited.
pub proof fn law_waiting_is_shown(n: nat)
    requires
        n > 0,
    ensures
        gateway_note(n as int) is Some <==> n == 1 || n % 3 == 0,
        gateway_note(n as int) is Some ==> gateway_note(n as int)->0
            == "step 1/2 · gateway warming up ("@ + text::decimal_spec(n)
            + "s) · TYPE TO CHAT ↓"@,
        model_note(n as int) is Some <==> n == 1 || n % 2 == 0,
        model_note(n as int) is Some ==> model_note(n as int)->0
            == "step 2/2 · parakeet AI model loading ("@ + text::decimal_spec(n + n)
            + "s, usually ~25s first launch) · TYPE TO CHAT ↓"@,
{
    assert((2 * n) as nat == n + n);
}

/// A body says that something is ready only where it is JSON whose member of
/// that name is true.
pub proof fn law_ready_is_said_outright(body: Seq<char>, key: Seq<char>)
    ensures
        says_ready(body, key) <==> {
            &&& json::json_of(body) is Some
            &&& json::json_of(body)->0.bools.contains_key(key)
            &&& json::json_of(body)->0.bools[key]
        },
{
}

/// Each command is a message of its own.
pub proof fn law_commands_are_messages(c: Command, s: &'static str)
    requires
        call_ensures(command_text, (c,), s),
    ensures
        c == Command::Undo ==> s@ == "/undo"@,
        c == Command::Redo ==> s@ == "/redo"@,
        c == Command::Compact ==> s@ == "/compact"@,
        c == Command::New ==> s@ == "/new"@,
{
}

} // verus!
