//! Setting JARVIS up in the browser: five steps, one request each, and a last
//! one that completes the setup.

use vstd::prelude::*;

use crate::dashboard::api;
use crate::text;
use crate::text::{chars_of, decimal, starts_with, trim};

verus! {

/// How far the setup has come, as the gateway tells it.
#[derive(Debug, Clone, Copy)]
pub struct StatusResponse {
    pub onboard_completed: bool,
    pub has_anthropic_key: bool,
    pub has_openai_key: bool,
    pub has_secrets_master_key: bool,
}

/// Where the master key is kept.
#[derive(Debug)]
pub struct SecurityBody {
    pub source: String,
}

/// The answer to that: a key, where one was made for the environment.
#[derive(Debug)]
pub struct SecurityResponse {
    pub status: String,
    pub source: String,
    pub generated_key: Option<String>,
}

/// The key to the model's provider.
#[derive(Debug)]
pub struct AnthropicBody {
    pub api_key: String,
    pub base_url: Option<String>,
}

/// The model to use.
#[derive(Debug)]
pub struct ModelBody {
    pub model: String,
}

/// The channels to open.
#[derive(Debug)]
pub struct ChannelsBody {
    pub tunnel_url: Option<String>,
    pub http_enabled: bool,
    pub http_port: Option<u16>,
    pub wasm_channels: Vec<String>,
}

/// The periodic background runs.
#[derive(Debug)]
pub struct HeartbeatBody {
    pub enabled: bool,
    pub interval_minutes: Option<u64>,
    pub notify_channel: Option<String>,
}

/// The answer to completing the setup.
#[derive(Debug)]
pub struct CompleteResponse {
    pub status: String,
    pub restart_required: bool,
}

/// A step of the setup.
#[derive(Clone, Copy, PartialEq, Eq, Debug, Structural)]
pub enum Step {
    Security,
    Anthropic,
    Model,
    Channels,
    Heartbeat,
    Done,
}

/// The place of a step, counted from 1.
pub open spec fn place(s: Step) -> int {
    match s {
        Step::Security => 1,
        Step::Anthropic => 2,
        Step::Model => 3,
        Step::Channels => 4,
        Step::Heartbeat => 5,
        Step::Done => 6,
    }
}

/// The name of a step.
pub open spec fn step_name(s: Step) -> Seq<char> {
    match s {
        Step::Security => "Security"@,
        Step::Anthropic => "Anthropic key"@,
        Step::Model => "Model"@,
        Step::Channels => "Channels"@,
        Step::Heartbeat => "Heartbeat"@,
        Step::Done => "Done"@,
    }
}

/// The steps of the setup proper.
pub const STEPS: usize = 5;

impl Step {
    /// The name of the step.
    pub fn label(self) -> (s: &'static str)
        ensures
            s@ == step_name(self),
    {
        match self {
            Step::Security => "Security",
            Step::Anthropic => "Anthropic key",
            Step::Model => "Model",
            Step::Channels => "Channels",
            Step::Heartbeat => "Heartbeat",
            Step::Done => "Done",
        }
    }

    /// The place of the step, counted from 1.
    pub fn index(self) -> (n: usize)
        ensures
            n == place(self),
    {
        match self {
            Step::Security => 1,
            Step::Anthropic => 2,
            Step::Model => 3,
            Step::Channels => 4,
            Step::Heartbeat => 5,
            Step::Done => 6,
        }
    }

    /// The step that follows; the last one stays.
    pub fn next(self) -> (r: Step)
        ensures
            place(r) == if self == Step::Done {
                6
            } else {
                place(self) + 1
            },
    {
        match self {
            Step::Security => Step::Anthropic,
            Step::Anthropic => Step::Model,
            Step::Model => Step::Channels,
            Step::Channels => Step::Heartbeat,
            Step::Heartbeat => Step::Done,
            Step::Done => Step::Done,
        }
    }

    /// How much of the setup this step stands for, in percent.
    pub fn percent(self) -> (p: u32)
        ensures
            p == if self == Step::Done {
                100
            } else {
                place(self) * 100 / 5
            },
    {
        let n: usize = self.index();
        let current: usize = if n < STEPS {
            n
        } else {
            STEPS
        };
        (current * 100 / STEPS) as u32
    }

    /// The line beside the progress bar.
    pub fn progress(self) -> (s: String)
        ensures
            s@ == if self == Step::Done {
                "complete"@
            } else {
                "step "@ + text::decimal_spec(place(self) as nat) + "/5 — "@ + step_name(self)
            },
    {
        if self == Step::Done {
            return "complete".to_owned();
        }
        let mut s = "step ".to_owned();
        s.push_str(decimal(self.index() as u64).as_str());
        s.push_str("/5 — ");
        s.push_str(self.label());
        s
    }
}

/// `s`, or nothing where it is white space alone.
pub open spec fn unless_blank(s: Seq<char>) -> Option<Seq<char>> {
    if text::trim_spec(s).len() == 0 {
        None
    } else {
        Some(s)
    }
}

/// `s`, or nothing where it is white space alone.
pub fn optional_field(s: String) -> (r: Option<String>)
    ensures
        r is Some <==> unless_blank(s@) is Some,
        r matches Some(x) ==> x@ == s@,
{
    let chars = chars_of(s.as_str());
    if trim(chars.as_slice()).len() == 0 {
        None
    } else {
        Some(s)
    }
}

/// The form of one step: whether a request is on its way, and what went wrong.
pub struct Form {
    pub busy: bool,
    pub error: Option<String>,
}

impl Form {
    /// Nothing was submitted.
    pub fn new() -> (r: Self)
        ensures
            r == (Form { busy: false, error: None }),
    {
        Form { busy: false, error: None }
    }

    /// The form is submitted. False while a request is on its way.
    pub fn submit(&mut self) -> (go: bool)
        ensures
            go == !old(self).busy,
            *final(self) == if old(self).busy {
                *old(self)
            } else {
                Form { busy: true, error: None }
            },
    {
        if self.busy {
            return false;
        }
        self.busy = true;
        self.error = None;
        true
    }

    /// The request was answered. True if the step is done.
    pub fn answered(&mut self, outcome: Result<(), String>) -> (done: bool)
        ensures
            done == outcome is Ok,
            !final(self).busy,
            outcome is Ok ==> final(self).error == old(self).error,
            outcome matches Err(e) ==> final(self).error == Some(e),
    {
        self.busy = false;
        match outcome {
            Ok(()) => true,
            Err(e) => {
                self.error = Some(e);
                false
            },
        }
    }
}

/// The form for the provider's key is submitted. A key that does not start the
/// way such keys do is refused without a request.
pub fn submit_anthropic(form: &mut Form, key: String, base: String) -> (r: Option<AnthropicBody>)
    ensures
        ({
            let good = "sk-ant-"@.is_prefix_of(text::trim_spec(key@));
            &&& r is Some <==> !old(form).busy && good
            &&& r matches Some(b) ==> b.api_key@ == key@ && (b.base_url is Some <==> unless_blank(
                base@,
            ) is Some) && (b.base_url matches Some(u) ==> u@ == base@)
            &&& old(form).busy ==> *final(form) == *old(form)
            &&& !old(form).busy && good ==> *final(form) == (Form { busy: true, error: None })
            &&& !old(form).busy && !good ==> !final(form).busy && final(form).error is Some
                && final(form).error->0@ == "Anthropic API keys start with sk-ant-"@
        }),
{
    if form.busy {
        return None;
    }
    let chars = chars_of(key.as_str());
    if !starts_with(trim(chars.as_slice()), "sk-ant-") {
        form.error = Some("Anthropic API keys start with sk-ant-".to_owned());
        return None;
    }
    form.busy = true;
    form.error = None;
    Some(AnthropicBody { api_key: key, base_url: optional_field(base) })
}

/// The model that a custom entry chooses: a blank one leaves the choice.
pub fn choose_model(chosen: String, custom: String) -> (r: String)
    ensures
        r@ == match unless_blank(custom@) {
            Some(c) => c,
            None => chosen@,
        },
{
    match optional_field(custom) {
        Some(c) => c,
        None => chosen,
    }
}

/// The request for the channels step.
pub fn channels_body(tunnel_url: String, http_enabled: bool, telegram_enabled: bool) -> (b:
    ChannelsBody)
    ensures
        b.tunnel_url is Some <==> unless_blank(tunnel_url@) is Some,
        b.tunnel_url matches Some(u) ==> u@ == tunnel_url@,
        b.http_enabled == http_enabled,
        b.http_port == if http_enabled {
            Some(8080u16)
        } else {
            None
        },
        text::texts(b.wasm_channels@) == if telegram_enabled {
            seq!["telegram"@]
        } else {
            Seq::empty()
        },
{
    let mut wasm_channels: Vec<String> = Vec::new();
    if telegram_enabled {
        wasm_channels.push("telegram".to_owned());
    }
    assert(text::texts(wasm_channels@) =~= if telegram_enabled {
        seq!["telegram"@]
    } else {
        Seq::empty()
    });
    ChannelsBody {
        tunnel_url: optional_field(tunnel_url),
        http_enabled,
        http_port: if http_enabled {
            Some(8080)
        } else {
            None
        },
        wasm_channels,
    }
}

/// The interval that an entry sets: one that is no number leaves it, and it is
/// never under a minute.
pub fn interval(current: u64, entry: &str) -> (n: u64)
    ensures
        n == match text::number_spec(entry@) {
            Some(m) => if m < 1 {
                1
            } else {
                m
            },
            None => current as int,
        },
{
    match text::number(entry) {
        Some(m) => if m < 1 {
            1
        } else {
            m
        },
        None => current,
    }
}

/// The request for the heartbeat step.
pub fn heartbeat_body(enabled: bool, minutes: u64, notify: String) -> (b: HeartbeatBody)
    ensures
        b.enabled == enabled,
        b.interval_minutes == Some(minutes),
        b.notify_channel is Some <==> unless_blank(notify@) is Some,
        b.notify_channel matches Some(n) ==> n@ == notify@,
{
    HeartbeatBody {
        enabled,
        interval_minutes: Some(minutes),
        notify_channel: optional_field(notify),
    }
}

/// The line to add to a shell profile for a generated key.
pub fn export_line(key: &str) -> (s: String)
    ensures
        s@ == "export SECRETS_MASTER_KEY="@ + key@,
{
    let mut s = "export SECRETS_MASTER_KEY=".to_owned();
    s.push_str(key);
    s
}

/// Whether the security step goes on by itself: a generated key has to be shown
/// first.
pub fn advances(resp: &SecurityResponse) -> (r: bool)
    ensures
        r == resp.generated_key is None,
{
    resp.generated_key.is_none()
}

/// What a reply to a setup request is reported as: nothing when it succeeded,
/// else the path, the number and the body.
pub fn reply_error(path: &str, status: u16, body: &str) -> (r: Result<(), String>)
    ensures
        r is Ok <==> api::is_ok(status),
        r matches Err(e) ==> e@ == path@ + " returned "@ + text::decimal_spec(status as nat)
            + ": "@ + body@,
{
    if 200 <= status && status < 300 {
        Ok(())
    } else {
        let mut e = path.to_owned();
        e.push_str(" returned ");
        e.push_str(decimal(status as u64).as_str());
        e.push_str(": ");
        e.push_str(body);
        Err(e)
    }
}

/// What the dashboard shows: still asking, the setup, or JARVIS.
#[derive(Clone, Copy, PartialEq, Eq, Debug, Structural)]
pub enum OnboardState {
    Loading,
    NeedsWizard,
    Ready,
}

/// What to show once the gateway has said how far the setup has come, or has
/// not answered: then the setup is taken to be behind us.
pub fn onboard_state(status: Option<StatusResponse>) -> (s: OnboardState)
    ensures
        s == match status {
            Some(r) => if r.onboard_completed {
                OnboardState::Ready
            } else {
                OnboardState::NeedsWizard
            },
            None => OnboardState::Ready,
        },
{
    match status {
        Some(r) => if r.onboard_completed {
            OnboardState::Ready
        } else {
            OnboardState::NeedsWizard
        },
        None => OnboardState::Ready,
    }
}

/// The steps come in their order, each once.
pub proof fn law_steps_in_order(a: Step, b: Step)
    ensures
        place(Step::Security) < place(Step::Anthropic) < place(Step::Model) < place(Step::Channels)
            < place(Step::Heartbeat) < place(Step::Done),
        place(a) == place(b) ==> a == b,
        1 <= place(a) <= 6,
{
}

/// An optional field is given as it was typed, and left out where it holds
/// nothing but white space.
pub proof fn law_blank_fields_are_left_out(a: Seq<char>, t: Seq<char>, b: Seq<char>)
    requires
        forall|k: int| 0 <= k < a.len() ==> text::is_space_spec(#[trigger] a[k]),
        forall|k: int| 0 <= k < b.len() ==> text::is_space_spec(#[trigger] b[k]),
        t.len() > 0 ==> !text::is_space_spec(t[0]) && !text::is_space_spec(t.last()),
    ensures
        t.len() > 0 ==> unless_blank(a + t + b) == Some(a + t + b),
        t.len() == 0 ==> unless_blank(a + t + b) is None,
{
    text::law_trim_takes_the_space_around(a, t, b);
}

/// No two steps have the same name.
pub proof fn law_steps_have_their_names(a: Step, b: Step)
    ensures
        step_name(a) == step_name(b) ==> a == b,
        step_name(Step::Security) == "Security"@,
        step_name(Step::Anthropic) == "Anthropic key"@,
        step_name(Step::Model) == "Model"@,
        step_name(Step::Channels) == "Channels"@,
        step_name(Step::Heartbeat) == "Heartbeat"@,
        step_name(Step::Done) == "Done"@,
{
    reveal_strlit("Security");
    assert("Security"@.len() == 8 && "Security"@[0] == 'S');
    reveal_strlit("Anthropic key");
    assert("Anthropic key"@.len() == 13);
    reveal_strlit("Model");
    assert("Model"@.len() == 5);
    reveal_strlit("Channels");
    assert("Channels"@.len() == 8 && "Channels"@[0] == 'C');
    reveal_strlit("Heartbeat");
    assert("Heartbeat"@.len() == 9);
    reveal_strlit("Done");
    assert("Done"@.len() == 4);
}

/// Each step leads to the next one, the last stays, and a fifth of the setup is
/// done with each.
pub proof fn law_steps_follow_one_another(s: Step, next: Step, p: u32)
    requires
        call_ensures(Step::next, (s,), next),
        call_ensures(Step::percent, (s,), p),
    ensures
        s == Step::Security ==> next == Step::Anthropic && p == 20,
        s == Step::Anthropic ==> next == Step::Model && p == 40,
        s == Step::Model ==> next == Step::Channels && p == 60,
        s == Step::Channels ==> next == Step::Heartbeat && p == 80,
        s == Step::Heartbeat ==> next == Step::Done && p == 100,
        s == Step::Done ==> next == Step::Done && p == 100,
{
}

/// A model that was typed in is taken before one that was chosen, unless it is
/// blank.
pub proof fn law_typed_model_comes_first(chosen: String, custom: String, r: String)
    requires
        call_ensures(choose_model, (chosen, custom), r),
    ensures
        unless_blank(custom@) is Some ==> r@ == custom@,
        unless_blank(custom@) is None ==> r@ == chosen@,
{
}

/// Channels are asked for as they were ticked: the web on its port, the messenger
/// by its name, and the tunnel where its address is given.
pub proof fn law_channels_as_ticked(url: String, http: bool, telegram: bool, b: ChannelsBody)
    requires
        call_ensures(channels_body, (url, http, telegram), b),
    ensures
        b.http_enabled == http,
        http ==> b.http_port == Some(8080u16),
        !http ==> b.http_port is None,
        telegram ==> text::texts(b.wasm_channels@) == seq!["telegram"@],
        !telegram ==> b.wasm_channels@.len() == 0,
        unless_blank(url@) is Some ==> b.tunnel_url is Some && b.tunnel_url->0@ == url@,
        unless_blank(url@) is None ==> b.tunnel_url is None,
{
    text::law_views_are_the_texts(Seq::empty(), b.wasm_channels@, 0);
}

/// The heartbeat's interval is the number that was typed, at least a minute; what
/// is no number leaves it as it was.
pub proof fn law_interval_as_typed(current: u64, entry: &str, m: nat, n: u64)
    requires
        call_ensures(interval, (current, entry), n),
    ensures
        entry@ == text::decimal_spec(m) && 1 <= m <= u64::MAX ==> n == m,
        entry@ == text::decimal_spec(0) ==> n == 1,
        entry@.len() == 0 ==> n == current,
        entry@.len() > 0 && entry@[0] != '+' && !('0' <= entry@[0] <= '9') ==> n == current,
{
    text::law_numbers_are_read_back(m, entry@, 0);
    text::law_numbers_are_read_back(0, entry@, 0);
    if entry@.len() == 0 {
        assert(entry@ =~= Seq::<char>::empty());
    }
}

/// The heartbeat is set as it was ticked and typed.
pub proof fn law_heartbeat_as_ticked(enabled: bool, minutes: u64, notify: String, b: HeartbeatBody)
    requires
        call_ensures(heartbeat_body, (enabled, minutes, notify), b),
    ensures
        b.enabled == enabled,
        b.interval_minutes == Some(minutes),
        unless_blank(notify@) is Some ==> b.notify_channel is Some && b.notify_channel->0@
            == notify@,
        unless_blank(notify@) is None ==> b.notify_channel is None,
{
}

/// A key that was generated is shown as a line to be copied, and replies that
/// failed say what they were about.
pub proof fn law_keys_and_replies(
    key: &str,
    s: String,
    path: &str,
    status: u16,
    body: &str,
    r: Result<(), String>,
)
    requires
        call_ensures(export_line, (key,), s),
        call_ensures(reply_error, (path, status, body), r),
    ensures
        s@ == "export SECRETS_MASTER_KEY="@ + key@,
        r is Ok <==> 200 <= status <= 299,
        r is Err ==> r->Err_0@ == path@ + " returned "@ + text::decimal_spec(status as nat)
            + ": "@ + body@,
{
}

/// The wizard is needed only where the gateway says that the setup is not done.
pub proof fn law_when_the_wizard_is_needed(status: Option<StatusResponse>, s: OnboardState)
    requires
        call_ensures(onboard_state, (status,), s),
    ensures
        s == OnboardState::NeedsWizard <==> status is Some && !status->0.onboard_completed,
        s == OnboardState::Ready <==> status is None || status->0.onboard_completed,
{
}

/// The line beside the bar counts the steps of five and names the one at hand.
pub proof fn law_progress_is_shown(s: Step, p: String)
    requires
        call_ensures(Step::progress, (s,), p),
    ensures
        s == Step::Done ==> p@ == "complete"@,
        s == Step::Security ==> p@ == "step "@ + text::decimal_spec(1) + "/5 — "@ + "Security"@,
        s == Step::Anthropic ==> p@ == "step "@ + text::decimal_spec(2) + "/5 — "@
            + "Anthropic key"@,
        s == Step::Model ==> p@ == "step "@ + text::decimal_spec(3) + "/5 — "@ + "Model"@,
        s == Step::Channels ==> p@ == "step "@ + text::decimal_spec(4) + "/5 — "@ + "Channels"@,
        s == Step::Heartbeat ==> p@ == "step "@ + text::decimal_spec(5) + "/5 — "@ + "Heartbeat"@,
{
}

} // verus!
