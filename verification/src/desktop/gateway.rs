//! The client of the local gateway: what an event means, when an endpoint is
//! left alone, what follows a reply, and how speech is framed on the wire.

use vstd::prelude::*;

use crate::json;
use crate::json::{bool_member_or, parse_json, str_member, str_member_or, text_member};
use crate::text::{chars_of, spells};

verus! {

/// Consecutive failures of one endpoint, and the time until which it is left
/// alone because of them.
pub struct Breaker {
    consecutive_failures: u32,
    open_until_ms: u64,
}

/// The state of a breaker. Times are milliseconds since the client started; 0
/// means that the endpoint is free.
#[verifier::ext_equal]
pub struct BreakerModel {
    pub failures: int,
    pub open_until_ms: int,
}

impl View for Breaker {
    type V = BreakerModel;

    closed spec fn view(&self) -> BreakerModel {
        BreakerModel {
            failures: self.consecutive_failures as int,
            open_until_ms: self.open_until_ms as int,
        }
    }
}

/// Two to the power `n`.
pub open spec fn power_of_two(n: int) -> int
    decreases n,
{
    if n <= 0 {
        1
    } else {
        2 * power_of_two(n - 1)
    }
}

/// How long an endpoint is left alone after its `n`-th failure in a row:
/// nothing before the third, then 2, 4, 8 and 16 seconds and at most 30.
pub open spec fn backoff_secs(n: int) -> int {
    if n < 3 {
        0
    } else if n >= 7 {
        30
    } else {
        power_of_two(n - 2)
    }
}

/// One more failure, unless that cannot be counted.
pub open spec fn one_more(n: int) -> int {
    if n < u32::MAX {
        n + 1
    } else {
        n
    }
}

/// The breaker after a failure at `now_ms`.
pub open spec fn failed(b: BreakerModel, now_ms: int) -> BreakerModel {
    let n = one_more(b.failures);
    BreakerModel {
        failures: n,
        open_until_ms: if n >= 3 {
            now_ms + 1000 * backoff_secs(n)
        } else {
            b.open_until_ms
        },
    }
}

/// The breaker of an endpoint that works.
pub open spec fn closed_breaker() -> BreakerModel {
    BreakerModel { failures: 0, open_until_ms: 0 }
}

/// Whether requests are held back at `now_ms`.
pub open spec fn is_open_at(b: BreakerModel, now_ms: int) -> bool {
    b.open_until_ms != 0 && now_ms < b.open_until_ms
}

impl Default for Breaker {
    fn default() -> (b: Self)
        ensures
            b@ == closed_breaker(),
    {
        Breaker { consecutive_failures: 0, open_until_ms: 0 }
    }
}

impl Breaker {
    /// A request succeeded.
    pub fn record_success(&mut self)
        ensures
            final(self)@ == closed_breaker(),
    {
        self.consecutive_failures = 0;
        self.open_until_ms = 0;
    }

    /// A request failed at `now_ms`.
    pub fn record_failure(&mut self, now_ms: u64)
        requires
            now_ms + 30_000 <= u64::MAX,
        ensures
            final(self)@ == failed(old(self)@, now_ms as int),
    {
        let n: u32 = self.consecutive_failures.saturating_add(1);
        self.consecutive_failures = n;
        if n >= 3 {
            proof {
                reveal_with_fuel(power_of_two, 5);
            }
            let secs: u64 = if n == 3 {
                2
            } else if n == 4 {
                4
            } else if n == 5 {
                8
            } else if n == 6 {
                16
            } else {
                30
            };
            self.open_until_ms = now_ms + secs * 1000;
        }
        assert(self@ =~= failed(old(self)@, now_ms as int));
    }

    /// Whether requests are held back at `now_ms`.
    pub fn is_open(&self, now_ms: u64) -> (r: bool)
        ensures
            r == is_open_at(self@, now_ms as int),
    {
        self.open_until_ms != 0 && now_ms < self.open_until_ms
    }
}

/// The breaker after `n` failures in a row at the times `at`.
pub open spec fn failed_times(b: BreakerModel, at: Seq<int>) -> BreakerModel
    decreases at.len(),
{
    if at.len() == 0 {
        b
    } else {
        failed(failed_times(b, at.drop_last()), at.last())
    }
}

proof fn lemma_failures(at: Seq<int>)
    ensures
        failed_times(closed_breaker(), at).failures == if at.len() < u32::MAX {
            at.len() as int
        } else {
            u32::MAX as int
        },
        at.len() < 3 ==> failed_times(closed_breaker(), at).open_until_ms == 0,
    decreases at.len(),
{
    if at.len() > 0 {
        lemma_failures(at.drop_last());
    }
}

/// Fewer than three failures in a row hold nothing back; from the third on the
/// endpoint is left alone for the backoff after the last one, and no longer.
pub proof fn law_breaker_trips_at_three(at: Seq<int>, now_ms: int)
    requires
        at.len() > 0,
        at.last() >= 0,
    ensures
        ({
            let b = failed_times(closed_breaker(), at);
            is_open_at(b, now_ms) <==> at.len() >= 3 && now_ms < at.last() + 1000 * backoff_secs(
                at.len() as int,
            )
        }),
{
    lemma_failures(at.drop_last());
    lemma_failures(at);
    law_backoff_is_bounded(at.len() as int);
}

/// The backoff doubles from 2 seconds on and never exceeds 30: it is 2, 4, 8,
/// 16 and then 30 seconds. An endpoint that has worked is not held back.
pub proof fn law_backoff_is_bounded(n: int)
    ensures
        0 <= backoff_secs(n) <= 30,
        n >= 3 ==> backoff_secs(n) >= 2,
        3 <= n <= 5 ==> backoff_secs(n + 1) == 2 * backoff_secs(n),
        n >= 3 ==> backoff_secs(n) <= backoff_secs(n + 1),
        backoff_secs(3) == 2,
        backoff_secs(4) == 4,
        backoff_secs(5) == 8,
        backoff_secs(6) == 16,
        n >= 7 ==> backoff_secs(n) == 30,
        forall|now_ms: int| !(#[trigger] is_open_at(closed_breaker(), now_ms)),
{
    reveal_with_fuel(power_of_two, 6);
}

/// What follows a reply to an authenticated request.
#[derive(Debug, Clone, Copy, PartialEq, Eq, Structural)]
pub enum AfterReply {
    /// Fail: the network did not carry the request.
    NetworkError,
    /// Fail: the network did not carry the second attempt.
    RetryNetworkError,
    /// Drop the token, fetch a new one and send once more.
    RefreshAndRetry,
    /// Hand the reply to the caller.
    Deliver,
}

/// The status of a reply that asks for authentication.
pub const UNAUTHORIZED: u16 = 401;

/// Whether a status means success.
pub open spec fn is_success(status: u16) -> bool {
    200 <= status < 300
}

/// Whether a status means that the server failed.
pub open spec fn is_server_error(status: u16) -> bool {
    500 <= status < 600
}

/// What follows a reply; `status` is none where the network failed, and
/// `retried` says whether this was the second attempt.
pub open spec fn after_reply_spec(status: Option<u16>, retried: bool) -> AfterReply {
    match status {
        None => if retried {
            AfterReply::RetryNetworkError
        } else {
            AfterReply::NetworkError
        },
        Some(s) => if s == UNAUTHORIZED && !retried {
            AfterReply::RefreshAndRetry
        } else {
            AfterReply::Deliver
        },
    }
}

/// The breaker after a reply. A network error counts as a failure, success
/// clears the count; a first attempt that the server refused leaves it as it is
/// unless the server itself failed, a second attempt that does not succeed
/// counts as a failure.
pub open spec fn breaker_after(
    b: BreakerModel,
    status: Option<u16>,
    retried: bool,
    now_ms: int,
) -> BreakerModel {
    match status {
        None => failed(b, now_ms),
        Some(s) => if is_success(s) {
            closed_breaker()
        } else if s == UNAUTHORIZED && !retried {
            b
        } else if retried || is_server_error(s) {
            failed(b, now_ms)
        } else {
            b
        },
    }
}

/// Decides what follows a reply to an authenticated request and keeps the
/// endpoint's breaker up to date.
pub fn after_reply(breaker: &mut Breaker, status: Option<u16>, retried: bool, now_ms: u64) -> (r:
    AfterReply)
    requires
        now_ms + 30_000 <= u64::MAX,
    ensures
        r == after_reply_spec(status, retried),
        final(breaker)@ == breaker_after(old(breaker)@, status, retried, now_ms as int),
{
    match status {
        None => {
            breaker.record_failure(now_ms);
            if retried {
                AfterReply::RetryNetworkError
            } else {
                AfterReply::NetworkError
            }
        },
        Some(s) => {
            if 200 <= s && s < 300 {
                breaker.record_success();
                AfterReply::Deliver
            } else if s == UNAUTHORIZED && !retried {
                AfterReply::RefreshAndRetry
            } else {
                if retried || (500 <= s && s < 600) {
                    breaker.record_failure(now_ms);
                }
                AfterReply::Deliver
            }
        },
    }
}

/// A request is sent at most twice: after the second attempt nothing asks for
/// another one.
pub proof fn law_at_most_one_retry(status: Option<u16>)
    ensures
        after_reply_spec(status, true) != AfterReply::RefreshAndRetry,
        after_reply_spec(status, false) == AfterReply::RefreshAndRetry <==> status == Some(
            UNAUTHORIZED,
        ),
{
}

/// How often the token is asked for before giving up.
pub const TOKEN_ATTEMPTS: u32 = 30;

/// How long to wait after the `attempt`-th failure to get the token, counted
/// from 0, in milliseconds; none when all attempts are used up.
pub fn token_retry_delay_ms(attempt: u32) -> (r: Option<u64>)
    ensures
        r is Some <==> attempt < TOKEN_ATTEMPTS,
        r matches Some(ms) ==> ms == 500 * (if attempt < 10 {
            attempt + 1
        } else {
            10
        }),
{
    if attempt >= TOKEN_ATTEMPTS {
        None
    } else if attempt < 10 {
        Some(500 * (attempt as u64 + 1))
    } else {
        Some(5000)
    }
}

/// `base` followed by `path`.
pub fn endpoint(base: &str, path: &str) -> (url: String)
    ensures
        url@ == base@ + path@,
{
    let mut url = base.to_owned();
    url.push_str(path);
    url
}

/// The address of a thread's history; of the active thread when none is named.
pub fn history_url(base: &str, thread_id: Option<&str>) -> (url: String)
    ensures
        url@ == match thread_id {
            Some(id) => base@ + "/api/chat/history?thread_id="@ + id@,
            None => base@ + "/api/chat/history"@,
        },
{
    match thread_id {
        Some(id) => {
            let mut url = endpoint(base, "/api/chat/history?thread_id=");
            url.push_str(id);
            url
        },
        None => endpoint(base, "/api/chat/history"),
    }
}

/// The address of the event stream. The token goes into the query: event
/// sources cannot set headers.
pub fn events_url(base: &str, token: &str) -> (url: String)
    ensures
        url@ == base@ + "/api/chat/events?token="@ + token@,
{
    let mut url = endpoint(base, "/api/chat/events?token=");
    url.push_str(token);
    url
}

/// The word for an answer to an approval request.
pub fn approval_action(approved: bool, always: bool) -> (a: &'static str)
    ensures
        a@ == if approved && always {
            "always"@
        } else if approved {
            "approve"@
        } else {
            "deny"@
        },
{
    if approved && always {
        "always"
    } else if approved {
        "approve"
    } else {
        "deny"
    }
}

/// One event of the chat stream.
#[derive(Debug, Clone)]
pub enum ChatEvent {
    Response { content: String },
    StreamChunk { content: String },
    Status { message: String },
    ToolStarted { name: String },
    ToolCompleted { name: String, success: bool },
    ToolResult { name: String, preview: String },
    /// `parameters` is JSON text.
    ApprovalNeeded {
        request_id: String,
        tool_name: String,
        description: String,
        parameters: String,
    },
    Thinking { message: String },
    Error { message: String },
    SubAgentStarted { id: String, label: String, kind: String },
    SubAgentProgress { id: String, message: String },
    SubAgentCompleted { id: String, success: bool, summary: String },
}

/// What an event holds.
#[verifier::ext_equal]
pub enum EventModel {
    Response { content: Seq<char> },
    StreamChunk { content: Seq<char> },
    Status { message: Seq<char> },
    ToolStarted { name: Seq<char> },
    ToolCompleted { name: Seq<char>, success: bool },
    ToolResult { name: Seq<char>, preview: Seq<char> },
    ApprovalNeeded {
        request_id: Seq<char>,
        tool_name: Seq<char>,
        description: Seq<char>,
        parameters: Seq<char>,
    },
    Thinking { message: Seq<char> },
    Error { message: Seq<char> },
    SubAgentStarted { id: Seq<char>, label: Seq<char>, kind: Seq<char> },
    SubAgentProgress { id: Seq<char>, message: Seq<char> },
    SubAgentCompleted { id: Seq<char>, success: bool, summary: Seq<char> },
}

impl View for ChatEvent {
    type V = EventModel;

    open spec fn view(&self) -> EventModel {
        match self {
            ChatEvent::Response { content } => EventModel::Response { content: content@ },
            ChatEvent::StreamChunk { content } => EventModel::StreamChunk { content: content@ },
            ChatEvent::Status { message } => EventModel::Status { message: message@ },
            ChatEvent::ToolStarted { name } => EventModel::ToolStarted { name: name@ },
            ChatEvent::ToolCompleted { name, success } => EventModel::ToolCompleted {
                name: name@,
                success: *success,
            },
            ChatEvent::ToolResult { name, preview } => EventModel::ToolResult {
                name: name@,
                preview: preview@,
            },
            ChatEvent::ApprovalNeeded { request_id, tool_name, description, parameters } =>
            EventModel::ApprovalNeeded {
                request_id: request_id@,
                tool_name: tool_name@,
                description: description@,
                parameters: parameters@,
            },
            ChatEvent::Thinking { message } => EventModel::Thinking { message: message@ },
            ChatEvent::Error { message } => EventModel::Error { message: message@ },
            ChatEvent::SubAgentStarted { id, label, kind } => EventModel::SubAgentStarted {
                id: id@,
                label: label@,
                kind: kind@,
            },
            ChatEvent::SubAgentProgress { id, message } => EventModel::SubAgentProgress {
                id: id@,
                message: message@,
            },
            ChatEvent::SubAgentCompleted { id, success, summary } => EventModel::SubAgentCompleted {
                id: id@,
                success: *success,
                summary: summary@,
            },
        }
    }
}

/// Whether all of `keys` are string members.
pub open spec fn has(m: json::JsonModel, key: Seq<char>) -> bool {
    m.strings.contains_key(key)
}

/// The event that a body announced as `kind` stands for. Some members are
/// required; a kind that is not known, or a required member that is missing or
/// no string, gives no event.
pub open spec fn event_of(kind: Seq<char>, m: json::JsonModel) -> Option<EventModel> {
    if kind == "response"@ {
        if has(m, "content"@) {
            Some(EventModel::Response { content: m.strings["content"@] })
        } else {
            None
        }
    } else if kind == "stream_chunk"@ {
        if has(m, "content"@) {
            Some(EventModel::StreamChunk { content: m.strings["content"@] })
        } else {
            None
        }
    } else if kind == "status"@ {
        if has(m, "message"@) {
            Some(EventModel::Status { message: m.strings["message"@] })
        } else {
            None
        }
    } else if kind == "thinking"@ {
        if has(m, "message"@) {
            Some(EventModel::Thinking { message: m.strings["message"@] })
        } else {
            None
        }
    } else if kind == "tool_started"@ {
        if has(m, "name"@) {
            Some(EventModel::ToolStarted { name: m.strings["name"@] })
        } else {
            None
        }
    } else if kind == "tool_completed"@ {
        if has(m, "name"@) {
            Some(
                EventModel::ToolCompleted {
                    name: m.strings["name"@],
                    success: json::bool_or(m, "success"@, false),
                },
            )
        } else {
            None
        }
    } else if kind == "tool_result"@ {
        if has(m, "name"@) && has(m, "preview"@) {
            Some(
                EventModel::ToolResult {
                    name: m.strings["name"@],
                    preview: m.strings["preview"@],
                },
            )
        } else {
            None
        }
    } else if kind == "approval_needed"@ {
        if has(m, "request_id"@) && has(m, "tool_name"@) {
            Some(
                EventModel::ApprovalNeeded {
                    request_id: m.strings["request_id"@],
                    tool_name: m.strings["tool_name"@],
                    description: json::string_or(m, "description"@, ""@),
                    parameters: if m.texts.contains_key("parameters"@) {
                        m.texts["parameters"@]
                    } else {
                        "null"@
                    },
                },
            )
        } else {
            None
        }
    } else if kind == "error"@ {
        if has(m, "message"@) {
            Some(EventModel::Error { message: m.strings["message"@] })
        } else {
            None
        }
    } else if kind == "sub_agent_started"@ {
        if has(m, "id"@) && has(m, "label"@) {
            Some(
                EventModel::SubAgentStarted {
                    id: m.strings["id"@],
                    label: m.strings["label"@],
                    kind: json::string_or(m, "kind"@, "unknown"@),
                },
            )
        } else {
            None
        }
    } else if kind == "sub_agent_progress"@ {
        if has(m, "id"@) && has(m, "message"@) {
            Some(
                EventModel::SubAgentProgress {
                    id: m.strings["id"@],
                    message: m.strings["message"@],
                },
            )
        } else {
            None
        }
    } else if kind == "sub_agent_completed"@ {
        if has(m, "id"@) {
            Some(
                EventModel::SubAgentCompleted {
                    id: m.strings["id"@],
                    success: json::bool_or(m, "success"@, false),
                    summary: json::string_or(m, "summary"@, ""@),
                },
            )
        } else {
            None
        }
    } else {
        None
    }
}

/// The event that a parsed body announced as `event_type` stands for.
pub fn chat_event(event_type: &str, v: &serde_json::Value) -> (r: Option<ChatEvent>)
    ensures
        r is Some <==> event_of(event_type@, json::json_model(*v)) is Some,
        r matches Some(e) ==> e@ == event_of(event_type@, json::json_model(*v))->0,
{
    let chars = chars_of(event_type);
    let kind = chars.as_slice();
    if spells(kind, "response") {
        let content = str_member(v, "content")?;
        Some(ChatEvent::Response { content })
    } else if spells(kind, "stream_chunk") {
        let content = str_member(v, "content")?;
        Some(ChatEvent::StreamChunk { content })
    } else if spells(kind, "status") {
        let message = str_member(v, "message")?;
        Some(ChatEvent::Status { message })
    } else if spells(kind, "thinking") {
        let message = str_member(v, "message")?;
        Some(ChatEvent::Thinking { message })
    } else if spells(kind, "tool_started") {
        let name = str_member(v, "name")?;
        Some(ChatEvent::ToolStarted { name })
    } else if spells(kind, "tool_completed") {
        let name = str_member(v, "name")?;
        let success = bool_member_or(v, "success", false);
        Some(ChatEvent::ToolCompleted { name, success })
    } else if spells(kind, "tool_result") {
        let name = str_member(v, "name")?;
        let preview = str_member(v, "preview")?;
        Some(ChatEvent::ToolResult { name, preview })
    } else if spells(kind, "approval_needed") {
        let request_id = str_member(v, "request_id")?;
        let tool_name = str_member(v, "tool_name")?;
        let description = str_member_or(v, "description", "");
        let parameters = match text_member(v, "parameters") {
            Some(t) => t,
            None => "null".to_owned(),
        };
        Some(ChatEvent::ApprovalNeeded { request_id, tool_name, description, parameters })
    } else if spells(kind, "error") {
        let message = str_member(v, "message")?;
        Some(ChatEvent::Error { message })
    } else if spells(kind, "sub_agent_started") {
        let id = str_member(v, "id")?;
        let label = str_member(v, "label")?;
        let kind = str_member_or(v, "kind", "unknown");
        Some(ChatEvent::SubAgentStarted { id, label, kind })
    } else if spells(kind, "sub_agent_progress") {
        let id = str_member(v, "id")?;
        let message = str_member(v, "message")?;
        Some(ChatEvent::SubAgentProgress { id, message })
    } else if spells(kind, "sub_agent_completed") {
        let id = str_member(v, "id")?;
        let success = bool_member_or(v, "success", false);
        let summary = str_member_or(v, "summary", "");
        Some(ChatEvent::SubAgentCompleted { id, success, summary })
    } else {
        None
    }
}

/// The event that an event name and a JSON body stand for; none where the body
/// is not JSON.
pub fn parse_sse(event_type: &str, data: &str) -> (r: Option<ChatEvent>)
    ensures
        ({
            let e = match json::json_of(data@) {
                Some(m) => event_of(event_type@, m),
                None => None,
            };
            (r is Some <==> e is Some) && (r matches Some(x) ==> x@ == e->0)
        }),
{
    let v = parse_json(data)?;
    chat_event(event_type, &v)
}

/// What the sidebar shows of a thread.
#[derive(Debug, Clone)]
pub struct ThreadInfo {
    pub id: String,
    pub state: String,
    pub turn_count: usize,
    pub created_at: String,
    pub updated_at: String,
}

/// The threads of a session.
#[derive(Debug, Clone)]
pub struct ThreadListResponse {
    pub threads: Vec<ThreadInfo>,
    pub active_thread: Option<String>,
}

/// One turn of a conversation: what the user said and, once the loop has
/// finished, the answer.
#[derive(Debug, Clone)]
pub struct TurnInfo {
    pub turn_number: usize,
    pub user_input: String,
    pub response: Option<String>,
    pub state: String,
}

/// The turns of a thread, in order.
#[derive(Debug, Clone)]
pub struct HistoryResponse {
    pub thread_id: String,
    pub turns: Vec<TurnInfo>,
}

/// A chat message as it is sent.
#[derive(Debug)]
pub struct SendMessageRequest<'a> {
    pub content: &'a str,
    /// The thread that it belongs to; none is the active one.
    pub thread_id: Option<&'a str>,
    /// Pictures in base64; none when there are no pictures.
    pub images: Option<Vec<String>>,
}

/// The request for a chat message.
pub fn chat_request<'a>(
    content: &'a str,
    images: Vec<String>,
    thread_id: Option<&'a str>,
) -> (r: SendMessageRequest<'a>)
    ensures
        r.content@ == content@,
        r.thread_id == thread_id,
        r.images == if images@.len() == 0 {
            None
        } else {
            Some(images)
        },
{
    let images = if images.len() == 0 {
        None
    } else {
        Some(images)
    };
    SendMessageRequest { content, thread_id, images }
}

/// Success clears the count of failures. A network error, a failure of the
/// server and a second attempt that did not succeed add one to it; any other
/// reply leaves the breaker as it is.
pub proof fn law_what_counts_as_a_failure(b: BreakerModel, status: u16, now_ms: int)
    requires
        0 <= b.failures < u32::MAX,
    ensures
        breaker_after(b, None, false, now_ms).failures == b.failures + 1,
        breaker_after(b, None, true, now_ms).failures == b.failures + 1,
        200 <= status <= 299 ==> {
            &&& breaker_after(b, Some(status), false, now_ms).failures == 0
            &&& breaker_after(b, Some(status), false, now_ms).open_until_ms == 0
            &&& breaker_after(b, Some(status), true, now_ms).failures == 0
            &&& breaker_after(b, Some(status), true, now_ms).open_until_ms == 0
        },
        500 <= status <= 599 ==> breaker_after(b, Some(status), false, now_ms).failures
            == b.failures + 1,
        !(200 <= status <= 299) && !(500 <= status <= 599) ==> breaker_after(
            b,
            Some(status),
            false,
            now_ms,
        ) == b,
        !(200 <= status <= 299) ==> breaker_after(b, Some(status), true, now_ms).failures
            == b.failures + 1,
{
}

/// The first reply that asks for authentication is answered with a new token;
/// every other reply is delivered, and where the network failed there is none.
pub proof fn law_what_follows_a_reply(status: u16, retried: bool)
    ensures
        after_reply_spec(Some(401), false) == AfterReply::RefreshAndRetry,
        status != 401 || retried ==> after_reply_spec(Some(status), retried)
            == AfterReply::Deliver,
        after_reply_spec(None, false) == AfterReply::NetworkError,
        after_reply_spec(None, true) == AfterReply::RetryNetworkError,
{
}

/// An event is read from the members of its body under their own names. What is
/// optional has a default, and without what is required there is no event.
pub proof fn law_events_carry_their_members(m: json::JsonModel)
    ensures
        event_of("response"@, m) == if m.strings.contains_key("content"@) {
            Some(EventModel::Response { content: m.strings["content"@] })
        } else {
            None
        },
        event_of("stream_chunk"@, m) == if m.strings.contains_key("content"@) {
            Some(EventModel::StreamChunk { content: m.strings["content"@] })
        } else {
            None
        },
        event_of("status"@, m) == if m.strings.contains_key("message"@) {
            Some(EventModel::Status { message: m.strings["message"@] })
        } else {
            None
        },
        event_of("thinking"@, m) == if m.strings.contains_key("message"@) {
            Some(EventModel::Thinking { message: m.strings["message"@] })
        } else {
            None
        },
        event_of("error"@, m) == if m.strings.contains_key("message"@) {
            Some(EventModel::Error { message: m.strings["message"@] })
        } else {
            None
        },
        event_of("tool_started"@, m) == if m.strings.contains_key("name"@) {
            Some(EventModel::ToolStarted { name: m.strings["name"@] })
        } else {
            None
        },
        event_of("tool_completed"@, m) == if m.strings.contains_key("name"@) {
            Some(
                EventModel::ToolCompleted {
                    name: m.strings["name"@],
                    success: m.bools.contains_key("success"@) && m.bools["success"@],
                },
            )
        } else {
            None
        },
        event_of("tool_result"@, m) == if m.strings.contains_key("name"@) && m.strings.contains_key(
            "preview"@,
        ) {
            Some(
                EventModel::ToolResult {
                    name: m.strings["name"@],
                    preview: m.strings["preview"@],
                },
            )
        } else {
            None
        },
        event_of("approval_needed"@, m) is Some <==> m.strings.contains_key("request_id"@)
            && m.strings.contains_key("tool_name"@),
        event_of("approval_needed"@, m) matches Some(e) ==> e == (EventModel::ApprovalNeeded {
            request_id: m.strings["request_id"@],
            tool_name: m.strings["tool_name"@],
            description: if m.strings.contains_key("description"@) {
                m.strings["description"@]
            } else {
                ""@
            },
            parameters: if m.texts.contains_key("parameters"@) {
                m.texts["parameters"@]
            } else {
                "null"@
            },
        }),
        event_of("sub_agent_started"@, m) is Some <==> m.strings.contains_key("id"@)
            && m.strings.contains_key("label"@),
        event_of("sub_agent_started"@, m) matches Some(e) ==> e == (EventModel::SubAgentStarted {
            id: m.strings["id"@],
            label: m.strings["label"@],
            kind: if m.strings.contains_key("kind"@) {
                m.strings["kind"@]
            } else {
                "unknown"@
            },
        }),
        event_of("sub_agent_progress"@, m) is Some <==> m.strings.contains_key("id"@)
            && m.strings.contains_key("message"@),
        event_of("sub_agent_progress"@, m) matches Some(e) ==> e == (EventModel::SubAgentProgress {
            id: m.strings["id"@],
            message: m.strings["message"@],
        }),
        event_of("sub_agent_completed"@, m) is Some <==> m.strings.contains_key("id"@),
        event_of("sub_agent_completed"@, m) matches Some(e) ==> e
            == (EventModel::SubAgentCompleted {
            id: m.strings["id"@],
            success: m.bools.contains_key("success"@) && m.bools["success"@],
            summary: if m.strings.contains_key("summary"@) {
                m.strings["summary"@]
            } else {
                ""@
            },
        }),
{
    reveal_strlit("response");
    reveal_strlit("stream_chunk");
    reveal_strlit("status");
    reveal_strlit("thinking");
    reveal_strlit("error");
    reveal_strlit("tool_started");
    reveal_strlit("tool_completed");
    reveal_strlit("tool_result");
    reveal_strlit("approval_needed");
    reveal_strlit("sub_agent_started");
    reveal_strlit("sub_agent_progress");
    reveal_strlit("sub_agent_completed");
    assert("response"@.len() == 8 && "thinking"@.len() == 8 && "response"@[0] != "thinking"@[0]);
    assert("stream_chunk"@.len() == 12 && "tool_started"@.len() == 12 && "stream_chunk"@[0]
        != "tool_started"@[0]);
    assert("status"@.len() == 6 && "error"@.len() == 5 && "tool_completed"@.len() == 14
        && "tool_result"@.len() == 11 && "approval_needed"@.len() == 15
        && "sub_agent_started"@.len() == 17 && "sub_agent_progress"@.len() == 18
        && "sub_agent_completed"@.len() == 19);
}

/// Between attempts to get the token the wait grows by half a second, up to five
/// seconds; after thirty attempts there is none.
pub proof fn law_token_is_asked_for_patiently(attempt: u32, r: Option<u64>)
    requires
        call_ensures(token_retry_delay_ms, (attempt,), r),
    ensures
        attempt < 30 ==> r is Some,
        attempt >= 30 ==> r is None,
        attempt < 10 ==> r == Some((500 * attempt + 500) as u64),
        10 <= attempt < 30 ==> r == Some(5000u64),
{
}

/// Addresses are those of the gateway, followed by their path, and by the thread
/// or the token where one is given.
pub proof fn law_addresses(base: &str, path: &str, id: &str, u: String, h: String, e: String)
    requires
        call_ensures(endpoint, (base, path), u),
        call_ensures(history_url, (base, Some(id)), h),
        call_ensures(events_url, (base, id), e),
    ensures
        u@ == base@ + path@,
        h@ == base@ + "/api/chat/history?thread_id="@ + id@,
        e@ == base@ + "/api/chat/events?token="@ + id@,
{
}

/// Without a thread the history is that of the active one.
pub proof fn law_history_of_the_active_thread(base: &str, h: String)
    requires
        call_ensures(history_url, (base, None), h),
    ensures
        h@ == base@ + "/api/chat/history"@,
{
}

/// An answer is a denial unless it approves; only an approval can be for always.
pub proof fn law_words_for_answers(approved: bool, always: bool, a: &'static str)
    requires
        call_ensures(approval_action, (approved, always), a),
    ensures
        !approved ==> a@ == "deny"@,
        approved && !always ==> a@ == "approve"@,
        approved && always ==> a@ == "always"@,
{
}

/// A message is sent as it is, to its thread, with its pictures if it has any.
pub proof fn law_messages_are_sent_whole<'a>(
    content: &'a str,
    images: Vec<String>,
    thread_id: Option<&'a str>,
    r: SendMessageRequest<'a>,
)
    requires
        call_ensures(chat_request, (content, images, thread_id), r),
    ensures
        r.content@ == content@,
        r.thread_id == thread_id,
        images@.len() == 0 ==> r.images is None,
        images@.len() > 0 ==> r.images == Some(images),
{
}

} // verus!
