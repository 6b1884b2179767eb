//! The chat event stream: each named event becomes a typed one.

use vstd::prelude::*;

use crate::record;
use crate::record::{read_record, Field, Slot, SlotModel};
use crate::text::{chars_of, spells};

verus! {

/// One event of the chat stream.
#[derive(Debug, Clone)]
pub enum ChatEvent {
    /// The complete answer, after all tools have finished.
    Response { content: String },
    /// A piece of the answer in progress.
    StreamChunk { content: String },
    /// A line for the status display.
    Status(String),
    /// A tool started.
    ToolStarted { name: String },
    /// A tool finished.
    ToolCompleted { name: String, success: bool },
    /// The agent waits until the user has approved or denied a tool call.
    ApprovalNeeded {
        request_id: String,
        tool_name: String,
        description: String,
        parameters: String,
    },
}

/// What an event holds.
#[verifier::ext_equal]
pub enum EventModel {
    Response { content: Seq<char> },
    StreamChunk { content: Seq<char> },
    Status(Seq<char>),
    ToolStarted { name: Seq<char> },
    ToolCompleted { name: Seq<char>, success: bool },
    ApprovalNeeded {
        request_id: Seq<char>,
        tool_name: Seq<char>,
        description: Seq<char>,
        parameters: Seq<char>,
    },
}

impl View for ChatEvent {
    type V = EventModel;

    open spec fn view(&self) -> EventModel {
        match self {
            ChatEvent::Response { content } => EventModel::Response { content: content@ },
            ChatEvent::StreamChunk { content } => EventModel::StreamChunk { content: content@ },
            ChatEvent::Status(m) => EventModel::Status(m@),
            ChatEvent::ToolStarted { name } => EventModel::ToolStarted { name: name@ },
            ChatEvent::ToolCompleted { name, success } => EventModel::ToolCompleted {
                name: name@,
                success: *success,
            },
            ChatEvent::ApprovalNeeded { request_id, tool_name, description, parameters } =>
            EventModel::ApprovalNeeded {
                request_id: request_id@,
                tool_name: tool_name@,
                description: description@,
                parameters: parameters@,
            },
        }
    }
}

/// The fields that an event of a kind carries. Other kinds are not events.
pub open spec fn fields_of(kind: Seq<char>) -> Option<Seq<record::FieldModel>> {
    if kind == "response"@ || kind == "stream_chunk"@ {
        Some(seq![record::text_field("content"@)])
    } else if kind == "status"@ || kind == "thinking"@ {
        Some(seq![record::text_field("message"@)])
    } else if kind == "tool_started"@ {
        Some(seq![record::text_field("name"@)])
    } else if kind == "tool_completed"@ {
        Some(seq![record::text_field("name"@), record::flag_field("success"@)])
    } else if kind == "approval_needed"@ {
        Some(
            seq![
                record::text_field("request_id"@),
                record::text_field("tool_name"@),
                record::text_field("description"@),
                record::text_field("parameters"@),
            ],
        )
    } else {
        None
    }
}

/// The event of a kind that carries these values.
pub open spec fn event_of(kind: Seq<char>, slots: Seq<SlotModel>) -> Option<EventModel> {
    if slots.len() == 1 {
        match slots[0] {
            SlotModel::Text(t) => if kind == "response"@ {
                Some(EventModel::Response { content: t })
            } else if kind == "stream_chunk"@ {
                Some(EventModel::StreamChunk { content: t })
            } else if kind == "status"@ || kind == "thinking"@ {
                Some(EventModel::Status(t))
            } else if kind == "tool_started"@ {
                Some(EventModel::ToolStarted { name: t })
            } else {
                None
            },
            SlotModel::Flag(_) => None,
        }
    } else if slots.len() == 2 && kind == "tool_completed"@ {
        match (slots[0], slots[1]) {
            (SlotModel::Text(name), SlotModel::Flag(success)) => Some(
                EventModel::ToolCompleted { name, success },
            ),
            _ => None,
        }
    } else if slots.len() == 4 && kind == "approval_needed"@ {
        match (slots[0], slots[1], slots[2], slots[3]) {
            (
                SlotModel::Text(request_id),
                SlotModel::Text(tool_name),
                SlotModel::Text(description),
                SlotModel::Text(parameters),
            ) => Some(
                EventModel::ApprovalNeeded { request_id, tool_name, description, parameters },
            ),
            _ => None,
        }
    } else {
        None
    }
}

/// The event that a text announced as `kind` stands for: a record of the fields
/// of that kind.
pub open spec fn event_in(kind: Seq<char>, data: Seq<char>) -> Option<EventModel> {
    match fields_of(kind) {
        Some(f) => match record::record_of(f, data) {
            Some(slots) => event_of(kind, slots),
            None => None,
        },
        None => None,
    }
}

fn text_field(name: &'static str) -> (f: Field)
    ensures
        f@ == record::text_field(name@),
{
    Field { name, is_flag: false }
}

fn kind_fields(kind: &[char]) -> (r: Option<Vec<Field>>)
    ensures
        r is Some <==> fields_of(kind@) is Some,
        r matches Some(v) ==> record::fields(v@) == fields_of(kind@)->0,
{
    let mut f: Vec<Field> = Vec::new();
    if spells(kind, "response") || spells(kind, "stream_chunk") {
        f.push(text_field("content"));
        assert(record::fields(f@) =~= seq![record::text_field("content"@)]);
    } else if spells(kind, "status") || spells(kind, "thinking") {
        f.push(text_field("message"));
        assert(record::fields(f@) =~= seq![record::text_field("message"@)]);
    } else if spells(kind, "tool_started") {
        f.push(text_field("name"));
        assert(record::fields(f@) =~= seq![record::text_field("name"@)]);
    } else if spells(kind, "tool_completed") {
        f.push(text_field("name"));
        f.push(Field { name: "success", is_flag: true });
        assert(record::fields(f@) =~= seq![
            record::text_field("name"@),
            record::flag_field("success"@),
        ]);
    } else if spells(kind, "approval_needed") {
        f.push(text_field("request_id"));
        f.push(text_field("tool_name"));
        f.push(text_field("description"));
        f.push(text_field("parameters"));
        assert(record::fields(f@) =~= seq![
            record::text_field("request_id"@),
            record::text_field("tool_name"@),
            record::text_field("description"@),
            record::text_field("parameters"@),
        ]);
    } else {
        return None;
    }
    Some(f)
}

/// The event of a kind that carries these values.
pub fn chat_event(event_name: &str, slots: Vec<Slot>) -> (r: Option<ChatEvent>)
    ensures
        r is Some <==> event_of(event_name@, record::slots(slots@)) is Some,
        r matches Some(e) ==> e@ == event_of(event_name@, record::slots(slots@))->0,
{
    let chars = chars_of(event_name);
    let kind = chars.as_slice();
    let ghost all = record::slots(slots@);
    let mut slots = slots;
    assert(forall|i: int| 0 <= i < slots@.len() ==> all[i] == (#[trigger] slots@[i])@);
    if slots.len() == 1 {
        let a = slots.pop();
        assert(a->0@ == all[0]);
        match a {
            Some(Slot::Text(t)) => if spells(kind, "response") {
                Some(ChatEvent::Response { content: t })
            } else if spells(kind, "stream_chunk") {
                Some(ChatEvent::StreamChunk { content: t })
            } else if spells(kind, "status") || spells(kind, "thinking") {
                Some(ChatEvent::Status(t))
            } else if spells(kind, "tool_started") {
                Some(ChatEvent::ToolStarted { name: t })
            } else {
                None
            },
            _ => None,
        }
    } else if slots.len() == 2 && spells(kind, "tool_completed") {
        let b = slots.pop();
        let a = slots.pop();
        assert(a->0@ == all[0]);
        assert(b->0@ == all[1]);
        match (a, b) {
            (Some(Slot::Text(name)), Some(Slot::Flag(success))) => Some(
                ChatEvent::ToolCompleted { name, success },
            ),
            _ => None,
        }
    } else if slots.len() == 4 && spells(kind, "approval_needed") {
        let d = slots.pop();
        let c = slots.pop();
        let b = slots.pop();
        let a = slots.pop();
        assert(a->0@ == all[0]);
        assert(b->0@ == all[1]);
        assert(c->0@ == all[2]);
        assert(d->0@ == all[3]);
        match (a, b, c, d) {
            (
                Some(Slot::Text(request_id)),
                Some(Slot::Text(tool_name)),
                Some(Slot::Text(description)),
                Some(Slot::Text(parameters)),
            ) => Some(
                ChatEvent::ApprovalNeeded { request_id, tool_name, description, parameters },
            ),
            _ => None,
        }
    } else {
        None
    }
}

/// The event that an event name and its data stand for.
pub fn parse_event(event_name: &str, data: &str) -> (r: Option<ChatEvent>)
    ensures
        r is Some <==> event_in(event_name@, data@) is Some,
        r matches Some(e) ==> e@ == event_in(event_name@, data@)->0,
{
    let chars = chars_of(event_name);
    let f = kind_fields(chars.as_slice())?;
    let slots = read_record(&f, data)?;
    chat_event(event_name, slots)
}

/// The name of an event's kind, for the log.
pub fn ev_kind(ev: &ChatEvent) -> (s: &'static str)
    ensures
        s@ == match ev@ {
            EventModel::Response { .. } => "Response"@,
            EventModel::StreamChunk { .. } => "StreamChunk"@,
            EventModel::Status(_) => "Status"@,
            EventModel::ToolStarted { .. } => "ToolStarted"@,
            EventModel::ToolCompleted { .. } => "ToolCompleted"@,
            EventModel::ApprovalNeeded { .. } => "ApprovalNeeded"@,
        },
{
    match ev {
        ChatEvent::Response { .. } => "Response",
        ChatEvent::StreamChunk { .. } => "StreamChunk",
        ChatEvent::Status(_) => "Status",
        ChatEvent::ToolStarted { .. } => "ToolStarted",
        ChatEvent::ToolCompleted { .. } => "ToolCompleted",
        ChatEvent::ApprovalNeeded { .. } => "ApprovalNeeded",
    }
}

/// An event of a kind is read from the fields of that kind, by their own names
/// and in this order.
pub proof fn law_kinds_have_their_fields(kind: Seq<char>)
    ensures
        fields_of("response"@) == Some(seq![record::text_field("content"@)]),
        fields_of("stream_chunk"@) == Some(seq![record::text_field("content"@)]),
        fields_of("status"@) == Some(seq![record::text_field("message"@)]),
        fields_of("thinking"@) == Some(seq![record::text_field("message"@)]),
        fields_of("tool_started"@) == Some(seq![record::text_field("name"@)]),
        fields_of("tool_completed"@) == Some(
            seq![record::text_field("name"@), record::flag_field("success"@)],
        ),
        fields_of("approval_needed"@) == Some(
            seq![
                record::text_field("request_id"@),
                record::text_field("tool_name"@),
                record::text_field("description"@),
                record::text_field("parameters"@),
            ],
        ),
        !seq![
            "response"@,
            "stream_chunk"@,
            "status"@,
            "thinking"@,
            "tool_started"@,
            "tool_completed"@,
            "approval_needed"@,
        ].contains(kind) ==> fields_of(kind) is None,
{
    lemma_kinds_differ();
    let l = seq![
        "response"@,
        "stream_chunk"@,
        "status"@,
        "thinking"@,
        "tool_started"@,
        "tool_completed"@,
        "approval_needed"@,
    ];
    assert(l[0] == "response"@ && l[1] == "stream_chunk"@ && l[2] == "status"@ && l[3]
        == "thinking"@ && l[4] == "tool_started"@ && l[5] == "tool_completed"@ && l[6]
        == "approval_needed"@);
}

proof fn lemma_kinds_differ()
    ensures
        "response"@.len() == 8 && "thinking"@.len() == 8 && "response"@[0] == 'r' && "thinking"@[0]
            == 't',
        "stream_chunk"@.len() == 12 && "tool_started"@.len() == 12 && "stream_chunk"@[0] == 's'
            && "tool_started"@[0] == 't',
        "status"@.len() == 6 && "tool_completed"@.len() == 14 && "approval_needed"@.len() == 15,
{
    reveal_strlit("response");
    reveal_strlit("stream_chunk");
    reveal_strlit("status");
    reveal_strlit("thinking");
    reveal_strlit("tool_started");
    reveal_strlit("tool_completed");
    reveal_strlit("approval_needed");
}

/// An event carries the values of its fields.
pub proof fn law_events_carry_their_fields(
    a: Seq<char>,
    b: Seq<char>,
    c: Seq<char>,
    d: Seq<char>,
    ok: bool,
)
    ensures
        event_of("response"@, seq![SlotModel::Text(a)]) == Some(
            EventModel::Response { content: a },
        ),
        event_of("stream_chunk"@, seq![SlotModel::Text(a)]) == Some(
            EventModel::StreamChunk { content: a },
        ),
        event_of("status"@, seq![SlotModel::Text(a)]) == Some(EventModel::Status(a)),
        event_of("thinking"@, seq![SlotModel::Text(a)]) == Some(EventModel::Status(a)),
        event_of("tool_started"@, seq![SlotModel::Text(a)]) == Some(
            EventModel::ToolStarted { name: a },
        ),
        event_of("tool_completed"@, seq![SlotModel::Text(a), SlotModel::Flag(ok)]) == Some(
            EventModel::ToolCompleted { name: a, success: ok },
        ),
        event_of(
            "approval_needed"@,
            seq![SlotModel::Text(a), SlotModel::Text(b), SlotModel::Text(c), SlotModel::Text(d)],
        ) == Some(
            EventModel::ApprovalNeeded {
                request_id: a,
                tool_name: b,
                description: c,
                parameters: d,
            },
        ),
{
    lemma_kinds_differ();
}

} // verus!
