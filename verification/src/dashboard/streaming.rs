//! The browser's session with the streaming recogniser: the certificate that it
//! trusts, the control messages, and the events that come in as lines of JSON.

use vstd::prelude::*;

use crate::hex;
use crate::hex::{cert_digest, decode_pairs, DigestError};
use crate::json;
use crate::json::{parse_json, str_member_or};
use crate::text;
use crate::text::{append, chars_of, copy_range, decimal, decode, find_from, spells, string_of, trim};

verus! {

/// One event of the recogniser.
#[derive(Debug, Clone)]
pub enum SttEvent {
    Interim(String),
    Final(String),
}

/// What an event holds.
#[verifier::ext_equal]
pub enum SttModel {
    Interim(Seq<char>),
    Final(Seq<char>),
}

impl View for SttEvent {
    type V = SttModel;

    open spec fn view(&self) -> SttModel {
        match self {
            SttEvent::Interim(t) => SttModel::Interim(t@),
            SttEvent::Final(t) => SttModel::Final(t@),
        }
    }
}

/// The models of a sequence of events.
pub open spec fn models(s: Seq<SttEvent>) -> Seq<SttModel> {
    s.map_values(|e: SttEvent| e@)
}

/// The bytes that hexadecimal text denotes, if it does.
pub fn hex_decode(s: &str) -> (r: Option<Vec<u8>>)
    ensures
        ({
            let b = hex::trimmed_bytes(s@);
            &&& r is Some <==> b.len() % 2 == 0 && hex::all_pairs(b, false)
            &&& r matches Some(v) ==> v@ == hex::pair_values(b, false)
        }),
{
    match decode_pairs(s, false) {
        Ok(v) => Some(v),
        Err(_) => None,
    }
}

/// The digest of the certificate to trust, or what is wrong with it.
pub fn pinned_digest(cert_sha256_hex: &str) -> (r: Result<Vec<u8>, String>)
    ensures
        ({
            let b = hex::trimmed_bytes(cert_sha256_hex@);
            let good = b.len() % 2 == 0 && hex::all_pairs(b, false);
            &&& r is Ok <==> good && b.len() == 64
            &&& r matches Ok(v) ==> v@ == hex::pair_values(b, false) && v@.len() == 32
            &&& r matches Err(e) ==> e@ == if good {
                "cert hash must be 32 bytes (SHA-256), got "@ + text::decimal_spec(b.len() / 2)
            } else {
                "bad cert hash hex: "@ + cert_sha256_hex@
            }
        }),
{
    match cert_digest(cert_sha256_hex, false) {
        Ok(v) => Ok(v),
        Err(DigestError::Hex(_)) => {
            let mut e = "bad cert hash hex: ".to_owned();
            e.push_str(cert_sha256_hex);
            Err(e)
        },
        Err(DigestError::Length(n)) => {
            let mut e = "cert hash must be 32 bytes (SHA-256), got ".to_owned();
            e.push_str(decimal(n as u64).as_str());
            Err(e)
        },
    }
}

/// The control message that ends an utterance.
pub fn finalize_line() -> (s: &'static str)
    ensures
        s@ == "{\"type\":\"end\"}\n"@,
{
    "{\"type\":\"end\"}\n"
}

/// The control message that abandons an utterance.
pub fn reset_line() -> (s: &'static str)
    ensures
        s@ == "{\"type\":\"reset\"}\n"@,
{
    "{\"type\":\"reset\"}\n"
}

/// The event that a JSON value stands for; a missing text is empty.
pub open spec fn event_of(m: json::JsonModel) -> Option<SttModel> {
    let kind = json::string_or(m, "type"@, ""@);
    let t = json::string_or(m, "text"@, ""@);
    if kind == "interim"@ {
        Some(SttModel::Interim(t))
    } else if kind == "final"@ {
        Some(SttModel::Final(t))
    } else {
        None
    }
}

/// The events of a line: one or none.
pub open spec fn line_events(line: Seq<char>) -> Seq<SttModel> {
    let t = text::trim_spec(line);
    if t.len() == 0 {
        Seq::empty()
    } else {
        match json::json_of(t) {
            None => Seq::empty(),
            Some(m) => match event_of(m) {
                None => Seq::empty(),
                Some(e) => seq![e],
            },
        }
    }
}

/// The events in the complete lines of `s`.
pub open spec fn events_in(s: Seq<char>) -> Seq<SttModel>
    decreases s.len(),
    via events_in_decreases
{
    let n = text::index_from(s, '\n', 0);
    if n >= s.len() {
        Seq::empty()
    } else {
        line_events(s.take(n)) + events_in(s.skip(n + 1))
    }
}

#[via_fn]
proof fn events_in_decreases(s: Seq<char>) {
    text::lemma_index_from(s, '\n', 0);
}

/// What follows the last line feed of `s`.
pub open spec fn open_line(s: Seq<char>) -> Seq<char>
    decreases s.len(),
    via open_line_decreases
{
    let n = text::index_from(s, '\n', 0);
    if n >= s.len() {
        s
    } else {
        open_line(s.skip(n + 1))
    }
}

#[via_fn]
proof fn open_line_decreases(s: Seq<char>) {
    text::lemma_index_from(s, '\n', 0);
}

/// The event that a JSON value stands for.
pub fn stt_event(v: &serde_json::Value) -> (r: Option<SttEvent>)
    ensures
        r is Some <==> event_of(json::json_model(*v)) is Some,
        r matches Some(e) ==> e@ == event_of(json::json_model(*v))->0,
{
    let kind = str_member_or(v, "type", "");
    let t = str_member_or(v, "text", "");
    let k = chars_of(kind.as_str());
    if spells(k.as_slice(), "interim") {
        Some(SttEvent::Interim(t))
    } else if spells(k.as_slice(), "final") {
        Some(SttEvent::Final(t))
    } else {
        None
    }
}

/// Reads the recogniser's events off its stream.
pub struct EventLines {
    buf: Vec<char>,
}

impl View for EventLines {
    type V = Seq<char>;

    closed spec fn view(&self) -> Seq<char> {
        self.buf@
    }
}

impl EventLines {
    /// Nothing has come in.
    pub fn new() -> (r: Self)
        ensures
            r@ == Seq::<char>::empty(),
    {
        EventLines { buf: Vec::new() }
    }

    /// Takes a chunk in and hands out the events of the lines that it
    /// completes. A chunk that is not UTF-8 is dropped.
    pub fn push(&mut self, chunk: &[u8]) -> (out: Vec<SttEvent>)
        ensures
            models(out@) == events_in(old(self)@ + text::utf8_or_empty(chunk@)),
            final(self)@ == open_line(old(self)@ + text::utf8_or_empty(chunk@)),
    {
        let chars = decode(chunk);
        append(&mut self.buf, chars.as_slice());
        let ghost all = self.buf@;
        let mut out: Vec<SttEvent> = Vec::new();
        assert(models(out@) =~= Seq::<SttModel>::empty());
        assert(models(out@) + events_in(all) =~= events_in(all));
        loop
            invariant
                models(out@) + events_in(self@) == events_in(all),
                open_line(self@) == open_line(all),
            ensures
                models(out@) == events_in(all),
                self@ == open_line(all),
            decreases self@.len(),
        {
            let ghost now = self@;
            let n: usize = find_from(self.buf.as_slice(), '\n', 0);
            if n >= self.buf.len() {
                assert(models(out@) + Seq::<SttModel>::empty() =~= models(out@));
                break ;
            }
            let ghost before = out@;
            let line = copy_range(self.buf.as_slice(), 0, n);
            assert(line@ =~= now.take(n as int));
            let t = trim(line.as_slice());
            if t.len() > 0 {
                let s = string_of(t);
                if let Some(v) = parse_json(s.as_str()) {
                    if let Some(e) = stt_event(&v) {
                        out.push(e);
                    }
                }
            }
            assert(models(out@) =~= models(before) + line_events(now.take(n as int)));
            let rest = copy_range(self.buf.as_slice(), n + 1, self.buf.len());
            assert(rest@ =~= now.skip(n + 1));
            self.buf = rest;
            assert(models(out@) + events_in(self@) =~= models(before) + (line_events(
                now.take(n as int),
            ) + events_in(self@)));
        }
        out
    }
}

/// Events come off complete lines, one after the other; what follows the last
/// line feed is kept for later.
pub proof fn law_events_come_line_by_line(l: Seq<char>, rest: Seq<char>)
    requires
        forall|k: int| 0 <= k < l.len() ==> l[k] != '\n',
    ensures
        events_in(l + "\n"@ + rest) == line_events(l) + events_in(rest),
        open_line(l + "\n"@ + rest) == open_line(rest),
        events_in(l).len() == 0,
        open_line(l) == l,
{
    reveal_strlit("\n");
    let s = l + "\n"@ + rest;
    let n = l.len() as int;
    text::lemma_index_from(s, '\n', 0);
    text::lemma_index_from(l, '\n', 0);
    assert(s[n] == '\n');
    assert forall|k: int| 0 <= k < n implies s[k] != '\n' by {
        assert(s[k] == l[k]);
    }
    assert(s.take(n) =~= l);
    assert(s.skip(n + 1) =~= rest);
}

/// A line holds an event if it is an object whose type is interim or final; the
/// event carries the object's text, or none.
pub proof fn law_events_say_what_they_are(m: json::JsonModel)
    ensures
        ({
            let t = if m.strings.contains_key("text"@) {
                m.strings["text"@]
            } else {
                ""@
            };
            let typed = m.strings.contains_key("type"@);
            &&& typed && m.strings["type"@] == "interim"@ ==> event_of(m) == Some(
                SttModel::Interim(t),
            )
            &&& typed && m.strings["type"@] == "final"@ ==> event_of(m) == Some(SttModel::Final(t))
            &&& typed && m.strings["type"@] != "interim"@ && m.strings["type"@] != "final"@
                ==> event_of(m) is None
            &&& !typed ==> event_of(m) is None
        }),
{
    reveal_strlit("interim");
    reveal_strlit("final");
    reveal_strlit("");
    assert("interim"@.len() == 7 && "final"@.len() == 5 && ""@.len() == 0);
}

/// Events are what their models say, one by one.
pub proof fn law_models_are_the_events(s: Seq<SttEvent>, i: int)
    requires
        0 <= i < s.len(),
    ensures
        models(s).len() == s.len(),
        s[i] matches SttEvent::Interim(t) ==> models(s)[i] == SttModel::Interim(t@),
        s[i] matches SttEvent::Final(t) ==> models(s)[i] == SttModel::Final(t@),
{
}

} // verus!
