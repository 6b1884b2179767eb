//! The streaming speech recogniser: its configuration, what is sent to it and
//! what it says.
//!
//! Audio goes out in datagrams, control messages and events are lines of JSON.

use vstd::prelude::*;

use crate::hex;
use crate::hex::{cert_digest, decode_pairs, DigestError, HexError};
use crate::json;
use crate::json::parse_json;
use crate::record;
use crate::record::{read_record, Field, Slot, SlotModel};
use crate::text;
use crate::text::{chars_of, decode, spells, string_of};
use crate::wire;
use crate::wire::LineBuffer;

verus! {

/// What the recogniser heard.
#[derive(Debug, Clone)]
pub enum StreamingEvent {
    /// A partial transcript while the user is still talking.
    Interim(String),
    /// The transcript of the whole utterance.
    Final(String),
}

/// What an event holds.
#[verifier::ext_equal]
pub enum StreamingModel {
    Interim(Seq<char>),
    Final(Seq<char>),
}

impl View for StreamingEvent {
    type V = StreamingModel;

    open spec fn view(&self) -> StreamingModel {
        match self {
            StreamingEvent::Interim(t) => StreamingModel::Interim(t@),
            StreamingEvent::Final(t) => StreamingModel::Final(t@),
        }
    }
}

/// The models of a sequence of events.
pub open spec fn models(s: Seq<StreamingEvent>) -> Seq<StreamingModel> {
    s.map_values(|e: StreamingEvent| e@)
}

/// Where the recogniser listens, and the digest of its certificate in
/// hexadecimal. The digest is empty when streaming is disabled.
#[derive(Debug, Clone)]
pub struct StreamingConfig {
    pub url: String,
    pub cert_sha256: String,
}

/// The configuration if streaming is enabled; otherwise audio is uploaded.
pub fn enabled(cfg: StreamingConfig) -> (r: Option<StreamingConfig>)
    ensures
        r is None <==> cfg.url@.len() == 0 || cfg.cert_sha256@.len() == 0,
        r matches Some(c) ==> c == cfg,
{
    if cfg.url.as_str().is_empty() || cfg.cert_sha256.as_str().is_empty() {
        None
    } else {
        Some(cfg)
    }
}

/// The bytes that hexadecimal text denotes.
pub fn hex_decode(s: &str) -> (r: Result<Vec<u8>, HexError>)
    ensures
        ({
            let b = hex::trimmed_bytes(s@);
            &&& r is Ok <==> b.len() % 2 == 0 && hex::all_pairs(b, true)
            &&& r matches Ok(v) ==> v@ == hex::pair_values(b, true)
            &&& r == Err::<Vec<u8>, HexError>(HexError::OddLength) <==> b.len() % 2 != 0
            &&& r == Err::<Vec<u8>, HexError>(HexError::InvalidDigit) <==> b.len() % 2 == 0
                && !hex::all_pairs(b, true)
        }),
{
    decode_pairs(s, true)
}

/// The digest of the certificate to trust.
pub fn pinned_digest(cfg: &StreamingConfig) -> (r: Result<Vec<u8>, DigestError>)
    ensures
        ({
            let b = hex::trimmed_bytes(cfg.cert_sha256@);
            let good = b.len() % 2 == 0 && hex::all_pairs(b, true);
            &&& r is Ok <==> good && b.len() == 64
            &&& r matches Ok(v) ==> v@ == hex::pair_values(b, true) && v@.len() == 32
            &&& r matches Err(DigestError::Length(n)) ==> good && n == b.len() / 2 && n != 32
            &&& r matches Err(DigestError::Hex(e)) ==> !good && (e == HexError::OddLength
                <==> b.len() % 2 != 0)
        }),
{
    cert_digest(cfg.cert_sha256.as_str(), true)
}

/// What the recogniser is told about an utterance.
#[derive(Debug, Clone, Copy, PartialEq, Eq, Structural)]
pub enum Control {
    Start,
    End,
    /// Forget the utterance.
    Reset,
}

/// The line that carries a control message.
pub fn control_line(c: Control) -> (s: &'static str)
    ensures
        s@ == match c {
            Control::Start => "{\"type\":\"start\"}\n"@,
            Control::End => "{\"type\":\"end\"}\n"@,
            Control::Reset => "{\"type\":\"reset\"}\n"@,
        },
{
    match c {
        Control::Start => "{\"type\":\"start\"}\n",
        Control::End => "{\"type\":\"end\"}\n",
        Control::Reset => "{\"type\":\"reset\"}\n",
    }
}

/// How many samples go into one datagram: 1024 bytes, which every path carries.
pub const SAMPLES_PER_DATAGRAM: usize = 256;

/// `s` in pieces of 256, the last one possibly shorter.
pub open spec fn pieces<S>(s: Seq<S>) -> Seq<Seq<S>>
    decreases s.len(),
{
    if s.len() == 0 {
        Seq::empty()
    } else if s.len() <= SAMPLES_PER_DATAGRAM {
        seq![s]
    } else {
        seq![s.take(SAMPLES_PER_DATAGRAM as int)] + pieces(s.skip(SAMPLES_PER_DATAGRAM as int))
    }
}

/// The views of a vector of vectors.
pub open spec fn vec_views<S>(v: Seq<Vec<S>>) -> Seq<Seq<S>> {
    v.map_values(|l: Vec<S>| l@)
}

/// Cuts audio into datagrams.
pub fn datagrams<S: Copy>(samples: &[S]) -> (out: Vec<Vec<S>>)
    ensures
        vec_views(out@) == pieces(samples@),
{
    let n: usize = samples.len();
    let mut out: Vec<Vec<S>> = Vec::new();
    let mut i: usize = 0;
    assert(samples@.skip(0) =~= samples@);
    assert(vec_views(out@) + pieces(samples@) =~= pieces(samples@));
    while i < n
        invariant
            i <= n == samples@.len(),
            vec_views(out@) + pieces(samples@.skip(i as int)) == pieces(samples@),
        decreases n - i,
    {
        let ghost tail = samples@.skip(i as int);
        let ghost done = out@;
        let j: usize = if n - i <= SAMPLES_PER_DATAGRAM {
            n
        } else {
            i + SAMPLES_PER_DATAGRAM
        };
        let piece = vstd::slice::slice_to_vec(vstd::slice::slice_subrange(samples, i, j));
        out.push(piece);
        proof {
            assert(piece@ =~= tail.take(j - i));
            assert(vec_views(out@) =~= vec_views(done).push(piece@));
            if j == n {
                assert(piece@ =~= tail);
                assert(samples@.skip(j as int) =~= Seq::<S>::empty());
                assert(vec_views(out@) + pieces(samples@.skip(j as int)) =~= vec_views(done)
                    + seq![piece@]);
            } else {
                assert(tail.skip(SAMPLES_PER_DATAGRAM as int) =~= samples@.skip(j as int));
                assert(vec_views(out@) + pieces(samples@.skip(j as int)) =~= vec_views(done) + (
                seq![piece@] + pieces(samples@.skip(j as int))));
            }
        }
        i = j;
    }
    assert(samples@.skip(i as int) =~= Seq::<S>::empty());
    assert(vec_views(out@) + Seq::<Seq<S>>::empty() =~= vec_views(out@));
    out
}

/// All the pieces in a row.
pub open spec fn joined<S>(p: Seq<Seq<S>>) -> Seq<S>
    decreases p.len(),
{
    if p.len() == 0 {
        Seq::empty()
    } else {
        p[0] + joined(p.drop_first())
    }
}

/// Cutting audio into datagrams loses and reorders nothing, and every datagram
/// holds between 1 and 256 samples.
pub proof fn law_datagrams_carry_all_audio<S>(s: Seq<S>)
    ensures
        joined(pieces(s)) == s,
        forall|i: int|
            0 <= i < pieces(s).len() ==> 1 <= (#[trigger] pieces(s)[i]).len()
                <= SAMPLES_PER_DATAGRAM,
    decreases s.len(),
{
    let k = SAMPLES_PER_DATAGRAM as int;
    if s.len() == 0 {
    } else if s.len() <= k {
        reveal_with_fuel(joined, 2);
        assert(pieces(s).drop_first() =~= Seq::<Seq<S>>::empty());
        assert(joined(pieces(s)) =~= s);
    } else {
        let t = s.skip(k);
        law_datagrams_carry_all_audio(t);
        assert(pieces(s).drop_first() =~= pieces(t));
        assert(joined(pieces(s)) =~= s.take(k) + t);
        assert(s =~= s.take(k) + t);
        assert forall|i: int| 0 <= i < pieces(s).len() implies 1 <= (#[trigger] pieces(s)[i]).len()
            <= SAMPLES_PER_DATAGRAM by {
            if i > 0 {
                assert(pieces(s)[i] == pieces(t)[i - 1]);
            }
        }
    }
}

/// What was sent for the utterance in progress.
#[derive(Debug, Clone, Copy, PartialEq, Eq, Structural)]
pub struct Tally {
    pub datagrams: u64,
    pub bytes: u64,
}

impl Tally {
    /// Nothing was sent.
    pub fn new() -> (t: Self)
        ensures
            t.datagrams == 0,
            t.bytes == 0,
    {
        Tally { datagrams: 0, bytes: 0 }
    }

    /// A datagram went out.
    pub fn sent(&mut self, bytes: u64)
        requires
            old(self).datagrams < u64::MAX,
            old(self).bytes + bytes <= u64::MAX,
        ensures
            final(self).datagrams == old(self).datagrams + 1,
            final(self).bytes == old(self).bytes + bytes,
    {
        self.datagrams = self.datagrams + 1;
        self.bytes = self.bytes + bytes;
    }

    /// A control message went out: an utterance that starts, or is abandoned,
    /// counts from nothing.
    pub fn control(&mut self, c: Control)
        ensures
            *final(self) == if c == Control::End {
                *old(self)
            } else {
                Tally { datagrams: 0, bytes: 0 }
            },
    {
        match c {
            Control::End => {},
            Control::Start | Control::Reset => {
                self.datagrams = 0;
                self.bytes = 0;
            },
        }
    }
}

/// `s` without line ends at its end.
pub open spec fn without_line_end(s: Seq<char>) -> Seq<char>
    decreases s.len(),
{
    if s.len() > 0 && (s.last() == '\n' || s.last() == '\r') {
        without_line_end(s.drop_last())
    } else {
        s
    }
}

/// The fields of an event: its type and its text.
pub open spec fn event_fields() -> Seq<record::FieldModel> {
    seq![record::text_field("type"@), record::text_field("text"@)]
}

/// The event of these values. Other types are not events.
pub open spec fn event_of(slots: Seq<SlotModel>) -> Option<StreamingModel> {
    if slots.len() == 2 {
        match (slots[0], slots[1]) {
            (SlotModel::Text(kind), SlotModel::Text(t)) => if kind == "interim"@ {
                Some(StreamingModel::Interim(t))
            } else if kind == "final"@ {
                Some(StreamingModel::Final(t))
            } else {
                None
            },
            _ => None,
        }
    } else {
        None
    }
}

/// The event in a text: JSON through and through, and a record of its fields.
pub open spec fn event_in(s: Seq<char>) -> Option<StreamingModel> {
    if json::json_of(s) is Some {
        match record::record_of(event_fields(), s) {
            Some(slots) => event_of(slots),
            None => None,
        }
    } else {
        None
    }
}

/// The event in a line. A line that is not UTF-8, or not JSON, holds none.
pub open spec fn line_event(line: Seq<u8>) -> Option<StreamingModel> {
    event_in(without_line_end(text::utf8_or_empty(line)))
}

/// Whether a line is empty but for its line end: nothing is read of it.
pub open spec fn is_blank(line: Seq<u8>) -> bool {
    without_line_end(text::utf8_or_empty(line)).len() == 0
}

/// The events in the lines, in order.
pub open spec fn events_in(lines: Seq<Seq<u8>>) -> Seq<StreamingModel>
    decreases lines.len(),
{
    if lines.len() == 0 {
        Seq::empty()
    } else {
        let before = events_in(lines.drop_last());
        if is_blank(lines.last()) {
            before
        } else {
            match line_event(lines.last()) {
                Some(e) => before.push(e),
                None => before,
            }
        }
    }
}

/// The event of these values.
pub fn wire_event(slots: Vec<Slot>) -> (r: Option<StreamingEvent>)
    ensures
        r is Some <==> event_of(record::slots(slots@)) is Some,
        r matches Some(e) ==> e@ == event_of(record::slots(slots@))->0,
{
    let ghost all = record::slots(slots@);
    let mut slots = slots;
    if slots.len() != 2 {
        return None;
    }
    let b = slots.pop();
    let a = slots.pop();
    assert(a->0@ == all[0]);
    assert(b->0@ == all[1]);
    match (a, b) {
        (Some(Slot::Text(kind)), Some(Slot::Text(t))) => {
            let k = chars_of(kind.as_str());
            if spells(k.as_slice(), "interim") {
                Some(StreamingEvent::Interim(t))
            } else if spells(k.as_slice(), "final") {
                Some(StreamingEvent::Final(t))
            } else {
                None
            }
        },
        _ => None,
    }
}

/// Reads the event in a text.
pub fn read_event(s: &str) -> (r: Option<StreamingEvent>)
    ensures
        r is Some <==> event_in(s@) is Some,
        r matches Some(e) ==> e@ == event_in(s@)->0,
{
    let _ = parse_json(s)?;
    let mut f: Vec<Field> = Vec::new();
    f.push(Field { name: "type", is_flag: false });
    f.push(Field { name: "text", is_flag: false });
    assert(record::fields(f@) =~= event_fields());
    let slots = read_record(&f, s)?;
    wire_event(slots)
}

fn strip_line_end(v: &[char]) -> (r: &[char])
    ensures
        r@ == without_line_end(v@),
{
    let mut n: usize = v.len();
    assert(v@.take(n as int) =~= v@);
    while n > 0 && (v[n - 1] == '\n' || v[n - 1] == '\r')
        invariant
            n <= v@.len(),
            without_line_end(v@.take(n as int)) == without_line_end(v@),
        decreases n,
    {
        assert(v@.take(n as int).drop_last() =~= v@.take(n - 1));
        n -= 1;
    }
    let r = vstd::slice::slice_subrange(v, 0, n);
    assert(r@ =~= v@.take(n as int));
    r
}

/// Reads the recogniser's events off its stream.
pub struct EventReader {
    lines: LineBuffer,
}

impl View for EventReader {
    type V = Seq<u8>;

    closed spec fn view(&self) -> Seq<u8> {
        self.lines@
    }
}

impl EventReader {
    /// Nothing has come in.
    pub fn new() -> (r: Self)
        ensures
            r@ == Seq::<u8>::empty(),
    {
        EventReader { lines: LineBuffer::new() }
    }

    /// Takes bytes in and hands out the events of the lines that they complete.
    pub fn push(&mut self, chunk: &[u8]) -> (out: Vec<StreamingEvent>)
        ensures
            models(out@) == events_in(wire::complete_lines(old(self)@ + chunk@)),
            final(self)@ == wire::open_line(old(self)@ + chunk@),
    {
        let ls = self.lines.push(chunk);
        let ghost all = wire::byte_views(ls@);
        let mut out: Vec<StreamingEvent> = Vec::new();
        let mut i: usize = 0;
        assert(all.take(0) =~= Seq::<Seq<u8>>::empty());
        assert(models(out@) =~= Seq::<StreamingModel>::empty());
        while i < ls.len()
            invariant
                i <= ls@.len(),
                all == wire::byte_views(ls@),
                models(out@) == events_in(all.take(i as int)),
            decreases ls@.len() - i,
        {
            let ghost before = out@;
            proof {
                assert(all.take(i + 1).drop_last() =~= all.take(i as int));
                assert(all.take(i + 1).last() == ls@[i as int]@);
            }
            let chars = decode(ls[i].as_slice());
            let line = strip_line_end(chars.as_slice());
            if line.len() > 0 {
                let s = string_of(line);
                if let Some(e) = read_event(s.as_str()) {
                    out.push(e);
                    assert(models(out@) =~= models(before).push(e@));
                }
            }
            i += 1;
        }
        assert(all.take(i as int) =~= all);
        out
    }
}

proof fn lemma_events_concat(a: Seq<Seq<u8>>, b: Seq<Seq<u8>>)
    ensures
        events_in(a + b) == events_in(a) + events_in(b),
    decreases b.len(),
{
    if b.len() == 0 {
        assert(a + b =~= a);
        assert(events_in(a) + events_in(b) =~= events_in(a));
    } else {
        lemma_events_concat(a, b.drop_last());
        assert((a + b).drop_last() =~= a + b.drop_last());
        assert((a + b).last() == b.last());
        assert(events_in(a + b) =~= events_in(a) + events_in(b));
    }
}

/// Events do not depend on how the bytes were cut up on their way.
pub proof fn law_events_ignore_chunking(pending: Seq<u8>, a: Seq<u8>, b: Seq<u8>)
    ensures
        events_in(wire::complete_lines(pending + a)) + events_in(
            wire::complete_lines(wire::open_line(pending + a) + b),
        ) == events_in(wire::complete_lines(pending + (a + b))),
{
    wire::law_lines_ignore_chunking(pending + a, b);
    assert(pending + a + b =~= pending + (a + b));
    lemma_events_concat(
        wire::complete_lines(pending + a),
        wire::complete_lines(wire::open_line(pending + a) + b),
    );
}

/// Every datagram but the last holds 256 samples.
pub proof fn law_datagrams_are_full<S>(s: Seq<S>)
    ensures
        forall|i: int|
            0 <= i < pieces(s).len() - 1 ==> (#[trigger] pieces(s)[i]).len() == 256,
        s.len() > 0 ==> 256 * (pieces(s).len() - 1) < s.len() <= 256 * pieces(s).len(),
        s.len() == 0 ==> pieces(s).len() == 0,
    decreases s.len(),
{
    if s.len() > 256 {
        let t = s.skip(256);
        law_datagrams_are_full(t);
        assert forall|i: int| 0 <= i < pieces(s).len() - 1 implies (#[trigger] pieces(s)[i]).len()
            == 256 by {
            if i > 0 {
                assert(pieces(s)[i] == pieces(t)[i - 1]);
            }
        }
    }
}

/// A record is an event if it says that it is interim or final; its text is what
/// the event carries.
pub proof fn law_events_say_what_they_are(kind: Seq<char>, t: Seq<char>)
    ensures
        event_of(seq![SlotModel::Text("interim"@), SlotModel::Text(t)]) == Some(
            StreamingModel::Interim(t),
        ),
        event_of(seq![SlotModel::Text("final"@), SlotModel::Text(t)]) == Some(
            StreamingModel::Final(t),
        ),
        kind != "interim"@ && kind != "final"@ ==> event_of(
            seq![SlotModel::Text(kind), SlotModel::Text(t)],
        ) is None,
{
    reveal_strlit("interim");
    reveal_strlit("final");
    assert("interim"@.len() == 7 && "final"@.len() == 5);
}

/// A line is read without the line ends that close it, and a line with nothing
/// else in it is passed over.
pub proof fn law_line_ends_are_dropped(s: Seq<char>, e: Seq<char>)
    requires
        s.len() == 0 || (s.last() != '\n' && s.last() != '\r'),
        forall|k: int| 0 <= k < e.len() ==> #[trigger] e[k] == '\n' || e[k] == '\r',
    ensures
        without_line_end(s + e) == s,
    decreases e.len(),
{
    if e.len() > 0 {
        let last = e[e.len() - 1];
        assert((s + e).last() == last);
        assert((s + e).drop_last() =~= s + e.drop_last());
        assert forall|k: int| 0 <= k < e.drop_last().len() implies #[trigger] e.drop_last()[k]
            == '\n' || e.drop_last()[k] == '\r' by {
            assert(e.drop_last()[k] == e[k]);
        }
        law_line_ends_are_dropped(s, e.drop_last());
    } else {
        assert(s + e =~= s);
    }
}

/// An event is a record of a type and a text.
pub proof fn law_event_fields()
    ensures
        event_fields().len() == 2,
        event_fields()[0].name == "type"@ && !event_fields()[0].is_flag,
        event_fields()[1].name == "text"@ && !event_fields()[1].is_flag,
{
}

/// Events are what their models say, one by one.
pub proof fn law_models_are_the_events(s: Seq<StreamingEvent>, i: int)
    requires
        0 <= i < s.len(),
    ensures
        models(s).len() == s.len(),
        s[i] matches StreamingEvent::Interim(t) ==> models(s)[i] == StreamingModel::Interim(t@),
        s[i] matches StreamingEvent::Final(t) ==> models(s)[i] == StreamingModel::Final(t@),
{
}

/// Streaming is on only where the recogniser's address and the digest of its
/// certificate are both given.
pub proof fn law_streaming_needs_both(cfg: StreamingConfig, r: Option<StreamingConfig>)
    requires
        call_ensures(enabled, (cfg,), r),
    ensures
        cfg.url@.len() > 0 && cfg.cert_sha256@.len() > 0 ==> r == Some(cfg),
        cfg.url@.len() == 0 || cfg.cert_sha256@.len() == 0 ==> r is None,
{
}

/// Each control message is a line of JSON that names its type.
pub proof fn law_control_lines(c: Control, s: &'static str)
    requires
        call_ensures(control_line, (c,), s),
    ensures
        c == Control::Start ==> s@ == "{\"type\":\"start\"}\n"@,
        c == Control::End ==> s@ == "{\"type\":\"end\"}\n"@,
        c == Control::Reset ==> s@ == "{\"type\":\"reset\"}\n"@,
{
}

} // verus!
