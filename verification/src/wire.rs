//! What comes over the wire in pieces: lines, and speech in 32-bit samples.

use vstd::prelude::*;

use crate::ring;
use crate::wav;

verus! {

/// The least index from `i` on at which `s` holds `b`, or its length.
pub open spec fn byte_from(s: Seq<u8>, b: u8, i: int) -> int
    decreases s.len() - i,
{
    if i < 0 || i >= s.len() {
        s.len() as int
    } else if s[i] == b {
        i
    } else {
        byte_from(s, b, i + 1)
    }
}

pub proof fn lemma_byte_from(s: Seq<u8>, b: u8, i: int)
    requires
        0 <= i <= s.len(),
    ensures
        i <= byte_from(s, b, i) <= s.len(),
        byte_from(s, b, i) < s.len() ==> s[byte_from(s, b, i)] == b,
        forall|k: int| i <= k < byte_from(s, b, i) ==> s[k] != b,
    decreases s.len() - i,
{
    if i < s.len() && s[i] != b {
        lemma_byte_from(s, b, i + 1);
    }
}

/// The complete lines of `s`, without their line feeds.
pub open spec fn complete_lines(s: Seq<u8>) -> Seq<Seq<u8>>
    decreases s.len(),
    via complete_lines_decreases
{
    let n = byte_from(s, 10, 0);
    if n >= s.len() {
        Seq::empty()
    } else {
        seq![s.take(n)] + complete_lines(s.skip(n + 1))
    }
}

#[via_fn]
proof fn complete_lines_decreases(s: Seq<u8>) {
    lemma_byte_from(s, 10, 0);
}

/// What follows the last line feed of `s`.
pub open spec fn open_line(s: Seq<u8>) -> Seq<u8>
    decreases s.len(),
    via open_line_decreases
{
    let n = byte_from(s, 10, 0);
    if n >= s.len() {
        s
    } else {
        open_line(s.skip(n + 1))
    }
}

#[via_fn]
proof fn open_line_decreases(s: Seq<u8>) {
    lemma_byte_from(s, 10, 0);
}

/// The views of a vector of byte vectors.
pub open spec fn byte_views(v: Seq<Vec<u8>>) -> Seq<Seq<u8>> {
    v.map_values(|l: Vec<u8>| l@)
}

/// Bytes that have come in and do not make a complete line yet.
pub struct LineBuffer {
    buf: Vec<u8>,
}

impl View for LineBuffer {
    type V = Seq<u8>;

    closed spec fn view(&self) -> Seq<u8> {
        self.buf@
    }
}

impl LineBuffer {
    /// An empty buffer.
    pub fn new() -> (b: Self)
        ensures
            b@ == Seq::<u8>::empty(),
    {
        LineBuffer { buf: Vec::new() }
    }

    /// Takes bytes in and hands out the lines that they complete.
    pub fn push(&mut self, chunk: &[u8]) -> (lines: Vec<Vec<u8>>)
        ensures
            byte_views(lines@) == complete_lines(old(self)@ + chunk@),
            final(self)@ == open_line(old(self)@ + chunk@),
    {
        ring::append(&mut self.buf, chunk);
        let ghost all = self.buf@;
        let n: usize = self.buf.len();
        let mut lines: Vec<Vec<u8>> = Vec::new();
        let mut start: usize = 0;
        let mut i: usize = 0;
        proof {
            assert(all.skip(0) =~= all);
            assert(byte_views(lines@) =~= Seq::<Seq<u8>>::empty());
            assert(byte_views(lines@) + complete_lines(all) =~= complete_lines(all));
        }
        while i < n
            invariant
                start <= i <= n == all.len(),
                self.buf@ == all,
                forall|k: int| start <= k < i ==> all[k] != 10,
                byte_views(lines@) + complete_lines(all.skip(start as int)) == complete_lines(all),
                open_line(all.skip(start as int)) == open_line(all),
            decreases n - i,
        {
            if self.buf[i] == 10 {
                let ghost tail = all.skip(start as int);
                let ghost done = lines@;
                let line = vstd::slice::slice_to_vec(
                    vstd::slice::slice_subrange(self.buf.as_slice(), start, i),
                );
                lines.push(line);
                proof {
                    lemma_byte_from(tail, 10, 0);
                    let m = byte_from(tail, 10, 0);
                    assert(tail[i - start] == 10);
                    if m < i - start {
                        assert(all[start + m] == 10);
                    }
                    assert(m == i - start);
                    assert(line@ =~= tail.take(m));
                    assert(tail.skip(m + 1) =~= all.skip(i + 1));
                    assert(byte_views(lines@) =~= byte_views(done).push(line@));
                    assert(byte_views(lines@) + complete_lines(all.skip(i + 1)) =~= byte_views(done)
                        + (seq![line@] + complete_lines(all.skip(i + 1))));
                }
                start = i + 1;
            }
            i += 1;
        }
        proof {
            let tail = all.skip(start as int);
            lemma_byte_from(tail, 10, 0);
            let m = byte_from(tail, 10, 0);
            if m < tail.len() {
                assert(all[start + m] == 10);
            }
            assert(byte_views(lines@) + Seq::<Seq<u8>>::empty() =~= byte_views(lines@));
        }
        let rest = vstd::slice::slice_to_vec(
            vstd::slice::slice_subrange(self.buf.as_slice(), start, n),
        );
        assert(rest@ =~= all.skip(start as int));
        self.buf = rest;
        lines
    }
}

proof fn lemma_byte_from_prefix(a: Seq<u8>, b: Seq<u8>, x: u8)
    ensures
        byte_from(a, x, 0) < a.len() ==> byte_from(a + b, x, 0) == byte_from(a, x, 0),
{
    lemma_byte_from(a, x, 0);
    lemma_byte_from(a + b, x, 0);
    let n = byte_from(a, x, 0);
    let m = byte_from(a + b, x, 0);
    if n < a.len() {
        assert((a + b)[n] == x);
        if m < n {
            assert((a + b)[m] == a[m]);
        }
    }
}

/// Lines do not depend on how the bytes were cut up on their way: taking in two
/// chunks one after the other gives the same lines, and leaves the same rest,
/// as taking them in at once.
pub proof fn law_lines_ignore_chunking(a: Seq<u8>, b: Seq<u8>)
    ensures
        complete_lines(a) + complete_lines(open_line(a) + b) == complete_lines(a + b),
        open_line(open_line(a) + b) == open_line(a + b),
    decreases a.len(),
{
    lemma_byte_from(a, 10, 0);
    let n = byte_from(a, 10, 0);
    if n >= a.len() {
        assert(complete_lines(a) + complete_lines(a + b) =~= complete_lines(a + b));
    } else {
        let t = a.skip(n + 1);
        law_lines_ignore_chunking(t, b);
        lemma_byte_from_prefix(a, b, 10);
        assert((a + b).take(n) =~= a.take(n));
        assert((a + b).skip(n + 1) =~= t + b);
        assert(complete_lines(a) + complete_lines(open_line(a) + b) =~= seq![a.take(n)] + (
        complete_lines(t) + complete_lines(open_line(t) + b)));
    }
}

/// The 32-bit words that `s` holds, the low byte of each first. Up to three
/// bytes at the end are left over.
pub open spec fn words32(s: Seq<u8>) -> Seq<u32> {
    Seq::new(
        (s.len() / 4) as nat,
        |i: int| wav::from_le32(s.subrange(4 * i, 4 * i + 4)) as u32,
    )
}

/// The bytes at the end of `s` that do not make a word.
pub open spec fn left_over(s: Seq<u8>) -> Seq<u8> {
    s.skip((s.len() / 4 * 4) as int)
}

/// A stream of speech: the sample rate in four bytes, then 32-bit samples.
pub struct TtsFramer {
    sample_rate: Option<u32>,
    pending: Vec<u8>,
}

/// What a stream has told so far.
#[verifier::ext_equal]
pub struct FramerModel {
    pub sample_rate: Option<u32>,
    pub pending: Seq<u8>,
}

impl View for TtsFramer {
    type V = FramerModel;

    closed spec fn view(&self) -> FramerModel {
        FramerModel { sample_rate: self.sample_rate, pending: self.pending@ }
    }
}

/// A stream before its first byte.
pub open spec fn fresh_stream() -> FramerModel {
    FramerModel { sample_rate: None, pending: Seq::empty() }
}

/// The state after more bytes.
pub open spec fn framed(m: FramerModel, chunk: Seq<u8>) -> FramerModel {
    let all = m.pending + chunk;
    if m.sample_rate is Some {
        FramerModel { pending: left_over(all), ..m }
    } else if all.len() < 4 {
        FramerModel { pending: all, ..m }
    } else {
        FramerModel {
            sample_rate: Some(wav::from_le32(all.take(4)) as u32),
            pending: left_over(all.skip(4)),
        }
    }
}

/// The samples that more bytes complete.
pub open spec fn framed_samples(m: FramerModel, chunk: Seq<u8>) -> Seq<u32> {
    let all = m.pending + chunk;
    if m.sample_rate is Some {
        words32(all)
    } else if all.len() < 4 {
        Seq::empty()
    } else {
        words32(all.skip(4))
    }
}

fn read_words(b: &[u8]) -> (w: Vec<u32>)
    ensures
        w@ == words32(b@),
{
    let len: usize = b.len();
    let n: usize = len / 4;
    let mut w: Vec<u32> = Vec::new();
    let mut i: usize = 0;
    while i < n
        invariant
            len == b@.len(),
            i <= n == len / 4,
            w@.len() == i,
            forall|k: int| 0 <= k < i ==> (#[trigger] w@[k]) == words32(b@)[k],
        decreases n - i,
    {
        let x: u32 = wav::read_le32(b, 4 * i);
        w.push(x);
        i += 1;
    }
    assert(w@ =~= words32(b@));
    w
}

impl TtsFramer {
    /// A stream before its first byte.
    pub fn new() -> (f: Self)
        ensures
            f@ == fresh_stream(),
    {
        TtsFramer { sample_rate: None, pending: Vec::new() }
    }

    /// The sample rate, once it is known.
    pub fn sample_rate(&self) -> (r: Option<u32>)
        ensures
            r == self@.sample_rate,
    {
        self.sample_rate
    }

    /// Takes bytes in and hands out the samples that they complete, as bit
    /// patterns. Bytes that do not make a sample yet wait for the next call.
    pub fn push(&mut self, chunk: &[u8]) -> (samples: Vec<u32>)
        ensures
            final(self)@ == framed(old(self)@, chunk@),
            samples@ == framed_samples(old(self)@, chunk@),
    {
        let ghost all = self@.pending + chunk@;
        ring::append(&mut self.pending, chunk);
        let n: usize = self.pending.len();
        let mut from: usize = 0;
        if self.sample_rate.is_none() {
            if n < 4 {
                assert(self@ =~= framed(old(self)@, chunk@));
                let none: Vec<u32> = Vec::new();
                assert(none@ =~= framed_samples(old(self)@, chunk@));
                return none;
            }
            let rate: u32 = wav::read_le32(self.pending.as_slice(), 0);
            assert(all.subrange(0, 4) =~= all.take(4));
            self.sample_rate = Some(rate);
            from = 4;
        }
        let body = vstd::slice::slice_subrange(self.pending.as_slice(), from, n);
        assert(body@ =~= all.skip(from as int));
        let m: usize = body.len();
        let samples = read_words(body);
        let rest = vstd::slice::slice_to_vec(vstd::slice::slice_subrange(body, m / 4 * 4, m));
        assert(rest@ =~= left_over(all.skip(from as int)));
        self.pending = rest;
        assert(all.skip(0) =~= all);
        assert(self@ =~= framed(old(self)@, chunk@));
        samples
    }
}

proof fn lemma_words32_concat(a: Seq<u8>, b: Seq<u8>)
    ensures
        words32(a) + words32(left_over(a) + b) == words32(a + b),
        left_over(left_over(a) + b) == left_over(a + b),
{
    let n = (a.len() / 4) as int;
    let l = left_over(a) + b;
    assert(l.len() == a.len() + b.len() - 4 * n);
    assert(l.len() / 4 + n == (a + b).len() / 4);
    let w = words32(a) + words32(l);
    assert forall|i: int| 0 <= i < w.len() implies w[i] == #[trigger] words32(a + b)[i] by {
        if i < n {
            assert((a + b).subrange(4 * i, 4 * i + 4) =~= a.subrange(4 * i, 4 * i + 4));
        } else {
            assert((a + b).subrange(4 * i, 4 * i + 4) =~= l.subrange(4 * (i - n), 4 * (i - n) + 4));
        }
    }
    assert(w =~= words32(a + b));
    assert(left_over(l) =~= left_over(a + b));
}

/// Samples do not depend on how the bytes were cut up on their way: taking in
/// two chunks one after the other gives the same samples, and leaves the same
/// state, as taking them in at once. No byte is lost between chunks.
pub proof fn law_samples_ignore_chunking(m: FramerModel, a: Seq<u8>, b: Seq<u8>)
    ensures
        framed_samples(m, a) + framed_samples(framed(m, a), b) == framed_samples(m, a + b),
        framed(framed(m, a), b) == framed(m, a + b),
{
    let x = m.pending + a;
    assert(m.pending + (a + b) =~= x + b);
    if m.sample_rate is Some {
        lemma_words32_concat(x, b);
    } else if x.len() < 4 {
        assert(framed(m, a).pending =~= x);
        assert(framed_samples(m, a) =~= Seq::<u32>::empty());
        assert(framed_samples(m, a) + framed_samples(framed(m, a), b) =~= framed_samples(m, a + b));
    } else {
        lemma_words32_concat(x.skip(4), b);
        assert((x + b).skip(4) =~= x.skip(4) + b);
        assert((x + b).take(4) =~= x.take(4));
    }
}

/// A line is what stands before a line feed; what follows the last line feed is
/// not yet one.
pub proof fn law_line_feeds_end_lines(l: Seq<u8>, rest: Seq<u8>)
    requires
        forall|k: int| 0 <= k < l.len() ==> l[k] != 10,
    ensures
        complete_lines(l.push(10) + rest) == seq![l] + complete_lines(rest),
        open_line(l.push(10) + rest) == open_line(rest),
        complete_lines(l).len() == 0,
        open_line(l) == l,
{
    let s = l.push(10) + rest;
    let n = l.len() as int;
    lemma_byte_from(s, 10, 0);
    lemma_byte_from(l, 10, 0);
    assert(s[n] == 10);
    assert forall|k: int| 0 <= k < n implies s[k] != 10 by {
        assert(s[k] == l[k]);
    }
    assert(byte_from(s, 10, 0) == n);
    assert(s.take(n) =~= l);
    assert(s.skip(n + 1) =~= rest);
}

/// Samples as a stream carries them: four bytes each, the low one first.
pub open spec fn bytes_of(samples: Seq<u32>) -> Seq<u8> {
    Seq::new(4 * samples.len(), |i: int| wav::le32(samples[i / 4] as int)[i % 4])
}

/// A stream of speech is the sample rate and then the samples, each in four
/// bytes with the low one first, and is read as that.
pub proof fn law_stream_is_read_as_rate_and_samples(rate: u32, samples: Seq<u32>)
    ensures
        ({
            let s = wav::le32(rate as int) + bytes_of(samples);
            &&& framed_samples(fresh_stream(), s) == samples
            &&& framed(fresh_stream(), s).sample_rate == Some(rate)
            &&& framed(fresh_stream(), s).pending.len() == 0
        }),
{
    let s = wav::le32(rate as int) + bytes_of(samples);
    let all = Seq::<u8>::empty() + s;
    assert(all =~= s);
    wav::law_le32_reads_back(rate);
    assert(all.take(4) =~= wav::le32(rate as int));
    let body = all.skip(4);
    assert(body =~= bytes_of(samples));
    assert(body.len() / 4 == samples.len());
    assert forall|i: int| 0 <= i < samples.len() implies #[trigger] words32(body)[i]
        == samples[i] by {
        let b = body.subrange(4 * i, 4 * i + 4);
        assert forall|k: int| 0 <= k < 4 implies b[k] == wav::le32(samples[i] as int)[k] by {
            assert((4 * i + k) / 4 == i && (4 * i + k) % 4 == k);
        }
        assert(b =~= wav::le32(samples[i] as int));
        wav::law_le32_reads_back(samples[i]);
    }
    assert(words32(body) =~= samples);
}

} // verus!
