//! The sentences that wait to be spoken, and the worker that speaks them one at
//! a time.

use vstd::prelude::*;

use crate::desktop::splitter;
use crate::desktop::splitter::{strip_markdown, Sentence};
use crate::text;
use crate::text::is_blank;

verus! {

/// So many samples may still be unplayed when the next sentence is begun.
pub const DRAIN_THRESHOLD_SAMPLES: usize = 24_000;

/// The longest wait for the output to drain, in milliseconds.
pub const MAX_DRAIN_WAIT_MS: u64 = 8_000;

/// So many samples may still be unplayed when the microphone is released.
pub const RELEASE_THRESHOLD_SAMPLES: usize = 2_400;

/// What of a sentence is read aloud.
pub open spec fn speakable(s: splitter::SentenceModel) -> Seq<char> {
    splitter::spoken_lines(text::lines_spec(s.text), 0, false)
}

/// Whether a sentence has anything to read aloud.
pub open spec fn is_speakable(s: splitter::SentenceModel) -> bool {
    text::trim_spec(speakable(s)).len() > 0
}

/// The sentences of `s` that have anything to read aloud, in order.
pub open spec fn worth_saying(s: Seq<splitter::SentenceModel>) -> Seq<splitter::SentenceModel> {
    s.filter(|x: splitter::SentenceModel| is_speakable(x))
}

/// The sentences that wait.
pub struct SpeechChannel {
    pub waiting: Vec<Sentence>,
}

impl View for SpeechChannel {
    type V = Seq<splitter::SentenceModel>;

    open spec fn view(&self) -> Seq<splitter::SentenceModel> {
        splitter::models(self.waiting@)
    }
}

/// What the worker does next.
#[derive(Debug)]
pub enum WorkerStep {
    /// Nothing waits.
    Wait,
    /// The user asked for silence: so many sentences were dropped.
    Dropped(usize),
    /// A sentence had nothing to read aloud.
    Skipped,
    /// Speak this, then pause this long.
    Speak { speakable: String, gap_ms: u32 },
}

/// The pause after a sentence, in milliseconds.
pub open spec fn gap_after(s: splitter::SentenceModel) -> u32 {
    if s.ends_paragraph {
        750
    } else {
        450
    }
}

impl SpeechChannel {
    /// Nothing waits.
    pub fn new() -> (r: Self)
        ensures
            r@ == Seq::<splitter::SentenceModel>::empty(),
    {
        let r = SpeechChannel { waiting: Vec::new() };
        assert(r@ =~= Seq::<splitter::SentenceModel>::empty());
        r
    }

    /// Takes a sentence in if it has anything to read aloud.
    pub fn spawn_tts(&mut self, sentence: Sentence)
        ensures
            final(self)@ == if is_speakable(sentence@) {
                old(self)@.push(sentence@)
            } else {
                old(self)@
            },
    {
        let s = strip_markdown(sentence.text.as_str());
        if !is_blank(s.as_str()) {
            self.waiting.push(sentence);
            assert(self@ =~= old(self)@.push(sentence@));
        }
    }

    /// Takes sentences in, those with anything to read aloud.
    pub fn spawn_all(&mut self, sentences: Vec<Sentence>)
        ensures
            final(self)@ == old(self)@ + worth_saying(splitter::models(sentences@)),
    {
        let ghost all = splitter::models(sentences@);
        let ghost before = self@;
        let ghost keep = |x: splitter::SentenceModel| is_speakable(x);
        let mut left = sentences;
        let n: usize = left.len();
        let mut i: usize = 0;
        proof {
            reveal(Seq::filter);
            assert(all.take(0).filter(keep) =~= Seq::<splitter::SentenceModel>::empty());
            assert(before + all.take(0).filter(keep) =~= before);
        }
        while i < n
            invariant
                i <= n == all.len(),
                left@.len() == n - i,
                keep == |x: splitter::SentenceModel| is_speakable(x),
                forall|k: int| 0 <= k < left@.len() ==> (#[trigger] left@[k])@ == all[i + k],
                self@ == before + all.take(i as int).filter(keep),
            decreases n - i,
        {
            let ghost had = left@;
            assert(left@[0]@ == all[i as int]);
            let s = left.remove(0);
            proof {
                assert forall|k: int| 0 <= k < left@.len() implies (#[trigger] left@[k])@ == all[i
                    + 1 + k] by {
                    assert(left@[k] == had[k + 1]);
                }
                reveal(Seq::filter);
                assert(all.take(i + 1).drop_last() =~= all.take(i as int));
                assert(all.take(i + 1).last() == s@);
            }
            let ghost now = self@;
            self.spawn_tts(s);
            assert(self@ =~= before + all.take(i + 1).filter(keep));
            i += 1;
        }
        assert(all.take(i as int) =~= all);
    }

    /// The worker takes the next sentence; `stop_requested` is whether the user
    /// has asked for silence since the last chat turn.
    pub fn next(&mut self, stop_requested: bool) -> (r: WorkerStep)
        ensures
            old(self)@.len() == 0 ==> r is Wait && final(self)@ == old(self)@,
            old(self)@.len() > 0 && stop_requested ==> (r matches WorkerStep::Dropped(n) && n
                == old(self)@.len() && final(self)@.len() == 0),
            old(self)@.len() > 0 && !stop_requested ==> {
                let s = old(self)@[0];
                &&& final(self)@ == old(self)@.drop_first()
                &&& is_speakable(s) ==> (r matches WorkerStep::Speak { speakable: t, gap_ms } && t@
                    == speakable(s) && gap_ms == gap_after(s))
                &&& !is_speakable(s) ==> r is Skipped
            },
    {
        let n: usize = self.waiting.len();
        if n == 0 {
            return WorkerStep::Wait;
        }
        if stop_requested {
            self.waiting = Vec::new();
            return WorkerStep::Dropped(n);
        }
        let s = self.waiting.remove(0);
        assert(self@ =~= old(self)@.drop_first());
        assert(s@ == old(self)@[0]);
        let speakable = strip_markdown(s.text.as_str());
        if is_blank(speakable.as_str()) {
            return WorkerStep::Skipped;
        }
        let gap_ms: u32 = if s.ends_paragraph {
            750
        } else {
            450
        };
        WorkerStep::Speak { speakable, gap_ms }
    }

    /// Whether this was the last sentence: then the microphone is released once
    /// the output has drained.
    pub fn burst_is_over(&self) -> (r: bool)
        ensures
            r == (self@.len() == 0),
    {
        self.waiting.len() == 0
    }
}

/// Whether to wait before the next sentence, so that it does not run into the
/// last one: until the output is nearly drained, but not forever.
pub fn waits_for_drain(pending_samples: usize, elapsed_ms: u64) -> (r: bool)
    ensures
        r == (pending_samples > DRAIN_THRESHOLD_SAMPLES && elapsed_ms <= MAX_DRAIN_WAIT_MS),
{
    pending_samples > DRAIN_THRESHOLD_SAMPLES && elapsed_ms <= MAX_DRAIN_WAIT_MS
}

/// Whether to wait before the microphone is released.
pub fn waits_for_release(pending_samples: usize) -> (r: bool)
    ensures
        r == (pending_samples > RELEASE_THRESHOLD_SAMPLES),
{
    pending_samples > RELEASE_THRESHOLD_SAMPLES
}

/// What is said is spoken in order: taking sentences in one after the other or
/// all at once makes no difference.
pub proof fn law_saying_is_sequential(
    waiting: Seq<splitter::SentenceModel>,
    a: Seq<splitter::SentenceModel>,
    b: Seq<splitter::SentenceModel>,
)
    ensures
        (waiting + worth_saying(a)) + worth_saying(b) == waiting + worth_saying(a + b),
{
    Seq::filter_distributes_over_add(a, b, |x: splitter::SentenceModel| is_speakable(x));
    assert((waiting + worth_saying(a)) + worth_saying(b) =~= waiting + (worth_saying(a)
        + worth_saying(b)));
}

/// A sentence is spoken if and only if something is left of it to read aloud
/// that is not white space; sentences are spoken in order.
pub proof fn law_what_is_worth_saying(
    s: Seq<splitter::SentenceModel>,
    x: splitter::SentenceModel,
)
    ensures
        ({
            let read = splitter::spoken_lines(text::lines_spec(x.text), 0, false);
            let has_ink = exists|k: int|
                0 <= k < read.len() && !text::is_space_spec(#[trigger] read[k]);
            &&& has_ink ==> worth_saying(s.push(x)) == worth_saying(s).push(x)
            &&& !has_ink ==> worth_saying(s.push(x)) == worth_saying(s)
            &&& worth_saying(Seq::empty()).len() == 0
        }),
{
    reveal(Seq::filter);
    let read = splitter::spoken_lines(text::lines_spec(x.text), 0, false);
    assert(s.push(x).drop_last() =~= s);
    let (a, e) = text::lemma_trim_range(read);
    if exists|k: int| 0 <= k < read.len() && !text::is_space_spec(#[trigger] read[k]) {
        let k = choose|k: int| 0 <= k < read.len() && !text::is_space_spec(#[trigger] read[k]);
        assert(a <= k < e);
    } else {
        let none = Seq::<char>::empty();
        text::law_trim_takes_the_space_around(read, none, none);
        assert(read + none + none =~= read);
    }
}

/// The pause after a sentence is 450 milliseconds, and 750 at the end of a
/// paragraph.
pub proof fn law_pauses(s: splitter::SentenceModel)
    ensures
        s.ends_paragraph ==> gap_after(s) == 750,
        !s.ends_paragraph ==> gap_after(s) == 450,
{
}

/// The next sentence waits while more than a second of audio at 24 kilohertz is
/// unplayed, but for no more than eight seconds; the microphone is held until no
/// more than a tenth of a second is.
pub proof fn law_when_to_wait(pending: usize, elapsed_ms: u64, drain: bool, release: bool)
    requires
        call_ensures(waits_for_drain, (pending, elapsed_ms), drain),
        call_ensures(waits_for_release, (pending,), release),
    ensures
        drain <==> pending > 24_000 && elapsed_ms <= 8_000,
        release <==> pending > 2_400,
{
}

} // verus!
