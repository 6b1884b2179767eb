//! The sentences that wait to be spoken. One worker takes them one at a time,
//! so they are heard in the order in which they were said.

use vstd::prelude::*;

use crate::dashboard::voice;
use crate::dashboard::voice::strip_markdown_for_tts;
use crate::text;
use crate::text::{chars_of, string_of, trim};

verus! {

/// The pause between two sentences, in milliseconds.
pub const SENTENCE_GAP_MS: u32 = 220;

/// The sentences that wait, and whether the worker is at work.
pub struct SpeechQueue {
    pub waiting: Vec<String>,
    pub running: bool,
}

/// What a queue holds.
#[verifier::ext_equal]
pub struct SpeechModel {
    pub waiting: Seq<Seq<char>>,
    pub running: bool,
}

impl View for SpeechQueue {
    type V = SpeechModel;

    open spec fn view(&self) -> SpeechModel {
        SpeechModel { waiting: text::texts(self.waiting@), running: self.running }
    }
}

/// What of a sentence is read aloud: possibly nothing.
pub open spec fn aloud(sentence: Seq<char>) -> Seq<char> {
    let t = text::trim_spec(sentence);
    if t.len() == 0 {
        Seq::empty()
    } else {
        voice::spoken(t)
    }
}

/// The queue after a sentence was said.
pub open spec fn said(q: SpeechModel, sentence: Seq<char>) -> SpeechModel {
    if aloud(sentence).len() == 0 {
        q
    } else {
        SpeechModel { waiting: q.waiting.push(aloud(sentence)), running: true }
    }
}

/// The queue after several sentences were said.
pub open spec fn all_said(q: SpeechModel, sentences: Seq<Seq<char>>) -> SpeechModel
    decreases sentences.len(),
{
    if sentences.len() == 0 {
        q
    } else {
        said(all_said(q, sentences.drop_last()), sentences.last())
    }
}

/// What of several sentences is read aloud.
pub open spec fn all_aloud(sentences: Seq<Seq<char>>) -> Seq<Seq<char>>
    decreases sentences.len(),
{
    if sentences.len() == 0 {
        Seq::empty()
    } else if aloud(sentences.last()).len() == 0 {
        all_aloud(sentences.drop_last())
    } else {
        all_aloud(sentences.drop_last()).push(aloud(sentences.last()))
    }
}

/// What the worker does next.
pub enum WorkerStep {
    /// Synthesise this sentence.
    Say(String),
    /// Nothing waits: the worker ends.
    Done,
}

impl SpeechQueue {
    /// Nothing waits.
    pub fn new() -> (r: Self)
        ensures
            r@ == (SpeechModel { waiting: Seq::empty(), running: false }),
    {
        let r = SpeechQueue { waiting: Vec::new(), running: false };
        assert(r@.waiting =~= Seq::<Seq<char>>::empty());
        r
    }

    /// Takes a sentence in, without its markdown. True if the worker has to be
    /// started.
    pub fn say(&mut self, sentence: &str) -> (start: bool)
        ensures
            final(self)@ == said(old(self)@, sentence@),
            start == (!old(self)@.running && final(self)@.running),
    {
        let chars = chars_of(sentence);
        let t = trim(chars.as_slice());
        if t.len() == 0 {
            return false;
        }
        let trimmed = string_of(t);
        let speakable = strip_markdown_for_tts(trimmed.as_str());
        if chars_of(speakable.as_str()).len() == 0 {
            return false;
        }
        let start = !self.running;
        self.running = true;
        self.waiting.push(speakable);
        assert(self@.waiting =~= old(self)@.waiting.push(aloud(sentence@)));
        start
    }

    /// Takes several sentences in. True if the worker has to be started.
    pub fn say_all(&mut self, sentences: &Vec<String>) -> (start: bool)
        ensures
            final(self)@ == all_said(old(self)@, text::texts(sentences@)),
            start == (!old(self)@.running && final(self)@.running),
    {
        let ghost all = text::texts(sentences@);
        let ghost before = self@;
        let mut start = false;
        let mut i: usize = 0;
        assert(all.take(0) =~= Seq::<Seq<char>>::empty());
        while i < sentences.len()
            invariant
                i <= sentences@.len(),
                all == text::texts(sentences@),
                self@ == all_said(before, all.take(i as int)),
                start == (!before.running && self@.running),
                before.running ==> self@.running,
            decreases sentences@.len() - i,
        {
            proof {
                assert(all.take(i + 1).drop_last() =~= all.take(i as int));
                assert(all.take(i + 1).last() == sentences@[i as int]@);
            }
            let s = self.say(sentences[i].as_str());
            if s {
                start = true;
            }
            i += 1;
        }
        assert(all.take(i as int) =~= all);
        start
    }

    /// The worker asks for the next sentence.
    pub fn next(&mut self) -> (r: WorkerStep)
        ensures
            old(self)@.waiting.len() == 0 ==> r is Done && final(self)@ == (SpeechModel {
                waiting: Seq::empty(),
                running: false,
            }),
            old(self)@.waiting.len() > 0 ==> (r matches WorkerStep::Say(s) && s@
                == old(self)@.waiting[0] && final(self)@ == (SpeechModel {
                waiting: old(self)@.waiting.drop_first(),
                running: old(self)@.running,
            })),
    {
        let ghost before = self@;
        if self.waiting.len() == 0 {
            self.running = false;
            assert(self@.waiting =~= Seq::<Seq<char>>::empty());
            WorkerStep::Done
        } else {
            let s = self.waiting.remove(0);
            assert(self@.waiting =~= before.waiting.drop_first());
            WorkerStep::Say(s)
        }
    }

    /// The pause to put after a sentence: none when nothing follows it.
    pub fn gap_ms(&self) -> (r: u32)
        ensures
            r == if self@.waiting.len() == 0 {
                0
            } else {
                SENTENCE_GAP_MS
            },
    {
        if self.waiting.len() == 0 {
            0
        } else {
            SENTENCE_GAP_MS
        }
    }

    /// Drops what waits; a running worker ends when it asks next.
    pub fn clear(&mut self)
        ensures
            final(self)@ == (SpeechModel { waiting: Seq::empty(), running: old(self)@.running }),
    {
        self.waiting = Vec::new();
        assert(self@.waiting =~= Seq::<Seq<char>>::empty());
    }

    /// The worker could not start: drops what waits.
    pub fn abandon(&mut self)
        ensures
            final(self)@ == (SpeechModel { waiting: Seq::empty(), running: false }),
    {
        self.waiting = Vec::new();
        self.running = false;
        assert(self@.waiting =~= Seq::<Seq<char>>::empty());
    }
}

/// Sentences are read aloud in the order in which they were said, none twice
/// and none left out but those with nothing to read.
pub proof fn law_speech_keeps_order(q: SpeechModel, sentences: Seq<Seq<char>>)
    ensures
        all_said(q, sentences).waiting == q.waiting + all_aloud(sentences),
        all_said(q, sentences).running == (q.running || all_aloud(sentences).len() > 0),
    decreases sentences.len(),
{
    if sentences.len() > 0 {
        law_speech_keeps_order(q, sentences.drop_last());
        assert((q.waiting + all_aloud(sentences.drop_last())).push(aloud(sentences.last()))
            =~= q.waiting + all_aloud(sentences.drop_last()).push(aloud(sentences.last())));
    } else {
        assert(q.waiting + Seq::<Seq<char>>::empty() =~= q.waiting);
    }
}

/// Saying sentences one after the other or all at once makes no difference.
pub proof fn law_speech_is_sequential(q: SpeechModel, a: Seq<Seq<char>>, b: Seq<Seq<char>>)
    ensures
        all_said(all_said(q, a), b) == all_said(q, a + b),
    decreases b.len(),
{
    if b.len() == 0 {
        assert(a + b =~= a);
    } else {
        law_speech_is_sequential(q, a, b.drop_last());
        assert((a + b).drop_last() =~= a + b.drop_last());
        assert((a + b).last() == b.last());
    }
}

/// A sentence waits as it is spoken and gets the worker running; one with
/// nothing to say is passed over.
pub proof fn law_sentences_wait_in_turn(q: SpeechModel, a: Seq<char>, t: Seq<char>, b: Seq<char>)
    requires
        forall|k: int| 0 <= k < a.len() ==> text::is_space_spec(#[trigger] a[k]),
        forall|k: int| 0 <= k < b.len() ==> text::is_space_spec(#[trigger] b[k]),
        t.len() > 0 ==> !text::is_space_spec(t[0]) && !text::is_space_spec(t.last()),
    ensures
        ({
            let r = said(q, a + t + b);
            &&& t.len() > 0 && voice::spoken(t).len() > 0 ==> r.waiting == q.waiting.push(
                voice::spoken(t),
            ) && r.running
            &&& t.len() == 0 || voice::spoken(t).len() == 0 ==> r == q
        }),
{
    text::law_trim_takes_the_space_around(a, t, b);
}

/// There is a pause of 220 milliseconds after a sentence where another waits, and
/// none otherwise.
pub proof fn law_pause_before_the_next(q: &SpeechQueue, r: u32)
    requires
        call_ensures(SpeechQueue::gap_ms, (q,), r),
    ensures
        q@.waiting.len() == 0 ==> r == 0,
        q@.waiting.len() > 0 ==> r == 220,
{
}

} // verus!
