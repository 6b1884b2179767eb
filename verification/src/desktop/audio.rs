//! What the speaker plays: a bounded queue of samples that the output callback
//! drains, and the level of what was played last.

use std::collections::VecDeque;
use vstd::prelude::*;

use crate::precision;
use crate::ring;

verus! {

/// One frame from the microphone.
#[derive(Debug)]
pub struct MicFrame<S> {
    pub samples: Vec<S>,
    pub sample_rate: u32,
}

/// The level of the last frame that the speaker played, as the bits of a
/// single-precision number.
pub struct PlaybackMonitor {
    recent_rms_bits: u32,
}

impl View for PlaybackMonitor {
    type V = u32;

    closed spec fn view(&self) -> u32 {
        self.recent_rms_bits
    }
}

impl PlaybackMonitor {
    /// Nothing has been played.
    pub fn new() -> (m: Self)
        ensures
            m@ == 0,
    {
        PlaybackMonitor { recent_rms_bits: 0 }
    }

    /// Records the level of a frame.
    pub fn store_rms(&mut self, bits: u32)
        ensures
            final(self)@ == bits,
    {
        self.recent_rms_bits = bits;
    }

    /// The level of the last frame.
    pub fn recent_rms(&self) -> (bits: u32)
        ensures
            bits == self@,
    {
        self.recent_rms_bits
    }
}

/// Playback queue, bounded at ten seconds of audio: past that the oldest
/// samples are dropped.
pub struct PlaybackQueue<S> {
    queue: VecDeque<S>,
    src_rate: u32,
    out_rate: u32,
    halted: bool,
    tts_active: bool,
}

/// The state of a playback queue.
#[verifier::ext_equal]
pub struct PlaybackModel<S> {
    pub queue: Seq<S>,
    /// The rate of the chunk that came in last.
    pub src_rate: u32,
    pub out_rate: u32,
    /// Whether chunks are ignored.
    pub halted: bool,
    /// Whether a sentence is being spoken.
    pub tts_active: bool,
}

/// How many samples a queue holds at most.
pub open spec fn max_samples(out_rate: u32) -> int {
    out_rate * 10
}

/// How many samples last `ms` milliseconds: the seconds in single precision,
/// times the rate, to the nearest one.
pub open spec fn samples_in(rate: int, ms: int) -> int {
    precision::part_of(rate, ms, 1000, precision::SINGLE as int)
}

/// `n` copies of `s`.
pub open spec fn repeated<S>(s: S, n: int) -> Seq<S>
    recommends
        0 <= n,
{
    Seq::new(n as nat, |i: int| s)
}

/// The sample that the `k`-th frame plays: the `k`-th of the queue, or silence
/// when the queue is shorter.
pub open spec fn played<S>(queue: Seq<S>, k: int, silence: S) -> S {
    if k < queue.len() {
        queue[k]
    } else {
        silence
    }
}

/// How many frames of `channels` slots it takes to fill `len` slots.
pub open spec fn frames_in(len: int, channels: int) -> int {
    (len + channels - 1) / channels
}

impl<S> View for PlaybackQueue<S> {
    type V = PlaybackModel<S>;

    closed spec fn view(&self) -> PlaybackModel<S> {
        PlaybackModel {
            queue: self.queue@,
            src_rate: self.src_rate,
            out_rate: self.out_rate,
            halted: self.halted,
            tts_active: self.tts_active,
        }
    }
}

impl<S: Copy> PlaybackQueue<S> {
    /// An empty queue for a device that plays `out_rate` samples a second.
    pub fn new(out_rate: u32) -> (q: Self)
        ensures
            q@ == (PlaybackModel::<S> {
                queue: Seq::empty(),
                src_rate: out_rate,
                out_rate,
                halted: false,
                tts_active: false,
            }),
    {
        PlaybackQueue {
            queue: VecDeque::new(),
            src_rate: out_rate,
            out_rate,
            halted: false,
            tts_active: false,
        }
    }

    /// A sentence starts being spoken.
    pub fn mark_tts_active(&mut self)
        ensures
            final(self)@ == (PlaybackModel { tts_active: true, ..old(self)@ }),
    {
        self.tts_active = true;
    }

    /// The pause after a sentence is over.
    pub fn mark_tts_idle(&mut self)
        ensures
            final(self)@ == (PlaybackModel { tts_active: false, ..old(self)@ }),
    {
        self.tts_active = false;
    }

    /// Whether a sentence is being spoken.
    pub fn is_tts_active(&self) -> (r: bool)
        ensures
            r == self@.tts_active,
    {
        self.tts_active
    }

    /// Whether a chunk at `src_rate` has to be resampled before it is queued.
    pub fn needs_resampling(&self, src_rate: u32) -> (r: bool)
        ensures
            r == (src_rate != self@.out_rate),
    {
        src_rate != self.out_rate
    }

    /// Appends a chunk that came in at `src_rate`; `samples` are at the
    /// device's rate. Does nothing while halted. Past the bound the oldest
    /// samples are dropped.
    pub fn enqueue_pcm(&mut self, src_rate: u32, samples: &[S])
        ensures
            final(self)@ == if old(self)@.halted {
                old(self)@
            } else {
                PlaybackModel {
                    queue: ring::last_of(
                        old(self)@.queue + samples@,
                        max_samples(old(self)@.out_rate),
                    ),
                    src_rate,
                    ..old(self)@
                }
            },
    {
        if self.halted {
            return;
        }
        self.src_rate = src_rate;
        let mut q: VecDeque<S> = VecDeque::new();
        std::mem::swap(&mut q, &mut self.queue);
        ring::extend(&mut q, samples);
        ring::keep_last(&mut q, self.out_rate as u128 * 10);
        self.queue = q;
        assert(self@ =~= PlaybackModel {
            queue: ring::last_of(old(self)@.queue + samples@, max_samples(old(self)@.out_rate)),
            src_rate,
            ..old(self)@
        });
    }

    /// Appends `ms` milliseconds of silence.
    pub fn add_gap(&mut self, ms: u32, silence: S)
        ensures
            final(self)@ == (PlaybackModel {
                queue: old(self)@.queue + repeated(
                    silence,
                    samples_in(old(self)@.out_rate as int, ms as int),
                ),
                ..old(self)@
            }),
    {
        let n: u128 = precision::part(self.out_rate, ms, 1000, precision::SINGLE);
        let mut q: VecDeque<S> = VecDeque::new();
        std::mem::swap(&mut q, &mut self.queue);
        let ghost start = q@;
        let mut i: u128 = 0;
        assert(q@ =~= start + repeated(silence, 0));
        while i < n
            invariant
                i <= n,
                q@ == start + repeated(silence, i as int),
            decreases n - i,
        {
            q.push_back(silence);
            i += 1;
            assert(q@ =~= start + repeated(silence, i as int));
        }
        self.queue = q;
        assert(self@ =~= PlaybackModel {
            queue: old(self)@.queue + repeated(silence, n as int),
            ..old(self)@
        });
    }

    /// Stops at once: drops what is queued and ignores chunks until `resume`.
    pub fn halt(&mut self)
        ensures
            final(self)@ == (PlaybackModel { halted: true, queue: Seq::empty(), ..old(self)@ }),
    {
        self.halted = true;
        self.queue = VecDeque::new();
        assert(self@ =~= PlaybackModel { halted: true, queue: Seq::empty(), ..old(self)@ });
    }

    /// Takes chunks again.
    pub fn resume(&mut self)
        ensures
            final(self)@ == (PlaybackModel { halted: false, ..old(self)@ }),
    {
        self.halted = false;
    }

    /// How many samples are queued.
    pub fn pending_samples(&self) -> (n: usize)
        ensures
            n == self@.queue.len(),
    {
        self.queue.len()
    }

    /// Fills an output buffer of `channels` interleaved channels: every slot
    /// of a frame plays the same sample, the next of the queue, or silence when
    /// the queue is empty. Returns the samples played, one for each frame.
    pub fn fill_output(&mut self, data: &mut Vec<S>, channels: usize, silence: S) -> (mono: Vec<S>)
        requires
            channels > 0,
            old(data)@.len() + channels <= usize::MAX,
        ensures
            final(data)@.len() == old(data)@.len(),
            mono@.len() == frames_in(old(data)@.len() as int, channels as int),
            forall|k: int|
                0 <= k < mono@.len() ==> (#[trigger] mono@[k]) == played(
                    old(self)@.queue,
                    k,
                    silence,
                ),
            forall|i: int|
                0 <= i < old(data)@.len() ==> (#[trigger] final(data)@[i]) == played(
                    old(self)@.queue,
                    i / (channels as int),
                    silence,
                ),
            final(self)@ == (PlaybackModel {
                queue: if mono@.len() <= old(self)@.queue.len() {
                    old(self)@.queue.skip(mono@.len() as int)
                } else {
                    Seq::empty()
                },
                ..old(self)@
            }),
    {
        let n: usize = data.len();
        let frames: usize = (n + channels - 1) / channels;
        let ghost all = self@.queue;
        let mut q: VecDeque<S> = VecDeque::new();
        std::mem::swap(&mut q, &mut self.queue);
        let mut mono: Vec<S> = Vec::new();
        assert(all.skip(0) =~= all);
        while mono.len() < frames
            invariant
                mono@.len() <= frames,
                forall|k: int|
                    0 <= k < mono@.len() ==> (#[trigger] mono@[k]) == played(all, k, silence),
                q@ == if mono@.len() <= all.len() {
                    all.skip(mono@.len() as int)
                } else {
                    Seq::empty()
                },
            decreases frames - mono@.len(),
        {
            let ghost held = q@;
            let ghost k = mono@.len() as int;
            match q.pop_front() {
                Some(s) => {
                    assert(held[0] == all[k]);
                    mono.push(s);
                    assert(q@ =~= all.skip(k + 1));
                },
                None => {
                    assert(k >= all.len());
                    mono.push(silence);
                    assert(q@ =~= Seq::<S>::empty());
                },
            }
        }
        self.queue = q;
        let mut i: usize = 0;
        while i < n
            invariant
                i <= n == data@.len(),
                0 < channels,
                n + channels <= usize::MAX,
                frames == frames_in(n as int, channels as int),
                mono@.len() == frames,
                forall|k: int|
                    0 <= k < mono@.len() ==> (#[trigger] mono@[k]) == played(all, k, silence),
                forall|j: int|
                    0 <= j < i ==> (#[trigger] data@[j]) == played(
                        all,
                        j / (channels as int),
                        silence,
                    ),
            decreases n - i,
        {
            proof {
                lemma_slot_has_frame(i as int, n as int, channels as int);
            }
            data[i] = mono[i / channels];
            i += 1;
        }
        assert(self@ =~= PlaybackModel {
            queue: if mono@.len() <= old(self)@.queue.len() {
                old(self)@.queue.skip(mono@.len() as int)
            } else {
                Seq::empty()
            },
            ..old(self)@
        });
        mono
    }
}

proof fn lemma_slot_has_frame(i: int, n: int, channels: int)
    by (nonlinear_arith)
    requires
        0 <= i < n,
        0 < channels,
    ensures
        0 <= i / channels < (n + channels - 1) / channels,
{
}

/// However much comes in, ten seconds are kept: the latest ones, and all of it
/// while it is less.
pub proof fn law_queue_keeps_the_latest<S>(queue: Seq<S>, chunk: Seq<S>, out_rate: u32)
    ensures
        ({
            let all = queue + chunk;
            let kept = ring::last_of(all, max_samples(out_rate));
            &&& kept.len() <= max_samples(out_rate)
            &&& kept.is_suffix_of(all)
            &&& all.len() <= max_samples(out_rate) ==> kept == all
        }),
{
    let all = queue + chunk;
    let kept = ring::last_of(all, max_samples(out_rate));
    assert(kept =~= all.subrange(all.len() - kept.len(), all.len() as int));
}

/// The queue keeps the last ten seconds of what comes in, at the rate of the
/// device: of more than that the oldest samples are dropped.
pub proof fn law_ten_seconds_are_kept<S>(queue: Seq<S>, chunk: Seq<S>, out_rate: u32)
    ensures
        ({
            let all = queue + chunk;
            let kept = ring::last_of(all, max_samples(out_rate));
            &&& all.len() <= 10 * out_rate ==> kept == all
            &&& all.len() > 10 * out_rate ==> kept.len() == 10 * out_rate && kept == all.skip(
                all.len() - 10 * out_rate,
            )
        }),
{
}

/// A gap lasts as long as it was asked to, to within one sample; where the
/// milliseconds are a whole number of samples, it is that number.
pub proof fn law_gaps_last_as_asked(rate: int, ms: int)
    requires
        0 <= rate,
        0 < ms < 0x100_0000,
        rate * ms <= 1_000_000_000,
    ensures
        rate * ms - 1000 < 1000 * samples_in(rate, ms) < rate * ms + 1000,
        rate * ms % 1000 == 0 ==> 1000 * samples_in(rate, ms) == rate * ms,
{
    precision::lemma_part_is_near_below(rate, ms, 1000, 1_000_000, precision::SINGLE as int);
}

/// What is played is what was queued, in order, and silence after that; every
/// slot of the output belongs to a frame, and no frame is without a slot.
pub proof fn law_output_follows_the_queue<S>(
    queue: Seq<S>,
    k: int,
    silence: S,
    slots: int,
    channels: int,
)
    requires
        0 <= k,
        0 <= slots,
        0 < channels,
    ensures
        k < queue.len() ==> played(queue, k, silence) == queue[k],
        k >= queue.len() ==> played(queue, k, silence) == silence,
        slots <= channels * frames_in(slots, channels) < slots + channels,
{
    let f = frames_in(slots, channels);
    assert(slots <= channels * f < slots + channels) by (nonlinear_arith)
        requires
            f == (slots + channels - 1) / channels,
            0 < channels,
            0 <= slots,
    ;
}

/// A gap is silence from its start to its end.
pub proof fn law_gaps_are_silent<S>(silence: S, n: int)
    requires
        0 <= n,
    ensures
        repeated(silence, n).len() == n,
        forall|k: int| 0 <= k < n ==> #[trigger] repeated(silence, n)[k] == silence,
{
}

} // verus!
