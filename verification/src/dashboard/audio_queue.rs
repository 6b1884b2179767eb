//! The schedule of the audio that JARVIS speaks. Every chunk starts when the
//! one before it ends; an interruption holds new chunks back until it is
//! confirmed or walked back.
//!
//! Times are nanoseconds of the audio clock.

use std::collections::VecDeque;
use vstd::prelude::*;

use crate::ring;

verus! {

/// A chunk that has been scheduled: what stops it, and when it starts and ends.
pub struct Scheduled<A> {
    pub source: A,
    pub start: u64,
    pub end: u64,
}

/// A chunk of samples at a rate.
pub struct Chunk<S> {
    pub samples: Vec<S>,
    pub sample_rate: u32,
}

/// How many chunks are held back at most.
pub const PENDING_MAX: u64 = 4096;

/// Plays chunks back to back.
pub struct AudioQueue<A, S> {
    next_start: u64,
    sources: VecDeque<Scheduled<A>>,
    halted: bool,
    pending: VecDeque<Chunk<S>>,
}

/// The state of a queue.
#[verifier::ext_equal]
pub struct QueueModel<A, S> {
    /// When the next chunk starts at the earliest.
    pub next_start: int,
    pub sources: Seq<Scheduled<A>>,
    pub halted: bool,
    /// Chunks that came in while halted.
    pub pending: Seq<Chunk<S>>,
}

impl<A, S> View for AudioQueue<A, S> {
    type V = QueueModel<A, S>;

    closed spec fn view(&self) -> QueueModel<A, S> {
        QueueModel {
            next_start: self.next_start as int,
            sources: self.sources@,
            halted: self.halted,
            pending: self.pending@,
        }
    }
}

/// What is to be done with a chunk.
pub enum Enqueue<S> {
    /// Nothing: it is empty, or it is held back.
    Held,
    /// Play it from `start` on, and report it with `scheduled`.
    Play { chunk: Chunk<S>, start: u64 },
}

/// A time put off by a pause, but not past the end of the clock.
pub open spec fn put_off(t: int, gap: int) -> int {
    if t + gap > u64::MAX {
        u64::MAX as int
    } else {
        t + gap
    }
}

/// The later of two times.
pub open spec fn later(a: int, b: int) -> int {
    if a < b {
        b
    } else {
        a
    }
}

/// When the last of `s` ends, at the earliest `now`.
pub open spec fn latest_end<A>(s: Seq<Scheduled<A>>, now: int) -> int
    decreases s.len(),
{
    if s.len() == 0 {
        now
    } else {
        later(latest_end(s.drop_last(), now), s.last().end as int)
    }
}

/// The sources that have started by `now`.
pub open spec fn playing<A>(s: Seq<Scheduled<A>>, now: int) -> Seq<Scheduled<A>> {
    s.filter(|x: Scheduled<A>| x.start <= now)
}

/// The sources that have not started by `now`.
pub open spec fn upcoming<A>(s: Seq<Scheduled<A>>, now: int) -> Seq<Scheduled<A>> {
    s.filter(|x: Scheduled<A>| x.start > now)
}

impl<A, S> AudioQueue<A, S> {
    /// An empty queue.
    pub fn new(now: u64) -> (q: Self)
        ensures
            q@ == (QueueModel::<A, S> {
                next_start: now as int,
                sources: Seq::empty(),
                halted: false,
                pending: Seq::empty(),
            }),
    {
        AudioQueue {
            next_start: now,
            sources: VecDeque::new(),
            halted: false,
            pending: VecDeque::new(),
        }
    }

    /// Takes a chunk. While halted it is held back, in place of the oldest one
    /// when too many are; otherwise it plays after everything scheduled.
    pub fn enqueue_pcm(&mut self, chunk: Chunk<S>, now: u64) -> (r: Enqueue<S>)
        ensures
            r is Held <==> chunk.samples@.len() == 0 || old(self)@.halted,
            r matches Enqueue::Play { chunk: c, start } ==> c == chunk && start == later(
                old(self)@.next_start,
                now as int,
            ),
            final(self)@ == if chunk.samples@.len() > 0 && old(self)@.halted {
                QueueModel {
                    pending: ring::last_of(old(self)@.pending.push(chunk), PENDING_MAX as int),
                    ..old(self)@
                }
            } else {
                old(self)@
            },
    {
        if chunk.samples.len() == 0 {
            return Enqueue::Held;
        }
        if self.halted {
            self.pending.push_back(chunk);
            ring::keep_last(&mut self.pending, PENDING_MAX as u128);
            assert(self@ =~= QueueModel {
                pending: ring::last_of(old(self)@.pending.push(chunk), PENDING_MAX as int),
                ..old(self)@
            });
            return Enqueue::Held;
        }
        let start: u64 = if self.next_start < now {
            now
        } else {
            self.next_start
        };
        Enqueue::Play { chunk, start }
    }

    /// A chunk has been scheduled.
    pub fn scheduled(&mut self, source: A, start: u64, duration: u64)
        requires
            start + duration <= u64::MAX,
        ensures
            final(self)@ == (QueueModel {
                next_start: start + duration,
                sources: old(self)@.sources.push(
                    Scheduled { source, start, end: (start + duration) as u64 },
                ),
                ..old(self)@
            }),
    {
        let end: u64 = start + duration;
        self.next_start = end;
        self.sources.push_back(Scheduled { source, start, end });
        assert(self@ =~= QueueModel {
            next_start: start + duration,
            sources: old(self)@.sources.push(Scheduled { source, start, end }),
            ..old(self)@
        });
    }

    /// Stops at once. Returns what is to be stopped; chunks held back are lost.
    pub fn halt_immediately(&mut self, now: u64) -> (stop: VecDeque<Scheduled<A>>)
        ensures
            stop@ == old(self)@.sources,
            final(self)@ == (QueueModel::<A, S> {
                next_start: now as int,
                sources: Seq::empty(),
                halted: true,
                pending: Seq::empty(),
            }),
    {
        let mut stop: VecDeque<Scheduled<A>> = VecDeque::new();
        std::mem::swap(&mut stop, &mut self.sources);
        self.halted = true;
        self.pending = VecDeque::new();
        self.next_start = now;
        assert(self@ =~= QueueModel::<A, S> {
            next_start: now as int,
            sources: Seq::empty(),
            halted: true,
            pending: Seq::empty(),
        });
        stop
    }

    /// Lets what is playing finish and cancels the rest, which is returned.
    /// What comes next starts when the last one playing ends.
    pub fn halt_after_current(&mut self, now: u64) -> (cancel: Vec<Scheduled<A>>)
        ensures
            cancel@ == upcoming(old(self)@.sources, now as int),
            final(self)@ == (QueueModel {
                next_start: latest_end(playing(old(self)@.sources, now as int), now as int),
                sources: playing(old(self)@.sources, now as int),
                halted: true,
                ..old(self)@
            }),
    {
        let mut sources: VecDeque<Scheduled<A>> = VecDeque::new();
        std::mem::swap(&mut sources, &mut self.sources);
        let ghost all = sources@;
        let ghost n = now as int;
        let ghost p = |x: Scheduled<A>| x.start <= n;
        let ghost u = |x: Scheduled<A>| x.start > n;
        let mut keep: VecDeque<Scheduled<A>> = VecDeque::new();
        let mut cancel: Vec<Scheduled<A>> = Vec::new();
        let mut latest: u64 = now;
        let ghost mut i: int = 0;
        proof {
            reveal(Seq::filter);
            assert(all.take(0).filter(p) =~= Seq::<Scheduled<A>>::empty());
            assert(all.take(0).filter(u) =~= Seq::<Scheduled<A>>::empty());
            assert(all.skip(0) =~= all);
        }
        loop
            invariant
                0 <= i <= all.len(),
                n == now,
                p == |x: Scheduled<A>| x.start <= n,
                u == |x: Scheduled<A>| x.start > n,
                sources@ == all.skip(i),
                keep@ == all.take(i).filter(p),
                cancel@ == all.take(i).filter(u),
                latest == latest_end(keep@, n),
            ensures
                keep@ == all.filter(p),
                cancel@ == all.filter(u),
                latest == latest_end(keep@, n),
            decreases sources@.len(),
        {
            let ghost held = sources@;
            match sources.pop_front() {
                None => {
                    assert(all.take(i) =~= all);
                    break ;
                },
                Some(x) => {
                    proof {
                        reveal(Seq::filter);
                        assert(x == all[i]);
                        assert(all.take(i + 1).drop_last() =~= all.take(i));
                        assert(all.take(i + 1).last() == x);
                        assert(sources@ =~= all.skip(i + 1));
                        i = i + 1;
                    }
                    if x.start > now {
                        cancel.push(x);
                    } else {
                        let end: u64 = x.end;
                        let ghost before = keep@;
                        keep.push_back(x);
                        assert(keep@.drop_last() =~= before);
                        if end > latest {
                            latest = end;
                        }
                    }
                },
            }
        }
        self.halted = true;
        self.sources = keep;
        self.next_start = latest;
        assert(self@ =~= QueueModel {
            next_start: latest_end(playing(old(self)@.sources, n), n),
            sources: playing(old(self)@.sources, n),
            halted: true,
            ..old(self)@
        });
        cancel
    }

    /// Takes chunks again. Returns those that were held back, to be enqueued in
    /// order.
    pub fn resume(&mut self, now: u64) -> (held: VecDeque<Chunk<S>>)
        ensures
            held@ == old(self)@.pending,
            final(self)@ == (QueueModel {
                next_start: later(old(self)@.next_start, now as int),
                halted: false,
                pending: Seq::empty(),
                ..old(self)@
            }),
    {
        self.halted = false;
        if self.next_start < now {
            self.next_start = now;
        }
        let mut held: VecDeque<Chunk<S>> = VecDeque::new();
        std::mem::swap(&mut held, &mut self.pending);
        assert(self@ =~= QueueModel {
            next_start: later(old(self)@.next_start, now as int),
            halted: false,
            pending: Seq::empty(),
            ..old(self)@
        });
        held
    }

    /// Puts a pause before the next chunk, unless halted or already drained.
    pub fn add_gap(&mut self, gap: u64, now: u64)
        ensures
            final(self)@ == if old(self)@.halted || old(self)@.next_start <= now {
                old(self)@
            } else {
                QueueModel { next_start: put_off(old(self)@.next_start, gap as int), ..old(self)@ }
            },
    {
        if self.halted || self.next_start <= now {
            return;
        }
        self.next_start = self.next_start.saturating_add(gap);
    }

    /// How much is queued ahead of the clock.
    pub fn queued(&self, now: u64) -> (d: u64)
        ensures
            d == later(self@.next_start - now, 0),
    {
        if self.next_start < now {
            0
        } else {
            self.next_start - now
        }
    }

    /// Whether chunks are held back.
    pub fn is_halted(&self) -> (r: bool)
        ensures
            r == self@.halted,
    {
        self.halted
    }
}

/// Whether the chunks of `s` play one after the other.
pub open spec fn in_turn<A>(s: Seq<Scheduled<A>>) -> bool {
    forall|i: int, j: int| 0 <= i < j < s.len() ==> (#[trigger] s[i]).end <= (#[trigger] s[j]).start
}

/// Whether the chunks play one after the other and all end before the next one
/// can start.
pub open spec fn orderly<A, S>(m: QueueModel<A, S>) -> bool {
    &&& in_turn(m.sources)
    &&& forall|i: int|
        0 <= i < m.sources.len() ==> (#[trigger] m.sources[i]).end <= m.next_start
}

/// Playing a chunk when `enqueue_pcm` says to keeps the queue orderly: no two
/// chunks overlap.
pub proof fn law_playing_keeps_order<A, S>(
    m: QueueModel<A, S>,
    source: A,
    now: u64,
    duration: u64,
)
    requires
        orderly(m),
        later(m.next_start, now as int) + duration <= u64::MAX,
        0 <= m.next_start,
    ensures
        ({
            let start = later(m.next_start, now as int);
            orderly(
                QueueModel {
                    next_start: start + duration,
                    sources: m.sources.push(
                        Scheduled {
                            source,
                            start: start as u64,
                            end: (start + duration) as u64,
                        },
                    ),
                    ..m
                },
            )
        }),
{
}

proof fn lemma_filter_in_turn<A>(s: Seq<Scheduled<A>>, p: spec_fn(Scheduled<A>) -> bool)
    requires
        in_turn(s),
    ensures
        in_turn(s.filter(p)),
        forall|i: int| 0 <= i < s.filter(p).len() ==> s.contains(#[trigger] s.filter(p)[i]),
    decreases s.len(),
{
    reveal(Seq::filter);
    if s.len() > 0 {
        let t = s.drop_last();
        lemma_filter_in_turn(t, p);
        let f = s.filter(p);
        assert forall|i: int| 0 <= i < f.len() implies s.contains(#[trigger] f[i]) by {
            if i < t.filter(p).len() {
                assert(f[i] == t.filter(p)[i]);
                let k = choose|k: int| 0 <= k < t.len() && t[k] == f[i];
                assert(s[k] == f[i]);
            } else {
                assert(f[i] == s[s.len() - 1]);
            }
        }
        assert forall|i: int, j: int| 0 <= i < j < f.len() implies (#[trigger] f[i]).end <= (
        #[trigger] f[j]).start by {
            let g = t.filter(p);
            assert(f[i] == g[i]);
            if j < g.len() {
                assert(f[j] == g[j]);
            } else {
                assert(t.contains(g[i]));
                let k = choose|k: int| 0 <= k < t.len() && t[k] == g[i];
                assert(s[k] == f[i]);
                assert(s[s.len() - 1] == f[j]);
            }
        }
    }
}

/// A graceful halt keeps the queue orderly.
pub proof fn law_graceful_halt_keeps_order<A, S>(m: QueueModel<A, S>, now: int)
    requires
        orderly(m),
    ensures
        orderly(
            QueueModel {
                next_start: latest_end(playing(m.sources, now), now),
                sources: playing(m.sources, now),
                halted: true,
                ..m
            },
        ),
{
    lemma_filter_in_turn(m.sources, |x: Scheduled<A>| x.start <= now);
    lemma_latest_end(playing(m.sources, now), now);
}

proof fn lemma_latest_end<A>(s: Seq<Scheduled<A>>, now: int)
    ensures
        latest_end(s, now) >= now,
        forall|i: int| 0 <= i < s.len() ==> (#[trigger] s[i]).end <= latest_end(s, now),
    decreases s.len(),
{
    if s.len() > 0 {
        lemma_latest_end(s.drop_last(), now);
        assert forall|i: int| 0 <= i < s.len() implies (#[trigger] s[i]).end <= latest_end(
            s,
            now,
        ) by {
            if i < s.len() - 1 {
                assert(s[i] == s.drop_last()[i]);
            }
        }
    }
}

/// After a graceful halt only what had started is left, and what comes next
/// starts neither before now nor before the last of it ends.
pub proof fn law_graceful_halt<A>(s: Seq<Scheduled<A>>, now: int)
    ensures
        forall|i: int|
            0 <= i < playing(s, now).len() ==> (#[trigger] playing(s, now)[i]).start <= now
                && playing(s, now)[i].end <= latest_end(playing(s, now), now),
        latest_end(playing(s, now), now) >= now,
{
    let p = |x: Scheduled<A>| x.start <= now;
    lemma_latest_end(playing(s, now), now);
    assert forall|i: int| 0 <= i < playing(s, now).len() implies (#[trigger] playing(
        s,
        now,
    )[i]).start <= now && playing(s, now)[i].end <= latest_end(playing(s, now), now) by {
        s.lemma_filter_pred(p, i);
    }
}

/// Chunks held back come back in the order in which they came, none missing
/// while they are no more than the bound.
pub proof fn law_held_chunks_come_back<S>(pending: Seq<Chunk<S>>, chunk: Chunk<S>)
    requires
        pending.len() < PENDING_MAX,
    ensures
        ring::last_of(pending.push(chunk), PENDING_MAX as int) == pending.push(chunk),
{
}

/// A graceful halt parts the sources in two: those that have started go on, in
/// order, and all the others are cancelled. What comes next starts when the last
/// one playing ends, or at once where none plays longer.
pub proof fn law_graceful_halt_parts_the_sources<A>(
    s: Seq<Scheduled<A>>,
    x: Scheduled<A>,
    now: int,
)
    ensures
        x.start <= now ==> playing(s.push(x), now) == playing(s, now).push(x) && upcoming(
            s.push(x),
            now,
        ) == upcoming(s, now),
        x.start > now ==> playing(s.push(x), now) == playing(s, now) && upcoming(s.push(x), now)
            == upcoming(s, now).push(x),
        playing(Seq::<Scheduled<A>>::empty(), now).len() == 0,
        upcoming(Seq::<Scheduled<A>>::empty(), now).len() == 0,
        latest_end(Seq::<Scheduled<A>>::empty(), now) == now,
        x.end >= latest_end(s, now) ==> latest_end(s.push(x), now) == x.end,
        x.end <= latest_end(s, now) ==> latest_end(s.push(x), now) == latest_end(s, now),
{
    reveal(Seq::filter);
    assert(s.push(x).drop_last() =~= s);
}

/// A chunk plays at once where nothing is scheduled after now, and otherwise
/// right after what is; a pause puts it off by its length, but not past the end
/// of the clock.
pub proof fn law_chunks_play_back_to_back(next_start: int, now: int, gap: int)
    ensures
        now >= next_start ==> later(next_start, now) == now,
        now <= next_start ==> later(next_start, now) == next_start,
        next_start + gap <= 0xffff_ffff_ffff_ffff ==> put_off(next_start, gap) == next_start + gap,
        next_start + gap > 0xffff_ffff_ffff_ffff ==> put_off(next_start, gap)
            == 0xffff_ffff_ffff_ffff,
{
}

} // verus!
