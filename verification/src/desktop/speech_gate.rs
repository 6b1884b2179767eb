//! The speech gate: whether a recording is human speech, rather than music,
//! noise or an echo.
//!
//! A model scores one window at a time. This module cuts a recording into
//! windows and makes one score of what the model said. Probabilities are
//! single-precision numbers, given by their bits: for numbers that are not
//! negative, the order of the bits is the order of the numbers.

use vstd::prelude::*;

verus! {

/// How many samples the model takes at a time: 32 ms at 16 kHz.
pub const WINDOW: usize = 512;

/// The bits of 1.
pub const ONE: u32 = 0x3f80_0000;

/// The bits of 0.5, from which on a score means speech.
pub const THRESHOLD: u32 = 0x3f00_0000;

/// The bits of the largest number there is, infinity.
pub const INFINITY: u32 = 0x7f80_0000;

/// A recording that is too short for one window, with silence behind it.
pub open spec fn padded<S>(s: Seq<S>, silence: S) -> Seq<S> {
    s + Seq::new((WINDOW - s.len()) as nat, |i: int| silence)
}

/// The windows of a recording: whole ones, one after the other, or a single
/// padded one where there is none. What is left over at the end is not looked
/// at.
pub open spec fn cut<S>(s: Seq<S>, silence: S) -> Seq<Seq<S>> {
    if s.len() < WINDOW {
        seq![padded(s, silence)]
    } else {
        Seq::new(
            s.len() / (WINDOW as nat),
            |i: int| s.subrange(i * WINDOW, i * WINDOW + WINDOW),
        )
    }
}

/// The contents of vectors.
pub open spec fn contents<S>(v: Seq<Vec<S>>) -> Seq<Seq<S>> {
    v.map_values(|w: Vec<S>| w@)
}

/// Cuts a recording into windows.
pub fn windows<S: Copy>(samples: &[S], silence: S) -> (out: Vec<Vec<S>>)
    ensures
        contents(out@) == cut(samples@, silence),
{
    let n: usize = samples.len();
    let mut out: Vec<Vec<S>> = Vec::new();
    if n < WINDOW {
        let mut w: Vec<S> = Vec::new();
        while w.len() < WINDOW
            invariant
                n == samples@.len(),
                n < WINDOW,
                w@.len() <= WINDOW,
                w@ == padded(samples@, silence).take(w@.len() as int),
            decreases WINDOW - w@.len(),
        {
            let k: usize = w.len();
            let c = if k < n {
                samples[k]
            } else {
                silence
            };
            w.push(c);
            assert(w@ =~= padded(samples@, silence).take(k + 1));
        }
        assert(w@ =~= padded(samples@, silence));
        out.push(w);
        assert(contents(out@) =~= cut(samples@, silence));
        return out;
    }
    let count: usize = n / WINDOW;
    let mut i: usize = 0;
    assert(contents(out@) =~= cut(samples@, silence).take(0));
    while i < count
        invariant
            n == samples@.len(),
            n >= WINDOW,
            count == n / WINDOW,
            i <= count,
            contents(out@) == cut(samples@, silence).take(i as int),
        decreases count - i,
    {
        let start: usize = i * WINDOW;
        let mut w: Vec<S> = Vec::new();
        let mut k: usize = 0;
        while k < WINDOW
            invariant
                k <= WINDOW,
                start == i * WINDOW,
                start + WINDOW <= n,
                n == samples@.len(),
                w@ == samples@.subrange(start as int, start + k),
            decreases WINDOW - k,
        {
            w.push(samples[start + k]);
            k += 1;
            assert(w@ =~= samples@.subrange(start as int, start + k));
        }
        let ghost before = out@;
        let ghost window = w@;
        out.push(w);
        assert(contents(out@) =~= contents(before).push(window));
        assert(cut(samples@, silence)[i as int] == window);
        i += 1;
        assert(contents(out@) =~= cut(samples@, silence).take(i as int));
    }
    assert(contents(out@) =~= cut(samples@, silence));
    out
}

/// What the model said of the windows of a recording, in order. A window on
/// which it failed has no probability.
pub enum Inference {
    /// The model could not be loaded.
    Unavailable,
    /// There was only the padded window.
    Short(Option<u32>),
    /// There were whole windows.
    Whole(Vec<Option<u32>>),
}

/// Whether bits are those of a number above zero.
pub open spec fn is_positive(bits: u32) -> bool {
    0 < bits <= INFINITY
}

/// The largest number among the probabilities that are above zero, or zero.
pub open spec fn highest(probs: Seq<Option<u32>>) -> u32
    decreases probs.len(),
{
    if probs.len() == 0 {
        0
    } else {
        let before = highest(probs.drop_last());
        match probs.last() {
            Some(p) => if is_positive(p) && p > before {
                p
            } else {
                before
            },
            None => before,
        }
    }
}

/// Whether the model judged a window.
pub open spec fn judged(probs: Seq<Option<u32>>) -> bool {
    exists|i: int| 0 <= i < probs.len() && (#[trigger] probs[i]) is Some
}

/// The score of a recording of `recorded` samples.
pub open spec fn score_of(recorded: nat, said: Inference) -> u32 {
    if recorded == 0 {
        0
    } else {
        match said {
            Inference::Unavailable => ONE,
            Inference::Short(p) => match p {
                Some(p) => p,
                None => ONE,
            },
            Inference::Whole(probs) => if judged(probs@) {
                highest(probs@)
            } else {
                ONE
            },
        }
    }
}

/// The score of a recording of `recorded` samples: the highest probability of
/// its windows. A recording that the model could not judge scores 1: a broken
/// model must not silence the user.
pub fn score(recorded: usize, said: &Inference) -> (bits: u32)
    ensures
        bits == score_of(recorded as nat, *said),
{
    if recorded == 0 {
        return 0;
    }
    match said {
        Inference::Unavailable => ONE,
        Inference::Short(p) => match p {
            Some(p) => *p,
            None => ONE,
        },
        Inference::Whole(probs) => {
            let mut max: u32 = 0;
            let mut any = false;
            let mut i: usize = 0;
            while i < probs.len()
                invariant
                    i <= probs@.len(),
                    max == highest(probs@.take(i as int)),
                    any == exists|k: int| 0 <= k < i && (#[trigger] probs@[k]) is Some,
                decreases probs@.len() - i,
            {
                assert(probs@.take(i + 1).drop_last() =~= probs@.take(i as int));
                if let Some(p) = probs[i] {
                    any = true;
                    if 0 < p && p <= INFINITY && p > max {
                        max = p;
                    }
                }
                i += 1;
            }
            assert(probs@.take(i as int) =~= probs@);
            if any {
                max
            } else {
                ONE
            }
        },
    }
}

/// Whether a score means speech.
pub fn is_speech(bits: u32) -> (r: bool)
    ensures
        r == (THRESHOLD <= bits <= INFINITY),
{
    THRESHOLD <= bits && bits <= INFINITY
}

/// A broken model does not silence the user: what it could not judge at all
/// counts as speech, unless nothing was recorded.
pub proof fn law_unjudged_is_speech(recorded: nat, probs: Vec<Option<u32>>)
    requires
        recorded > 0,
        forall|i: int| 0 <= i < probs@.len() ==> (#[trigger] probs@[i]) is None,
    ensures
        score_of(recorded, Inference::Unavailable) == ONE,
        score_of(recorded, Inference::Short(None)) == ONE,
        score_of(recorded, Inference::Whole(probs)) == ONE,
        THRESHOLD <= ONE <= INFINITY,
        forall|said: Inference| #[trigger] score_of(0, said) == 0,
{
}

/// A recording that the model judged and found nothing in is no speech, though
/// it failed on some of the windows.
pub proof fn law_silence_is_not_speech(recorded: nat, probs: Vec<Option<u32>>)
    requires
        judged(probs@),
        forall|i: int|
            0 <= i < probs@.len() && (#[trigger] probs@[i]) is Some ==> !is_positive(probs@[i]->0),
    ensures
        score_of(recorded, Inference::Whole(probs)) == 0,
        0 < THRESHOLD,
{
    lemma_highest(probs@);
}

/// One window of speech makes a recording speech: the score is that of one of
/// its windows, and none scores higher.
pub proof fn law_loudest_window_counts(recorded: nat, probs: Vec<Option<u32>>, i: int)
    requires
        recorded > 0,
        0 <= i < probs@.len(),
        probs@[i] is Some,
        is_positive(probs@[i]->0),
    ensures
        probs@[i]->0 <= score_of(recorded, Inference::Whole(probs)),
        probs@.contains(Some(score_of(recorded, Inference::Whole(probs)))),
{
    lemma_highest(probs@);
}

proof fn lemma_highest(probs: Seq<Option<u32>>)
    ensures
        highest(probs) != 0 ==> is_positive(highest(probs)) && probs.contains(
            Some(highest(probs)),
        ),
        forall|i: int|
            0 <= i < probs.len() && (#[trigger] probs[i]) is Some && is_positive(probs[i]->0)
                ==> probs[i]->0 <= highest(probs),
    decreases probs.len(),
{
    if probs.len() > 0 {
        let shorter = probs.drop_last();
        lemma_highest(shorter);
        assert(probs.last() == probs[probs.len() - 1]);
        if highest(shorter) != 0 {
            let k = choose|k: int| 0 <= k < shorter.len() && shorter[k] == Some(highest(shorter));
            assert(probs[k] == Some(highest(shorter)));
        }
        assert forall|i: int|
            0 <= i < probs.len() && (#[trigger] probs[i]) is Some && is_positive(
                probs[i]->0,
            ) implies probs[i]->0 <= highest(probs) by {
            if i < shorter.len() {
                assert(shorter[i] == probs[i]);
            }
        }
    }
}

/// The windows keep the recording: joined, they are its whole windows.
pub proof fn law_windows_keep_samples<S>(s: Seq<S>, silence: S, i: int)
    requires
        WINDOW <= s.len(),
        0 <= i < s.len() - s.len() % (WINDOW as nat),
    ensures
        0 <= i / (WINDOW as int) < cut(s, silence).len(),
        cut(s, silence)[i / (WINDOW as int)][i % (WINDOW as int)] == s[i],
{
    let w = WINDOW as int;
    let n = s.len() as int;
    assert(i / w * w + i % w == i && 0 <= i % w < w);
    assert(i / w < n / w) by {
        assert(n / w * w + n % w == n);
        assert(i < n / w * w);
    }
}

/// A recording that is shorter than a window is judged as one window of 512
/// samples, with silence at its end; a longer one in windows of 512 samples, as
/// many as it holds.
pub proof fn law_windows_hold_512_samples<S>(s: Seq<S>, silence: S)
    ensures
        forall|w: int| 0 <= w < cut(s, silence).len() ==> (#[trigger] cut(s, silence)[w]).len()
            == 512,
        s.len() < 512 ==> {
            let w = cut(s, silence)[0];
            &&& cut(s, silence).len() == 1
            &&& w.take(s.len() as int) == s
            &&& forall|k: int| s.len() <= k < 512 ==> #[trigger] w[k] == silence
        },
        s.len() >= 512 ==> 512 * cut(s, silence).len() <= s.len() < 512 * cut(s, silence).len()
            + 512,
{
    if s.len() < 512 {
        assert(cut(s, silence)[0].take(s.len() as int) =~= s);
    } else {
        let n = s.len() as int;
        assert forall|w: int| 0 <= w < cut(s, silence).len() implies (#[trigger] cut(
            s,
            silence,
        )[w]).len() == 512 by {
            assert(w * 512 + 512 <= n);
        }
    }
}

/// A score stands for a number in single precision: 1 where the model could not
/// judge, and half of that, or more, is speech.
pub proof fn law_scores_in_single_precision(recorded: nat, p: u32)
    requires
        recorded > 0,
    ensures
        score_of(recorded, Inference::Unavailable) == 0x3f80_0000,
        score_of(recorded, Inference::Short(Some(p))) == p,
        THRESHOLD == 0x3f00_0000,
        INFINITY == 0x7f80_0000,
{
}

/// A probability counts where it is a number above zero.
pub proof fn law_what_counts_as_a_probability(bits: u32)
    ensures
        is_positive(bits) <==> 1 <= bits <= 0x7f80_0000,
{
}

/// A score is speech from one half on, whatever is above it but no number.
pub proof fn law_half_is_speech(bits: u32, r: bool)
    requires
        call_ensures(is_speech, (bits,), r),
    ensures
        r <==> 0x3f00_0000 <= bits <= 0x7f80_0000,
{
}

} // verus!
