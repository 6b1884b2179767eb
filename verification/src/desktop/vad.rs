//! Voice activity detection: the state machine that cuts a stream of frames
//! into utterances.
//!
//! Whether a frame holds voice is decided by the caller from its level and the
//! noise floor; this module decides when an utterance starts, what belongs to
//! it and when it ends. A run of voice starts one, a run of silence ends it.

use std::collections::VecDeque;
use vstd::prelude::*;

use crate::millis;
use crate::precision;
use crate::ring;

verus! {

/// Timing of the detector, in milliseconds.
#[derive(Debug, Clone, Copy, PartialEq, Eq, Structural)]
pub struct VadConfig {
    /// Voice needed before an utterance starts.
    pub min_speech_ms: u32,
    /// Silence needed before it ends.
    pub endpoint_silence_ms: u32,
    /// What one frame covers.
    pub frame_ms: u32,
    /// Audio from before the start that the utterance includes.
    pub pre_roll_ms: u32,
}

impl Default for VadConfig {
    fn default() -> (c: Self)
        ensures
            c.min_speech_ms == 160,
            c.endpoint_silence_ms == 350,
            c.frame_ms == 40,
            c.pre_roll_ms == 600,
    {
        VadConfig { min_speech_ms: 160, endpoint_silence_ms: 350, frame_ms: 40, pre_roll_ms: 600 }
    }
}

/// An utterance is cut off at this length even without a silence.
pub const MAX_UTTERANCE_MS: u32 = 30_000;

/// Silences up to this length do not reset a run of voice that has not become
/// an utterance yet.
pub const PRE_UTT_HANGOVER_MS: u32 = 240;

/// Whether an utterance is in progress.
#[derive(Debug, Clone, Copy, PartialEq, Eq, Structural)]
pub enum VadState {
    Listening,
    Utterance,
}

/// Single-utterance detector: feed frames in, get utterances out.
pub struct Vad<S> {
    cfg: VadConfig,
    sample_rate: u32,
    state: VadState,
    samples: Vec<S>,
    pre_roll: VecDeque<S>,
    pre_roll_cap: u128,
    voice_run_ms: u32,
    silence_run_ms: u32,
    pre_utt_silence_ms: u32,
    utterance_ms: u32,
    muted: bool,
    streaming_preroll_pending: Option<Vec<S>>,
}

/// The state of a detector.
#[verifier::ext_equal]
pub struct VadModel<S> {
    pub cfg: VadConfig,
    pub sample_rate: u32,
    pub state: VadState,
    /// What the utterance in progress holds.
    pub samples: Seq<S>,
    /// The latest audio from before an utterance.
    pub pre_roll: Seq<S>,
    /// How many samples `pre_roll` keeps.
    pub pre_roll_cap: int,
    pub voice_run_ms: int,
    pub silence_run_ms: int,
    pub pre_utt_silence_ms: int,
    pub utterance_ms: int,
    pub muted: bool,
    /// The pre-roll of the latest utterance, until it is taken.
    pub pending: Option<Seq<S>>,
}

/// At least one sample is kept as pre-roll.
pub open spec fn roll_len(cap: int) -> int {
    if cap < 1 {
        1
    } else {
        cap
    }
}

/// How many samples make up the pre-roll: the rate times the milliseconds, by a
/// thousand, in single precision and to the nearest one.
pub open spec fn roll_cap(sample_rate: int, pre_roll_ms: int) -> int {
    precision::share_of(sample_rate, pre_roll_ms, 1000, precision::SINGLE as int)
}

/// A detector that has heard nothing.
pub open spec fn initial<S>(cfg: VadConfig, sample_rate: u32) -> VadModel<S> {
    VadModel {
        cfg,
        sample_rate,
        state: VadState::Listening,
        samples: Seq::empty(),
        pre_roll: Seq::empty(),
        pre_roll_cap: roll_cap(sample_rate as int, cfg.pre_roll_ms as int),
        voice_run_ms: 0,
        silence_run_ms: 0,
        pre_utt_silence_ms: 0,
        utterance_ms: 0,
        muted: false,
        pending: None,
    }
}

/// `m` with everything heard so far forgotten.
pub open spec fn forgotten<S>(m: VadModel<S>) -> VadModel<S> {
    VadModel { muted: m.muted, ..initial(m.cfg, m.sample_rate) }
}

/// `m` after the runs of voice and silence have been brought up to date.
pub open spec fn heard<S>(m: VadModel<S>, frame: Seq<S>, voiced: bool) -> VadModel<S> {
    let ms = m.cfg.frame_ms as int;
    let m = if m.state == VadState::Listening {
        VadModel { pre_roll: ring::last_of(m.pre_roll + frame, roll_len(m.pre_roll_cap)), ..m }
    } else {
        m
    };
    if voiced {
        VadModel {
            voice_run_ms: millis::sat(m.voice_run_ms, ms),
            silence_run_ms: 0,
            pre_utt_silence_ms: 0,
            ..m
        }
    } else if m.state == VadState::Utterance {
        VadModel { silence_run_ms: millis::sat(m.silence_run_ms, ms), ..m }
    } else if m.voice_run_ms > 0 {
        if millis::sat(m.pre_utt_silence_ms, ms) > PRE_UTT_HANGOVER_MS {
            VadModel { voice_run_ms: 0, pre_utt_silence_ms: 0, ..m }
        } else {
            VadModel { pre_utt_silence_ms: millis::sat(m.pre_utt_silence_ms, ms), ..m }
        }
    } else {
        m
    }
}

/// What a frame leads to: the state after it, and the utterance that it closes.
#[verifier::ext_equal]
pub struct Fed<S> {
    pub after: VadModel<S>,
    pub utterance: Option<Seq<S>>,
}

/// `m`, whose runs include the frame, after the transition that they call for.
pub open spec fn settled<S>(m: VadModel<S>, frame: Seq<S>) -> Fed<S> {
    if m.state == VadState::Listening {
        if m.voice_run_ms >= m.cfg.min_speech_ms {
            Fed {
                after: VadModel {
                    state: VadState::Utterance,
                    samples: m.pre_roll + frame,
                    pre_roll: Seq::empty(),
                    pending: Some(m.pre_roll),
                    ..m
                },
                utterance: None,
            }
        } else {
            Fed { after: m, utterance: None }
        }
    } else {
        let samples = m.samples + frame;
        let length = millis::sat(m.utterance_ms, m.cfg.frame_ms as int);
        if m.silence_run_ms >= m.cfg.endpoint_silence_ms || length >= MAX_UTTERANCE_MS {
            Fed { after: forgotten(m), utterance: Some(samples) }
        } else {
            Fed { after: VadModel { samples, utterance_ms: length, ..m }, utterance: None }
        }
    }
}

/// What a frame leads to. A muted detector, or an empty frame, changes nothing.
pub open spec fn fed<S>(m: VadModel<S>, frame: Seq<S>, voiced: bool) -> Fed<S> {
    if m.muted || frame.len() == 0 {
        Fed { after: m, utterance: None }
    } else {
        settled(heard(m, frame, voiced), frame)
    }
}

/// What holds of every state that a detector can be in.
pub open spec fn reachable<S>(m: VadModel<S>) -> bool {
    &&& m.pre_roll_cap == roll_cap(m.sample_rate as int, m.cfg.pre_roll_ms as int)
    &&& m.pre_roll.len() <= roll_len(m.pre_roll_cap)
    &&& 0 <= m.voice_run_ms && 0 <= m.silence_run_ms
    &&& 0 <= m.pre_utt_silence_ms && 0 <= m.utterance_ms
    &&& m.state == VadState::Listening ==> {
        &&& m.samples.len() == 0
        &&& m.silence_run_ms == 0
        &&& m.utterance_ms == 0
        &&& m.pre_utt_silence_ms <= PRE_UTT_HANGOVER_MS
        &&& m.cfg.min_speech_ms > 0 ==> m.voice_run_ms < m.cfg.min_speech_ms
    }
    &&& m.state == VadState::Utterance ==> {
        &&& m.pre_roll.len() == 0
        &&& m.cfg.endpoint_silence_ms > 0 ==> m.silence_run_ms < m.cfg.endpoint_silence_ms
        &&& m.utterance_ms < MAX_UTTERANCE_MS
    }
    &&& m.muted ==> m.state == VadState::Listening && m.voice_run_ms == 0
}

impl<S> View for Vad<S> {
    type V = VadModel<S>;

    closed spec fn view(&self) -> VadModel<S> {
        VadModel {
            cfg: self.cfg,
            sample_rate: self.sample_rate,
            state: self.state,
            samples: self.samples@,
            pre_roll: self.pre_roll@,
            pre_roll_cap: self.pre_roll_cap as int,
            voice_run_ms: self.voice_run_ms as int,
            silence_run_ms: self.silence_run_ms as int,
            pre_utt_silence_ms: self.pre_utt_silence_ms as int,
            utterance_ms: self.utterance_ms as int,
            muted: self.muted,
            pending: match self.streaming_preroll_pending {
                Some(v) => Some(v@),
                None => None,
            },
        }
    }
}

impl<S: Copy> Vad<S> {
    /// A detector that has heard nothing.
    pub fn new(cfg: VadConfig, sample_rate: u32) -> (v: Self)
        ensures
            v@ == initial::<S>(cfg, sample_rate),
            reachable(v@),
    {
        let cap: u128 = precision::share(sample_rate, cfg.pre_roll_ms, 1000, precision::SINGLE);
        let v = Vad {
            cfg,
            sample_rate,
            state: VadState::Listening,
            samples: Vec::new(),
            pre_roll: VecDeque::new(),
            pre_roll_cap: cap,
            voice_run_ms: 0,
            silence_run_ms: 0,
            pre_utt_silence_ms: 0,
            utterance_ms: 0,
            muted: false,
            streaming_preroll_pending: None,
        };
        assert(v@ =~= initial::<S>(cfg, sample_rate));
        v
    }

    /// Takes the pre-roll of the latest utterance, once.
    pub fn take_streaming_preroll(&mut self) -> (r: Option<Vec<S>>)
        ensures
            r is Some <==> old(self)@.pending is Some,
            r matches Some(v) ==> v@ == old(self)@.pending->0,
            final(self)@ == (VadModel { pending: None, ..old(self)@ }),
            reachable(old(self)@) ==> reachable(final(self)@),
    {
        let r = self.streaming_preroll_pending.take();
        assert(self@ =~= VadModel { pending: None, ..old(self)@ });
        r
    }

    /// Mutes or unmutes. Muting drops the utterance in progress.
    pub fn set_muted(&mut self, muted: bool)
        requires
            reachable(old(self)@),
        ensures
            final(self)@ == if muted {
                VadModel { muted: true, ..forgotten(old(self)@) }
            } else {
                VadModel { muted: false, ..old(self)@ }
            },
            reachable(final(self)@),
    {
        self.muted = muted;
        if muted {
            self.reset();
        }
        assert(self@ =~= if muted {
            VadModel { muted: true, ..forgotten(old(self)@) }
        } else {
            VadModel { muted: false, ..old(self)@ }
        });
    }

    /// Whether an utterance is in progress.
    pub fn state(&self) -> (s: VadState)
        ensures
            s == self@.state,
    {
        self.state
    }

    /// The rate of the samples.
    pub fn sample_rate(&self) -> (r: u32)
        ensures
            r == self@.sample_rate,
    {
        self.sample_rate
    }

    /// Forgets everything heard so far.
    fn reset(&mut self)
        requires
            old(self)@.pre_roll_cap == roll_cap(
                old(self)@.sample_rate as int,
                old(self)@.cfg.pre_roll_ms as int,
            ),
        ensures
            final(self)@ == forgotten(old(self)@),
    {
        self.state = VadState::Listening;
        self.samples = Vec::new();
        self.voice_run_ms = 0;
        self.silence_run_ms = 0;
        self.pre_utt_silence_ms = 0;
        self.utterance_ms = 0;
        self.pre_roll = VecDeque::new();
        self.streaming_preroll_pending = None;
        assert(self@ =~= forgotten(old(self)@));
    }

    /// Keeps the latest samples as pre-roll.
    fn roll(&mut self, frame: &[S])
        ensures
            final(self)@ == (VadModel {
                pre_roll: ring::last_of(
                    old(self)@.pre_roll + frame@,
                    roll_len(old(self)@.pre_roll_cap),
                ),
                ..old(self)@
            }),
    {
        ring::extend(&mut self.pre_roll, frame);
        let max: u128 = if self.pre_roll_cap < 1 {
            1
        } else {
            self.pre_roll_cap
        };
        ring::keep_last(&mut self.pre_roll, max);
        assert(self@ =~= VadModel {
            pre_roll: ring::last_of(old(self)@.pre_roll + frame@, roll_len(self@.pre_roll_cap)),
            ..old(self)@
        });
    }

    /// Takes everything out of the pre-roll, twice over.
    fn drain_pre_roll(&mut self) -> (r: (Vec<S>, Vec<S>))
        ensures
            r.0@ == old(self)@.pre_roll,
            r.1@ == old(self)@.pre_roll,
            final(self)@ == (VadModel { pre_roll: Seq::empty(), ..old(self)@ }),
    {
        let mut a: Vec<S> = Vec::new();
        let mut b: Vec<S> = Vec::new();
        let ghost all = self@.pre_roll;
        assert(a@ + self@.pre_roll =~= all);
        loop
            invariant
                a@ + self@.pre_roll == all,
                b@ == a@,
                self@ == (VadModel { pre_roll: self@.pre_roll, ..old(self)@ }),
            ensures
                a@ == all,
                b@ == all,
                self@ == (VadModel { pre_roll: Seq::empty(), ..old(self)@ }),
            decreases self@.pre_roll.len(),
        {
            let ghost held = self@.pre_roll;
            let ghost done = a@;
            match self.pre_roll.pop_front() {
                None => {
                    assert(a@ =~= all);
                    assert(self@ =~= VadModel { pre_roll: Seq::empty(), ..old(self)@ });
                    break ;
                },
                Some(s) => {
                    a.push(s);
                    b.push(s);
                    assert(a@ + self@.pre_roll =~= done + held);
                    assert(self@ =~= VadModel { pre_roll: self@.pre_roll, ..old(self)@ });
                },
            }
        }
        (a, b)
    }

    /// Brings the runs of voice and silence up to date.
    fn hear(&mut self, frame: &[S], voiced: bool)
        ensures
            final(self)@ == heard(old(self)@, frame@, voiced),
    {
        if self.state == VadState::Listening {
            self.roll(frame);
        }
        if voiced {
            self.voice_run_ms = self.voice_run_ms.saturating_add(self.cfg.frame_ms);
            self.silence_run_ms = 0;
            self.pre_utt_silence_ms = 0;
        } else if self.state == VadState::Listening {
            if self.voice_run_ms > 0 {
                self.pre_utt_silence_ms = self.pre_utt_silence_ms.saturating_add(self.cfg.frame_ms);
                if self.pre_utt_silence_ms > PRE_UTT_HANGOVER_MS {
                    self.voice_run_ms = 0;
                    self.pre_utt_silence_ms = 0;
                }
            }
        } else {
            self.silence_run_ms = self.silence_run_ms.saturating_add(self.cfg.frame_ms);
        }
        assert(self@ =~= heard(old(self)@, frame@, voiced));
    }

    /// Feeds one frame, of which the caller says whether it holds voice.
    /// Returns the utterance when the frame closes one; it includes the
    /// pre-roll.
    pub fn feed(&mut self, frame: &[S], voiced: bool) -> (r: Option<Vec<S>>)
        requires
            reachable(old(self)@),
        ensures
            final(self)@ == fed(old(self)@, frame@, voiced).after,
            r is Some <==> fed(old(self)@, frame@, voiced).utterance is Some,
            r matches Some(v) ==> v@ == fed(old(self)@, frame@, voiced).utterance->0,
            !old(self)@.muted && frame@.len() > 0 && old(self)@.state == VadState::Utterance ==> {
                &&& r is None ==> final(self)@.samples == old(self)@.samples + frame@
                &&& r matches Some(v) ==> v@ == old(self)@.samples + frame@
            },
            reachable(final(self)@),
    {
        proof {
            law_feeding_keeps_reachable(self@, frame@, voiced);
        }
        if self.muted || frame.len() == 0 {
            return None;
        }
        self.hear(frame, voiced);
        let ghost mid = self@;
        match self.state {
            VadState::Listening => {
                if self.voice_run_ms >= self.cfg.min_speech_ms {
                    self.state = VadState::Utterance;
                    let (pre, mut samples) = self.drain_pre_roll();
                    ring::append(&mut samples, frame);
                    self.streaming_preroll_pending = Some(pre);
                    self.samples = samples;
                }
                assert(self@ =~= settled(mid, frame@).after);
                None
            },
            VadState::Utterance => {
                ring::append(&mut self.samples, frame);
                self.utterance_ms = self.utterance_ms.saturating_add(self.cfg.frame_ms);
                if self.silence_run_ms >= self.cfg.endpoint_silence_ms || self.utterance_ms
                    >= MAX_UTTERANCE_MS {
                    let mut out: Vec<S> = Vec::new();
                    std::mem::swap(&mut out, &mut self.samples);
                    self.reset();
                    assert(self@ =~= settled(mid, frame@).after);
                    Some(out)
                } else {
                    assert(self@ =~= settled(mid, frame@).after);
                    None
                }
            },
        }
    }
}

/// Every frame leads from a state that a detector can be in to another one. In
/// particular the pre-roll stays within its bound, an utterance stays shorter
/// than the cap, and a muted detector stays without one.
pub proof fn law_feeding_keeps_reachable<S>(m: VadModel<S>, frame: Seq<S>, voiced: bool)
    requires
        reachable(m),
    ensures
        reachable(fed(m, frame, voiced).after),
{
}

/// Silence alone never starts an utterance.
pub proof fn law_silence_starts_nothing<S>(m: VadModel<S>, frame: Seq<S>)
    requires
        reachable(m),
        m.state == VadState::Listening,
        m.cfg.min_speech_ms > 0,
    ensures
        fed(m, frame, false).after.state == VadState::Listening,
        fed(m, frame, false).utterance is None,
{
}

/// A run of voice as long as the minimum starts an utterance that holds the
/// pre-roll and then the frame.
pub proof fn law_enough_voice_starts_an_utterance<S>(m: VadModel<S>, frame: Seq<S>)
    requires
        !m.muted,
        frame.len() > 0,
        m.state == VadState::Listening,
        m.voice_run_ms + m.cfg.frame_ms >= m.cfg.min_speech_ms,
    ensures
        ({
            let a = fed(m, frame, true).after;
            let roll = ring::last_of(m.pre_roll + frame, roll_len(m.pre_roll_cap));
            &&& a.state == VadState::Utterance
            &&& a.samples == roll + frame
            &&& a.pending == Some(roll)
        }),
{
}

/// Enough silence ends the utterance, which then holds everything fed since it
/// started, and leaves a detector that has heard nothing.
pub proof fn law_enough_silence_ends_the_utterance<S>(m: VadModel<S>, frame: Seq<S>)
    requires
        !m.muted,
        frame.len() > 0,
        m.state == VadState::Utterance,
        m.silence_run_ms + m.cfg.frame_ms >= m.cfg.endpoint_silence_ms,
    ensures
        fed(m, frame, false).utterance == Some(m.samples + frame),
        fed(m, frame, false).after == forgotten(m),
{
}

/// A frame on its way to the detector.
pub struct Frame<S> {
    pub samples: Seq<S>,
    pub voiced: bool,
}

/// The detector after frames have been fed, one after the other.
pub open spec fn after_frames<S>(m: VadModel<S>, frames: Seq<Frame<S>>) -> VadModel<S>
    decreases frames.len(),
{
    if frames.len() == 0 {
        m
    } else {
        let f = frames.last();
        fed(after_frames(m, frames.drop_last()), f.samples, f.voiced).after
    }
}

/// The samples of frames, in order.
pub open spec fn samples_in<S>(frames: Seq<Frame<S>>) -> Seq<S>
    decreases frames.len(),
{
    if frames.len() == 0 {
        Seq::empty()
    } else {
        samples_in(frames.drop_last()) + frames.last().samples
    }
}

/// Nothing is lost of an utterance: if the first of the frames starts one and
/// `close`, fed after the last of them, ends it, then what is returned is the
/// pre-roll that was handed out at the start, then all the frames in order,
/// then the one that closed it.
pub proof fn law_utterance_holds_every_frame<S>(
    m: VadModel<S>,
    frames: Seq<Frame<S>>,
    close: Frame<S>,
)
    requires
        m.state == VadState::Listening,
        frames.len() > 0,
        forall|k: int|
            0 < k <= frames.len() ==> #[trigger] after_frames(m, frames.take(k)).state
                == VadState::Utterance,
        forall|k: int| 0 <= k < frames.len() ==> (#[trigger] frames[k]).samples.len() > 0,
        fed(after_frames(m, frames), close.samples, close.voiced).utterance is Some,
    ensures
        after_frames(m, frames.take(1)).pending is Some,
        fed(after_frames(m, frames), close.samples, close.voiced).utterance == Some(
            after_frames(m, frames.take(1)).pending->0 + samples_in(frames) + close.samples,
        ),
{
    lemma_utterance_grows(m, frames);
}

proof fn lemma_utterance_grows<S>(m: VadModel<S>, frames: Seq<Frame<S>>)
    requires
        m.state == VadState::Listening,
        frames.len() > 0,
        forall|k: int|
            0 < k <= frames.len() ==> #[trigger] after_frames(m, frames.take(k)).state
                == VadState::Utterance,
        forall|k: int| 0 <= k < frames.len() ==> (#[trigger] frames[k]).samples.len() > 0,
    ensures
        after_frames(m, frames).state == VadState::Utterance,
        !after_frames(m, frames).muted,
        after_frames(m, frames.take(1)).pending is Some,
        after_frames(m, frames).samples == after_frames(m, frames.take(1)).pending->0 + samples_in(
            frames,
        ),
    decreases frames.len(),
{
    let n = frames.len() as int;
    assert(frames.take(n) =~= frames);
    assert(after_frames(m, frames.take(n)).state == VadState::Utterance);
    assert(frames[n - 1].samples.len() > 0);
    let init = frames.drop_last();
    assert(samples_in(frames) == samples_in(init) + frames.last().samples);
    if n == 1 {
        assert(init =~= Seq::<Frame<S>>::empty());
        assert(after_frames(m, init) == m);
        assert(samples_in(frames) =~= frames.last().samples);
    } else {
        assert forall|k: int| 0 < k <= init.len() implies #[trigger] after_frames(
            m,
            init.take(k),
        ).state == VadState::Utterance by {
            assert(init.take(k) =~= frames.take(k));
            assert(after_frames(m, frames.take(k)).state == VadState::Utterance);
        }
        assert forall|k: int| 0 <= k < init.len() implies (#[trigger] init[k]).samples.len()
            > 0 by {
            assert(frames[k].samples.len() > 0);
        }
        lemma_utterance_grows(m, init);
        assert(init.take(1) =~= frames.take(1));
        let pre = after_frames(m, frames.take(1)).pending->0;
        assert(pre + samples_in(init) + frames.last().samples =~= pre + samples_in(frames));
    }
}

/// While a detector only listens, its pre-roll is the end of all that it has
/// heard: the whole of it, or the latest samples up to the cap. When an
/// utterance starts the pre-roll is handed out, with the frame that started it
/// at its end.
pub proof fn law_pre_roll_is_the_latest_audio<S>(
    cfg: VadConfig,
    sample_rate: u32,
    frames: Seq<Frame<S>>,
)
    requires
        frames.len() > 0,
        forall|k: int|
            0 <= k < frames.len() ==> #[trigger] after_frames(
                initial::<S>(cfg, sample_rate),
                frames.take(k),
            ).state == VadState::Listening,
        forall|k: int| 0 <= k < frames.len() ==> (#[trigger] frames[k]).samples.len() > 0,
    ensures
        ({
            let m = after_frames(initial::<S>(cfg, sample_rate), frames);
            let heard = samples_in(frames);
            let cap = if m.pre_roll_cap < 1 {
                1
            } else {
                m.pre_roll_cap
            };
            let roll = if m.state == VadState::Listening {
                m.pre_roll
            } else {
                m.pending->0
            };
            &&& m.state == VadState::Utterance ==> m.pending is Some && m.pre_roll.len() == 0
            &&& roll.len() == if heard.len() < cap {
                heard.len() as int
            } else {
                cap
            }
            &&& roll == heard.skip(heard.len() - roll.len())
        }),
    decreases frames.len(),
{
    let start = initial::<S>(cfg, sample_rate);
    let init = frames.drop_last();
    let n = frames.len() as int;
    let last = frames.last();
    assert(frames[n - 1].samples.len() > 0);
    assert(init =~= frames.take(n - 1));
    let before = after_frames(start, init);
    assert(before.state == VadState::Listening);
    lemma_cap_stays(start, init);
    lemma_cap_stays(start, frames);
    let cap = roll_len(start.pre_roll_cap);
    let all = before.pre_roll + last.samples;
    let heard_before = samples_in(init);
    let heard = samples_in(frames);
    if init.len() > 0 {
        assert forall|k: int| 0 <= k < init.len() implies #[trigger] after_frames(
            start,
            init.take(k),
        ).state == VadState::Listening by {
            assert(init.take(k) =~= frames.take(k));
            assert(after_frames(start, frames.take(k)).state == VadState::Listening);
        }
        assert forall|k: int| 0 <= k < init.len() implies (#[trigger] init[k]).samples.len()
            > 0 by {
            assert(frames[k].samples.len() > 0);
        }
        law_pre_roll_is_the_latest_audio(cfg, sample_rate, init);
    } else {
        assert(init =~= Seq::<Frame<S>>::empty());
        assert(heard_before =~= before.pre_roll);
    }
    assert(all =~= heard.skip(heard.len() - all.len()));
    let roll = ring::last_of(all, cap);
    assert(roll =~= heard.skip(heard.len() - roll.len()));
}

proof fn lemma_cap_stays<S>(m: VadModel<S>, frames: Seq<Frame<S>>)
    requires
        !m.muted,
        m.pre_roll_cap == roll_cap(m.sample_rate as int, m.cfg.pre_roll_ms as int),
    ensures
        ({
            let a = after_frames(m, frames);
            &&& a.pre_roll_cap == m.pre_roll_cap
            &&& a.cfg == m.cfg
            &&& a.sample_rate == m.sample_rate
            &&& !a.muted
        }),
    decreases frames.len(),
{
    if frames.len() > 0 {
        lemma_cap_stays(m, frames.drop_last());
    }
}

/// How much is kept: as many samples as last for the pre-roll's milliseconds.
pub proof fn law_pre_roll_lasts_as_configured<S>(cfg: VadConfig, sample_rate: u32, n: int)
    requires
        0 <= n,
        sample_rate * cfg.pre_roll_ms == 1000 * n,
        1000 * n < 0x100_0000,
        sample_rate < 0x100_0000,
        cfg.pre_roll_ms < 0x100_0000,
    ensures
        initial::<S>(cfg, sample_rate).pre_roll_cap == n,
{
    precision::lemma_share_is_exact(sample_rate as int, cfg.pre_roll_ms as int, 1000, n);
}

/// A detector that has heard nothing starts an utterance with the frame that
/// makes the voice as long as the minimum, and not before.
pub proof fn law_voice_starts_an_utterance_in_time<S>(
    cfg: VadConfig,
    sample_rate: u32,
    frames: Seq<Frame<S>>,
)
    requires
        frames.len() > 0,
        forall|k: int|
            0 <= k < frames.len() ==> (#[trigger] frames[k]).voiced && frames[k].samples.len() > 0,
        (frames.len() - 1) * cfg.frame_ms < cfg.min_speech_ms <= frames.len() * cfg.frame_ms,
        frames.len() * cfg.frame_ms <= u32::MAX,
    ensures
        after_frames(initial::<S>(cfg, sample_rate), frames.drop_last()).state
            == VadState::Listening,
        after_frames(initial::<S>(cfg, sample_rate), frames).state == VadState::Utterance,
{
    let n = frames.len() as int;
    let ms = cfg.frame_ms as int;
    assert(n * ms == (n - 1) * ms + ms) by (nonlinear_arith);
    lemma_voice_run(cfg, sample_rate, frames.drop_last());
    assert(frames[n - 1].voiced);
    lemma_cap_stays(initial::<S>(cfg, sample_rate), frames.drop_last());
}

proof fn lemma_voice_run<S>(cfg: VadConfig, sample_rate: u32, frames: Seq<Frame<S>>)
    requires
        forall|k: int|
            0 <= k < frames.len() ==> (#[trigger] frames[k]).voiced && frames[k].samples.len() > 0,
        frames.len() * cfg.frame_ms < cfg.min_speech_ms,
    ensures
        ({
            let a = after_frames(initial::<S>(cfg, sample_rate), frames);
            a.state == VadState::Listening && a.voice_run_ms == frames.len() * cfg.frame_ms
                && a.cfg == cfg && !a.muted
        }),
    decreases frames.len(),
{
    if frames.len() > 0 {
        let n = frames.len() as int;
        let ms = cfg.frame_ms as int;
        let init = frames.drop_last();
        assert(n * ms == (n - 1) * ms + ms) by (nonlinear_arith);
        assert forall|k: int| 0 <= k < init.len() implies (#[trigger] init[k]).voiced
            && init[k].samples.len() > 0 by {
            assert(frames[k].voiced);
        }
        lemma_voice_run(cfg, sample_rate, init);
        assert(frames[n - 1].voiced);
    }
}

/// An utterance goes on through voice and through silence shorter than the
/// endpoint, and the silent frame that makes the silence as long as the endpoint
/// closes it. After that the detector is as new.
pub proof fn law_silence_closes_in_time<S>(m: VadModel<S>, frames: Seq<Frame<S>>)
    requires
        m.state == VadState::Utterance,
        !m.muted,
        m.silence_run_ms == 0,
        0 <= m.utterance_ms,
        frames.len() > 0,
        forall|k: int|
            0 <= k < frames.len() ==> !(#[trigger] frames[k]).voiced && frames[k].samples.len() > 0,
        (frames.len() - 1) * m.cfg.frame_ms < m.cfg.endpoint_silence_ms <= frames.len()
            * m.cfg.frame_ms,
        m.utterance_ms + frames.len() * m.cfg.frame_ms < 30_000,
    ensures
        ({
            let before = after_frames(m, frames.drop_last());
            let f = frames.last();
            let a = after_frames(m, frames);
            &&& before.state == VadState::Utterance
            &&& fed(before, f.samples, f.voiced).utterance is Some
            &&& a.state == VadState::Listening
            &&& a.samples.len() == 0
            &&& a.pre_roll.len() == 0
            &&& a.pending is None
            &&& a.voice_run_ms == 0
            &&& a.silence_run_ms == 0
            &&& a.pre_utt_silence_ms == 0
            &&& a.utterance_ms == 0
            &&& a.cfg == m.cfg
            &&& !a.muted
        }),
{
    let n = frames.len() as int;
    let ms = m.cfg.frame_ms as int;
    assert(n * ms == (n - 1) * ms + ms) by (nonlinear_arith);
    lemma_silence_run(m, frames.drop_last());
    assert(!frames[n - 1].voiced);
}

proof fn lemma_silence_run<S>(m: VadModel<S>, frames: Seq<Frame<S>>)
    requires
        m.state == VadState::Utterance,
        !m.muted,
        m.silence_run_ms == 0,
        0 <= m.utterance_ms,
        forall|k: int|
            0 <= k < frames.len() ==> !(#[trigger] frames[k]).voiced && frames[k].samples.len() > 0,
        frames.len() * m.cfg.frame_ms < m.cfg.endpoint_silence_ms,
        m.utterance_ms + frames.len() * m.cfg.frame_ms < 30_000,
    ensures
        ({
            let a = after_frames(m, frames);
            &&& a.state == VadState::Utterance
            &&& a.silence_run_ms == frames.len() * m.cfg.frame_ms
            &&& a.utterance_ms == m.utterance_ms + frames.len() * m.cfg.frame_ms
            &&& a.cfg == m.cfg
            &&& !a.muted
        }),
    decreases frames.len(),
{
    if frames.len() > 0 {
        let n = frames.len() as int;
        let ms = m.cfg.frame_ms as int;
        let init = frames.drop_last();
        assert(n * ms == (n - 1) * ms + ms) by (nonlinear_arith);
        assert(0 <= (n - 1) * ms) by (nonlinear_arith)
            requires
                1 <= n,
                0 <= ms,
        ;
        assert forall|k: int| 0 <= k < init.len() implies !(#[trigger] init[k]).voiced
            && init[k].samples.len() > 0 by {
            assert(!frames[k].voiced);
        }
        lemma_silence_run(m, init);
        assert(!frames[n - 1].voiced);
    }
}

/// In an utterance a voiced frame is kept and ends the silence before it; it
/// closes the utterance only where that has lasted 30 seconds.
pub proof fn law_voice_keeps_an_utterance_going<S>(m: VadModel<S>, frame: Seq<S>)
    requires
        m.state == VadState::Utterance,
        !m.muted,
        frame.len() > 0,
        0 <= m.utterance_ms,
        0 < m.cfg.endpoint_silence_ms,
    ensures
        ({
            let r = fed(m, frame, true);
            if m.utterance_ms + m.cfg.frame_ms >= 30_000 {
                r.utterance == Some(m.samples + frame) && r.after.state == VadState::Listening
            } else {
                &&& r.utterance is None
                &&& r.after.state == VadState::Utterance
                &&& r.after.samples == m.samples + frame
                &&& r.after.silence_run_ms == 0
                &&& r.after.utterance_ms == m.utterance_ms + m.cfg.frame_ms
                &&& r.after.pending == m.pending
            }
        }),
{
}

/// While no utterance has started, silence of up to 240 milliseconds after
/// voice does not take the voice back, and longer silence does.
pub proof fn law_short_silence_is_bridged<S>(m: VadModel<S>, frame: Seq<S>)
    requires
        m.state == VadState::Listening,
        !m.muted,
        frame.len() > 0,
        0 < m.voice_run_ms < m.cfg.min_speech_ms,
        0 <= m.pre_utt_silence_ms,
    ensures
        ({
            let a = fed(m, frame, false).after;
            &&& a.state == VadState::Listening
            &&& m.pre_utt_silence_ms + m.cfg.frame_ms <= 240 ==> a.voice_run_ms == m.voice_run_ms
                && a.pre_utt_silence_ms == m.pre_utt_silence_ms + m.cfg.frame_ms
            &&& m.pre_utt_silence_ms + m.cfg.frame_ms > 240 ==> a.voice_run_ms == 0
                && a.pre_utt_silence_ms == 0
        }),
{
}

/// A muted detector takes nothing in, and neither does any from an empty frame.
pub proof fn law_muted_hears_nothing<S>(m: VadModel<S>, frame: Seq<S>, voiced: bool)
    requires
        m.muted || frame.len() == 0,
    ensures
        fed(m, frame, voiced).after == m,
        fed(m, frame, voiced).utterance is None,
{
}

} // verus!
