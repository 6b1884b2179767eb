//! From the microphone to utterances: frames of any size are cut into chunks
//! for the detector, the user's own voice is told from JARVIS's, and what the
//! detector finds is handed on.
//!
//! Levels and the verdict of the speech model are floating point and come from
//! the caller; every decision that rests on them is made here.

use std::collections::VecDeque;
use vstd::prelude::*;

use crate::desktop::vad;
use crate::desktop::vad::{Vad, VadConfig, VadState};
use crate::ring;
use crate::ring::keep_last;

verus! {

/// How much of the latest audio is kept for the speech model, in samples.
pub const RECENT_MIC_MAX: u64 = 48_000;

/// So many loud frames in a row are taken for the user speaking over JARVIS.
pub const BARGE_IN_FRAMES: u32 = 3;

/// How many samples make up the 40 milliseconds that the detector is fed.
pub open spec fn chunk_len(sample_rate: u32) -> int {
    sample_rate as int / 25
}

/// The pipeline.
pub struct MicPipeline<S> {
    vad: Option<Vad<S>>,
    buffer: Vec<S>,
    sample_rate: u32,
    prev_state: VadState,
    barge_streak: u32,
    recent: VecDeque<S>,
}

/// The state of a pipeline.
#[verifier::ext_equal]
pub struct PipelineModel<S> {
    /// None until the first frame has told the rate.
    pub vad: Option<vad::VadModel<S>>,
    /// What has not been cut into chunks yet.
    pub buffer: Seq<S>,
    pub sample_rate: u32,
    /// The detector's state after the last chunk.
    pub prev: VadState,
    /// How many frames in a row were loud.
    pub streak: int,
    /// The latest audio.
    pub recent: Seq<S>,
}

impl<S> View for MicPipeline<S> {
    type V = PipelineModel<S>;

    closed spec fn view(&self) -> PipelineModel<S> {
        PipelineModel {
            vad: match self.vad {
                Some(v) => Some(v@),
                None => None,
            },
            buffer: self.buffer@,
            sample_rate: self.sample_rate,
            prev: self.prev_state,
            streak: self.barge_streak as int,
            recent: self.recent@,
        }
    }
}

/// What holds of every state that a pipeline can be in.
pub open spec fn reachable<S>(m: PipelineModel<S>) -> bool {
    &&& m.vad matches Some(v) ==> vad::reachable(v)
    &&& chunk_len(m.sample_rate) > 0
    &&& 0 <= m.streak < 3
    &&& m.recent.len() <= RECENT_MIC_MAX
}

/// What holds between noting a frame and taking it.
pub open spec fn midway<S>(m: PipelineModel<S>) -> bool {
    &&& m.vad matches Some(v) && vad::reachable(v)
    &&& chunk_len(m.sample_rate) > 0
    &&& 0 <= m.streak <= 3
    &&& m.recent.len() <= RECENT_MIC_MAX
}

/// A pipeline that has heard nothing.
pub open spec fn initial<S>() -> PipelineModel<S> {
    PipelineModel {
        vad: None,
        buffer: Seq::empty(),
        sample_rate: 48_000,
        prev: VadState::Listening,
        streak: 0,
        recent: Seq::empty(),
    }
}

/// The timing of the detector.
pub open spec fn timing() -> VadConfig {
    VadConfig { min_speech_ms: 160, endpoint_silence_ms: 350, frame_ms: 40, pre_roll_ms: 600 }
}

/// The state after a frame has come in, before it is known whether the user
/// speaks over JARVIS. The first frame tells the rate. `over` is whether
/// JARVIS speaks and the user has not muted the microphone; only then does a
/// loud frame count.
pub open spec fn noted<S>(
    m: PipelineModel<S>,
    frame: Seq<S>,
    sample_rate: u32,
    over: bool,
    loud: bool,
) -> PipelineModel<S> {
    PipelineModel {
        vad: match m.vad {
            Some(v) => Some(v),
            None => Some(vad::initial(timing(), sample_rate)),
        },
        sample_rate: if m.vad is None {
            sample_rate
        } else {
            m.sample_rate
        },
        recent: ring::last_of(m.recent + frame, RECENT_MIC_MAX as int),
        streak: if over && loud {
            m.streak + 1
        } else {
            0
        },
        ..m
    }
}

/// Whether the speech model has to say if the user speaks over JARVIS.
pub open spec fn is_candidate<S>(m: PipelineModel<S>) -> bool {
    m.streak >= 3
}

/// Whether the detector hears nothing: the user muted the microphone, or JARVIS
/// speaks and the user does not speak over it. Else JARVIS would hear itself.
pub open spec fn is_deaf(muted_by_user: bool, tts_playing: bool, barge_in: bool) -> bool {
    muted_by_user || (tts_playing && !barge_in)
}

/// The state after it is known whether the user speaks over JARVIS.
pub open spec fn taken<S>(m: PipelineModel<S>, frame: Seq<S>, deaf: bool) -> PipelineModel<S> {
    PipelineModel {
        vad: match m.vad {
            Some(v) => Some(
                if deaf {
                    vad::VadModel { muted: true, ..vad::forgotten(v) }
                } else {
                    vad::VadModel { muted: false, ..v }
                },
            ),
            None => None,
        },
        streak: if is_candidate(m) {
            0
        } else {
            m.streak
        },
        buffer: m.buffer + frame,
        ..m
    }
}

/// What a chunk led to.
pub struct Chunk<S> {
    /// An utterance has started: playback is halted, and a streaming recogniser
    /// is told.
    pub onset: bool,
    /// What was heard just before, for a streaming recogniser.
    pub preroll: Option<Vec<S>>,
    /// The chunk belongs to an utterance: a streaming recogniser gets it.
    pub in_utterance: bool,
    /// The utterance that ended.
    pub utterance: Option<Vec<S>>,
}

/// What a chunk led to, and the state after it.
#[verifier::ext_equal]
pub struct ChunkModel<S> {
    pub after: PipelineModel<S>,
    pub onset: bool,
    pub preroll: Option<Seq<S>>,
    pub in_utterance: bool,
    pub utterance: Option<Seq<S>>,
}

/// What a chunk leads to; `streaming` is whether there is a streaming
/// recogniser.
pub open spec fn chunk_step<S>(
    m: PipelineModel<S>,
    chunk: Seq<S>,
    voiced: bool,
    streaming: bool,
) -> ChunkModel<S> {
    let f = vad::fed(m.vad->0, chunk, voiced);
    let onset = m.prev == VadState::Listening && f.after.state == VadState::Utterance;
    ChunkModel {
        after: PipelineModel {
            vad: Some(
                if onset && streaming {
                    vad::VadModel { pending: None, ..f.after }
                } else {
                    f.after
                },
            ),
            prev: f.after.state,
            ..m
        },
        onset,
        preroll: if onset && streaming {
            f.after.pending
        } else {
            None
        },
        in_utterance: f.after.state == VadState::Utterance,
        utterance: f.utterance,
    }
}

impl<S: Copy> MicPipeline<S> {
    /// A pipeline that has heard nothing.
    pub fn new() -> (r: Self)
        ensures
            r@ == initial::<S>(),
            reachable(r@),
    {
        let r = MicPipeline {
            vad: None,
            buffer: Vec::new(),
            sample_rate: 48_000,
            prev_state: VadState::Listening,
            barge_streak: 0,
            recent: VecDeque::new(),
        };
        assert(r@ =~= initial::<S>());
        r
    }

    /// The rate of the samples.
    pub fn sample_rate(&self) -> (r: u32)
        ensures
            r == self@.sample_rate,
    {
        self.sample_rate
    }

    /// Takes a frame in. The latest audio is returned when the speech model has
    /// to say whether the user speaks over JARVIS; `take_frame` follows.
    pub fn note_frame(
        &mut self,
        frame: &[S],
        sample_rate: u32,
        muted_by_user: bool,
        tts_playing: bool,
        loud: bool,
    ) -> (ask: Option<Vec<S>>)
        requires
            reachable(old(self)@),
            sample_rate >= 25,
        ensures
            ({
                let m = noted(
                    old(self)@,
                    frame@,
                    sample_rate,
                    tts_playing && !muted_by_user,
                    loud,
                );
                &&& final(self)@ == m
                &&& ask is Some <==> is_candidate(m)
                &&& ask matches Some(v) ==> v@ == m.recent
            }),
            midway(final(self)@),
    {
        if self.vad.is_none() {
            self.sample_rate = sample_rate;
            self.vad = Some(Vad::new(VadConfig::default(), sample_rate));
        }
        ring::extend(&mut self.recent, frame);
        keep_last(&mut self.recent, RECENT_MIC_MAX as u128);
        if tts_playing && !muted_by_user && loud {
            self.barge_streak = self.barge_streak + 1;
        } else {
            self.barge_streak = 0;
        }
        assert(self@ =~= noted(
            old(self)@,
            frame@,
            sample_rate,
            tts_playing && !muted_by_user,
            loud,
        ));
        if self.barge_streak >= BARGE_IN_FRAMES {
            Some(self.recent_audio())
        } else {
            None
        }
    }

    fn recent_audio(&self) -> (v: Vec<S>)
        ensures
            v@ == self@.recent,
    {
        let mut v: Vec<S> = Vec::new();
        let mut i: usize = 0;
        while i < self.recent.len()
            invariant
                i <= self.recent@.len(),
                v@ == self.recent@.take(i as int),
            decreases self.recent@.len() - i,
        {
            v.push(self.recent[i]);
            assert(self.recent@.take(i + 1) =~= self.recent@.take(i as int).push(
                self.recent@[i as int],
            ));
            i += 1;
        }
        assert(self.recent@.take(i as int) =~= self.recent@);
        v
    }

    /// Hands the frame on to be cut into chunks; `is_speech` is the verdict of
    /// the speech model where it was asked. True if the user speaks over
    /// JARVIS: playback is halted then.
    pub fn take_frame(
        &mut self,
        frame: &[S],
        muted_by_user: bool,
        tts_playing: bool,
        is_speech: bool,
    ) -> (barge_in: bool)
        requires
            midway(old(self)@),
        ensures
            barge_in == (is_candidate(old(self)@) && is_speech),
            final(self)@ == taken(
                old(self)@,
                frame@,
                is_deaf(muted_by_user, tts_playing, barge_in),
            ),
            reachable(final(self)@),
            final(self)@.vad is Some,
    {
        let candidate = self.barge_streak >= BARGE_IN_FRAMES;
        let barge_in = candidate && is_speech;
        if candidate {
            self.barge_streak = 0;
        }
        let deaf = muted_by_user || (tts_playing && !barge_in);
        if let Some(mut v) = self.vad.take() {
            v.set_muted(deaf);
            self.vad = Some(v);
        }
        ring::append(&mut self.buffer, frame);
        assert(self@ =~= taken(old(self)@, frame@, deaf));
        barge_in
    }

    /// The next chunk for the detector, if there is enough audio for one.
    pub fn next_chunk(&mut self) -> (r: Option<Vec<S>>)
        requires
            reachable(old(self)@),
        ensures
            ({
                let n = chunk_len(old(self)@.sample_rate);
                &&& r is Some <==> old(self)@.buffer.len() >= n
                &&& r matches Some(c) ==> c@ == old(self)@.buffer.take(n) && final(self)@
                    == (PipelineModel { buffer: old(self)@.buffer.skip(n), ..old(self)@ })
                &&& r is None ==> final(self)@ == old(self)@
            }),
            reachable(final(self)@),
    {
        let n: usize = (self.sample_rate / 25) as usize;
        let len: usize = self.buffer.len();
        if len < n {
            return None;
        }
        let chunk = vstd::slice::slice_to_vec(
            vstd::slice::slice_subrange(self.buffer.as_slice(), 0, n),
        );
        let rest = vstd::slice::slice_to_vec(
            vstd::slice::slice_subrange(self.buffer.as_slice(), n, len),
        );
        assert(chunk@ =~= self@.buffer.take(n as int));
        assert(rest@ =~= self@.buffer.skip(n as int));
        self.buffer = rest;
        Some(chunk)
    }

    /// Feeds a chunk to the detector; `voiced` is whether it holds voice,
    /// `streaming` whether there is a streaming recogniser.
    pub fn feed_chunk(&mut self, chunk: &[S], voiced: bool, streaming: bool) -> (r: Chunk<S>)
        requires
            reachable(old(self)@),
            old(self)@.vad is Some,
        ensures
            ({
                let e = chunk_step(old(self)@, chunk@, voiced, streaming);
                &&& final(self)@ == e.after
                &&& r.onset == e.onset
                &&& r.preroll is Some <==> e.preroll is Some
                &&& r.preroll matches Some(p) ==> p@ == e.preroll->0
                &&& r.in_utterance == e.in_utterance
                &&& r.utterance is Some <==> e.utterance is Some
                &&& r.utterance matches Some(u) ==> u@ == e.utterance->0
            }),
            reachable(final(self)@),
            final(self)@.vad is Some,
    {
        let ghost e = chunk_step(self@, chunk@, voiced, streaming);
        let mut utterance: Option<Vec<S>> = None;
        let mut preroll: Option<Vec<S>> = None;
        let mut cur = VadState::Listening;
        let mut onset = false;
        if let Some(mut v) = self.vad.take() {
            utterance = v.feed(chunk, voiced);
            cur = v.state();
            onset = self.prev_state == VadState::Listening && cur == VadState::Utterance;
            if onset && streaming {
                preroll = v.take_streaming_preroll();
            }
            self.vad = Some(v);
        }
        self.prev_state = cur;
        assert(self@ =~= e.after);
        Chunk { onset, preroll, in_utterance: cur == VadState::Utterance, utterance }
    }
}

/// The streaming recogniser.
#[derive(Clone, Copy, Debug, PartialEq, Eq, Structural)]
pub enum Stream {
    /// There is none.
    Absent,
    /// Its connection is lost.
    Dead,
    /// It is there.
    Alive,
}

/// What becomes of an utterance.
#[derive(Clone, Copy, Debug, PartialEq, Eq, Structural)]
pub enum Dispatch {
    /// It was no speech: playback goes on, and a streaming recogniser that is
    /// there forgets it.
    Reject { reset_stream: bool },
    /// The streaming recogniser is told that it has ended; the transcript
    /// follows.
    EndStream,
    /// It is sent to be transcribed.
    Transcribe,
}

/// What becomes of an utterance. A recogniser whose connection is lost is not
/// relied on, so that nothing that the user says is lost.
pub fn dispatch(is_speech: bool, stream: Stream) -> (d: Dispatch)
    ensures
        d == if !is_speech {
            Dispatch::Reject { reset_stream: stream == Stream::Alive }
        } else if stream == Stream::Alive {
            Dispatch::EndStream
        } else {
            Dispatch::Transcribe
        },
{
    if !is_speech {
        Dispatch::Reject { reset_stream: stream == Stream::Alive }
    } else if stream == Stream::Alive {
        Dispatch::EndStream
    } else {
        Dispatch::Transcribe
    }
}

/// While JARVIS speaks and the user does not speak over it, nothing that the
/// microphone picks up becomes an utterance.
pub proof fn law_jarvis_does_not_hear_itself<S>(
    m: PipelineModel<S>,
    frame: Seq<S>,
    chunk: Seq<S>,
    voiced: bool,
    streaming: bool,
)
    requires
        m.vad is Some,
    ensures
        ({
            let e = chunk_step(taken(m, frame, is_deaf(false, true, false)), chunk, voiced, streaming);
            !e.onset && !e.in_utterance && e.utterance is None
        }),
{
}

/// The user is taken to speak over JARVIS only after three loud frames in a
/// row while JARVIS spoke: one quiet frame starts the count anew.
pub proof fn law_speaking_over_takes_three_frames<S>(
    m: PipelineModel<S>,
    frame: Seq<S>,
    sample_rate: u32,
    over: bool,
    loud: bool,
)
    requires
        reachable(m),
    ensures
        is_candidate(noted(m, frame, sample_rate, over, loud)) <==> over && loud && m.streak == 2,
        !(over && loud) ==> noted(m, frame, sample_rate, over, loud).streak == 0,
{
}

/// The chunks of `n` samples that `s` is cut into, and what is left.
#[verifier::ext_equal]
pub struct Cut<S> {
    pub chunks: Seq<Seq<S>>,
    pub rest: Seq<S>,
}

/// Cuts `s` into chunks of `n` samples.
pub open spec fn cut<S>(s: Seq<S>, n: int) -> Cut<S>
    decreases s.len(),
{
    if n <= 0 || s.len() < n {
        Cut { chunks: Seq::empty(), rest: s }
    } else {
        let c = cut(s.skip(n), n);
        Cut { chunks: seq![s.take(n)] + c.chunks, rest: c.rest }
    }
}

/// How the microphone frames its audio makes no difference: cutting one stretch
/// into chunks and then what is left of it with the next stretch gives the
/// chunks of both in a row.
pub proof fn law_framing_does_not_matter<S>(a: Seq<S>, b: Seq<S>, n: int)
    requires
        n > 0,
    ensures
        ({
            let first = cut(a, n);
            let second = cut(first.rest + b, n);
            cut(a + b, n) == (Cut { chunks: first.chunks + second.chunks, rest: second.rest })
        }),
    decreases a.len(),
{
    let first = cut(a, n);
    let second = cut(first.rest + b, n);
    if a.len() < n {
        assert(first.chunks + second.chunks =~= second.chunks);
    } else {
        law_framing_does_not_matter(a.skip(n), b, n);
        assert((a + b).skip(n) =~= a.skip(n) + b);
        assert((a + b).take(n) =~= a.take(n));
        let inner = cut(a.skip(n), n);
        assert(seq![a.take(n)] + (inner.chunks + second.chunks) =~= (seq![a.take(n)]
            + inner.chunks) + second.chunks);
    }
}

/// No sample is lost or doubled by cutting.
pub proof fn law_cutting_keeps_samples<S>(s: Seq<S>, n: int)
    requires
        n > 0,
    ensures
        cut(s, n).chunks.flatten() + cut(s, n).rest == s,
        cut(s, n).rest.len() < n,
    decreases s.len(),
{
    let c = cut(s, n);
    if s.len() < n {
        assert(c.chunks.flatten() =~= Seq::<S>::empty());
        assert(c.chunks.flatten() + c.rest =~= s);
    } else {
        law_cutting_keeps_samples(s.skip(n), n);
        let inner = cut(s.skip(n), n);
        assert(c.chunks.drop_first() =~= inner.chunks);
        assert(c.chunks.flatten() =~= s.take(n) + inner.chunks.flatten());
        assert(c.chunks.flatten() + c.rest =~= s.take(n) + (inner.chunks.flatten() + inner.rest));
        assert(s.take(n) + s.skip(n) =~= s);
    }
}

/// Every frame is kept for the detector, after what it has not yet been given,
/// and of the latest audio the last 48000 samples are kept for the speech
/// model.
pub proof fn law_frames_are_kept<S>(
    m: PipelineModel<S>,
    frame: Seq<S>,
    sample_rate: u32,
    over: bool,
    loud: bool,
    deaf: bool,
)
    ensures
        ({
            let n = noted(m, frame, sample_rate, over, loud);
            let t = taken(n, frame, deaf);
            &&& t.buffer == m.buffer + frame
            &&& m.recent.len() + frame.len() <= 48_000 ==> t.recent == m.recent + frame
            &&& m.recent.len() + frame.len() > 48_000 ==> t.recent.len() == 48_000 && t.recent == (
            m.recent + frame).skip(m.recent.len() + frame.len() - 48_000)
            &&& m.vad is Some ==> t.sample_rate == m.sample_rate
            &&& m.vad is None ==> t.sample_rate == sample_rate
            &&& t.prev == m.prev
        }),
{
}

/// The detector is made at the rate of the first frame, with the timing that it
/// keeps: an utterance takes 160 milliseconds of voice and ends after 350 of
/// silence, chunks last 40, and 600 before it are kept.
pub proof fn law_detector_timing<S>(frame: Seq<S>, sample_rate: u32, over: bool, loud: bool)
    ensures
        ({
            let v = noted(initial::<S>(), frame, sample_rate, over, loud).vad;
            &&& v is Some
            &&& v->0.sample_rate == sample_rate
            &&& v->0.cfg.min_speech_ms == 160
            &&& v->0.cfg.endpoint_silence_ms == 350
            &&& v->0.cfg.frame_ms == 40
            &&& v->0.cfg.pre_roll_ms == 600
            &&& v->0.state == VadState::Listening
        }),
        25 * chunk_len(sample_rate) <= sample_rate < 25 * chunk_len(sample_rate) + 25,
{
}

/// The detector is deaf while the user has muted the microphone, and while
/// JARVIS speaks unless the user speaks over it; else it hears. Being deaf it
/// forgets what it was hearing.
pub proof fn law_when_the_detector_hears<S>(
    m: PipelineModel<S>,
    frame: Seq<S>,
    muted_by_user: bool,
    tts_playing: bool,
    barge_in: bool,
)
    requires
        m.vad is Some,
    ensures
        ({
            let t = taken(m, frame, is_deaf(muted_by_user, tts_playing, barge_in)).vad;
            &&& t is Some
            &&& muted_by_user ==> t->0.muted
            &&& !muted_by_user && tts_playing && !barge_in ==> t->0.muted
            &&& !muted_by_user && !tts_playing ==> !t->0.muted
            &&& !muted_by_user && barge_in ==> !t->0.muted
            &&& t->0.muted ==> t->0.state == VadState::Listening && t->0.samples.len() == 0
                && t->0.pre_roll.len() == 0
            &&& !t->0.muted ==> t->0.samples == m.vad->0.samples && t->0.pre_roll
                == m.vad->0.pre_roll && t->0.state == m.vad->0.state
        }),
{
}

/// What the detector finds in a chunk is handed on as it is: a start where it
/// was listening before and hears an utterance now, with what it heard just
/// before for a streaming recogniser, and the utterance when it has ended.
pub proof fn law_findings_are_handed_on<S>(
    m: PipelineModel<S>,
    chunk: Seq<S>,
    voiced: bool,
    streaming: bool,
)
    requires
        m.vad is Some,
    ensures
        ({
            let f = vad::fed(m.vad->0, chunk, voiced);
            let e = chunk_step(m, chunk, voiced, streaming);
            &&& e.onset <==> m.prev == VadState::Listening && f.after.state == VadState::Utterance
            &&& e.in_utterance <==> f.after.state == VadState::Utterance
            &&& e.utterance == f.utterance
            &&& e.onset && streaming ==> e.preroll == f.after.pending && e.after.vad->0.pending
                is None
            &&& !(e.onset && streaming) ==> e.preroll is None && e.after.vad == Some(f.after)
            &&& e.after.vad is Some && e.after.vad->0.samples == f.after.samples
            &&& e.after.prev == f.after.state
            &&& e.after.buffer == m.buffer && e.after.recent == m.recent
        }),
{
}

/// Noise is rejected, and a live stream told to forget it. Speech ends the
/// utterance of a live stream, and is transcribed from its recording where there
/// is none.
pub proof fn law_what_becomes_of_an_utterance(is_speech: bool, stream: Stream, d: Dispatch)
    requires
        call_ensures(dispatch, (is_speech, stream), d),
    ensures
        !is_speech && stream == Stream::Alive ==> d == (Dispatch::Reject { reset_stream: true }),
        !is_speech && stream != Stream::Alive ==> d == (Dispatch::Reject { reset_stream: false }),
        is_speech && stream == Stream::Alive ==> d == Dispatch::EndStream,
        is_speech && stream != Stream::Alive ==> d == Dispatch::Transcribe,
{
}

} // verus!
