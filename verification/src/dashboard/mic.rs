//! The always-on microphone: what state it is in, when an utterance starts and
//! ends, and what the speech gate's verdict leads to.
//!
//! Whether a frame holds voice is decided by the caller from its level, the
//! noise floor and, while JARVIS speaks, the higher bar for interruptions.

use vstd::prelude::*;

use crate::millis;

verus! {

/// What the microphone is doing.
#[derive(Clone, Copy, PartialEq, Eq, Debug, Structural)]
pub enum MicState {
    /// Not listening at all.
    Muted,
    /// Open, no speech detected yet.
    Idle,
    /// Speech detected; accumulating samples.
    Listening,
    /// The utterance has ended and is being recognised.
    Processing,
    /// JARVIS is speaking.
    Speaking,
}

/// Timing of the endpoint detector, in milliseconds.
#[derive(Clone, Copy, Debug, PartialEq, Eq, Structural)]
pub struct VadConfig {
    /// Voice needed before an utterance starts.
    pub min_speech_ms: u32,
    /// Silence after speech that counts as the end of a sentence. 5000 by
    /// default.
    pub endpoint_silence_ms: u32,
    /// How often the detector ticks.
    pub frame_ms: u32,
}

impl Default for VadConfig {
    fn default() -> (c: Self)
        ensures
            c.min_speech_ms == 160,
            c.endpoint_silence_ms == 5000,
            c.frame_ms == 80,
    {
        VadConfig { min_speech_ms: 160, endpoint_silence_ms: 5000, frame_ms: 80 }
    }
}

/// Silences up to this length do not reset a run of voice that has not become
/// an utterance yet.
pub const PRE_UTT_HANGOVER_MS: u32 = 240;

/// The detector and the microphone's state.
pub struct ContinuousMic<S> {
    config: VadConfig,
    samples: Vec<S>,
    voice_run_ms: u32,
    silence_run_ms: u32,
    pre_utt_silence_ms: u32,
    in_utterance: bool,
    state: MicState,
}

/// The state of a microphone.
#[verifier::ext_equal]
pub struct MicModel<S> {
    pub config: VadConfig,
    /// What the utterance in progress holds.
    pub samples: Seq<S>,
    pub voice_run_ms: int,
    pub silence_run_ms: int,
    pub pre_utt_silence_ms: int,
    pub in_utterance: bool,
    pub state: MicState,
}

impl<S> View for ContinuousMic<S> {
    type V = MicModel<S>;

    closed spec fn view(&self) -> MicModel<S> {
        MicModel {
            config: self.config,
            samples: self.samples@,
            voice_run_ms: self.voice_run_ms as int,
            silence_run_ms: self.silence_run_ms as int,
            pre_utt_silence_ms: self.pre_utt_silence_ms as int,
            in_utterance: self.in_utterance,
            state: self.state,
        }
    }
}

/// How an utterance started.
#[derive(Clone, Copy, PartialEq, Eq, Debug, Structural)]
pub enum Onset {
    /// The user spoke first.
    Spoke,
    /// The user spoke while JARVIS did.
    BargeIn,
}

/// What a tick reports.
pub struct Tick<S> {
    pub onset: Option<Onset>,
    /// The utterance that has just ended, for the speech gate.
    pub utterance: Option<Vec<S>>,
}

/// Whether the microphone looks at the audio at all.
pub open spec fn listens(s: MicState) -> bool {
    s != MicState::Muted && s != MicState::Processing
}

/// `m` with its runs of voice and silence brought up to date.
pub open spec fn heard<S>(m: MicModel<S>, voiced: bool) -> MicModel<S> {
    let ms = m.config.frame_ms as int;
    if voiced {
        MicModel {
            voice_run_ms: millis::sat(m.voice_run_ms, ms),
            silence_run_ms: 0,
            pre_utt_silence_ms: 0,
            ..m
        }
    } else if m.in_utterance {
        MicModel { silence_run_ms: millis::sat(m.silence_run_ms, ms), ..m }
    } else if millis::sat(m.pre_utt_silence_ms, ms) > PRE_UTT_HANGOVER_MS {
        MicModel { voice_run_ms: 0, pre_utt_silence_ms: 0, ..m }
    } else {
        MicModel { pre_utt_silence_ms: millis::sat(m.pre_utt_silence_ms, ms), ..m }
    }
}

/// Whether an utterance starts now that the runs are up to date.
pub open spec fn starts<S>(m: MicModel<S>) -> bool {
    !m.in_utterance && m.voice_run_ms >= m.config.min_speech_ms
}

/// `m` after the start of an utterance, if one starts, with the frame added to
/// the utterance in progress.
pub open spec fn gathered<S>(m: MicModel<S>, frame: Seq<S>) -> MicModel<S> {
    let m = if starts(m) {
        MicModel { in_utterance: true, state: MicState::Listening, ..m }
    } else {
        m
    };
    if m.in_utterance {
        MicModel { samples: m.samples + frame, ..m }
    } else {
        m
    }
}

/// Whether the utterance in progress has ended.
pub open spec fn ends<S>(m: MicModel<S>) -> bool {
    m.in_utterance && m.silence_run_ms >= m.config.endpoint_silence_ms
}

/// `m` after the end of its utterance.
pub open spec fn ended<S>(m: MicModel<S>) -> MicModel<S> {
    MicModel {
        state: MicState::Processing,
        samples: Seq::empty(),
        voice_run_ms: 0,
        silence_run_ms: 0,
        in_utterance: false,
        ..m
    }
}

/// The state after a tick that heard `frame`.
pub open spec fn ticked<S>(m: MicModel<S>, frame: Seq<S>, voiced: bool) -> MicModel<S> {
    if !listens(m.state) {
        m
    } else {
        let g = gathered(heard(m, voiced), frame);
        if ends(g) {
            ended(g)
        } else {
            g
        }
    }
}

/// What a tick reports of the start of an utterance.
pub open spec fn onset_of<S>(m: MicModel<S>, voiced: bool) -> Option<Onset> {
    if listens(m.state) && starts(heard(m, voiced)) {
        if m.state == MicState::Speaking {
            Some(Onset::BargeIn)
        } else {
            Some(Onset::Spoke)
        }
    } else {
        None
    }
}

/// The utterance that a tick closes.
pub open spec fn utterance_of<S>(m: MicModel<S>, frame: Seq<S>, voiced: bool) -> Option<Seq<S>> {
    let g = gathered(heard(m, voiced), frame);
    if listens(m.state) && ends(g) {
        Some(g.samples)
    } else {
        None
    }
}

/// `m` with the utterance in progress dropped.
pub open spec fn dropped<S>(m: MicModel<S>, state: MicState) -> MicModel<S> {
    MicModel { samples: Seq::empty(), in_utterance: false, state, ..m }
}

impl<S: Copy> ContinuousMic<S> {
    /// A microphone that has just been opened.
    pub fn start(config: VadConfig) -> (m: Self)
        ensures
            m@ == (MicModel::<S> {
                config,
                samples: Seq::empty(),
                voice_run_ms: 0,
                silence_run_ms: 0,
                pre_utt_silence_ms: 0,
                in_utterance: false,
                state: MicState::Idle,
            }),
    {
        ContinuousMic {
            config,
            samples: Vec::new(),
            voice_run_ms: 0,
            silence_run_ms: 0,
            pre_utt_silence_ms: 0,
            in_utterance: false,
            state: MicState::Idle,
        }
    }

    /// What the microphone is doing.
    pub fn state(&self) -> (s: MicState)
        ensures
            s == self@.state,
    {
        self.state
    }

    /// Whether an utterance is in progress.
    pub fn in_utterance(&self) -> (r: bool)
        ensures
            r == self@.in_utterance,
    {
        self.in_utterance
    }

    /// Whether the next tick looks at the audio.
    pub fn is_listening(&self) -> (r: bool)
        ensures
            r == listens(self@.state),
    {
        self.state != MicState::Muted && self.state != MicState::Processing
    }

    /// One tick of the detector.
    pub fn tick(&mut self, frame: &[S], voiced: bool) -> (t: Tick<S>)
        ensures
            final(self)@ == ticked(old(self)@, frame@, voiced),
            t.onset == onset_of(old(self)@, voiced),
            t.utterance is Some <==> utterance_of(old(self)@, frame@, voiced) is Some,
            t.utterance matches Some(u) ==> u@ == utterance_of(old(self)@, frame@, voiced)->0,
    {
        if !self.is_listening() {
            return Tick { onset: None, utterance: None };
        }
        let state = self.state;
        if voiced {
            self.voice_run_ms = self.voice_run_ms.saturating_add(self.config.frame_ms);
            self.silence_run_ms = 0;
            self.pre_utt_silence_ms = 0;
        } else if self.in_utterance {
            self.silence_run_ms = self.silence_run_ms.saturating_add(self.config.frame_ms);
        } else {
            self.pre_utt_silence_ms = self.pre_utt_silence_ms.saturating_add(self.config.frame_ms);
            if self.pre_utt_silence_ms > PRE_UTT_HANGOVER_MS {
                self.voice_run_ms = 0;
                self.pre_utt_silence_ms = 0;
            }
        }
        assert(self@ =~= heard(old(self)@, voiced));
        let ghost h = self@;
        let mut onset: Option<Onset> = None;
        if !self.in_utterance && self.voice_run_ms >= self.config.min_speech_ms {
            self.in_utterance = true;
            onset = if state == MicState::Speaking {
                Some(Onset::BargeIn)
            } else {
                Some(Onset::Spoke)
            };
            self.state = MicState::Listening;
        }
        if self.in_utterance {
            let mut i: usize = 0;
            let ghost base = self@;
            assert(base.samples + frame@.take(0) =~= base.samples);
            while i < frame.len()
                invariant
                    i <= frame@.len(),
                    self@ == (MicModel { samples: base.samples + frame@.take(i as int), ..base }),
                decreases frame@.len() - i,
            {
                self.samples.push(frame[i]);
                assert(frame@.take(i + 1) =~= frame@.take(i as int).push(frame@[i as int]));
                assert(self@ =~= MicModel { samples: base.samples + frame@.take(i + 1), ..base });
                i += 1;
            }
            assert(frame@.take(i as int) =~= frame@);
        }
        assert(self@ =~= gathered(h, frame@));
        let mut utterance: Option<Vec<S>> = None;
        if self.in_utterance && self.silence_run_ms >= self.config.endpoint_silence_ms {
            self.state = MicState::Processing;
            let mut out: Vec<S> = Vec::new();
            std::mem::swap(&mut out, &mut self.samples);
            self.voice_run_ms = 0;
            self.silence_run_ms = 0;
            self.in_utterance = false;
            utterance = Some(out);
        }
        assert(self@ =~= ticked(old(self)@, frame@, voiced));
        Tick { onset, utterance }
    }

    /// What the speech gate said of the utterance. Returns whether it goes on
    /// to recognition; if not, the microphone listens again.
    pub fn judge(&mut self, is_speech: bool) -> (accepted: bool)
        ensures
            accepted == is_speech,
            final(self)@ == if is_speech {
                old(self)@
            } else {
                MicModel { state: MicState::Idle, ..old(self)@ }
            },
    {
        if !is_speech {
            self.state = MicState::Idle;
        }
        is_speech
    }

    /// Mutes, which drops the utterance in progress, or unmutes.
    pub fn set_muted(&mut self, muted: bool)
        ensures
            final(self)@ == if muted {
                dropped(old(self)@, MicState::Muted)
            } else {
                MicModel { state: MicState::Idle, ..old(self)@ }
            },
    {
        if muted {
            self.samples = Vec::new();
            self.in_utterance = false;
            self.state = MicState::Muted;
        } else {
            self.state = MicState::Idle;
        }
        assert(self@ =~= if muted {
            dropped(old(self)@, MicState::Muted)
        } else {
            MicModel { state: MicState::Idle, ..old(self)@ }
        });
    }

    /// JARVIS starts speaking, which drops the utterance in progress, or stops.
    pub fn set_speaking(&mut self, speaking: bool)
        ensures
            final(self)@ == if speaking {
                dropped(old(self)@, MicState::Speaking)
            } else if old(self)@.state == MicState::Speaking {
                MicModel { state: MicState::Idle, ..old(self)@ }
            } else {
                old(self)@
            },
    {
        if speaking {
            self.samples = Vec::new();
            self.in_utterance = false;
            self.state = MicState::Speaking;
        } else if self.state == MicState::Speaking {
            self.state = MicState::Idle;
        }
        assert(self@ =~= if speaking {
            dropped(old(self)@, MicState::Speaking)
        } else if old(self)@.state == MicState::Speaking {
            MicModel { state: MicState::Idle, ..old(self)@ }
        } else {
            old(self)@
        });
    }

    /// Recognition is done: listen again.
    pub fn return_to_idle(&mut self)
        ensures
            final(self)@ == if old(self)@.state == MicState::Processing {
                MicModel { state: MicState::Idle, ..old(self)@ }
            } else {
                old(self)@
            },
    {
        if self.state == MicState::Processing {
            self.state = MicState::Idle;
        }
    }

    /// Stops listening entirely.
    pub fn close(&mut self)
        ensures
            final(self)@ == (MicModel { state: MicState::Muted, ..old(self)@ }),
    {
        self.state = MicState::Muted;
    }
}

/// A muted microphone, and one whose utterance is being recognised, hear
/// nothing: no frame changes them or reports anything.
pub proof fn law_deaf_microphone<S>(m: MicModel<S>, frame: Seq<S>, voiced: bool)
    requires
        m.state == MicState::Muted || m.state == MicState::Processing,
    ensures
        ticked(m, frame, voiced) == m,
        onset_of(m, voiced) is None,
        utterance_of(m, frame, voiced) is None,
{
}

/// An interruption is reported exactly when an utterance starts while JARVIS
/// is speaking, and the microphone then listens or, with no silence to wait
/// for, has already finished.
pub proof fn law_barge_in_only_while_speaking<S>(m: MicModel<S>, frame: Seq<S>, voiced: bool)
    ensures
        onset_of(m, voiced) == Some(Onset::BargeIn) ==> m.state == MicState::Speaking,
        onset_of(m, voiced) is Some ==> ticked(m, frame, voiced).state == MicState::Listening
            || ticked(m, frame, voiced).state == MicState::Processing,
{
}

/// An utterance that ends holds what it held before the last frame and then
/// that frame, and leaves nothing behind.
pub proof fn law_utterance_is_complete<S>(m: MicModel<S>, frame: Seq<S>)
    requires
        listens(m.state),
        m.in_utterance,
        m.silence_run_ms + m.config.frame_ms >= m.config.endpoint_silence_ms,
    ensures
        utterance_of(m, frame, false) == Some(m.samples + frame),
        ticked(m, frame, false).samples.len() == 0,
        ticked(m, frame, false).state == MicState::Processing,
        !ticked(m, frame, false).in_utterance,
{
}

/// Every frame of an utterance in progress is kept, in order: one with voice
/// starts the silence anew, one without adds to it, and only silence as long as
/// the configured one ends the utterance.
pub proof fn law_utterance_holds_every_frame<S>(m: MicModel<S>, frame: Seq<S>, voiced: bool)
    requires
        m.state != MicState::Muted && m.state != MicState::Processing,
        m.in_utterance,
        0 < m.config.endpoint_silence_ms,
        0 <= m.silence_run_ms,
        m.silence_run_ms + m.config.frame_ms < m.config.endpoint_silence_ms || voiced,
    ensures
        ({
            let t = ticked(m, frame, voiced);
            &&& t.samples == m.samples + frame
            &&& t.in_utterance
            &&& t.state == m.state
            &&& voiced ==> t.silence_run_ms == 0
            &&& !voiced ==> t.silence_run_ms == m.silence_run_ms + m.config.frame_ms
            &&& utterance_of(m, frame, voiced) is None
            &&& onset_of(m, voiced) is None
        }),
{
}

/// An utterance starts with the frame that makes the voice as long as the
/// configured one, holds that frame, and is reported as an interruption while
/// JARVIS speaks; before that the voice is counted and nothing is kept.
pub proof fn law_voice_starts_an_utterance<S>(m: MicModel<S>, frame: Seq<S>)
    requires
        m.state != MicState::Muted && m.state != MicState::Processing,
        !m.in_utterance,
        0 < m.config.endpoint_silence_ms,
        0 <= m.voice_run_ms,
        m.voice_run_ms + m.config.frame_ms <= u32::MAX,
    ensures
        ({
            let t = ticked(m, frame, true);
            let long = m.voice_run_ms + m.config.frame_ms >= m.config.min_speech_ms;
            &&& t.voice_run_ms == m.voice_run_ms + m.config.frame_ms
            &&& long ==> t.in_utterance && t.state == MicState::Listening && t.samples == m.samples
                + frame
            &&& long && m.state == MicState::Speaking ==> onset_of(m, true) == Some(Onset::BargeIn)
            &&& long && m.state != MicState::Speaking ==> onset_of(m, true) == Some(Onset::Spoke)
            &&& !long ==> !t.in_utterance && t.state == m.state && t.samples == m.samples
                && onset_of(m, true) is None
            &&& utterance_of(m, frame, true) is None
        }),
{
}

/// Before an utterance a pause of up to 240 milliseconds is bridged: the voice
/// so far still counts. After a longer one it is counted anew.
pub proof fn law_short_pauses_are_bridged<S>(m: MicModel<S>, frame: Seq<S>)
    requires
        m.state != MicState::Muted && m.state != MicState::Processing,
        !m.in_utterance,
        0 <= m.voice_run_ms < m.config.min_speech_ms,
        0 <= m.pre_utt_silence_ms,
        m.pre_utt_silence_ms + m.config.frame_ms <= u32::MAX,
    ensures
        ({
            let t = ticked(m, frame, false);
            &&& m.pre_utt_silence_ms + m.config.frame_ms <= 240 ==> t.voice_run_ms
                == m.voice_run_ms && t.pre_utt_silence_ms == m.pre_utt_silence_ms
                + m.config.frame_ms
            &&& m.pre_utt_silence_ms + m.config.frame_ms > 240 ==> t.voice_run_ms == 0
                && t.pre_utt_silence_ms == 0
            &&& !t.in_utterance && t.samples == m.samples && t.state == m.state
            &&& utterance_of(m, frame, false) is None
        }),
{
}

/// Dropping an utterance leaves nothing of it, and changes nothing but the state.
pub proof fn law_dropping_leaves_nothing<S>(m: MicModel<S>, state: MicState)
    ensures
        ({
            let d = dropped(m, state);
            &&& d.samples.len() == 0
            &&& !d.in_utterance
            &&& d.state == state
            &&& d.config == m.config
        }),
{
}

} // verus!
