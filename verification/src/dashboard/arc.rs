//! The arc reactor: the state that it shows, and how it shows it.

use vstd::prelude::*;

verus! {

/// What JARVIS is doing.
#[derive(Clone, Copy, PartialEq, Eq, Debug, Structural)]
pub enum ArcState {
    Idle,
    Listening,
    Thinking,
    Speaking,
    Error,
}

impl ArcState {
    /// The animation of the outer ring.
    pub fn outer_class(self) -> (s: &'static str)
        ensures
            s@ == match self {
                ArcState::Idle => "animate-arc-spin"@,
                ArcState::Listening => "animate-arc-spin-fast"@,
                ArcState::Thinking => "animate-arc-spin-fast"@,
                ArcState::Speaking => "animate-arc-spin"@,
                ArcState::Error => "animate-arc-spin"@,
            },
    {
        match self {
            ArcState::Idle => "animate-arc-spin",
            ArcState::Listening => "animate-arc-spin-fast",
            ArcState::Thinking => "animate-arc-spin-fast",
            ArcState::Speaking => "animate-arc-spin",
            ArcState::Error => "animate-arc-spin",
        }
    }

    /// The animation of the halo.
    pub fn inner_pulse_class(self) -> (s: &'static str)
        ensures
            s@ == match self {
                ArcState::Idle => "animate-arc-pulse"@,
                ArcState::Listening => "animate-arc-pulse-fast"@,
                ArcState::Thinking => "animate-arc-pulse-fast"@,
                ArcState::Speaking => "animate-arc-pulse"@,
                ArcState::Error => ""@,
            },
    {
        match self {
            ArcState::Idle => "animate-arc-pulse",
            ArcState::Listening => "animate-arc-pulse-fast",
            ArcState::Thinking => "animate-arc-pulse-fast",
            ArcState::Speaking => "animate-arc-pulse",
            ArcState::Error => "",
        }
    }

    /// The colour of the rings: cyan while healthy, amber on a fault.
    pub fn ring_stroke(self) -> (s: &'static str)
        ensures
            s@ == match self {
                ArcState::Idle => "#0e7490"@,
                ArcState::Listening => "#22d3ee"@,
                ArcState::Thinking => "#22d3ee"@,
                ArcState::Speaking => "#67e8f9"@,
                ArcState::Error => "#f59e0b"@,
            },
    {
        match self {
            ArcState::Idle => "#0e7490",
            ArcState::Listening => "#22d3ee",
            ArcState::Thinking => "#22d3ee",
            ArcState::Speaking => "#67e8f9",
            ArcState::Error => "#f59e0b",
        }
    }

    /// The colour of the core.
    pub fn core_fill(self) -> (s: &'static str)
        ensures
            s@ == match self {
                ArcState::Error => "rgba(245, 158, 11, 0.18)"@,
                _ => "rgba(34, 211, 238, 0.18)"@,
            },
    {
        match self {
            ArcState::Error => "rgba(245, 158, 11, 0.18)",
            _ => "rgba(34, 211, 238, 0.18)",
        }
    }

    /// The colour of the glow outside the halo.
    pub fn outer_halo(self) -> (s: &'static str)
        ensures
            s@ == match self {
                ArcState::Error => "rgba(245, 158, 11, 0.35)"@,
                _ => "rgba(34, 211, 238, 0.35)"@,
            },
    {
        match self {
            ArcState::Error => "rgba(245, 158, 11, 0.35)",
            _ => "rgba(34, 211, 238, 0.35)",
        }
    }

    /// The colour of the glow inside the halo.
    pub fn inner_halo(self) -> (s: &'static str)
        ensures
            s@ == match self {
                ArcState::Error => "rgba(245, 158, 11, 0.25)"@,
                _ => "rgba(34, 211, 238, 0.25)"@,
            },
    {
        match self {
            ArcState::Error => "rgba(245, 158, 11, 0.25)",
            _ => "rgba(34, 211, 238, 0.25)",
        }
    }

    /// The classes of the button for this state.
    pub fn button_class(self) -> (s: &'static str)
        ensures
            s@ == match self {
                ArcState::Listening => "bg-arc-500/30 text-arc-100 ring-2 ring-arc-300 cursor-pointer"@,
                ArcState::Error => "bg-amber-500/15 text-amber-200 ring-2 ring-amber-400/60 cursor-pointer"@,
                _ => "bg-arc-900/40 text-arc-300 ring-1 ring-arc-700 hover:bg-arc-800/50 cursor-pointer"@,
            },
    {
        match self {
            ArcState::Listening => "bg-arc-500/30 text-arc-100 ring-2 ring-arc-300 cursor-pointer",
            ArcState::Error => "bg-amber-500/15 text-amber-200 ring-2 ring-amber-400/60 cursor-pointer",
            _ => "bg-arc-900/40 text-arc-300 ring-1 ring-arc-700 hover:bg-arc-800/50 cursor-pointer",
        }
    }

    /// What the button shows.
    pub fn icon(self) -> (s: &'static str)
        ensures
            s@ == match self {
                ArcState::Listening => "■"@,
                _ => "🎙"@,
            },
    {
        match self {
            ArcState::Listening => "■",
            _ => "🎙",
        }
    }

    /// The banner above the reactor.
    pub fn label(self) -> (s: &'static str)
        ensures
            s@ == match self {
                ArcState::Idle => "STANDBY"@,
                ArcState::Listening => "LISTENING"@,
                ArcState::Thinking => "THINKING"@,
                ArcState::Speaking => "SPEAKING"@,
                ArcState::Error => "ERROR"@,
            },
    {
        match self {
            ArcState::Idle => "STANDBY",
            ArcState::Listening => "LISTENING",
            ArcState::Thinking => "THINKING",
            ArcState::Speaking => "SPEAKING",
            ArcState::Error => "ERROR",
        }
    }

    /// The label above the transcript.
    pub fn transcript_label(self) -> (s: &'static str)
        ensures
            s@ == match self {
                ArcState::Idle => "standby"@,
                ArcState::Listening => "listening"@,
                ArcState::Thinking => "thinking"@,
                ArcState::Speaking => "speaking"@,
                ArcState::Error => "error"@,
            },
    {
        match self {
            ArcState::Idle => "standby",
            ArcState::Listening => "listening",
            ArcState::Thinking => "thinking",
            ArcState::Speaking => "speaking",
            ArcState::Error => "error",
        }
    }

    /// The animation of the middle ring, in every state the same.
    pub fn middle_class(self) -> (s: &'static str)
        ensures
            s@ == "animate-arc-spin-rev"@,
    {
        "animate-arc-spin-rev"
    }
}

/// The reactor turns and pulses fast while it listens or thinks, does not pulse
/// on a fault, and says what it is doing.
pub proof fn law_reactor_shows_its_state(
    s: ArcState,
    spin: &'static str,
    pulse: &'static str,
    ring: &'static str,
    label: &'static str,
    small: &'static str,
)
    requires
        call_ensures(ArcState::outer_class, (s,), spin),
        call_ensures(ArcState::inner_pulse_class, (s,), pulse),
        call_ensures(ArcState::ring_stroke, (s,), ring),
        call_ensures(ArcState::label, (s,), label),
        call_ensures(ArcState::transcript_label, (s,), small),
    ensures
        s == ArcState::Idle ==> spin@ == "animate-arc-spin"@,
        s == ArcState::Listening ==> spin@ == "animate-arc-spin-fast"@,
        s == ArcState::Thinking ==> spin@ == "animate-arc-spin-fast"@,
        s == ArcState::Speaking ==> spin@ == "animate-arc-spin"@,
        s == ArcState::Error ==> spin@ == "animate-arc-spin"@,
        s == ArcState::Idle ==> pulse@ == "animate-arc-pulse"@,
        s == ArcState::Listening ==> pulse@ == "animate-arc-pulse-fast"@,
        s == ArcState::Thinking ==> pulse@ == "animate-arc-pulse-fast"@,
        s == ArcState::Speaking ==> pulse@ == "animate-arc-pulse"@,
        s == ArcState::Error ==> pulse@ == ""@,
        s == ArcState::Idle ==> ring@ == "#0e7490"@,
        s == ArcState::Listening ==> ring@ == "#22d3ee"@,
        s == ArcState::Thinking ==> ring@ == "#22d3ee"@,
        s == ArcState::Speaking ==> ring@ == "#67e8f9"@,
        s == ArcState::Error ==> ring@ == "#f59e0b"@,
        s == ArcState::Idle ==> label@ == "STANDBY"@,
        s == ArcState::Listening ==> label@ == "LISTENING"@,
        s == ArcState::Thinking ==> label@ == "THINKING"@,
        s == ArcState::Speaking ==> label@ == "SPEAKING"@,
        s == ArcState::Error ==> label@ == "ERROR"@,
        s == ArcState::Idle ==> small@ == "standby"@,
        s == ArcState::Listening ==> small@ == "listening"@,
        s == ArcState::Thinking ==> small@ == "thinking"@,
        s == ArcState::Speaking ==> small@ == "speaking"@,
        s == ArcState::Error ==> small@ == "error"@,
{
}

/// A fault is amber, and everything else cyan.
pub proof fn law_faults_are_amber(
    s: ArcState,
    core: &'static str,
    outer: &'static str,
    inner: &'static str,
)
    requires
        call_ensures(ArcState::core_fill, (s,), core),
        call_ensures(ArcState::outer_halo, (s,), outer),
        call_ensures(ArcState::inner_halo, (s,), inner),
    ensures
        s == ArcState::Error ==> core@ == "rgba(245, 158, 11, 0.18)"@ && outer@
            == "rgba(245, 158, 11, 0.35)"@ && inner@ == "rgba(245, 158, 11, 0.25)"@,
        s != ArcState::Error ==> core@ == "rgba(34, 211, 238, 0.18)"@ && outer@
            == "rgba(34, 211, 238, 0.35)"@ && inner@ == "rgba(34, 211, 238, 0.25)"@,
{
}

} // verus!
