use vstd::prelude::*;

verus! {

/// Number of ticks in a sampling run.
pub const TICKS: u32 = 100;

/// Pause between two ticks, in milliseconds.
pub const TICK_MILLIS: u64 = 100;

/// Phase of a sampling run.
#[derive(Clone, Copy, Debug, PartialEq, Eq, Structural)]
pub enum Phase {
    /// Sampling; `tick` ticks are complete.
    Running { tick: u32 },
    /// All ticks are done; every process still tracked is to be reported.
    FinalFlush,
    /// The run ended normally.
    Terminated,
    /// The process table could not be listed; the run ended with no output.
    Aborted,
}

/// What the run does in a phase.
#[derive(Clone, Copy, Debug, PartialEq, Eq, Structural)]
pub enum Action {
    /// List the processes, take in their observations, report those
    /// that exited, then pause for one tick.
    SampleTick,
    /// Report every process still tracked, then emit the completion notice.
    Flush,
    /// Nothing is left to do.
    Stop,
}

impl Phase {
    pub open spec fn wf(self) -> bool {
        match self {
            Phase::Running { tick } => tick < TICKS,
            _ => true,
        }
    }
}

/// The phase that follows `p`; `listed` says whether listing the process
/// table succeeded, which matters only while sampling.
pub open spec fn next_phase_spec(p: Phase, listed: bool) -> Phase {
    match p {
        Phase::Running { tick } => if !listed {
            Phase::Aborted
        } else if tick + 1 < TICKS {
            Phase::Running { tick: (tick + 1) as u32 }
        } else {
            Phase::FinalFlush
        },
        Phase::FinalFlush => Phase::Terminated,
        Phase::Terminated => Phase::Terminated,
        Phase::Aborted => Phase::Aborted,
    }
}

/// The phase after `n` steps from `p` in which every listing succeeded.
pub open spec fn advance(p: Phase, n: nat) -> Phase
    decreases n,
{
    if n == 0 {
        p
    } else {
        next_phase_spec(advance(p, (n - 1) as nat), true)
    }
}

/// The phase a run starts in.
pub fn start() -> (r: Phase)
    ensures
        r == (Phase::Running { tick: 0 }),
        r.wf(),
{
    Phase::Running { tick: 0 }
}

/// The phase that follows `p`.
pub fn next_phase(p: Phase, listed: bool) -> (r: Phase)
    requires
        p.wf(),
    ensures
        r == next_phase_spec(p, listed),
        r.wf(),
{
    match p {
        Phase::Running { tick } => if !listed {
            Phase::Aborted
        } else if tick + 1 < TICKS {
            Phase::Running { tick: tick + 1 }
        } else {
            Phase::FinalFlush
        },
        Phase::FinalFlush => Phase::Terminated,
        Phase::Terminated => Phase::Terminated,
        Phase::Aborted => Phase::Aborted,
    }
}

/// What the run does in phase `p`.
pub fn action_of(p: Phase) -> (r: Action)
    ensures
        r == match p {
            Phase::Running { .. } => Action::SampleTick,
            Phase::FinalFlush => Action::Flush,
            _ => Action::Stop,
        },
{
    match p {
        Phase::Running { .. } => Action::SampleTick,
        Phase::FinalFlush => Action::Flush,
        _ => Action::Stop,
    }
}

/// A run whose listings all succeed samples for exactly `TICKS` ticks and
/// then reaches the final flush.
pub proof fn lemma_run_length(k: nat)
    requires
        k <= TICKS,
    ensures
        k < TICKS ==> advance(Phase::Running { tick: 0 }, k) == (Phase::Running { tick: k as u32 }),
        k == TICKS ==> advance(Phase::Running { tick: 0 }, k) == Phase::FinalFlush,
    decreases k,
{
    if k > 0 {
        lemma_run_length((k - 1) as nat);
    }
}

} // verus!
