//! The controller's decision logic: the per-command response deadline, and
//! the single-in-flight discipline of the one worker that owns the bus.
//!
//! The hardware accepts one outstanding command at a time.  The worker
//! claims the bus through a [`Worker`] guard before every transmission and
//! releases it only when the in-flight command was resolved, by a matched
//! response or by its timeout; [`lemma_single_in_flight`] shows that every
//! trace this discipline allows has a resolution between any two sends.

use vstd::prelude::*;

use crate::protocol::encoder::{CommandModel, Commands};

verus! {

// ---------------------------------------------------------------------------
// Response deadlines
// ---------------------------------------------------------------------------

/// The response deadline of a command in milliseconds: a hail waits longest
/// (the whole bus may answer), scene activation waits for a slow ramp, and
/// everything else uses the configured default.
pub open spec fn spec_command_timeout(c: CommandModel, default_ms: u64) -> u64 {
    match c {
        CommandModel::Hail => 5000,
        CommandModel::ActivateScene(_) => 3000,
        CommandModel::DeactivateScene(_) => 3000,
        _ => default_ms,
    }
}

/// The deadline the worker races the response wait against: 5000 ms for a
/// hail, 3000 ms for scene activation or deactivation, `default_ms` for
/// every other command.
pub fn command_timeout(command: &Commands, default_ms: u64) -> (r: u64)
    ensures
        r == spec_command_timeout(command@, default_ms),
{
    match command {
        Commands::Hail => 5000,
        Commands::ActivateScene(_) => 3000,
        Commands::DeactivateScene(_) => 3000,
        _ => default_ms,
    }
}

// ---------------------------------------------------------------------------
// The single-in-flight discipline
// ---------------------------------------------------------------------------

/// The worker's view of the bus: free, or one command awaiting resolution.
#[derive(Debug, PartialEq, Eq, Structural, Clone, Copy)]
pub enum WorkerPhase {
    Idle,
    InFlight,
}

/// What one step of the worker does with the bus: transmit a command, or
/// resolve the in-flight one (by a matched response or by its timeout).
#[derive(Debug, PartialEq, Eq, Structural, Clone, Copy)]
pub enum BusEvent {
    Send,
    Resolve,
}

/// The bus phase after one event: a send puts a command in flight, a
/// resolution frees the bus.
pub open spec fn phase_after(p: WorkerPhase, e: BusEvent) -> WorkerPhase {
    match e {
        BusEvent::Send => WorkerPhase::InFlight,
        BusEvent::Resolve => WorkerPhase::Idle,
    }
}

/// The bus phase after the first `k` events of `trace`, starting from `p`.
pub open spec fn phase_at(p: WorkerPhase, trace: Seq<BusEvent>, k: int) -> WorkerPhase
    decreases k,
{
    if k <= 0 {
        p
    } else {
        phase_after(phase_at(p, trace, k - 1), trace[k - 1])
    }
}

/// Whether `trace` is a run the worker discipline allows from phase `p`:
/// every send happens with the bus free.
pub open spec fn serialized_from(p: WorkerPhase, trace: Seq<BusEvent>) -> bool {
    forall|k: int| 0 <= k < trace.len() && trace[k] is Send ==> phase_at(p, trace, k) is Idle
}

/// Once a send is in flight, the bus stays occupied until some resolution.
proof fn lemma_phase_stays_in_flight(p: WorkerPhase, trace: Seq<BusEvent>, i: int, k: int)
    requires
        0 <= i < trace.len(),
        trace[i] is Send,
        i < k <= trace.len(),
        forall|m: int| i < m < k ==> !(#[trigger] trace[m] is Resolve),
    ensures
        phase_at(p, trace, k) is InFlight,
    decreases k - i,
{
    if k == i + 1 {
        assert(phase_at(p, trace, k) == phase_after(phase_at(p, trace, i), trace[i]));
    } else {
        lemma_phase_stays_in_flight(p, trace, i, k - 1);
        assert(trace[k - 1] is Send);
        assert(phase_at(p, trace, k) == phase_after(phase_at(p, trace, k - 1), trace[k - 1]));
    }
}

/// Law: in every trace the worker discipline allows, at most one command is
/// in flight — between any two transmissions lies a resolution of the
/// earlier one.
pub proof fn lemma_single_in_flight(p: WorkerPhase, trace: Seq<BusEvent>, i: int, j: int)
    requires
        serialized_from(p, trace),
        0 <= i < j < trace.len(),
        trace[i] is Send,
        trace[j] is Send,
    ensures
        exists|k: int| i < k < j && (#[trigger] trace[k]) is Resolve,
{
    if !(exists|k: int| i < k < j && (#[trigger] trace[k]) is Resolve) {
        assert(forall|m: int| i < m < j ==> !(#[trigger] trace[m] is Resolve));
        lemma_phase_stays_in_flight(p, trace, i, j);
        assert(phase_at(p, trace, j) is Idle);
        assert(false);
    }
}

/// The in-flight guard the worker holds.  The worker asks it before every
/// transmission and tells it of every resolution; because only sends that
/// the guard grants go on the wire, the wire sees a serialized trace.
pub struct Worker {
    phase: WorkerPhase,
}

impl Worker {
    /// The guard's current phase.
    pub closed spec fn spec_phase(&self) -> WorkerPhase {
        self.phase
    }

    /// A guard with nothing in flight.
    pub fn new() -> (r: Self)
        ensures
            r.spec_phase() is Idle,
    {
        Worker { phase: WorkerPhase::Idle }
    }

    /// Claim the bus for one transmission; granted exactly when nothing is
    /// in flight, and the bus counts as occupied from then on.
    pub fn begin_send(&mut self) -> (r: bool)
        ensures
            r == (old(self).spec_phase() is Idle),
            final(self).spec_phase() == if r {
                WorkerPhase::InFlight
            } else {
                old(self).spec_phase()
            },
    {
        match self.phase {
            WorkerPhase::Idle => {
                self.phase = WorkerPhase::InFlight;
                true
            },
            WorkerPhase::InFlight => false,
        }
    }

    /// The in-flight command was resolved — matched or timed out; the bus
    /// is free again.
    pub fn resolve(&mut self)
        ensures
            final(self).spec_phase() is Idle,
    {
        self.phase = WorkerPhase::Idle;
    }
}

} // verus!
