//! The pipeline lifecycle as a state machine.
//!
//! `Idle → Connecting → Streaming → Draining → Closed` on an orderly
//! shutdown, or `Streaming → Closed` when the stream ends or fails. There is
//! no reconnect transition: a closed pipeline stays closed.

use vstd::prelude::*;

verus! {

/// Where the pipeline stands.
#[derive(Clone, Copy, PartialEq, Eq, Structural, Debug)]
pub enum Phase {
    Idle,
    Connecting,
    Streaming,
    Draining,
    Closed,
}

/// What the outside world reports to the lifecycle.
#[derive(Clone, Copy, PartialEq, Eq, Structural, Debug)]
pub enum PhaseEvent {
    /// The session was asked to start.
    StartRequested,
    /// The streaming connection is open and delivering.
    StreamOpened,
    /// An interrupt or termination request arrived.
    ShutdownSignal,
    /// The relay is drained after a shutdown signal.
    RelayDrained,
    /// The stream closed or failed; also a failed connection attempt.
    StreamEnded,
}

/// The transition relation of the lifecycle: every pair not listed leaves
/// the phase unchanged, and nothing leaves `Closed`.
pub open spec fn step_spec(phase: Phase, event: PhaseEvent) -> Phase {
    match (phase, event) {
        (Phase::Idle, PhaseEvent::StartRequested) => Phase::Connecting,
        (Phase::Connecting, PhaseEvent::StreamOpened) => Phase::Streaming,
        (Phase::Connecting, PhaseEvent::StreamEnded) => Phase::Closed,
        (Phase::Streaming, PhaseEvent::ShutdownSignal) => Phase::Draining,
        (Phase::Streaming, PhaseEvent::StreamEnded) => Phase::Closed,
        (Phase::Draining, PhaseEvent::RelayDrained) => Phase::Closed,
        (_, _) => phase,
    }
}

impl Phase {
    /// Advances the lifecycle by one observed event.
    pub fn step(self, event: PhaseEvent) -> (r: Phase)
        ensures
            r == step_spec(self, event),
    {
        match (self, event) {
            (Phase::Idle, PhaseEvent::StartRequested) => Phase::Connecting,
            (Phase::Connecting, PhaseEvent::StreamOpened) => Phase::Streaming,
            (Phase::Connecting, PhaseEvent::StreamEnded) => Phase::Closed,
            (Phase::Streaming, PhaseEvent::ShutdownSignal) => Phase::Draining,
            (Phase::Streaming, PhaseEvent::StreamEnded) => Phase::Closed,
            (Phase::Draining, PhaseEvent::RelayDrained) => Phase::Closed,
            (_, _) => self,
        }
    }
}

/// No reconnect: no event moves a closed pipeline anywhere.
pub proof fn lemma_closed_is_final(event: PhaseEvent)
    ensures
        step_spec(Phase::Closed, event) == Phase::Closed,
{
}

} // verus!
