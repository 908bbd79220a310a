//! The periodic trigger of the ingestion and aggregation cycle.
//!
//! The loop that drives the cycle waits for two things at once, the timer
//! and the cancellation signal, and handles whichever comes first. A cycle
//! that has started always runs to its end before the loop waits again.

use vstd::prelude::*;

verus! {

/// Where the loop stands.
#[derive(Debug, Clone, Copy, PartialEq, Eq, Structural)]
pub enum LoopState {
    /// Waiting for the timer or the cancellation signal.
    Idle,
    /// A cycle is running.
    Running,
    /// A cycle is running and cancellation was signalled meanwhile.
    Stopping,
    /// The loop has ended.
    Stopped,
}

/// What happened.
#[derive(Debug, Clone, Copy, PartialEq, Eq, Structural)]
pub enum LoopEvent {
    Tick,
    Cancel,
    CycleSucceeded,
    CycleFailed,
}

/// What the loop does next.
#[derive(Debug, Clone, Copy, PartialEq, Eq, Structural)]
pub enum LoopAction {
    /// Start a cycle and wait for its end.
    StartCycle,
    /// Wait for the timer or the cancellation signal.
    Wait,
    /// Log the failure of the cycle, then wait.
    LogFailureAndWait,
    /// Leave the loop.
    Stop,
    /// Nothing: the event changes nothing now.
    Nothing,
}

/// The transition of the loop.
pub open spec fn next_loop_step(state: LoopState, event: LoopEvent) -> (LoopState, LoopAction) {
    match (state, event) {
        (LoopState::Idle, LoopEvent::Tick) => (LoopState::Running, LoopAction::StartCycle),
        (LoopState::Idle, LoopEvent::Cancel) => (LoopState::Stopped, LoopAction::Stop),
        (LoopState::Running, LoopEvent::Cancel) => (LoopState::Stopping, LoopAction::Nothing),
        (LoopState::Running, LoopEvent::CycleSucceeded) => (LoopState::Idle, LoopAction::Wait),
        (LoopState::Running, LoopEvent::CycleFailed) => (
            LoopState::Idle,
            LoopAction::LogFailureAndWait,
        ),
        (LoopState::Stopping, LoopEvent::CycleSucceeded) => (LoopState::Stopped, LoopAction::Stop),
        (LoopState::Stopping, LoopEvent::CycleFailed) => (LoopState::Stopped, LoopAction::Stop),
        (unchanged, _) => (unchanged, LoopAction::Nothing),
    }
}

/// The state after a sequence of events, starting from `state`.
pub open spec fn state_after(state: LoopState, events: Seq<LoopEvent>) -> LoopState
    decreases events.len(),
{
    if events.len() == 0 {
        state
    } else {
        next_loop_step(state_after(state, events.drop_last()), events.last()).0
    }
}

/// Whether a cycle is running in this state.
pub open spec fn cycle_in_flight(state: LoopState) -> bool {
    state == LoopState::Running || state == LoopState::Stopping
}

/// Runs never overlap: a cycle is started only while none is running, and a
/// running cycle is ended by nothing but its own end.
pub proof fn lemma_single_flight(state: LoopState, event: LoopEvent)
    ensures
        next_loop_step(state, event).1 == LoopAction::StartCycle ==> !cycle_in_flight(state),
        cycle_in_flight(state) && event != LoopEvent::CycleSucceeded && event
            != LoopEvent::CycleFailed ==> cycle_in_flight(next_loop_step(state, event).0),
{
}

/// A failed cycle does not end the loop: unless cancellation was signalled,
/// the loop waits for the next tick.
pub proof fn lemma_failure_is_not_fatal(events: Seq<LoopEvent>)
    requires
        forall|i: int| 0 <= i < events.len() ==> events[i] != LoopEvent::Cancel,
    ensures
        state_after(LoopState::Idle, events) != LoopState::Stopped,
        state_after(LoopState::Idle, events) != LoopState::Stopping,
    decreases events.len(),
{
    if events.len() > 0 {
        let shorter = events.drop_last();
        assert forall|i: int| 0 <= i < shorter.len() implies shorter[i] != LoopEvent::Cancel by {
            assert(shorter[i] == events[i]);
        }
        lemma_failure_is_not_fatal(shorter);
    }
}

/// Cancellation during a cycle does not interrupt it: the loop stops only
/// when the end of the cycle is reported.
pub proof fn lemma_cancel_waits_for_cycle(event: LoopEvent)
    ensures
        next_loop_step(LoopState::Running, LoopEvent::Cancel) == (
            LoopState::Stopping,
            LoopAction::Nothing,
        ),
        next_loop_step(LoopState::Stopping, event).1 == LoopAction::Stop <==> (event
            == LoopEvent::CycleSucceeded || event == LoopEvent::CycleFailed),
{
}

/// Advances the loop by one event.
pub fn advance_loop(state: LoopState, event: LoopEvent) -> (step: (LoopState, LoopAction))
    ensures
        step == next_loop_step(state, event),
{
    match (state, event) {
        (LoopState::Idle, LoopEvent::Tick) => (LoopState::Running, LoopAction::StartCycle),
        (LoopState::Idle, LoopEvent::Cancel) => (LoopState::Stopped, LoopAction::Stop),
        (LoopState::Running, LoopEvent::Cancel) => (LoopState::Stopping, LoopAction::Nothing),
        (LoopState::Running, LoopEvent::CycleSucceeded) => (LoopState::Idle, LoopAction::Wait),
        (LoopState::Running, LoopEvent::CycleFailed) => (
            LoopState::Idle,
            LoopAction::LogFailureAndWait,
        ),
        (LoopState::Stopping, LoopEvent::CycleSucceeded) => (LoopState::Stopped, LoopAction::Stop),
        (LoopState::Stopping, LoopEvent::CycleFailed) => (LoopState::Stopped, LoopAction::Stop),
        (unchanged, _) => (unchanged, LoopAction::Nothing),
    }
}

} // verus!
