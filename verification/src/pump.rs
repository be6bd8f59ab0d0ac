//! The event pump: the one thread that waits for the debuggee, and hands
//! what it saw to the controller, one event at a time.
//!
//! The pump is written down as a state machine. The thread that runs it
//! does what the machine answers, and tells it what came of it.

use vstd::prelude::*;

verus! {

/// The signal that a trap raises.
pub const SIGTRAP: i32 = 5;

/// What a wait for the debuggee came back with.
#[derive(Clone, Copy, Debug, PartialEq, Eq, Structural)]
pub enum WaitEvent {
    /// The debuggee was stopped by a signal.
    Stopped { signal: i32 },
    /// The debuggee has exited.
    Exited { code: i32 },
    /// The debuggee was killed by a signal.
    Signaled { signal: i32 },
    /// Any other change of the debuggee's state.
    Other,
    /// The wait failed, with this error number.
    Failed { errno: i32 },
}

/// The state of the pump.
#[derive(Clone, Copy, Debug, PartialEq, Eq, Structural)]
pub enum PumpState {
    /// It waits for the debuggee, or is about to.
    Waiting,
    /// It has seen an event and has not handed it on yet.
    ReadyToPublish(WaitEvent),
    /// It has handed an event on and rests until the controller wakes it.
    Parked,
    /// It has ended, or is about to.
    Dying,
}

/// What the pump is told.
#[derive(Clone, Copy, Debug, PartialEq, Eq, Structural)]
pub enum PumpInput {
    /// The wait came back.
    Waited(WaitEvent),
    /// The mark that the pump is parked was set.
    Marked,
    /// The controller woke the pump; `should_die` is what the pump then saw
    /// of the controller's wish that it end.
    Woken { should_die: bool },
}

/// What the pump does next.
#[derive(Clone, Copy, Debug, PartialEq, Eq, Structural)]
pub enum PumpAction {
    /// Wait for the debuggee.
    Wait,
    /// Set the mark that the pump is parked.
    MarkParked,
    /// Hand the event to the controller, then rest until woken.
    SendAndPark(WaitEvent),
    /// Hand the event to the controller as the last one, and end.
    SendLast(WaitEvent),
    /// End.
    Return,
    /// Nothing: what it was told does not fit its state.
    Ignore,
}

/// The pump's next state and what it does, by its state and what it is
/// told. An exit of the debuggee is handed on as the last event. Any other
/// event is handed on only after the mark was set, so that the controller
/// finds the pump parked when it sees the event. A failed wait ends the pump
/// without an event.
pub open spec fn pump_next(state: PumpState, input: PumpInput) -> (PumpState, PumpAction) {
    match (state, input) {
        (PumpState::Waiting, PumpInput::Waited(WaitEvent::Failed { errno })) => (
            PumpState::Dying,
            PumpAction::Return,
        ),
        (PumpState::Waiting, PumpInput::Waited(WaitEvent::Exited { code })) => (
            PumpState::Dying,
            PumpAction::SendLast(WaitEvent::Exited { code }),
        ),
        (PumpState::Waiting, PumpInput::Waited(event)) => (
            PumpState::ReadyToPublish(event),
            PumpAction::MarkParked,
        ),
        (PumpState::ReadyToPublish(event), PumpInput::Marked) => (
            PumpState::Parked,
            PumpAction::SendAndPark(event),
        ),
        (PumpState::Parked, PumpInput::Woken { should_die }) => if should_die {
            (PumpState::Dying, PumpAction::Return)
        } else {
            (PumpState::Waiting, PumpAction::Wait)
        },
        _ => (state, PumpAction::Ignore),
    }
}

/// The pump of one run.
#[derive(Debug)]
pub struct RunThread {
    /// Where the pump stands.
    pub state: PumpState,
}

impl RunThread {
    /// A pump that is about to wait for the debuggee.
    pub fn new() -> (pump: RunThread)
        ensures
            pump.state == PumpState::Waiting,
    {
        RunThread { state: PumpState::Waiting }
    }

    /// Tells the pump what happened; the answer is what it does next.
    pub fn step(&mut self, input: PumpInput) -> (action: PumpAction)
        ensures
            (final(self).state, action) == pump_next(old(self).state, input),
    {
        let (state, action) = match (self.state, input) {
            (PumpState::Waiting, PumpInput::Waited(WaitEvent::Failed { .. })) => (
                PumpState::Dying,
                PumpAction::Return,
            ),
            (PumpState::Waiting, PumpInput::Waited(WaitEvent::Exited { code })) => (
                PumpState::Dying,
                PumpAction::SendLast(WaitEvent::Exited { code }),
            ),
            (PumpState::Waiting, PumpInput::Waited(event)) => (
                PumpState::ReadyToPublish(event),
                PumpAction::MarkParked,
            ),
            (PumpState::ReadyToPublish(event), PumpInput::Marked) => (
                PumpState::Parked,
                PumpAction::SendAndPark(event),
            ),
            (PumpState::Parked, PumpInput::Woken { should_die }) => {
                if should_die {
                    (PumpState::Dying, PumpAction::Return)
                } else {
                    (PumpState::Waiting, PumpAction::Wait)
                }
            },
            (state, _) => (state, PumpAction::Ignore),
        };
        self.state = state;
        action
    }

    /// Whether the pump has ended or is about to.
    pub fn finished(&self) -> (finished: bool)
        ensures
            finished == (self.state == PumpState::Dying),
    {
        self.state == PumpState::Dying
    }
}

/// The event that an action hands to the controller, if it hands one.
pub open spec fn sent_by(action: PumpAction) -> Option<WaitEvent> {
    match action {
        PumpAction::SendAndPark(event) => Some(event),
        PumpAction::SendLast(event) => Some(event),
        _ => None,
    }
}

/// The pump and the events it has handed on.
pub struct PumpTrace {
    pub state: PumpState,
    pub sent: Seq<WaitEvent>,
}

/// A trace after one more thing was told to the pump.
pub open spec fn trace_step(trace: PumpTrace, input: PumpInput) -> PumpTrace {
    let (state, action) = pump_next(trace.state, input);
    PumpTrace {
        state: state,
        sent: match sent_by(action) {
            Some(event) => trace.sent.push(event),
            None => trace.sent,
        },
    }
}

/// A trace after the debuggee was seen to do one more thing, with a
/// controller that wakes the pump after each event and never asks it to
/// end: the wait comes back, the mark is set, the pump is woken.
pub open spec fn trace_event(trace: PumpTrace, event: WaitEvent) -> PumpTrace {
    trace_step(
        trace_step(trace_step(trace, PumpInput::Waited(event)), PumpInput::Marked),
        PumpInput::Woken { should_die: false },
    )
}

/// The trace of a pump, fresh at first, after the debuggee was seen to do
/// the first `n` of `events`.
pub open spec fn trace_of(events: Seq<WaitEvent>, n: int) -> PumpTrace
    decreases n,
{
    if n <= 0 {
        PumpTrace { state: PumpState::Waiting, sent: Seq::empty() }
    } else {
        trace_event(trace_of(events, n - 1), events[n - 1])
    }
}

/// Whether an event lets the pump go on: it is neither an exit nor a failed
/// wait.
pub open spec fn goes_on(event: WaitEvent) -> bool {
    !(event is Exited) && !(event is Failed)
}

/// As long as the debuggee neither exits nor the wait fails, the pump hands
/// on each event it sees, in the order in which it saw them, and waits
/// again.
pub proof fn lemma_events_in_order(events: Seq<WaitEvent>, n: int)
    requires
        0 <= n <= events.len(),
        forall|i: int| 0 <= i < n ==> goes_on(#[trigger] events[i]),
    ensures
        trace_of(events, n).state == PumpState::Waiting,
        trace_of(events, n).sent == events.take(n),
    decreases n,
{
    if n > 0 {
        lemma_events_in_order(events, n - 1);
        assert(goes_on(events[n - 1]));
        assert(events.take(n - 1).push(events[n - 1]) =~= events.take(n));
    } else {
        assert(events.take(0) =~= Seq::<WaitEvent>::empty());
    }
}

/// The controller sees what the kernel delivered, in the kernel's order:
/// when the debuggee is seen to do `n` things that let the pump go on and
/// then to exit, the pump hands on exactly those `n` events in that order
/// and the exit behind them, and has ended.
pub proof fn law_events_in_kernel_order(events: Seq<WaitEvent>, n: int)
    requires
        0 <= n < events.len(),
        forall|i: int| 0 <= i < n ==> goes_on(#[trigger] events[i]),
        events[n] is Exited,
    ensures
        trace_of(events, n + 1).sent == events.take(n + 1),
        trace_of(events, n + 1).state == PumpState::Dying,
{
    lemma_events_in_order(events, n);
    assert(events.take(n).push(events[n]) =~= events.take(n + 1));
}

} // verus!
