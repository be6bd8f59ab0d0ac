use degrugger::pump::PumpAction;
use degrugger::pump::PumpInput;
use degrugger::pump::PumpState;
use degrugger::pump::RunThread;
use degrugger::pump::WaitEvent;
use degrugger::pump::SIGTRAP;

/// Plays the thread of the pump against a debuggee that does `events`, with
/// a controller that wakes the pump after each event. The answer is what
/// the pump handed to the controller.
fn play(events: &[WaitEvent]) -> (Vec<WaitEvent>, RunThread) {
    let mut pump = RunThread::new();
    let mut sent = Vec::new();
    for event in events {
        let mut action = pump.step(PumpInput::Waited(*event));
        if action == PumpAction::MarkParked {
            action = pump.step(PumpInput::Marked);
        }
        match action {
            PumpAction::SendAndPark(event) => {
                sent.push(event);
                pump.step(PumpInput::Woken { should_die: false });
            }
            PumpAction::SendLast(event) => sent.push(event),
            _ => {}
        }
    }
    (sent, pump)
}

#[test]
fn pump_parks_before_it_sends() {
    let mut pump = RunThread::new();
    assert_eq!(pump.state, PumpState::Waiting);
    let trap = WaitEvent::Stopped { signal: SIGTRAP };
    assert_eq!(pump.step(PumpInput::Waited(trap)), PumpAction::MarkParked);
    assert_eq!(pump.state, PumpState::ReadyToPublish(trap));
    assert_eq!(pump.step(PumpInput::Marked), PumpAction::SendAndPark(trap));
    assert_eq!(pump.state, PumpState::Parked);
    assert_eq!(pump.step(PumpInput::Woken { should_die: false }), PumpAction::Wait);
    assert_eq!(pump.state, PumpState::Waiting);
    assert!(!pump.finished());
}

#[test]
fn pump_ends_at_an_exit() {
    let mut pump = RunThread::new();
    let exit = WaitEvent::Exited { code: 3 };
    assert_eq!(pump.step(PumpInput::Waited(exit)), PumpAction::SendLast(exit));
    assert_eq!(pump.state, PumpState::Dying);
    assert!(pump.finished());
    assert_eq!(pump.step(PumpInput::Waited(exit)), PumpAction::Ignore);
    assert_eq!(pump.step(PumpInput::Woken { should_die: false }), PumpAction::Ignore);
    assert_eq!(pump.state, PumpState::Dying);
}

#[test]
fn pump_ends_when_asked_to_or_when_the_wait_fails() {
    let mut pump = RunThread::new();
    pump.step(PumpInput::Waited(WaitEvent::Stopped { signal: 19 }));
    pump.step(PumpInput::Marked);
    assert_eq!(pump.step(PumpInput::Woken { should_die: true }), PumpAction::Return);
    assert!(pump.finished());
    let mut pump = RunThread::new();
    assert_eq!(pump.step(PumpInput::Waited(WaitEvent::Failed { errno: 10 })), PumpAction::Return);
    assert!(pump.finished());
}

#[test]
fn pump_ignores_what_does_not_fit() {
    let mut pump = RunThread::new();
    assert_eq!(pump.step(PumpInput::Marked), PumpAction::Ignore);
    assert_eq!(pump.step(PumpInput::Woken { should_die: true }), PumpAction::Ignore);
    assert_eq!(pump.state, PumpState::Waiting);
    pump.step(PumpInput::Waited(WaitEvent::Other));
    assert_eq!(pump.step(PumpInput::Waited(WaitEvent::Other)), PumpAction::Ignore);
    assert_eq!(pump.step(PumpInput::Woken { should_die: false }), PumpAction::Ignore);
    assert_eq!(pump.state, PumpState::ReadyToPublish(WaitEvent::Other));
}

#[test]
fn events_reach_the_controller_in_order() {
    let events = vec![
        WaitEvent::Stopped { signal: SIGTRAP },
        WaitEvent::Stopped { signal: 11 },
        WaitEvent::Other,
        WaitEvent::Stopped { signal: SIGTRAP },
        WaitEvent::Exited { code: 0 },
    ];
    let (sent, pump) = play(&events);
    assert_eq!(sent, events);
    assert!(pump.finished());
}

#[test]
fn nothing_is_sent_behind_an_exit() {
    let events = vec![
        WaitEvent::Stopped { signal: SIGTRAP },
        WaitEvent::Exited { code: 1 },
        WaitEvent::Stopped { signal: SIGTRAP },
    ];
    let (sent, _) = play(&events);
    assert_eq!(sent, events[..2].to_vec());
    let (none, pump) = play(&[WaitEvent::Failed { errno: 3 }, WaitEvent::Stopped { signal: SIGTRAP }]);
    assert_eq!(none.len(), 0);
    assert!(pump.finished());
}
