//! A debugging session: the executable, its breakpoints, what is known of
//! it, and the run of the debuggee, if there is one.
//!
//! Neither the run nor the session touches the debuggee or a thread. An
//! operation answers with what is to be done to them, in order.

use vstd::prelude::*;
use crate::addresses::{
    before,
    law_addresses_round_trip,
    runtime_addr,
    runtime_of,
    trap_addr,
    BIAS,
};
use crate::insertpoint::{
    add_breakpoint,
    breakpoint_at,
    distinct_breakpoints,
    toggle_breakpoint,
    BreakPoint,
    Point,
};
use crate::offline_debug_info::{
    knowledge_after_all,
    sources_after_all,
    DebugInfoRequest,
    DebugInfoResponse,
    OfflineDebugInfo,
};
use crate::error::DebugError;
use crate::patcher::{
    all_sound,
    first_patch,
    lemma_switched_armed,
    lemma_switched_keeps,
    inject_ops,
    patches_over,
    armed,
    step_over_ops,
    switch_ops,
    switched,
    LocalPatcher,
    Patch,
    Patcher,
    TraceeOp,
    TraceeWord,
};
use crate::pump::{WaitEvent, SIGTRAP};
use crate::registers::{DebugeeState, Registers};

verus! {

/// The error number that stands for a pump that is gone.
pub const EOWNERDEAD: i32 = 130;

/// Where a run stands.
#[derive(Clone, Copy, Debug, PartialEq, Eq, Structural)]
pub enum RunState {
    /// The debuggee was started and has not been seen to stop yet.
    Spawning,
    /// The debuggee has stopped for the first time, before its first
    /// instruction.
    InitialStop,
    /// The debuggee runs.
    Running,
    /// The debuggee was stopped by a signal.
    Stopped { signal: i32 },
    /// The debuggee is gone.
    Exited,
    /// The run was ended by the debugger.
    Killed,
}

/// What the controller finds when it looks for an event of the pump.
#[derive(Clone, Copy, Debug, PartialEq, Eq, Structural)]
pub enum PollMessage {
    /// No event has come.
    Empty,
    /// An event, and the debuggee's registers where they could be read.
    Event { event: WaitEvent, regs: Option<Registers> },
    /// The pump is gone.
    Disconnected,
}

/// Something to be done for a run.
#[derive(Clone, Copy, Debug, PartialEq, Eq, Structural)]
pub enum RunAction {
    /// Clear the pump's mark and wake the pump.
    Unpark,
    /// Tell the pump to end, clear its mark and wake it.
    EndPump,
    /// Carry out an operation on the debuggee.
    Tracee(TraceeOp),
}

/// An address in the running debuggee.
pub struct RuntimeAddr(u64);

/// A breakpoint in the running debuggee.
pub struct RuntimeBreakpoint {}

/// A function of the executable: its name and the addresses of its first
/// instruction and of the end of its code.
#[derive(Debug)]
pub struct Function {
    pub low_pc: u64,
    pub high_pc: u64,
    pub name: String,
}

/// One run of the debuggee.
#[derive(Debug)]
pub struct Run {
    /// Process id of the debuggee.
    pub debugee_pid: i32,
    /// The breakpoints of the run.
    pub debugee_patcher: LocalPatcher,
    /// Whether the pump is parked: it has handed on an event and was not
    /// woken since.
    pub run_thread_parked: bool,
    /// Whether the pump was asked to end.
    pub run_thread_should_die: bool,
    /// Whether the pump has ended: it has handed on its last event, was
    /// lost, or was told to end.
    pub run_thread_finished: bool,
    /// The event that was seen last: what the wait came back with, or the
    /// error number of what went wrong.
    pub debugee_event: Option<Result<WaitEvent, i32>>,
    /// What is known of the debuggee at its last stop.
    pub debugee_state: Option<DebugeeState>,
    /// Where the run stands.
    pub state: RunState,
    /// The load bias of the run.
    pub bias: u64,
}

/// Whether a run has ended for good.
pub open spec fn is_over(state: RunState) -> bool {
    state is Exited || state is Killed
}

/// Where a run stands once an event was seen. A run that is over stays as
/// it is. The first stop must be a trap; any other first event ends the
/// run. A later stop is a stop, as long as the registers can be read. An
/// exit, a killing signal, a failed wait and registers that cannot be read
/// end the run.
pub open spec fn state_after_event(state: RunState, event: WaitEvent, has_regs: bool) -> RunState {
    if is_over(state) {
        state
    } else {
        match event {
            WaitEvent::Stopped { signal } => if !has_regs {
                RunState::Exited
            } else if state is Spawning {
                if signal == SIGTRAP {
                    RunState::InitialStop
                } else {
                    RunState::Exited
                }
            } else {
                RunState::Stopped { signal }
            },
            WaitEvent::Other => if state is Spawning {
                RunState::Exited
            } else {
                state
            },
            _ => RunState::Exited,
        }
    }
}

/// Where a run stands once the controller has looked for an event.
pub open spec fn state_after_poll(state: RunState, message: PollMessage) -> RunState {
    match message {
        PollMessage::Empty => state,
        PollMessage::Event { event, regs } => state_after_event(state, event, regs is Some),
        PollMessage::Disconnected => if is_over(state) {
            state
        } else {
            RunState::Exited
        },
    }
}

/// Whether a run may go from one state to another in one step: from its
/// start to its first stop; from a stop to running and back; from anywhere
/// to its end.
pub open spec fn may_follow(from: RunState, to: RunState) -> bool {
    ||| to == from
    ||| to is Exited && !is_over(from)
    ||| to is Killed
    ||| from is Spawning && to is InitialStop
    ||| (from is InitialStop || from is Stopped) && to is Running
    ||| (from is Running || from is InitialStop || from is Stopped) && to is Stopped
}

/// Whatever the controller finds when it looks for an event, the run takes
/// a step that it may take, and a run that is over stays as it is.
pub proof fn law_poll_steps_are_lawful(state: RunState, message: PollMessage)
    ensures
        may_follow(state, state_after_poll(state, message)),
        is_over(state) ==> state_after_poll(state, message) == state,
        state is Spawning ==> state_after_poll(state, message) is Spawning || state_after_poll(
            state,
            message,
        ) is InitialStop || state_after_poll(state, message) is Exited,
{
}

/// Whether the pump is parked once an event was seen: every event but an
/// exit and a failed wait is handed on by a pump that has parked.
pub open spec fn parks(event: WaitEvent) -> bool {
    !(event is Exited) && !(event is Failed)
}

/// The breakpoints of a run after they were brought in line with the first
/// `n` breakpoints of the session, one after the other.
pub open spec fn synced(patches: Seq<Patch>, bps: Seq<BreakPoint>, bias: u64, n: int) -> Seq<Patch>
    decreases n,
{
    if n <= 0 {
        patches
    } else {
        switched(
            synced(patches, bps, bias, n - 1),
            runtime_of(bps[n - 1].point.addr, bias),
            bps[n - 1].point.enabled,
        )
    }
}

/// The writes that bring the breakpoints of a run in line with the first `n`
/// breakpoints of the session.
pub open spec fn sync_ops(patches: Seq<Patch>, bps: Seq<BreakPoint>, bias: u64, n: int) -> Seq<
    TraceeOp,
>
    decreases n,
{
    if n <= 0 {
        Seq::empty()
    } else {
        sync_ops(patches, bps, bias, n - 1) + switch_ops(
            synced(patches, bps, bias, n - 1),
            runtime_of(bps[n - 1].point.addr, bias),
            bps[n - 1].point.enabled,
        )
    }
}

/// Where a run stands once its pump was woken: under way, unless it was
/// over.
pub open spec fn state_after_cont(state: RunState) -> RunState {
    if is_over(state) {
        state
    } else {
        RunState::Running
    }
}

impl Run {
    /// The breakpoints of the run are sound.
    pub open spec fn wf(&self) -> bool {
        all_sound(self.debugee_patcher.patches@)
    }

    /// Whether the run is under way: the pump is not parked and has not
    /// ended.
    pub open spec fn is_running(&self) -> bool {
        !self.run_thread_parked && !self.run_thread_finished
    }

    /// The run of the debuggee `pid`, which was just started, at the usual
    /// load bias.
    pub fn new(pid: i32) -> (run: Run)
        ensures
            run.wf(),
            run.debugee_pid == pid,
            run.debugee_patcher.patches@.len() == 0,
            !run.run_thread_parked,
            !run.run_thread_should_die,
            !run.run_thread_finished,
            run.debugee_event is None,
            run.debugee_state is None,
            run.state == RunState::Spawning,
            run.bias == BIAS,
    {
        Run::loaded_at(pid, BIAS)
    }

    /// The run of the debuggee `pid`, which was just started and is loaded
    /// at the bias `bias`.
    pub fn loaded_at(pid: i32, bias: u64) -> (run: Run)
        ensures
            run.wf(),
            run.debugee_pid == pid,
            run.debugee_patcher.patches@.len() == 0,
            !run.run_thread_parked,
            !run.run_thread_should_die,
            !run.run_thread_finished,
            run.debugee_event is None,
            run.debugee_state is None,
            run.state == RunState::Spawning,
            run.bias == bias,
    {
        Run {
            debugee_pid: pid,
            debugee_patcher: LocalPatcher::new(pid),
            run_thread_parked: false,
            run_thread_should_die: false,
            run_thread_finished: false,
            debugee_event: None,
            debugee_state: None,
            state: RunState::Spawning,
            bias,
        }
    }

    /// Takes in what the controller found when it looked for an event of the
    /// pump. The answer says whether there was something to take in. An
    /// event becomes the event seen last; at a stop whose registers could be
    /// read, the state of the debuggee is taken from them, else there is no
    /// such state. A pump that is gone counts as an event with the error
    /// number `EOWNERDEAD`, and leaves no state of the debuggee.
    pub fn poll_debugee_state(&mut self, message: PollMessage) -> (seen: bool)
        requires
            old(self).wf(),
        ensures
            final(self).wf(),
            final(self).debugee_pid == old(self).debugee_pid,
            final(self).debugee_patcher == old(self).debugee_patcher,
            final(self).run_thread_should_die == old(self).run_thread_should_die,
            final(self).bias == old(self).bias,
            final(self).state == state_after_poll(old(self).state, message),
            seen == !(message is Empty),
            match message {
                PollMessage::Empty => *final(self) == *old(self),
                PollMessage::Event { event, regs } => {
                    &&& final(self).debugee_event == Some(Ok::<WaitEvent, i32>(event))
                    &&& final(self).run_thread_parked == parks(event)
                    &&& final(self).run_thread_finished == (old(self).run_thread_finished
                        || !parks(event))
                    &&& if event is Stopped && regs is Some {
                        &&& final(self).debugee_state is Some
                        &&& final(self).debugee_state->0.regs == regs->0
                        &&& final(self).debugee_state->0.addr == regs->0.rip
                    } else {
                        final(self).debugee_state is None
                    }
                },
                PollMessage::Disconnected => {
                    &&& final(self).debugee_event == Some(Err::<WaitEvent, i32>(EOWNERDEAD))
                    &&& final(self).run_thread_parked == old(self).run_thread_parked
                    &&& final(self).run_thread_finished
                    &&& final(self).debugee_state is None
                },
            },
    {
        match message {
            PollMessage::Empty => false,
            PollMessage::Event { event, regs } => {
                let over = match self.state {
                    RunState::Exited => true,
                    RunState::Killed => true,
                    _ => false,
                };
                let spawning = match self.state {
                    RunState::Spawning => true,
                    _ => false,
                };
                let mut stop: Option<Registers> = None;
                let mut parked = true;
                let next = match event {
                    WaitEvent::Stopped { signal } => {
                        stop = regs;
                        if regs.is_none() {
                            RunState::Exited
                        } else if spawning {
                            if signal == SIGTRAP {
                                RunState::InitialStop
                            } else {
                                RunState::Exited
                            }
                        } else {
                            RunState::Stopped { signal }
                        }
                    },
                    WaitEvent::Other => {
                        if spawning {
                            RunState::Exited
                        } else {
                            self.state
                        }
                    },
                    WaitEvent::Exited { .. } => {
                        parked = false;
                        RunState::Exited
                    },
                    WaitEvent::Failed { .. } => {
                        parked = false;
                        RunState::Exited
                    },
                    WaitEvent::Signaled { .. } => RunState::Exited,
                };
                if !over {
                    self.state = next;
                }
                self.debugee_event = Some(Ok(event));
                self.run_thread_parked = parked;
                if !parked {
                    self.run_thread_finished = true;
                }
                self.debugee_state = match stop {
                    Some(regs) => Some(DebugeeState::at_stop(regs)),
                    None => None,
                };
                true
            },
            PollMessage::Disconnected => {
                let over = match self.state {
                    RunState::Exited => true,
                    RunState::Killed => true,
                    _ => false,
                };
                if !over {
                    self.state = RunState::Exited;
                }
                self.debugee_event = Some(Err(EOWNERDEAD));
                self.run_thread_finished = true;
                self.debugee_state = None;
                true
            },
        }
    }

    /// Brings the breakpoints of the run in line with the session's: for each
    /// breakpoint of the session, in their order, the breakpoint of the run
    /// at its address is armed or disarmed as the session has it. The answer
    /// holds the writes that do so in the debuggee, which must be stopped. A
    /// breakpoint of the session that the run has not installed stays out of
    /// the run.
    pub fn sync_bp_state(&mut self, bps: &Vec<BreakPoint>) -> (ops: Vec<TraceeOp>)
        requires
            old(self).wf(),
        ensures
            final(self).wf(),
            final(self).debugee_pid == old(self).debugee_pid,
            final(self).debugee_patcher.pid == old(self).debugee_patcher.pid,
            final(self).run_thread_parked == old(self).run_thread_parked,
            final(self).run_thread_should_die == old(self).run_thread_should_die,
            final(self).run_thread_finished == old(self).run_thread_finished,
            final(self).debugee_event == old(self).debugee_event,
            final(self).debugee_state == old(self).debugee_state,
            final(self).state == old(self).state,
            final(self).bias == old(self).bias,
            final(self).debugee_patcher.patches@ == synced(
                old(self).debugee_patcher.patches@,
                bps@,
                old(self).bias,
                bps@.len() as int,
            ),
            ops@ == sync_ops(
                old(self).debugee_patcher.patches@,
                bps@,
                old(self).bias,
                bps@.len() as int,
            ),
    {
        let mut ops: Vec<TraceeOp> = Vec::new();
        let mut i: usize = 0;
        while i < bps.len()
            invariant
                i <= bps@.len(),
                self.wf(),
                self.debugee_pid == old(self).debugee_pid,
                self.debugee_patcher.pid == old(self).debugee_patcher.pid,
                self.run_thread_parked == old(self).run_thread_parked,
                self.run_thread_should_die == old(self).run_thread_should_die,
                self.run_thread_finished == old(self).run_thread_finished,
                self.debugee_event == old(self).debugee_event,
                self.debugee_state == old(self).debugee_state,
                self.state == old(self).state,
                self.bias == old(self).bias,
                self.debugee_patcher.patches@ == synced(
                    old(self).debugee_patcher.patches@,
                    bps@,
                    old(self).bias,
                    i as int,
                ),
                ops@ == sync_ops(old(self).debugee_patcher.patches@, bps@, old(self).bias, i as int),
            decreases bps@.len() - i,
        {
            let point = &bps[i].point;
            self.debugee_patcher.switch(runtime_addr(point.addr, self.bias), point.enabled, &mut ops);
            i = i + 1;
        }
        ops
    }

    /// Wakes the parked pump and continues the debuggee as it stands; a run
    /// that stood at a stop is then under way.
    fn resume(&mut self) -> (actions: Vec<RunAction>)
        ensures
            final(self).debugee_pid == old(self).debugee_pid,
            final(self).debugee_patcher == old(self).debugee_patcher,
            final(self).run_thread_should_die == old(self).run_thread_should_die,
            final(self).run_thread_finished == old(self).run_thread_finished,
            final(self).debugee_event == old(self).debugee_event,
            final(self).debugee_state == old(self).debugee_state,
            final(self).bias == old(self).bias,
            !final(self).run_thread_parked,
            final(self).state == state_after_cont(old(self).state),
            actions@ == seq![RunAction::Unpark, RunAction::Tracee(TraceeOp::Cont)],
    {
        self.wake();
        let mut actions: Vec<RunAction> = Vec::new();
        actions.push(RunAction::Unpark);
        actions.push(RunAction::Tracee(TraceeOp::Cont));
        actions
    }

    /// Counts the pump as woken: it is no longer parked, and a run that
    /// stood at a stop is under way.
    fn wake(&mut self)
        ensures
            final(self).debugee_pid == old(self).debugee_pid,
            final(self).debugee_patcher == old(self).debugee_patcher,
            final(self).run_thread_should_die == old(self).run_thread_should_die,
            final(self).run_thread_finished == old(self).run_thread_finished,
            final(self).debugee_event == old(self).debugee_event,
            final(self).debugee_state == old(self).debugee_state,
            final(self).bias == old(self).bias,
            !final(self).run_thread_parked,
            final(self).state == state_after_cont(old(self).state),
    {
        self.run_thread_parked = false;
        match self.state {
            RunState::Exited => {},
            RunState::Killed => {},
            _ => {
                self.state = RunState::Running;
            },
        }
    }

    /// Lets the stopped debuggee, whose instruction pointer is `rip`, run
    /// on; `bps` are the breakpoints of the session. First the breakpoints
    /// of the run are brought in line with the session's. Where the debuggee
    /// stands just behind the trap of a breakpoint that was armed when it
    /// stopped, it is put back onto the patched instruction: the breakpoint
    /// is stepped over if it is still armed, which continues the debuggee;
    /// else the debuggee is continued from there. Where it stands elsewhere,
    /// it is continued as it stands. At last the pump is woken. Where the
    /// pump is not parked, nothing happens.
    pub fn cont(&mut self, bps: &Vec<BreakPoint>, rip: u64) -> (actions: Vec<RunAction>)
        requires
            old(self).wf(),
        ensures
            final(self).wf(),
            if old(self).run_thread_parked {
                &&& continued(*old(self), bps@, rip, *final(self))
                &&& actions@ == continue_actions(
                    old(self).debugee_patcher.patches@,
                    bps@,
                    old(self).bias,
                    rip,
                )
            } else {
                *final(self) == *old(self) && actions@.len() == 0
            },
    {
        if !self.run_thread_parked {
            return Vec::new();
        }
        let ghost before_patches = self.debugee_patcher.patches@;
        let trap = trap_addr(rip);
        let was_hit = self.debugee_patcher.is_armed(trap);
        let mut ops = self.sync_bp_state(bps);
        let ghost brought = ops@;
        let ghost synced_patches = self.debugee_patcher.patches@;
        let still = self.debugee_patcher.is_armed(trap);
        if was_hit && still {
            if let Ok(mut stepped) = self.debugee_patcher.cont(trap, rip) {
                let ghost step = stepped@;
                ops.append(&mut stepped);
                assert(ops@ =~= brought + step);
            }
            proof {
                crate::patcher::lemma_first_patch(synced_patches, trap, synced_patches.len() as int);
                crate::patcher::lemma_switched_keeps(synced_patches, trap, false);
                crate::patcher::lemma_first_patch_by_addr(
                    switched(synced_patches, trap, false),
                    synced_patches,
                    trap,
                    synced_patches.len() as int,
                );
                assert(switched(switched(synced_patches, trap, false), trap, true)
                    =~= synced_patches);
            }
        } else if was_hit {
            ops.push(TraceeOp::SetRip(trap));
            ops.push(TraceeOp::Cont);
            assert(ops@ =~= brought + seq![TraceeOp::SetRip(trap), TraceeOp::Cont]);
        }
        let mut actions = as_actions(&ops);
        let ghost done = actions@;
        self.wake();
        actions.push(RunAction::Unpark);
        if !was_hit {
            actions.push(RunAction::Tracee(TraceeOp::Cont));
            assert(actions@ =~= done + seq![RunAction::Unpark, RunAction::Tracee(TraceeOp::Cont)]);
        } else {
            assert(actions@ =~= done + seq![RunAction::Unpark]);
        }
        actions
    }

    /// Whether the run is under way.
    pub fn running(&self) -> (running: bool)
        ensures
            running == self.is_running(),
    {
        !self.run_thread_parked && !self.run_thread_finished
    }

    /// What is known of the debuggee at its last stop.
    pub fn state(&self) -> (state: Option<&DebugeeState>)
        ensures
            match state {
                Some(state) => self.debugee_state == Some(*state),
                None => self.debugee_state is None,
            },
    {
        self.debugee_state.as_ref()
    }

    /// Ends the run: the pump is told to end, its mark is cleared and it is
    /// woken; from then on it counts as ended. To end a run twice is to end
    /// it once.
    pub fn kill(&mut self) -> (actions: Vec<RunAction>)
        ensures
            final(self).run_thread_should_die,
            !final(self).run_thread_parked,
            final(self).state == RunState::Killed,
            final(self).debugee_pid == old(self).debugee_pid,
            final(self).debugee_patcher == old(self).debugee_patcher,
            final(self).run_thread_finished,
            final(self).debugee_event == old(self).debugee_event,
            final(self).debugee_state == old(self).debugee_state,
            final(self).bias == old(self).bias,
            actions@ == seq![RunAction::EndPump],
            old(self).state == RunState::Killed && old(self).run_thread_should_die
                && !old(self).run_thread_parked && old(self).run_thread_finished ==> *final(self)
                == *old(self),
            !final(self).is_running(),
    {
        self.run_thread_should_die = true;
        self.run_thread_parked = false;
        self.run_thread_finished = true;
        self.state = RunState::Killed;
        let mut actions: Vec<RunAction> = Vec::new();
        actions.push(RunAction::EndPump);
        actions
    }
}


/// The operations on the debuggee as things to be done for a run.
pub open spec fn tracee_actions(ops: Seq<TraceeOp>) -> Seq<RunAction> {
    Seq::new(ops.len(), |i: int| RunAction::Tracee(ops[i]))
}

/// The run-time addresses of the armed ones among the first `n`
/// breakpoints, in their order.
pub open spec fn armed_addrs(list: Seq<BreakPoint>, bias: u64, n: int) -> Seq<u64>
    decreases n,
{
    if n <= 0 {
        Seq::empty()
    } else {
        let earlier = armed_addrs(list, bias, n - 1);
        if list[n - 1].point.enabled {
            earlier.push(runtime_of(list[n - 1].point.addr, bias))
        } else {
            earlier
        }
    }
}

/// Whether the words were read at the addresses, word for address.
pub open spec fn read_at(words: Seq<TraceeWord>, addrs: Seq<u64>) -> bool {
    words.len() == addrs.len() && forall|i: int|
        0 <= i < words.len() ==> (#[trigger] words[i]).addr == addrs[i]
}

/// The operations as things to be done for a run.
fn as_actions(ops: &Vec<TraceeOp>) -> (actions: Vec<RunAction>)
    ensures
        actions@ == tracee_actions(ops@),
{
    let mut actions: Vec<RunAction> = Vec::new();
    let mut i: usize = 0;
    while i < ops.len()
        invariant
            i <= ops@.len(),
            actions@.len() == i,
            forall|k: int| 0 <= k < i ==> actions@[k] == RunAction::Tracee(ops@[k]),
        decreases ops@.len() - i,
    {
        actions.push(RunAction::Tracee(ops[i]));
        i = i + 1;
    }
    assert(actions@ =~= tracee_actions(ops@));
    actions
}

/// A debugging session.
pub struct Session {
    /// Where the executable lies.
    pub exec_path: String,
    /// Whether the session was saved.
    pub saved_on_disk: bool,
    /// Where the session was saved.
    pub saved_path: Option<String>,
    /// Where set, only source files under this directory are read without
    /// being asked for.
    pub auto_load_src_root: Option<String>,
    /// What is known of the executable.
    pub debug_info: OfflineDebugInfo,
    /// The breakpoints, in the order in which they were set. No two lie at
    /// the same address.
    pub breakpoints: Vec<BreakPoint>,
    /// The run of the debuggee, if there is one.
    pub active_run: Option<Run>,
    /// What went wrong last with the run, if the run has not been started
    /// or continued with success since.
    pub last_error: Option<DebugError>,
}

impl Session {
    /// The store, the breakpoints and the run are in order.
    pub open spec fn wf(&self) -> bool {
        &&& self.debug_info.wf()
        &&& distinct_breakpoints(self.breakpoints@)
        &&& self.active_run is Some ==> self.active_run->0.wf()
    }

    /// Opens a session for the executable at `path_str`. `is_file` says
    /// whether there is a regular file at that path; where there is none,
    /// there is no session. A fresh session has no breakpoint and no run,
    /// and asks the worker to read the executable.
    pub fn new(path_str: String, auto_load_src_root: Option<String>, is_file: bool) -> (result:
        Result<Session, DebugError>)
        ensures
            !is_file ==> result == Err::<Session, DebugError>(DebugError::NotFound),
            is_file ==> {
                &&& result is Ok
                &&& result->Ok_0.wf()
                &&& result->Ok_0.exec_path@ == path_str@
                &&& result->Ok_0.auto_load_src_root == auto_load_src_root
                &&& !result->Ok_0.saved_on_disk
                &&& result->Ok_0.saved_path is None
                &&& result->Ok_0.breakpoints@.len() == 0
                &&& result->Ok_0.active_run is None
                &&& result->Ok_0.last_error is None
                &&& result->Ok_0.debug_info.src_files@.len() == 0
                &&& result->Ok_0.debug_info.debug_info.decompiled_src is None
                &&& result->Ok_0.debug_info.debug_info.src_file_info@.len() == 0
                &&& result->Ok_0.debug_info.debug_info.all_subprograms@.len() == 0
                &&& result->Ok_0.debug_info.requests@.len() == 1
                &&& result->Ok_0.debug_info.requests@[0] matches DebugInfoRequest::ReadExec(path)
                &&& path@ == path_str@
            },
    {
        if !is_file {
            return Err(DebugError::NotFound);
        }
        let mut debug_info = OfflineDebugInfo::new();
        debug_info.load_exec(path_str.clone());
        Ok(
            Session {
                exec_path: path_str,
                saved_on_disk: false,
                saved_path: None,
                auto_load_src_root,
                debug_info,
                breakpoints: Vec::new(),
                active_run: None,
                last_error: None,
            },
        )
    }

    /// Takes in the responses of the worker that are pending, in their
    /// order, and leaves none; see `OfflineDebugInfo::sync_debug_info`.
    pub fn sync_workers(&mut self, responses: Vec<DebugInfoResponse>)
        requires
            old(self).wf(),
        ensures
            final(self).wf(),
            final(self).exec_path == old(self).exec_path,
            final(self).last_error == old(self).last_error,
            final(self).breakpoints == old(self).breakpoints,
            final(self).active_run == old(self).active_run,
            final(self).debug_info.requests == old(self).debug_info.requests,
            final(self).debug_info.debug_info == knowledge_after_all(
                old(self).debug_info.debug_info,
                responses@,
                responses@.len() as int,
            ),
            final(self).debug_info.src_files@ == sources_after_all(
                old(self).debug_info.src_files@,
                responses@,
                responses@.len() as int,
            ),
    {
        self.debug_info.sync_debug_info(responses);
    }

    /// Sets a breakpoint, unless one lies at its address already. The answer
    /// says whether it was set. A run that is under way keeps its
    /// breakpoints as they are.
    pub fn add_breakpoint(&mut self, bp: BreakPoint) -> (added: bool)
        requires
            old(self).wf(),
        ensures
            final(self).wf(),
            final(self).exec_path == old(self).exec_path,
            final(self).last_error == old(self).last_error,
            final(self).debug_info == old(self).debug_info,
            final(self).active_run == old(self).active_run,
            added == (breakpoint_at(
                old(self).breakpoints@,
                bp.point.addr,
                old(self).breakpoints@.len() as int,
            ) < 0),
            added ==> final(self).breakpoints@ == old(self).breakpoints@.push(bp),
            !added ==> final(self).breakpoints@ == old(self).breakpoints@,
    {
        proof {
            crate::insertpoint::lemma_breakpoint_at(
                self.breakpoints@,
                bp.point.addr,
                self.breakpoints@.len() as int,
            );
        }
        match crate::insertpoint::find_breakpoint(&self.breakpoints, bp.point.addr) {
            Some(_) => false,
            None => {
                self.breakpoints.push(bp);
                true
            },
        }
    }

    /// Arms the breakpoint at `addr` if it is disarmed and disarms it if it
    /// is armed. The answer is whether it is armed afterwards, or `None`
    /// where no breakpoint lies at `addr`. A run that is under way keeps its
    /// breakpoints as they are.
    pub fn toggle_breakpoint(&mut self, addr: u64) -> (armed: Option<bool>)
        requires
            old(self).wf(),
        ensures
            final(self).wf(),
            final(self).exec_path == old(self).exec_path,
            final(self).last_error == old(self).last_error,
            final(self).debug_info == old(self).debug_info,
            final(self).active_run == old(self).active_run,
            final(self).breakpoints@.len() == old(self).breakpoints@.len(),
            ({
                let list = old(self).breakpoints@;
                let index = breakpoint_at(list, addr, list.len() as int);
                if index < 0 {
                    armed is None && final(self).breakpoints@ == list
                } else {
                    &&& armed == Some(!list[index].point.enabled)
                    &&& final(self).breakpoints@ == list.update(
                        index,
                        BreakPoint {
                            point: Point {
                                enabled: !list[index].point.enabled,
                                ..list[index].point
                            },
                        },
                    )
                }
            }),
    {
        toggle_breakpoint(&mut self.breakpoints, addr)
    }

    /// Brings the breakpoints of a stopped run in line with the session's;
    /// see `Run::sync_bp_state`. Without a run, or with a run whose pump is
    /// not parked, nothing happens.
    pub fn reconcile_bp_state_with_run(&mut self) -> (actions: Vec<RunAction>)
        requires
            old(self).wf(),
        ensures
            final(self).wf(),
            final(self).exec_path == old(self).exec_path,
            final(self).last_error == old(self).last_error,
            final(self).debug_info == old(self).debug_info,
            final(self).breakpoints == old(self).breakpoints,
            match old(self).active_run {
                Some(run) => if run.run_thread_parked {
                    &&& final(self).active_run is Some
                    &&& final(self).active_run->0.debugee_patcher.patches@ == synced(
                        run.debugee_patcher.patches@,
                        old(self).breakpoints@,
                        run.bias,
                        old(self).breakpoints@.len() as int,
                    )
                    &&& final(self).active_run->0.state == run.state
                    &&& final(self).active_run->0.bias == run.bias
                    &&& final(self).active_run->0.debugee_pid == run.debugee_pid
                    &&& final(self).active_run->0.run_thread_parked
                    &&& final(self).active_run->0.debugee_state == run.debugee_state
                    &&& actions@ == tracee_actions(
                        sync_ops(
                            run.debugee_patcher.patches@,
                            old(self).breakpoints@,
                            run.bias,
                            old(self).breakpoints@.len() as int,
                        ),
                    )
                } else {
                    final(self).active_run == Some(run) && actions@.len() == 0
                },
                None => final(self).active_run is None && actions@.len() == 0,
            },
    {
        match self.active_run.take() {
            Some(mut run) => {
                if run.run_thread_parked {
                    let ops = run.sync_bp_state(&self.breakpoints);
                    self.active_run = Some(run);
                    as_actions(&ops)
                } else {
                    self.active_run = Some(run);
                    Vec::new()
                }
            },
            None => Vec::new(),
        }
    }

    /// The run-time addresses, at the load bias `bias`, of the armed
    /// breakpoints: the addresses whose words a run needs when it starts.
    pub fn breakpoint_addresses(&self, bias: u64) -> (addrs: Vec<u64>)
        ensures
            addrs@ == armed_addrs(self.breakpoints@, bias, self.breakpoints@.len() as int),
    {
        let mut addrs: Vec<u64> = Vec::new();
        let mut i: usize = 0;
        while i < self.breakpoints.len()
            invariant
                i <= self.breakpoints@.len(),
                addrs@ == armed_addrs(self.breakpoints@, bias, i as int),
            decreases self.breakpoints@.len() - i,
        {
            if self.breakpoints[i].point.enabled {
                addrs.push(runtime_addr(self.breakpoints[i].point.addr, bias));
            }
            i = i + 1;
        }
        addrs
    }

    /// Starts the run of the debuggee `pid`, which was just forked and is
    /// loaded at the bias `bias`. `first` is what the first wait for it came
    /// back with, and `words` are the words that were read at the run-time
    /// addresses of the armed breakpoints, in their order.
    ///
    /// Where the debuggee has stopped at its first trap, a breakpoint is
    /// installed over each word, the debuggee is continued, and the session
    /// has a run. Where the session has a run already, or the words were not
    /// read where they were to be read, the run is as it was. Where the
    /// debuggee has not stopped at its first trap, the session has no run.
    /// The session takes note of a failure, and forgets the last one where
    /// there is none.
    pub fn start_run(
        &mut self,
        pid: i32,
        bias: u64,
        first: PollMessage,
        words: &Vec<TraceeWord>,
    ) -> (result: Result<Vec<RunAction>, DebugError>)
        requires
            old(self).wf(),
        ensures
            final(self).wf(),
            final(self).exec_path == old(self).exec_path,
            final(self).debug_info == old(self).debug_info,
            final(self).breakpoints == old(self).breakpoints,
            final(self).last_error == failure_of(result),
            ({
                let addrs = armed_addrs(
                    old(self).breakpoints@,
                    bias,
                    old(self).breakpoints@.len() as int,
                );
                if old(self).active_run is Some || !read_at(words@, addrs) {
                    &&& result == Err::<Vec<RunAction>, DebugError>(DebugError::InvalidState)
                    &&& final(self).active_run == old(self).active_run
                } else if state_after_poll(RunState::Spawning, first) != RunState::InitialStop {
                    &&& result == Err::<Vec<RunAction>, DebugError>(DebugError::ChildFailed)
                    &&& final(self).active_run is None
                } else {
                    &&& result is Ok
                    &&& result->Ok_0@ == tracee_actions(inject_ops(words@)) + seq![
                        RunAction::Unpark,
                        RunAction::Tracee(TraceeOp::Cont),
                    ]
                    &&& final(self).active_run is Some
                    &&& final(self).active_run->0.debugee_pid == pid
                    &&& final(self).active_run->0.state == RunState::Running
                    &&& final(self).active_run->0.bias == bias
                    &&& final(self).active_run->0.is_running()
                    &&& final(self).active_run->0.debugee_patcher.patches@ == patches_over(words@)
                    &&& first matches PollMessage::Event { event, regs }
                    &&& final(self).active_run->0.debugee_event == Some(Ok::<WaitEvent, i32>(event))
                    &&& final(self).active_run->0.debugee_state is Some
                    &&& final(self).active_run->0.debugee_state->0.regs == regs->0
                    &&& final(self).active_run->0.debugee_state->0.addr == regs->0.rip
                }
            }),
    {
        if self.active_run.is_some() {
            self.last_error = Some(DebugError::InvalidState);
            return Err(DebugError::InvalidState);
        }
        let addrs = self.breakpoint_addresses(bias);
        if words.len() != addrs.len() {
            self.last_error = Some(DebugError::InvalidState);
            return Err(DebugError::InvalidState);
        }
        let mut i: usize = 0;
        while i < words.len()
            invariant
                i <= words@.len(),
                words@.len() == addrs@.len(),
                self.exec_path == old(self).exec_path,
                self.debug_info == old(self).debug_info,
                self.breakpoints == old(self).breakpoints,
                self.active_run == old(self).active_run,
                self.wf(),
                self.active_run is None,
                addrs@ == armed_addrs(self.breakpoints@, bias, self.breakpoints@.len() as int),
                forall|k: int| 0 <= k < i ==> (#[trigger] words@[k]).addr == addrs@[k],
            decreases words@.len() - i,
        {
            if words[i].addr != addrs[i] {
                self.last_error = Some(DebugError::InvalidState);
                return Err(DebugError::InvalidState);
            }
            i = i + 1;
        }
        let mut run = Run::loaded_at(pid, bias);
        run.poll_debugee_state(first);
        match run.state {
            RunState::InitialStop => {},
            _ => {
                self.last_error = Some(DebugError::ChildFailed);
                return Err(DebugError::ChildFailed);
            },
        }
        let ops = match run.debugee_patcher.inject_breakpoints(words) {
            Ok(ops) => ops,
            Err(error) => {
                self.last_error = Some(error);
                return Err(error);
            },
        };
        let mut actions = as_actions(&ops);
        let mut resumed = run.resume();
        let ghost injected = actions@;
        let ghost woken = resumed@;
        actions.append(&mut resumed);
        assert(actions@ =~= injected + woken);
        assert(run.debugee_patcher.patches@ =~= patches_over(words@));
        self.active_run = Some(run);
        self.last_error = None;
        Ok(actions)
    }

    /// Ends the run, if there is one: the pump is asked to end and woken,
    /// and the session has no run.
    pub fn stop_run(&mut self) -> (actions: Vec<RunAction>)
        requires
            old(self).wf(),
        ensures
            final(self).wf(),
            final(self).exec_path == old(self).exec_path,
            final(self).last_error == old(self).last_error,
            final(self).debug_info == old(self).debug_info,
            final(self).breakpoints == old(self).breakpoints,
            final(self).active_run is None,
            actions@ == (if old(self).active_run is Some {
                seq![RunAction::EndPump]
            } else {
                Seq::<RunAction>::empty()
            }),
    {
        let actions = match self.active_run.take() {
            Some(mut run) => run.kill(),
            None => Vec::new(),
        };
        actions
    }

    /// Takes in what the controller found when it looked for an event of the
    /// run's pump. Where the run is over afterwards, it is ended, the session
    /// has no run and takes note that the debuggee is gone. The answer says
    /// what is to be done for the run.
    pub fn poll_run(&mut self, message: PollMessage) -> (actions: Vec<RunAction>)
        requires
            old(self).wf(),
        ensures
            final(self).wf(),
            final(self).exec_path == old(self).exec_path,
            final(self).debug_info == old(self).debug_info,
            final(self).breakpoints == old(self).breakpoints,
            match old(self).active_run {
                None => final(self).active_run is None && actions@.len() == 0 && final(self).last_error == old(self).last_error,
                Some(run) => if is_over(state_after_poll(run.state, message)) {
                    final(self).active_run is None && actions@ == seq![RunAction::EndPump]
                        && final(self).last_error == Some(DebugError::TraceeDead)
                } else {
                    &&& actions@.len() == 0
                    &&& final(self).last_error == old(self).last_error
                    &&& final(self).active_run is Some
                    &&& final(self).active_run->0.state == state_after_poll(run.state, message)
                    &&& final(self).active_run->0.debugee_patcher == run.debugee_patcher
                    &&& final(self).active_run->0.debugee_pid == run.debugee_pid
                    &&& final(self).active_run->0.bias == run.bias
                    &&& message is Empty ==> final(self).active_run->0 == run
                    &&& message matches PollMessage::Event { event, regs } ==> {
                        &&& final(self).active_run->0.debugee_event == Some(
                            Ok::<WaitEvent, i32>(event),
                        )
                        &&& final(self).active_run->0.run_thread_parked == parks(event)
                        &&& if event is Stopped && regs is Some {
                            &&& final(self).active_run->0.debugee_state is Some
                            &&& final(self).active_run->0.debugee_state->0.regs == regs->0
                            &&& final(self).active_run->0.debugee_state->0.addr == regs->0.rip
                        } else {
                            final(self).active_run->0.debugee_state is None
                        }
                    }
                },
            },
    {
        match self.active_run.take() {
            None => Vec::new(),
            Some(mut run) => {
                run.poll_debugee_state(message);
                let over = match run.state {
                    RunState::Exited => true,
                    RunState::Killed => true,
                    _ => false,
                };
                if over {
                    self.last_error = Some(DebugError::TraceeDead);
                    run.kill()
                } else {
                    self.active_run = Some(run);
                    Vec::new()
                }
            },
        }
    }

    /// Lets the stopped debuggee, whose instruction pointer is `rip`, run
    /// on, as `Run::cont` does it with the breakpoints of the session.
    /// Fails, and leaves the run as it is, where there is no run or its pump
    /// is not parked. The session takes note of a failure, and forgets the
    /// last one where there is none.
    pub fn continue_run(&mut self, rip: u64) -> (result: Result<Vec<RunAction>, DebugError>)
        requires
            old(self).wf(),
        ensures
            final(self).wf(),
            final(self).exec_path == old(self).exec_path,
            final(self).debug_info == old(self).debug_info,
            final(self).breakpoints == old(self).breakpoints,
            final(self).last_error == failure_of(result),
            match old(self).active_run {
                None => result == Err::<Vec<RunAction>, DebugError>(DebugError::InvalidState)
                    && final(self).active_run is None,
                Some(run) => if !run.run_thread_parked {
                    result == Err::<Vec<RunAction>, DebugError>(DebugError::InvalidState)
                        && final(self).active_run == Some(run)
                } else {
                    &&& result is Ok
                    &&& final(self).active_run is Some
                    &&& continued(run, old(self).breakpoints@, rip, final(self).active_run->0)
                    &&& result->Ok_0@ == continue_actions(
                        run.debugee_patcher.patches@,
                        old(self).breakpoints@,
                        run.bias,
                        rip,
                    )
                },
            },
    {
        let mut run = match self.active_run.take() {
            Some(run) => run,
            None => {
                self.last_error = Some(DebugError::InvalidState);
                return Err(DebugError::InvalidState);
            },
        };
        if !run.run_thread_parked {
            self.active_run = Some(run);
            self.last_error = Some(DebugError::InvalidState);
            return Err(DebugError::InvalidState);
        }
        let actions = run.cont(&self.breakpoints, rip);
        self.active_run = Some(run);
        self.last_error = None;
        Ok(actions)
    }

    /// Takes note that the debuggee could not be forked or started: there is
    /// no run to speak of, and the session is otherwise as it was.
    pub fn spawn_failed(&mut self)
        ensures
            final(self).last_error == Some(DebugError::ChildFailed),
            final(self).exec_path == old(self).exec_path,
            final(self).saved_on_disk == old(self).saved_on_disk,
            final(self).saved_path == old(self).saved_path,
            final(self).auto_load_src_root == old(self).auto_load_src_root,
            final(self).debug_info == old(self).debug_info,
            final(self).breakpoints == old(self).breakpoints,
            final(self).active_run == old(self).active_run,
    {
        self.last_error = Some(DebugError::ChildFailed);
    }

    /// Takes note that the kernel refused an operation on the debuggee. Where
    /// the run cannot go on without the operation, it is ended and the
    /// session has no run.
    pub fn op_failed(&mut self, essential: bool) -> (actions: Vec<RunAction>)
        requires
            old(self).wf(),
        ensures
            final(self).wf(),
            final(self).exec_path == old(self).exec_path,
            final(self).debug_info == old(self).debug_info,
            final(self).breakpoints == old(self).breakpoints,
            final(self).last_error == Some(DebugError::PtraceFailed),
            if essential {
                final(self).active_run is None && actions@ == (if old(self).active_run is Some {
                    seq![RunAction::EndPump]
                } else {
                    Seq::<RunAction>::empty()
                })
            } else {
                final(self).active_run == old(self).active_run && actions@.len() == 0
            },
    {
        self.last_error = Some(DebugError::PtraceFailed);
        if essential {
            self.stop_run()
        } else {
            Vec::new()
        }
    }
}

/// The failure that a result tells of, if it tells of one.
pub open spec fn failure_of(result: Result<Vec<RunAction>, DebugError>) -> Option<DebugError> {
    match result {
        Ok(_) => None,
        Err(error) => Some(error),
    }
}

/// The operations on the debuggee with which a stopped run goes on, `rip`
/// being the debuggee's instruction pointer.
pub open spec fn continue_ops(patches: Seq<Patch>, bps: Seq<BreakPoint>, bias: u64, rip: u64) -> Seq<
    TraceeOp,
> {
    let trap = before(rip);
    let brought = sync_ops(patches, bps, bias, bps.len() as int);
    let after = synced(patches, bps, bias, bps.len() as int);
    if armed(patches, trap) && armed(after, trap) {
        brought + step_over_ops(after, trap)
    } else if armed(patches, trap) {
        brought + seq![TraceeOp::SetRip(trap), TraceeOp::Cont]
    } else {
        brought
    }
}

/// What is to be done for a stopped run so that it goes on: the operations
/// on the debuggee, and the waking of the pump. A debuggee that was not put
/// back onto a patched instruction is continued after the pump was woken.
pub open spec fn continue_actions(patches: Seq<Patch>, bps: Seq<BreakPoint>, bias: u64, rip: u64) -> Seq<
    RunAction,
> {
    let ops = tracee_actions(continue_ops(patches, bps, bias, rip));
    if armed(patches, before(rip)) {
        ops + seq![RunAction::Unpark]
    } else {
        ops + seq![RunAction::Unpark, RunAction::Tracee(TraceeOp::Cont)]
    }
}

/// What a run that went on from a stop is like: its breakpoints are in line
/// with the session's, its pump is not parked, and it is under way unless it
/// was over.
pub open spec fn continued(before_run: Run, bps: Seq<BreakPoint>, rip: u64, after: Run) -> bool {
    &&& after.debugee_pid == before_run.debugee_pid
    &&& after.bias == before_run.bias
    &&& after.debugee_event == before_run.debugee_event
    &&& after.debugee_state == before_run.debugee_state
    &&& after.run_thread_should_die == before_run.run_thread_should_die
    &&& after.run_thread_finished == before_run.run_thread_finished
    &&& !after.run_thread_parked
    &&& after.state == state_after_cont(before_run.state)
    &&& after.debugee_patcher.pid == before_run.debugee_patcher.pid
    &&& after.debugee_patcher.patches@ == synced(
        before_run.debugee_patcher.patches@,
        bps,
        before_run.bias,
        bps.len() as int,
    )
}

/// How a stopped run goes on. Where the debuggee stands just behind the
/// trap of a breakpoint that is armed, and is armed still once the
/// breakpoints are in line with the session's, the breakpoint is stepped
/// over before the pump is woken; the step-over ends with the one continue
/// of the debuggee. Where the debuggee stands behind no armed breakpoint,
/// the pump is woken and the debuggee is continued directly.
pub proof fn law_cont_steps_over(patches: Seq<Patch>, bps: Seq<BreakPoint>, bias: u64, rip: u64)
    ensures
        armed(patches, before(rip)) && armed(
            synced(patches, bps, bias, bps.len() as int),
            before(rip),
        ) ==> continue_actions(patches, bps, bias, rip) == tracee_actions(
            sync_ops(patches, bps, bias, bps.len() as int),
        ) + tracee_actions(
            step_over_ops(synced(patches, bps, bias, bps.len() as int), before(rip)),
        ) + seq![RunAction::Unpark],
        !armed(patches, before(rip)) ==> continue_actions(patches, bps, bias, rip)
            == tracee_actions(sync_ops(patches, bps, bias, bps.len() as int)) + seq![
            RunAction::Unpark,
            RunAction::Tracee(TraceeOp::Cont),
        ],
{
    let brought = sync_ops(patches, bps, bias, bps.len() as int);
    let step = step_over_ops(synced(patches, bps, bias, bps.len() as int), before(rip));
    assert(tracee_actions(brought + step) =~= tracee_actions(brought) + tracee_actions(step));
}

/// Once the breakpoints of a run were brought in line with the first `n`
/// breakpoints of the session, a breakpoint of the session that the run has
/// installed is armed in the run as the session has it if it is among those
/// `n`, and as it was if it is not.
pub proof fn lemma_synced_in_line(
    patches: Seq<Patch>,
    bps: Seq<BreakPoint>,
    bias: u64,
    n: int,
    i: int,
)
    requires
        distinct_breakpoints(bps),
        0 <= n <= bps.len(),
        0 <= i < bps.len(),
    ensures
        synced(patches, bps, bias, n).len() == patches.len(),
        first_patch(
            synced(patches, bps, bias, n),
            runtime_of(bps[i].point.addr, bias),
            patches.len() as int,
        ) == first_patch(patches, runtime_of(bps[i].point.addr, bias), patches.len() as int),
        armed(synced(patches, bps, bias, n), runtime_of(bps[i].point.addr, bias)) == (if i < n
            && first_patch(patches, runtime_of(bps[i].point.addr, bias), patches.len() as int)
            >= 0 {
            bps[i].point.enabled
        } else {
            armed(patches, runtime_of(bps[i].point.addr, bias))
        }),
    decreases n,
{
    if n > 0 {
        lemma_synced_in_line(patches, bps, bias, n - 1, i);
        let earlier = synced(patches, bps, bias, n - 1);
        let last = runtime_of(bps[n - 1].point.addr, bias);
        lemma_switched_keeps(earlier, last, bps[n - 1].point.enabled);
        lemma_switched_armed(
            earlier,
            last,
            bps[n - 1].point.enabled,
            runtime_of(bps[i].point.addr, bias),
        );
        law_addresses_round_trip(bps[i].point.addr, bias);
        law_addresses_round_trip(bps[n - 1].point.addr, bias);
    }
}

/// A run that went on from a stop has its breakpoints as the session has
/// them: each breakpoint of the session that the run had installed is armed
/// in the run exactly if it is armed in the session, whether or not the
/// debuggee stood at its trap and was stepped over it. A breakpoint that the
/// run had not installed is not armed in it.
pub proof fn law_cont_rearms(before_run: Run, bps: Seq<BreakPoint>, rip: u64, after: Run, i: int)
    requires
        continued(before_run, bps, rip, after),
        distinct_breakpoints(bps),
        0 <= i < bps.len(),
    ensures
        armed(after.debugee_patcher.patches@, runtime_of(bps[i].point.addr, before_run.bias))
            == (bps[i].point.enabled && first_patch(
            before_run.debugee_patcher.patches@,
            runtime_of(bps[i].point.addr, before_run.bias),
            before_run.debugee_patcher.patches@.len() as int,
        ) >= 0),
{
    lemma_synced_in_line(
        before_run.debugee_patcher.patches@,
        bps,
        before_run.bias,
        bps.len() as int,
        i,
    );
}

} // verus!
