//! The process controller's decisions: the lifecycle of the traced process,
//! what a report of the kernel means, and which requests a state admits. The
//! caller makes the system calls and hands their outcome in.

use crate::breakpoint::{installed_at, BreakpointManager, TRAP_LENGTH};
use crate::registers::RegisterSet;
use crate::signal::{signal_from_num, signal_of_number, Signal, SIGTRAP_NUMBER};
use vstd::prelude::*;

verus! {

/// What waiting for the traced process returned, as plain values.
#[derive(Clone, Copy, Debug, PartialEq, Eq)]
pub enum WaitOutcome {
    /// The process was stopped by the delivery of the signal with this number.
    Stopped(i32),
    /// The process exited with this code.
    Exited(i32),
    /// The process was killed by the signal with this number.
    Killed(i32),
    /// Any other report.
    Other,
    /// Waiting failed.
    Failed,
}

/// What a stop of the traced process means to the debugger.
#[derive(Clone, Copy, Debug, PartialEq, Eq)]
pub enum StopEvent {
    /// The process ran into the breakpoint at this address.
    Breakpoint(u64),
    /// The process received this signal.
    Signaled(Signal),
    /// The process exited with this code.
    Exited(i32),
    /// The report fits none of these.
    Unknown,
}

/// Where the traced process is in its life.
#[derive(Clone, Copy, Debug, PartialEq, Eq)]
pub enum ProcessState {
    NotStarted,
    Running,
    Stopped { reason: StopEvent },
    Exited { code: i32 },
    Signaled { signal: Signal },
}

/// Why a request to the controller failed.
#[derive(Clone, Copy, Debug, PartialEq, Eq)]
pub enum ControlError {
    /// The program could not be started under trace.
    SpawnFailure,
    /// The address could not be read or written.
    MemoryAccessError,
    /// No process is live.
    NoActiveProcess,
}

/// What the caller has to ask of the kernel.
#[derive(Clone, Copy, Debug, PartialEq, Eq)]
pub enum ControlAction {
    /// Let the process with this id run on.
    Continue(i32),
    /// Let the process with this id execute one instruction.
    Step(i32),
    /// Kill the process with this id and reap it.
    Kill(i32),
}

/// The signal number of a stop: `None` for every report but a stop.
pub open spec fn stop_signal(outcome: WaitOutcome) -> Option<i32> {
    match outcome {
        WaitOutcome::Stopped(number) => Some(number),
        _ => None,
    }
}

/// The number of the signal that stopped the process, where `outcome`
/// reports a stop; `None` where the process is gone or the wait failed.
pub fn wait_for_signal(outcome: WaitOutcome) -> (number: Option<i32>)
    ensures
        number == stop_signal(outcome),
{
    match outcome {
        WaitOutcome::Stopped(number) => Some(number),
        _ => None,
    }
}

/// Whether a trap reported with the instruction pointer at `ip` comes from a
/// breakpoint: the trap instruction of an installed breakpoint ends at `ip`.
pub open spec fn at_breakpoint(
    breakpoints: &BreakpointManager,
    ip: Option<u64>,
) -> bool {
    match ip {
        Some(ip) => ip >= TRAP_LENGTH && installed_at(
            breakpoints.records(),
            (ip - TRAP_LENGTH) as u64,
        ),
        None => false,
    }
}

/// What a report means. A trap with the instruction pointer just behind an
/// installed breakpoint is a hit of that breakpoint; every other stop is the
/// signal that caused it, and so is a kill.
pub open spec fn event_of(
    outcome: WaitOutcome,
    ip: Option<u64>,
    breakpoints: &BreakpointManager,
) -> StopEvent {
    match outcome {
        WaitOutcome::Stopped(number) => {
            if number == SIGTRAP_NUMBER && at_breakpoint(breakpoints, ip) {
                StopEvent::Breakpoint((ip.unwrap() - TRAP_LENGTH) as u64)
            } else {
                StopEvent::Signaled(signal_of_number(number as int))
            }
        },
        WaitOutcome::Exited(code) => StopEvent::Exited(code),
        WaitOutcome::Killed(number) => StopEvent::Signaled(signal_of_number(number as int)),
        WaitOutcome::Other => StopEvent::Unknown,
        WaitOutcome::Failed => StopEvent::Unknown,
    }
}

/// The state that a report leaves the process in.
pub open spec fn state_after(
    outcome: WaitOutcome,
    ip: Option<u64>,
    breakpoints: &BreakpointManager,
) -> ProcessState {
    match outcome {
        WaitOutcome::Stopped(_) => ProcessState::Stopped {
            reason: event_of(outcome, ip, breakpoints),
        },
        WaitOutcome::Exited(code) => ProcessState::Exited { code },
        WaitOutcome::Killed(number) => ProcessState::Signaled {
            signal: signal_of_number(number as int),
        },
        WaitOutcome::Other => ProcessState::Running,
        WaitOutcome::Failed => ProcessState::NotStarted,
    }
}

/// Classifies a report of the kernel. `ip` is the instruction pointer that
/// the process reports, where it could be read.
pub fn classify(outcome: WaitOutcome, ip: Option<u64>, breakpoints: &BreakpointManager) -> (event:
    StopEvent)
    ensures
        event == event_of(outcome, ip, breakpoints),
{
    match outcome {
        WaitOutcome::Stopped(number) => {
            if number == SIGTRAP_NUMBER {
                match ip {
                    Some(ip) => {
                        if ip >= TRAP_LENGTH && breakpoints.is_installed(ip - TRAP_LENGTH) {
                            return StopEvent::Breakpoint(ip - TRAP_LENGTH);
                        }
                    },
                    None => {},
                }
            }
            StopEvent::Signaled(signal_from_num(number))
        },
        WaitOutcome::Exited(code) => StopEvent::Exited(code),
        WaitOutcome::Killed(number) => StopEvent::Signaled(signal_from_num(number)),
        WaitOutcome::Other => StopEvent::Unknown,
        WaitOutcome::Failed => StopEvent::Unknown,
    }
}

/// Whether a process in this state exists and can be asked to run.
pub open spec fn is_stopped(state: ProcessState) -> bool {
    state is Stopped
}

/// Whether a process in this state exists.
pub open spec fn is_live(state: ProcessState) -> bool {
    state is Stopped || state is Running
}

/// The traced process as the debugger knows it.
#[derive(Clone, Copy, Debug, PartialEq, Eq)]
pub struct TargetProcess {
    pub pid: i32,
    pub state: ProcessState,
    pub registers: Option<RegisterSet>,
}

impl TargetProcess {
    /// No process yet.
    pub fn new() -> (process: TargetProcess)
        ensures
            process == (TargetProcess {
                pid: 0,
                state: ProcessState::NotStarted,
                registers: None,
            }),
    {
        TargetProcess { pid: 0, state: ProcessState::NotStarted, registers: None }
    }

    /// The process with id `pid`, just started under trace: it is stopped
    /// before its first instruction, by the trap that the start raises.
    pub fn spawned(pid: i32) -> (process: TargetProcess)
        ensures
            process == (TargetProcess {
                pid,
                state: ProcessState::Stopped { reason: StopEvent::Signaled(Signal::SIGTRAP) },
                registers: None,
            }),
    {
        TargetProcess {
            pid,
            state: ProcessState::Stopped { reason: StopEvent::Signaled(Signal::SIGTRAP) },
            registers: None,
        }
    }

    /// What an attempt to start the program under trace came to. `launched`
    /// is the id of the new process, or `None` where the program could not be
    /// started: that gives `SpawnFailure`.
    pub fn spawn(launched: Option<i32>) -> (process: Result<TargetProcess, ControlError>)
        ensures
            process == (match launched {
                Some(pid) => Ok::<TargetProcess, ControlError>(
                    TargetProcess {
                        pid,
                        state: ProcessState::Stopped {
                            reason: StopEvent::Signaled(Signal::SIGTRAP),
                        },
                        registers: None,
                    },
                ),
                None => Err::<TargetProcess, ControlError>(ControlError::SpawnFailure),
            }),
    {
        match launched {
            Some(pid) => Ok(TargetProcess::spawned(pid)),
            None => Err(ControlError::SpawnFailure),
        }
    }

    /// Whether the process exists.
    pub fn is_live(&self) -> (live: bool)
        ensures
            live == is_live(self.state),
    {
        match self.state {
            ProcessState::Stopped { .. } => true,
            ProcessState::Running => true,
            _ => false,
        }
    }

    /// Asks to let the process run on. A stopped process is marked as running
    /// and the action names it; in every other state nothing changes and the
    /// request fails with `NoActiveProcess`.
    pub fn resume(&mut self) -> (action: Result<ControlAction, ControlError>)
        ensures
            is_stopped(old(self).state) ==> action == Ok::<ControlAction, ControlError>(
                ControlAction::Continue(old(self).pid),
            ) && *final(self) == (TargetProcess {
                state: ProcessState::Running,
                registers: None,
                ..*old(self)
            }),
            !is_stopped(old(self).state) ==> action == Err::<ControlAction, ControlError>(
                ControlError::NoActiveProcess,
            ) && *final(self) == *old(self),
    {
        match self.state {
            ProcessState::Stopped { .. } => {
                self.state = ProcessState::Running;
                self.registers = None;
                Ok(ControlAction::Continue(self.pid))
            },
            _ => Err(ControlError::NoActiveProcess),
        }
    }

    /// Asks to let the process execute one instruction. A stopped process is
    /// marked as running and the action names it; in every other state
    /// nothing changes and the request fails with `NoActiveProcess`.
    pub fn single_step(&mut self) -> (action: Result<ControlAction, ControlError>)
        ensures
            is_stopped(old(self).state) ==> action == Ok::<ControlAction, ControlError>(
                ControlAction::Step(old(self).pid),
            ) && *final(self) == (TargetProcess {
                state: ProcessState::Running,
                registers: None,
                ..*old(self)
            }),
            !is_stopped(old(self).state) ==> action == Err::<ControlAction, ControlError>(
                ControlError::NoActiveProcess,
            ) && *final(self) == *old(self),
    {
        match self.state {
            ProcessState::Stopped { .. } => {
                self.state = ProcessState::Running;
                self.registers = None;
                Ok(ControlAction::Step(self.pid))
            },
            _ => Err(ControlError::NoActiveProcess),
        }
    }

    /// Takes in that the kernel refused the request that was just made of
    /// the running process, to run on or to execute one instruction: the
    /// process cannot be driven any more. It is marked as not started, and the
    /// error to hand to the caller is `NoActiveProcess`. On a process that is
    /// not running, of which no request is under way, nothing changes.
    pub fn refused(&mut self) -> (error: ControlError)
        ensures
            error == ControlError::NoActiveProcess,
            old(self).state is Running ==> *final(self) == (TargetProcess {
                state: ProcessState::NotStarted,
                registers: None,
                ..*old(self)
            }),
            !(old(self).state is Running) ==> *final(self) == *old(self),
    {
        match self.state {
            ProcessState::Running => {
                self.state = ProcessState::NotStarted;
                self.registers = None;
            },
            _ => {},
        }
        ControlError::NoActiveProcess
    }

    /// Takes in what waiting for the running process returned, with the
    /// registers that were read at the stop, if any. The state becomes the one
    /// that the report leaves the process in, the registers become the
    /// snapshot, and the result says what the stop means. Where waiting
    /// failed, the process is marked as not started and the request fails
    /// with `NoActiveProcess`. On a process that is not running nothing
    /// changes and the request fails with `NoActiveProcess`.
    pub fn stopped(
        &mut self,
        outcome: WaitOutcome,
        registers: Option<RegisterSet>,
        breakpoints: &BreakpointManager,
    ) -> (event: Result<StopEvent, ControlError>)
        ensures
            old(self).state is Running && outcome is Failed ==> event == Err::<
                StopEvent,
                ControlError,
            >(ControlError::NoActiveProcess) && *final(self) == (TargetProcess {
                state: ProcessState::NotStarted,
                registers: None,
                ..*old(self)
            }),
            old(self).state is Running && !(outcome is Failed) ==> event == Ok::<
                StopEvent,
                ControlError,
            >(event_of(outcome, instruction_pointer(registers), breakpoints)) && *final(self) == (
            TargetProcess {
                state: state_after(outcome, instruction_pointer(registers), breakpoints),
                registers: (if outcome is Stopped {
                    registers
                } else {
                    None
                }),
                ..*old(self)
            }),
            !(old(self).state is Running) ==> event == Err::<StopEvent, ControlError>(
                ControlError::NoActiveProcess,
            ) && *final(self) == *old(self),
    {
        match self.state {
            ProcessState::Running => {},
            _ => {
                return Err(ControlError::NoActiveProcess);
            },
        }
        let ip = match registers {
            Some(r) => Some(r.rip),
            None => None,
        };
        let event = classify(outcome, ip, breakpoints);
        match outcome {
            WaitOutcome::Stopped(_) => {
                self.state = ProcessState::Stopped { reason: event };
                self.registers = registers;
            },
            WaitOutcome::Exited(code) => {
                self.state = ProcessState::Exited { code };
                self.registers = None;
            },
            WaitOutcome::Killed(number) => {
                self.state = ProcessState::Signaled { signal: signal_from_num(number) };
                self.registers = None;
            },
            WaitOutcome::Other => {
                self.registers = None;
            },
            WaitOutcome::Failed => {
                self.state = ProcessState::NotStarted;
                self.registers = None;
                return Err(ControlError::NoActiveProcess);
            },
        }
        Ok(event)
    }

    /// Asks to end the process. A live process is marked as not started and
    /// the action names it, to be killed and reaped; a process that is gone
    /// needs nothing, and nothing changes.
    pub fn terminate(&mut self) -> (action: Option<ControlAction>)
        ensures
            is_live(old(self).state) ==> action == Some(ControlAction::Kill(old(self).pid))
                && *final(self) == (TargetProcess {
                state: ProcessState::NotStarted,
                registers: None,
                ..*old(self)
            }),
            !is_live(old(self).state) ==> action.is_none() && *final(self) == *old(self),
    {
        if self.is_live() {
            self.state = ProcessState::NotStarted;
            self.registers = None;
            Some(ControlAction::Kill(self.pid))
        } else {
            None
        }
    }

    /// The id of the process, for a request that needs a stopped process:
    /// reading or writing its memory or its registers.
    pub fn stopped_pid(&self) -> (pid: Result<i32, ControlError>)
        ensures
            pid == (if is_stopped(self.state) {
                Ok::<i32, ControlError>(self.pid)
            } else {
                Err::<i32, ControlError>(ControlError::NoActiveProcess)
            }),
    {
        match self.state {
            ProcessState::Stopped { .. } => Ok(self.pid),
            _ => Err(ControlError::NoActiveProcess),
        }
    }
}

/// The instruction pointer of a register snapshot, where there is one.
pub open spec fn instruction_pointer(registers: Option<RegisterSet>) -> Option<u64> {
    match registers {
        Some(r) => Some(r.rip),
        None => None,
    }
}

} // verus!
